//! The three filters and the interfaces through which they are driven.
//!
//! A filter is built once from its coefficients and then fed one block after
//! another. Its dimensions are type parameters, so two filters of different
//! shape are different types; the constructors check what the type parameters
//! cannot express.
use vstd::prelude::*;
use crate::config::{
    check_decimate_config, check_fir_config, check_interpolate_config, decimate_config_error,
    delay_line_len, fir_config_error, interpolate_config_error, ConfigError,
};
use crate::instance::{FirDecimateInstance, FirInstance, FirInterpolateInstance};
use crate::kernel::FirKernel;
use crate::sample::is_default;
use crate::stream::{
    advance, fir_decimate_response, fir_interpolate_response, fir_response, history,
};
use crate::CMSISType;

verus! {

/// A filter that maps a block of `BLOCK_SIZE` samples to a block of the same
/// size.
pub trait BlockFilter<T, const BLOCK_SIZE: u32> {
    /// Whether the filter is in a state in which it can take a block.
    spec fn ready(&self) -> bool;

    /// Filters `source` into `destination`, which is overwritten as a whole.
    fn filter(&mut self, source: &[T], destination: &mut [T])
        requires
            old(self).ready(),
            source@.len() == BLOCK_SIZE,
            old(destination)@.len() == BLOCK_SIZE,
        ensures
            final(self).ready(),
            final(destination)@.len() == BLOCK_SIZE,
    ;
}

/// A filter that maps a block of `BLOCK_SIZE` samples to a block of
/// `BLOCK_SIZE / M` samples.
pub trait BlockDecimateFilter<T, const M: u8, const BLOCK_SIZE: u32> {
    /// Whether the filter is in a state in which it can take a block.
    spec fn ready(&self) -> bool;

    /// Filters `source` into `destination`, which is overwritten as a whole.
    fn filter(&mut self, source: &[T], destination: &mut [T])
        requires
            old(self).ready(),
            M > 0,
            source@.len() == BLOCK_SIZE,
            old(destination)@.len() == BLOCK_SIZE as int / M as int,
        ensures
            final(self).ready(),
            final(destination)@.len() == BLOCK_SIZE as int / M as int,
    ;
}

/// A filter that maps a block of `BLOCK_SIZE` samples to a block of
/// `BLOCK_SIZE * L` samples.
pub trait BlockInterpolateFilter<T, const L: u8, const BLOCK_SIZE: u32> {
    /// Whether the filter is in a state in which it can take a block.
    spec fn ready(&self) -> bool;

    /// Filters `source` into `destination`, which is overwritten as a whole.
    fn filter(&mut self, source: &[T], destination: &mut [T])
        requires
            old(self).ready(),
            source@.len() == BLOCK_SIZE,
            old(destination)@.len() == BLOCK_SIZE * L,
        ensures
            final(self).ready(),
            final(destination)@.len() == BLOCK_SIZE * L,
    ;
}

/// What a filter holds, as plain sequences.
pub struct FilterView<T> {
    /// The coefficients, in the order in which they were supplied.
    pub coefficients: Seq<T>,
    /// The delay line, oldest sample first.
    pub delay_line: Seq<T>,
}

/// Whether `line` is a fresh delay line of `len` samples: every sample is the
/// default value of its type, which is zero for the numeric types.
pub open spec fn fresh<T: Default>(line: Seq<T>, len: int) -> bool {
    &&& line.len() == len
    &&& forall|i: int| 0 <= i < line.len() ==> is_default(#[trigger] line[i])
}

/// A fresh delay line of `len` samples.
fn zeroed<T: Default>(len: usize) -> (line: Vec<T>)
    ensures
        fresh(line@, len as int),
{
    let mut line: Vec<T> = Vec::new();
    while line.len() < len
        invariant
            line@.len() <= len,
            forall|i: int| 0 <= i < line@.len() ==> is_default(#[trigger] line@[i]),
        decreases len - line@.len(),
    {
        line.push(T::default());
    }
    line
}

/// A FIR filter with `TAPS` coefficients that works on blocks of `BLOCK_SIZE`
/// samples.
pub struct FirFilter<T, const TAPS: u16, const BLOCK_SIZE: u32> {
    state: Vec<T>,
    coefficients: Vec<T>,
}

impl<T, const TAPS: u16, const BLOCK_SIZE: u32> View for FirFilter<T, TAPS, BLOCK_SIZE> {
    type V = FilterView<T>;

    closed spec fn view(&self) -> FilterView<T> {
        FilterView { coefficients: self.coefficients@, delay_line: self.state@ }
    }
}

impl<T, const TAPS: u16, const BLOCK_SIZE: u32> FirFilter<T, TAPS, BLOCK_SIZE> {
    /// The filter's dimensions are valid and its buffers have the lengths that
    /// follow from them.
    pub open spec fn wf(&self) -> bool {
        &&& fir_config_error(TAPS, BLOCK_SIZE, self@.coefficients.len()) is None
        &&& self@.delay_line.len() == delay_line_len(TAPS as int, BLOCK_SIZE as int)
    }

    /// The samples that the next call will see before its own block.
    pub open spec fn history(&self) -> Seq<T> {
        history(self@.delay_line, TAPS as int)
    }

    /// The coefficients that the filter was built with.
    pub fn coefficients(&self) -> (c: &[T])
        ensures
            c@ == self@.coefficients,
    {
        self.coefficients.as_slice()
    }

    /// The delay line as it stands.
    pub fn delay_line(&self) -> (d: &[T])
        ensures
            d@ == self@.delay_line,
    {
        self.state.as_slice()
    }
}

impl<T: Default + Copy, const TAPS: u16, const BLOCK_SIZE: u32> FirFilter<T, TAPS, BLOCK_SIZE> {
    /// Builds a filter with a delay line of zeros.
    pub fn new(coefficients: Vec<T>) -> (r: Result<Self, ConfigError>)
        ensures
            match fir_config_error(TAPS, BLOCK_SIZE, coefficients@.len()) {
                Some(e) => r == Err::<Self, ConfigError>(e),
                None => {
                    &&& r matches Ok(f)
                    &&& f.wf()
                    &&& f@.coefficients == coefficients@
                    &&& fresh(f@.delay_line, delay_line_len(TAPS as int, BLOCK_SIZE as int))
                },
            },
    {
        match check_fir_config(TAPS, BLOCK_SIZE, coefficients.len()) {
            Err(e) => Err(e),
            Ok(len) => Ok(FirFilter { state: zeroed(len), coefficients }),
        }
    }
}

impl<T, const TAPS: u16, const BLOCK_SIZE: u32> CMSISType<FirInstance> for FirFilter<
    T,
    TAPS,
    BLOCK_SIZE,
> {
    open spec fn convertible(&self) -> bool {
        true
    }

    fn as_cmsis_type(&mut self) -> (inst: FirInstance)
        ensures
            inst.num_taps == TAPS,
            *final(self) == *old(self),
    {
        FirInstance { num_taps: TAPS }
    }
}

impl<T: FirKernel, const TAPS: u16, const BLOCK_SIZE: u32> BlockFilter<T, BLOCK_SIZE> for FirFilter<
    T,
    TAPS,
    BLOCK_SIZE,
> {
    open spec fn ready(&self) -> bool {
        self.wf()
    }

    fn filter(&mut self, source: &[T], destination: &mut [T])
        ensures
            final(self)@.coefficients == old(self)@.coefficients,
            T::specified() ==> final(self).history() == advance(old(self).history(), source@),
            T::specified() ==> final(destination)@ == fir_response::<T>(
                old(self)@.coefficients,
                old(self).history(),
                source@,
            ),
    {
        let inst = self.as_cmsis_type();
        T::fir(
            &inst,
            self.state.as_mut_slice(),
            self.coefficients.as_slice(),
            source,
            destination,
            BLOCK_SIZE,
        );
    }
}

/// A FIR filter with `TAPS` coefficients that takes blocks of `BLOCK_SIZE`
/// samples and keeps every `M`-th output sample.
pub struct FirDecimateFilter<T, const M: u8, const TAPS: u16, const BLOCK_SIZE: u32> {
    state: Vec<T>,
    coefficients: Vec<T>,
}

impl<T, const M: u8, const TAPS: u16, const BLOCK_SIZE: u32> View for FirDecimateFilter<
    T,
    M,
    TAPS,
    BLOCK_SIZE,
> {
    type V = FilterView<T>;

    closed spec fn view(&self) -> FilterView<T> {
        FilterView { coefficients: self.coefficients@, delay_line: self.state@ }
    }
}

impl<T, const M: u8, const TAPS: u16, const BLOCK_SIZE: u32> FirDecimateFilter<
    T,
    M,
    TAPS,
    BLOCK_SIZE,
> {
    /// The filter's dimensions are valid and its buffers have the lengths that
    /// follow from them.
    pub open spec fn wf(&self) -> bool {
        &&& decimate_config_error(M, TAPS, BLOCK_SIZE, self@.coefficients.len()) is None
        &&& self@.delay_line.len() == delay_line_len(TAPS as int, BLOCK_SIZE as int)
    }

    /// The samples that the next call will see before its own block.
    pub open spec fn history(&self) -> Seq<T> {
        history(self@.delay_line, TAPS as int)
    }

    /// The coefficients that the filter was built with.
    pub fn coefficients(&self) -> (c: &[T])
        ensures
            c@ == self@.coefficients,
    {
        self.coefficients.as_slice()
    }

    /// The delay line as it stands.
    pub fn delay_line(&self) -> (d: &[T])
        ensures
            d@ == self@.delay_line,
    {
        self.state.as_slice()
    }

    /// Number of samples that one call writes.
    pub fn output_len(&self) -> (n: usize)
        requires
            self.wf(),
        ensures
            n == BLOCK_SIZE as int / M as int,
    {
        (BLOCK_SIZE / (M as u32)) as usize
    }
}

impl<T: Default + Copy, const M: u8, const TAPS: u16, const BLOCK_SIZE: u32> FirDecimateFilter<
    T,
    M,
    TAPS,
    BLOCK_SIZE,
> {
    /// Builds a filter with a delay line of zeros. A block size that is not a
    /// multiple of `M` is refused.
    pub fn new(coefficients: Vec<T>) -> (r: Result<Self, ConfigError>)
        ensures
            match decimate_config_error(M, TAPS, BLOCK_SIZE, coefficients@.len()) {
                Some(e) => r == Err::<Self, ConfigError>(e),
                None => {
                    &&& r matches Ok(f)
                    &&& f.wf()
                    &&& f@.coefficients == coefficients@
                    &&& fresh(f@.delay_line, delay_line_len(TAPS as int, BLOCK_SIZE as int))
                },
            },
    {
        match check_decimate_config(M, TAPS, BLOCK_SIZE, coefficients.len()) {
            Err(e) => Err(e),
            Ok(len) => Ok(FirDecimateFilter { state: zeroed(len), coefficients }),
        }
    }
}

impl<T, const M: u8, const TAPS: u16, const BLOCK_SIZE: u32> CMSISType<
    FirDecimateInstance,
> for FirDecimateFilter<T, M, TAPS, BLOCK_SIZE> {
    open spec fn convertible(&self) -> bool {
        true
    }

    fn as_cmsis_type(&mut self) -> (inst: FirDecimateInstance)
        ensures
            inst.m == M,
            inst.num_taps == TAPS,
            *final(self) == *old(self),
    {
        FirDecimateInstance { m: M, num_taps: TAPS }
    }
}

impl<T: FirKernel, const M: u8, const TAPS: u16, const BLOCK_SIZE: u32> BlockDecimateFilter<
    T,
    M,
    BLOCK_SIZE,
> for FirDecimateFilter<T, M, TAPS, BLOCK_SIZE> {
    open spec fn ready(&self) -> bool {
        self.wf()
    }

    fn filter(&mut self, source: &[T], destination: &mut [T])
        ensures
            final(self)@.coefficients == old(self)@.coefficients,
            T::specified() ==> final(self).history() == advance(old(self).history(), source@),
            T::specified() ==> final(destination)@ == fir_decimate_response::<T>(
                old(self)@.coefficients,
                M as int,
                old(self).history(),
                source@,
            ),
    {
        let inst = self.as_cmsis_type();
        T::fir_decimate(
            &inst,
            self.state.as_mut_slice(),
            self.coefficients.as_slice(),
            source,
            destination,
            BLOCK_SIZE,
        );
    }
}

/// With at least `l` coefficients every polyphase branch has one, and the
/// branches together use no more coefficients than there are.
proof fn lemma_phase_length_bounds(taps: int, l: int)
    requires
        1 <= l <= taps,
    ensures
        1 <= taps / l <= taps,
        (taps / l) * l <= taps,
{
    assert(1 <= taps / l <= taps && (taps / l) * l <= taps) by (nonlinear_arith)
        requires
            1 <= l <= taps,
    ;
}

/// A FIR filter with `TAPS` coefficients that takes blocks of `BLOCK_SIZE`
/// samples and produces `L` output samples for each of them.
///
/// The filter runs as `L` polyphase branches of `TAPS / L` coefficients each;
/// its history is the last `TAPS / L - 1` input samples.
pub struct FirInterpolateFilter<T, const L: u8, const TAPS: u16, const BLOCK_SIZE: u32> {
    state: Vec<T>,
    coefficients: Vec<T>,
}

impl<T, const L: u8, const TAPS: u16, const BLOCK_SIZE: u32> View for FirInterpolateFilter<
    T,
    L,
    TAPS,
    BLOCK_SIZE,
> {
    type V = FilterView<T>;

    closed spec fn view(&self) -> FilterView<T> {
        FilterView { coefficients: self.coefficients@, delay_line: self.state@ }
    }
}

impl<T, const L: u8, const TAPS: u16, const BLOCK_SIZE: u32> FirInterpolateFilter<
    T,
    L,
    TAPS,
    BLOCK_SIZE,
> {
    /// The filter's dimensions are valid and its buffers have the lengths that
    /// follow from them.
    pub open spec fn wf(&self) -> bool {
        &&& interpolate_config_error(L, TAPS, BLOCK_SIZE, self@.coefficients.len()) is None
        &&& self@.delay_line.len() == delay_line_len(TAPS as int, BLOCK_SIZE as int)
    }

    /// Number of coefficients in each polyphase branch.
    pub open spec fn phase_length() -> int {
        TAPS as int / L as int
    }

    /// The samples that the next call will see before its own block.
    pub open spec fn history(&self) -> Seq<T> {
        history(self@.delay_line, Self::phase_length())
    }

    /// The coefficients that the filter was built with.
    pub fn coefficients(&self) -> (c: &[T])
        ensures
            c@ == self@.coefficients,
    {
        self.coefficients.as_slice()
    }

    /// The delay line as it stands.
    pub fn delay_line(&self) -> (d: &[T])
        ensures
            d@ == self@.delay_line,
    {
        self.state.as_slice()
    }

    /// Number of samples that one call writes.
    pub fn output_len(&self) -> (n: usize)
        requires
            self.wf(),
        ensures
            n == BLOCK_SIZE * L,
    {
        assert(BLOCK_SIZE * L <= usize::MAX);
        BLOCK_SIZE as usize * L as usize
    }
}

impl<T: Default + Copy, const L: u8, const TAPS: u16, const BLOCK_SIZE: u32> FirInterpolateFilter<
    T,
    L,
    TAPS,
    BLOCK_SIZE,
> {
    /// Builds a filter with a delay line of zeros. `TAPS` need not be a
    /// multiple of `L`, but there must be a coefficient for every branch.
    pub fn new(coefficients: Vec<T>) -> (r: Result<Self, ConfigError>)
        ensures
            match interpolate_config_error(L, TAPS, BLOCK_SIZE, coefficients@.len()) {
                Some(e) => r == Err::<Self, ConfigError>(e),
                None => {
                    &&& r matches Ok(f)
                    &&& f.wf()
                    &&& f@.coefficients == coefficients@
                    &&& fresh(f@.delay_line, delay_line_len(TAPS as int, BLOCK_SIZE as int))
                },
            },
    {
        match check_interpolate_config(L, TAPS, BLOCK_SIZE, coefficients.len()) {
            Err(e) => Err(e),
            Ok(len) => Ok(FirInterpolateFilter { state: zeroed(len), coefficients }),
        }
    }
}

impl<T, const L: u8, const TAPS: u16, const BLOCK_SIZE: u32> CMSISType<
    FirInterpolateInstance,
> for FirInterpolateFilter<T, L, TAPS, BLOCK_SIZE> {
    open spec fn convertible(&self) -> bool {
        L > 0
    }

    fn as_cmsis_type(&mut self) -> (inst: FirInterpolateInstance)
        ensures
            inst.l == L,
            inst.phase_length == TAPS as int / L as int,
            *final(self) == *old(self),
    {
        FirInterpolateInstance { l: L, phase_length: TAPS / (L as u16) }
    }
}

impl<T: FirKernel, const L: u8, const TAPS: u16, const BLOCK_SIZE: u32> BlockInterpolateFilter<
    T,
    L,
    BLOCK_SIZE,
> for FirInterpolateFilter<T, L, TAPS, BLOCK_SIZE> {
    open spec fn ready(&self) -> bool {
        self.wf()
    }

    fn filter(&mut self, source: &[T], destination: &mut [T])
        ensures
            final(self)@.coefficients == old(self)@.coefficients,
            T::specified() ==> final(self).history() == advance(old(self).history(), source@),
            T::specified() ==> final(destination)@ == fir_interpolate_response::<T>(
                old(self)@.coefficients,
                L as int,
                Self::phase_length(),
                old(self).history(),
                source@,
            ),
    {
        let inst = self.as_cmsis_type();
        proof {
            lemma_phase_length_bounds(TAPS as int, L as int);
        }
        T::fir_interpolate(
            &inst,
            self.state.as_mut_slice(),
            self.coefficients.as_slice(),
            source,
            destination,
            BLOCK_SIZE,
        );
    }
}

} // verus!
