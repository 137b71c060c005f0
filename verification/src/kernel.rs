//! The three block kernels that a sample type supplies, and the shape of the
//! calls that reach them.
use vstd::prelude::*;
use crate::instance::{FirDecimateInstance, FirInstance, FirInterpolateInstance};
use crate::sample::Sample;
use crate::stream::{
    advance, fir_decimate_response, fir_interpolate_response, fir_response, history,
};

verus! {

/// Shape of a plain FIR kernel call: what the buffer lengths must be for the
/// parameters in `inst` and a block of `block_size` samples.
pub open spec fn fir_shape(
    inst: FirInstance,
    state_len: nat,
    coeffs_len: nat,
    source_len: nat,
    destination_len: nat,
    block_size: u32,
) -> bool {
    &&& inst.num_taps >= 1
    &&& block_size >= 1
    &&& state_len == inst.num_taps + block_size - 1
    &&& coeffs_len == inst.num_taps
    &&& source_len == block_size
    &&& destination_len == block_size
}

/// Shape of a decimating FIR kernel call.
pub open spec fn fir_decimate_shape(
    inst: FirDecimateInstance,
    state_len: nat,
    coeffs_len: nat,
    source_len: nat,
    destination_len: nat,
    block_size: u32,
) -> bool {
    &&& inst.num_taps >= 1
    &&& inst.m >= 1
    &&& block_size >= 1
    &&& block_size as int % inst.m as int == 0
    &&& state_len == inst.num_taps + block_size - 1
    &&& coeffs_len == inst.num_taps
    &&& source_len == block_size
    &&& destination_len == block_size as int / inst.m as int
}

/// Shape of an interpolating FIR kernel call. The delay line and the
/// coefficient buffer may be longer than the kernel needs.
pub open spec fn fir_interpolate_shape(
    inst: FirInterpolateInstance,
    state_len: nat,
    coeffs_len: nat,
    source_len: nat,
    destination_len: nat,
    block_size: u32,
) -> bool {
    &&& inst.l >= 1
    &&& inst.phase_length >= 1
    &&& block_size >= 1
    &&& state_len >= inst.phase_length + block_size - 1
    &&& coeffs_len >= inst.phase_length * inst.l
    &&& source_len == block_size
    &&& destination_len == block_size * inst.l
}

/// Whether buffers of the given lengths have the shape of a plain FIR kernel
/// call. A kernel that is not verified calls this before it touches a buffer.
pub fn fir_shape_holds(
    inst: &FirInstance,
    state_len: usize,
    coeffs_len: usize,
    source_len: usize,
    destination_len: usize,
    block_size: u32,
) -> (ok: bool)
    ensures
        ok == fir_shape(
            *inst,
            state_len as nat,
            coeffs_len as nat,
            source_len as nat,
            destination_len as nat,
            block_size,
        ),
{
    inst.num_taps >= 1 && block_size >= 1 && state_len as u64 == inst.num_taps as u64
        + block_size as u64 - 1 && coeffs_len as u64 == inst.num_taps as u64 && source_len as u64
        == block_size as u64 && destination_len as u64 == block_size as u64
}

/// Whether buffers of the given lengths have the shape of a decimating FIR
/// kernel call.
pub fn fir_decimate_shape_holds(
    inst: &FirDecimateInstance,
    state_len: usize,
    coeffs_len: usize,
    source_len: usize,
    destination_len: usize,
    block_size: u32,
) -> (ok: bool)
    ensures
        ok == fir_decimate_shape(
            *inst,
            state_len as nat,
            coeffs_len as nat,
            source_len as nat,
            destination_len as nat,
            block_size,
        ),
{
    inst.num_taps >= 1 && inst.m >= 1 && block_size >= 1 && block_size % (inst.m as u32) == 0
        && state_len as u64 == inst.num_taps as u64 + block_size as u64 - 1 && coeffs_len as u64
        == inst.num_taps as u64 && source_len as u64 == block_size as u64 && destination_len as u64
        == (block_size / (inst.m as u32)) as u64
}

/// Whether buffers of the given lengths have the shape of an interpolating
/// FIR kernel call.
pub fn fir_interpolate_shape_holds(
    inst: &FirInterpolateInstance,
    state_len: usize,
    coeffs_len: usize,
    source_len: usize,
    destination_len: usize,
    block_size: u32,
) -> (ok: bool)
    ensures
        ok == fir_interpolate_shape(
            *inst,
            state_len as nat,
            coeffs_len as nat,
            source_len as nat,
            destination_len as nat,
            block_size,
        ),
{
    if inst.l < 1 || inst.phase_length < 1 || block_size < 1 {
        return false;
    }
    assert(block_size * inst.l <= 0xFFFF_FFFF * 0xFF && inst.phase_length * inst.l <= 0xFFFF * 0xFF)
        by (nonlinear_arith)
        requires
            block_size <= 0xFFFF_FFFF,
            inst.l <= 0xFF,
            inst.phase_length <= 0xFFFF,
    ;
    state_len as u64 >= inst.phase_length as u64 + block_size as u64 - 1 && coeffs_len as u64
        >= inst.phase_length as u64 * inst.l as u64 && source_len as u64 == block_size as u64
        && destination_len as u64 == block_size as u64 * inst.l as u64
}

/// The numeric kernels of a sample type.
///
/// The kernels work in place on a delay line whose leading samples are the
/// history left by the previous call. Each kernel writes the whole output
/// block and leaves the history for the next call at the front of the delay
/// line; what it leaves behind the history is its own business.
pub trait FirKernel: Sample {
    /// Filters one block.
    fn fir(
        inst: &FirInstance,
        state: &mut [Self],
        coeffs: &[Self],
        source: &[Self],
        destination: &mut [Self],
        block_size: u32,
    )
        requires
            fir_shape(
                *inst,
                old(state)@.len(),
                coeffs@.len(),
                source@.len(),
                old(destination)@.len(),
                block_size,
            ),
        ensures
            final(state)@.len() == old(state)@.len(),
            final(destination)@.len() == old(destination)@.len(),
            Self::specified() ==> history(final(state)@, inst.num_taps as int) == advance(
                history(old(state)@, inst.num_taps as int),
                source@,
            ),
            Self::specified() ==> final(destination)@ == fir_response::<Self>(
                coeffs@,
                history(old(state)@, inst.num_taps as int),
                source@,
            ),
    ;

    /// Filters one block and keeps every `m`-th output sample.
    fn fir_decimate(
        inst: &FirDecimateInstance,
        state: &mut [Self],
        coeffs: &[Self],
        source: &[Self],
        destination: &mut [Self],
        block_size: u32,
    )
        requires
            fir_decimate_shape(
                *inst,
                old(state)@.len(),
                coeffs@.len(),
                source@.len(),
                old(destination)@.len(),
                block_size,
            ),
        ensures
            final(state)@.len() == old(state)@.len(),
            final(destination)@.len() == old(destination)@.len(),
            Self::specified() ==> history(final(state)@, inst.num_taps as int) == advance(
                history(old(state)@, inst.num_taps as int),
                source@,
            ),
            Self::specified() ==> final(destination)@ == fir_decimate_response::<Self>(
                coeffs@,
                inst.m as int,
                history(old(state)@, inst.num_taps as int),
                source@,
            ),
    ;

    /// Filters one block at `l` times the input rate.
    fn fir_interpolate(
        inst: &FirInterpolateInstance,
        state: &mut [Self],
        coeffs: &[Self],
        source: &[Self],
        destination: &mut [Self],
        block_size: u32,
    )
        requires
            fir_interpolate_shape(
                *inst,
                old(state)@.len(),
                coeffs@.len(),
                source@.len(),
                old(destination)@.len(),
                block_size,
            ),
        ensures
            final(state)@.len() == old(state)@.len(),
            final(destination)@.len() == old(destination)@.len(),
            Self::specified() ==> history(final(state)@, inst.phase_length as int) == advance(
                history(old(state)@, inst.phase_length as int),
                source@,
            ),
            Self::specified() ==> final(destination)@ == fir_interpolate_response::<Self>(
                coeffs@,
                inst.l as int,
                inst.phase_length as int,
                history(old(state)@, inst.phase_length as int),
                source@,
            ),
    ;
}

} // verus!
