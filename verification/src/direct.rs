//! Direct-form block kernels for any sample type that can compute one tap sum.
//!
//! Each kernel copies the block into the delay line behind the history,
//! computes every output sample from a window of the delay line, and then
//! moves the newest samples to the front as the history for the next call.
use vstd::prelude::*;
use crate::instance::{FirDecimateInstance, FirInstance, FirInterpolateInstance};
use crate::kernel::{fir_decimate_shape, fir_interpolate_shape, fir_shape};
use crate::sample::Sample;
use crate::stream::{
    advance, fir_decimate_response, fir_interpolate_response, fir_response, history, strided,
    window,
};

verus! {

/// A sample type that can compute a single output sample.
pub trait TapSum: Sample {
    /// The tap sum of `count` coefficients, taken from `coeffs` at `first`,
    /// `first + stride` and so on, over the window of `line` that starts at
    /// `at`.
    fn weigh(
        coeffs: &[Self],
        first: usize,
        stride: usize,
        count: u16,
        line: &[Self],
        at: usize,
    ) -> (y: Self)
        requires
            count >= 1,
            stride >= 1,
            first + (count - 1) * stride < coeffs@.len(),
            at + count <= line@.len(),
        ensures
            Self::specified() ==> y == Self::tap_sum(
                strided(coeffs@, first as int, stride as int, count as int),
                window(line@, at as int, count as int),
            ),
    ;
}

/// Copies `block` into `line` behind its first `keep` samples.
fn load<T: Copy>(line: &mut [T], keep: usize, block: &[T])
    requires
        keep + block@.len() <= old(line)@.len(),
    ensures
        final(line)@.len() == old(line)@.len(),
        final(line)@ == old(line)@.take(keep as int) + block@ + old(line)@.skip(
            keep + block@.len(),
        ),
{
    let n: usize = block.len();
    let total: usize = line.len();
    let mut i: usize = 0;
    while i < n
        invariant
            i <= n,
            n == block@.len(),
            total == line@.len(),
            keep + n <= line@.len(),
            line@.len() == old(line)@.len(),
            forall|k: int| 0 <= k < keep ==> line@[k] == old(line)@[k],
            forall|k: int| 0 <= k < i ==> line@[keep + k] == block@[k],
            forall|k: int| keep + i <= k < line@.len() ==> line@[k] == old(line)@[k],
        decreases n - i,
    {
        line[keep + i] = block[i];
        i = i + 1;
    }
    assert(line@ =~= old(line)@.take(keep as int) + block@ + old(line)@.skip(
        keep + block@.len(),
    ));
}

/// Moves the `keep` samples of `line` that start at `by` to its front.
fn shift<T: Copy>(line: &mut [T], keep: usize, by: usize)
    requires
        keep + by <= old(line)@.len(),
    ensures
        final(line)@.len() == old(line)@.len(),
        final(line)@.take(keep as int) == old(line)@.subrange(by as int, by + keep),
{
    let total: usize = line.len();
    let mut k: usize = 0;
    while k < keep
        invariant
            k <= keep,
            total == line@.len(),
            keep + by <= line@.len(),
            line@.len() == old(line)@.len(),
            forall|j: int| 0 <= j < k ==> line@[j] == old(line)@[by + j],
            forall|j: int| k <= j < line@.len() ==> line@[j] == old(line)@[j],
        decreases keep - k,
    {
        line[k] = line[by + k];
        k = k + 1;
    }
    assert(line@.take(keep as int) =~= old(line)@.subrange(by as int, by + keep));
}

/// Plain FIR filtering of one block.
pub fn fir<T: TapSum>(
    inst: &FirInstance,
    state: &mut [T],
    coeffs: &[T],
    source: &[T],
    destination: &mut [T],
    block_size: u32,
)
    requires
        fir_shape(
            *inst,
            old(state)@.len(),
            coeffs@.len(),
            source@.len(),
            old(destination)@.len(),
            block_size,
        ),
    ensures
        final(state)@.len() == old(state)@.len(),
        final(destination)@.len() == old(destination)@.len(),
        history(final(state)@, inst.num_taps as int) == advance(
            history(old(state)@, inst.num_taps as int),
            source@,
        ),
        T::specified() ==> final(destination)@ == fir_response::<T>(
            coeffs@,
            history(old(state)@, inst.num_taps as int),
            source@,
        ),
{
    let keep: usize = (inst.num_taps - 1) as usize;
    let block: usize = source.len();
    let ghost past = history(old(state)@, inst.num_taps as int);
    let ghost expected = fir_response::<T>(coeffs@, past, source@);
    load(state, keep, source);
    assert(state@ =~= past + source@);
    assert(strided(coeffs@, 0, 1, inst.num_taps as int) =~= coeffs@);
    let mut i: usize = 0;
    while i < block
        invariant
            i <= block,
            block == source@.len(),
            destination@.len() == block,
            coeffs@.len() == inst.num_taps,
            inst.num_taps >= 1,
            state@ == past + source@,
            past.len() == inst.num_taps - 1,
            strided(coeffs@, 0, 1, inst.num_taps as int) == coeffs@,
            expected == fir_response::<T>(coeffs@, past, source@),
            T::specified() ==> forall|j: int| 0 <= j < i ==> destination@[j] == expected[j],
        decreases block - i,
    {
        destination[i] = T::weigh(coeffs, 0, 1, inst.num_taps, state, i);
        i = i + 1;
    }
    assert(T::specified() ==> destination@ =~= expected);
    shift(state, keep, block);
    assert(history(state@, inst.num_taps as int) =~= advance(past, source@));
}

/// FIR filtering of one block, keeping every `m`-th output sample.
pub fn fir_decimate<T: TapSum>(
    inst: &FirDecimateInstance,
    state: &mut [T],
    coeffs: &[T],
    source: &[T],
    destination: &mut [T],
    block_size: u32,
)
    requires
        fir_decimate_shape(
            *inst,
            old(state)@.len(),
            coeffs@.len(),
            source@.len(),
            old(destination)@.len(),
            block_size,
        ),
    ensures
        final(state)@.len() == old(state)@.len(),
        final(destination)@.len() == old(destination)@.len(),
        history(final(state)@, inst.num_taps as int) == advance(
            history(old(state)@, inst.num_taps as int),
            source@,
        ),
        T::specified() ==> final(destination)@ == fir_decimate_response::<T>(
            coeffs@,
            inst.m as int,
            history(old(state)@, inst.num_taps as int),
            source@,
        ),
{
    let keep: usize = (inst.num_taps - 1) as usize;
    let block: usize = source.len();
    let step: usize = inst.m as usize;
    let outputs: usize = destination.len();
    let ghost past = history(old(state)@, inst.num_taps as int);
    let ghost expected = fir_decimate_response::<T>(coeffs@, inst.m as int, past, source@);
    load(state, keep, source);
    assert(state@ =~= past + source@);
    assert(strided(coeffs@, 0, 1, inst.num_taps as int) =~= coeffs@);
    assert(outputs * step == block) by (nonlinear_arith)
        requires
            step >= 1,
            block as int % step as int == 0,
            outputs == block as int / step as int,
    ;
    let mut j: usize = 0;
    while j < outputs
        invariant
            j <= outputs,
            block == source@.len(),
            destination@.len() == outputs,
            outputs * step == block,
            step == inst.m,
            step >= 1,
            coeffs@.len() == inst.num_taps,
            inst.num_taps >= 1,
            state@ == past + source@,
            past.len() == inst.num_taps - 1,
            strided(coeffs@, 0, 1, inst.num_taps as int) == coeffs@,
            expected == fir_decimate_response::<T>(coeffs@, inst.m as int, past, source@),
            expected.len() == outputs,
            T::specified() ==> forall|k: int| 0 <= k < j ==> destination@[k] == expected[k],
        decreases outputs - j,
    {
        assert(j * step + step <= block) by (nonlinear_arith)
            requires
                j < outputs,
                outputs * step == block,
                step >= 1,
        ;
        destination[j] = T::weigh(coeffs, 0, 1, inst.num_taps, state, j * step);
        j = j + 1;
    }
    assert(T::specified() ==> destination@ =~= expected);
    shift(state, keep, block);
    assert(history(state@, inst.num_taps as int) =~= advance(past, source@));
}

/// Polyphase FIR filtering of one block at `l` times the input rate.
pub fn fir_interpolate<T: TapSum>(
    inst: &FirInterpolateInstance,
    state: &mut [T],
    coeffs: &[T],
    source: &[T],
    destination: &mut [T],
    block_size: u32,
)
    requires
        fir_interpolate_shape(
            *inst,
            old(state)@.len(),
            coeffs@.len(),
            source@.len(),
            old(destination)@.len(),
            block_size,
        ),
    ensures
        final(state)@.len() == old(state)@.len(),
        final(destination)@.len() == old(destination)@.len(),
        history(final(state)@, inst.phase_length as int) == advance(
            history(old(state)@, inst.phase_length as int),
            source@,
        ),
        T::specified() ==> final(destination)@ == fir_interpolate_response::<T>(
            coeffs@,
            inst.l as int,
            inst.phase_length as int,
            history(old(state)@, inst.phase_length as int),
            source@,
        ),
{
    let keep: usize = (inst.phase_length - 1) as usize;
    let block: usize = source.len();
    let branches: usize = inst.l as usize;
    let ghost past = history(old(state)@, inst.phase_length as int);
    let ghost expected = fir_interpolate_response::<T>(
        coeffs@,
        inst.l as int,
        inst.phase_length as int,
        past,
        source@,
    );
    let outputs: usize = destination.len();
    load(state, keep, source);
    assert(state@.take(keep + block) =~= past + source@);
    let mut n: usize = 0;
    while n < block
        invariant
            n <= block,
            block == source@.len(),
            outputs == block * branches,
            branches == inst.l,
            branches >= 1,
            inst.phase_length >= 1,
            keep == inst.phase_length - 1,
            destination@.len() == block * branches,
            coeffs@.len() >= inst.phase_length * inst.l,
            state@.len() >= keep + block,
            state@.take(keep + block) == past + source@,
            expected == fir_interpolate_response::<T>(
                coeffs@,
                inst.l as int,
                inst.phase_length as int,
                past,
                source@,
            ),
            T::specified() ==> forall|j: int|
                0 <= j < n * branches ==> destination@[j] == expected[j],
        decreases block - n,
    {
        let mut p: usize = 0;
        while p < branches
            invariant
                p <= branches,
                n < block,
                block == source@.len(),
                outputs == block * branches,
                branches == inst.l,
                branches >= 1,
                inst.phase_length >= 1,
                keep == inst.phase_length - 1,
                destination@.len() == block * branches,
                coeffs@.len() >= inst.phase_length * inst.l,
                state@.len() >= keep + block,
                state@.take(keep + block) == past + source@,
                expected == fir_interpolate_response::<T>(
                    coeffs@,
                    inst.l as int,
                    inst.phase_length as int,
                    past,
                    source@,
                ),
                T::specified() ==> forall|j: int|
                    0 <= j < n * branches + p ==> destination@[j] == expected[j],
            decreases branches - p,
        {
            proof {
                lemma_branch_index(
                    n as int,
                    p as int,
                    block as int,
                    branches as int,
                    inst.phase_length as int,
                );
                assert(window(state@, n as int, inst.phase_length as int) =~= window(
                    past + source@,
                    n as int,
                    inst.phase_length as int,
                ));
            }
            let y = T::weigh(coeffs, branches - 1 - p, branches, inst.phase_length, state, n);
            destination[n * branches + p] = y;
            p = p + 1;
        }
        proof {
            assert((n + 1) * branches == n * branches + branches) by (nonlinear_arith);
        }
        n = n + 1;
    }
    assert(T::specified() ==> destination@ =~= expected);
    shift(state, keep, block);
    assert(history(state@, inst.phase_length as int) =~= advance(past, source@));
}

/// Where output `phase` of input sample `n` lies, and that its branch stays
/// inside the coefficients.
proof fn lemma_branch_index(n: int, phase: int, block: int, l: int, phase_length: int)
    requires
        0 <= n < block,
        0 <= phase < l,
        phase_length >= 1,
    ensures
        0 <= n * l + phase < block * l,
        (n * l + phase) / l == n,
        (n * l + phase) % l == phase,
        l - 1 - phase + (phase_length - 1) * l < phase_length * l,
{
    assert(0 <= n * l + phase < block * l && (n * l + phase) / l == n && (n * l + phase) % l
        == phase) by (nonlinear_arith)
        requires
            0 <= n < block,
            0 <= phase < l,
    ;
    assert(l - 1 - phase + (phase_length - 1) * l < phase_length * l) by (nonlinear_arith)
        requires
            0 <= phase < l,
            phase_length >= 1,
    ;
}

} // verus!
