//! Fixed-point samples: Q15 in an `i16` and Q31 in an `i32`.
//!
//! Coefficient `k` multiplies sample `k` of the window, so the last
//! coefficient meets the newest sample. A tap sum is the exact sum of these
//! products, scaled back to the sample format by dropping the fraction bits of the
//! product (rounding towards negative infinity) and saturated to the range of
//! the format. The block kernels are the direct-form ones.
use vstd::prelude::*;
use crate::direct::{fir, fir_decimate, fir_interpolate, TapSum};
use crate::instance::{FirDecimateInstance, FirInstance, FirInterpolateInstance};
use crate::kernel::FirKernel;
use crate::sample::Sample;
use crate::stream::{
    fir_interpolate_response, fir_response, phase_taps, strided, window, zero_stuffed,
};

verus! {

/// Sum of the products of the first `n` coefficients with the first `n`
/// samples of the window.
pub open spec fn dot(coeffs: Seq<int>, window: Seq<int>, n: nat) -> int
    decreases n,
{
    if n == 0 {
        0
    } else {
        dot(coeffs, window, (n - 1) as nat) + coeffs[n - 1] * window[n - 1]
    }
}

/// `x` limited to the range from `low` to `high`.
pub open spec fn saturate(x: int, low: int, high: int) -> int {
    if x < low {
        low
    } else if x > high {
        high
    } else {
        x
    }
}

/// The integers that Q15 samples hold.
pub open spec fn q15_values(samples: Seq<i16>) -> Seq<int> {
    Seq::new(samples.len(), |k: int| samples[k] as int)
}

/// The integers that Q31 samples hold.
pub open spec fn q31_values(samples: Seq<i32>) -> Seq<int> {
    Seq::new(samples.len(), |k: int| samples[k] as int)
}

/// Tap sum in Q15: the exact dot product, divided by 2^15 and saturated.
pub open spec fn q15_tap_sum(coeffs: Seq<i16>, window: Seq<i16>) -> i16 {
    saturate(
        dot(q15_values(coeffs), q15_values(window), coeffs.len()) / 0x8000,
        -0x8000,
        0x7FFF,
    ) as i16
}

/// Tap sum in Q31: the exact dot product, divided by 2^31 and saturated.
pub open spec fn q31_tap_sum(coeffs: Seq<i32>, window: Seq<i32>) -> i32 {
    saturate(
        dot(q31_values(coeffs), q31_values(window), coeffs.len()) / 0x8000_0000,
        -0x8000_0000,
        0x7FFF_FFFF,
    ) as i32
}

/// Scales a Q30 accumulator back to Q15.
fn narrow_q15(acc: i64) -> (y: i16)
    requires
        -0x4000_0000_0000 <= acc <= 0x4000_0000_0000,
    ensures
        y == saturate(acc as int / 0x8000, -0x8000, 0x7FFF),
{
    let scaled: i64 = if acc >= 0 {
        acc / 0x8000
    } else {
        -((0x7FFF - acc) / 0x8000)
    };
    assert(scaled == acc as int / 0x8000);
    if scaled < -0x8000 {
        -0x8000
    } else if scaled > 0x7FFF {
        0x7FFF
    } else {
        scaled as i16
    }
}

/// Scales a Q62 accumulator back to Q31.
fn narrow_q31(acc: i128) -> (y: i32)
    requires
        -0x4000_0000_0000_0000_0000 <= acc <= 0x4000_0000_0000_0000_0000,
    ensures
        y == saturate(acc as int / 0x8000_0000, -0x8000_0000, 0x7FFF_FFFF),
{
    let scaled: i128 = if acc >= 0 {
        acc / 0x8000_0000
    } else {
        -((0x7FFF_FFFF - acc) / 0x8000_0000)
    };
    assert(scaled == acc as int / 0x8000_0000);
    if scaled < -0x8000_0000 {
        -0x8000_0000
    } else if scaled > 0x7FFF_FFFF {
        0x7FFF_FFFF
    } else {
        scaled as i32
    }
}

impl Sample for i16 {
    open spec fn specified() -> bool {
        true
    }

    open spec fn tap_sum(coeffs: Seq<i16>, window: Seq<i16>) -> i16 {
        q15_tap_sum(coeffs, window)
    }
}

impl Sample for i32 {
    open spec fn specified() -> bool {
        true
    }

    open spec fn tap_sum(coeffs: Seq<i32>, window: Seq<i32>) -> i32 {
        q31_tap_sum(coeffs, window)
    }
}

impl TapSum for i16 {
    fn weigh(
        coeffs: &[i16],
        first: usize,
        stride: usize,
        count: u16,
        line: &[i16],
        at: usize,
    ) -> (y: i16) {
        let ghost taps = q15_values(strided(coeffs@, first as int, stride as int, count as int));
        let ghost seen = q15_values(window(line@, at as int, count as int));
        let total: usize = line.len();
        let mut acc: i64 = 0;
        let mut from: usize = first;
        let mut k: u16 = 0;
        while k < count
            invariant
                k <= count,
                stride >= 1,
                total == line@.len(),
                first + (count - 1) * stride < coeffs@.len(),
                at + count <= line@.len(),
                k < count ==> from == first + k * stride,
                taps == q15_values(strided(coeffs@, first as int, stride as int, count as int)),
                seen == q15_values(window(line@, at as int, count as int)),
                acc == dot(taps, seen, k as nat),
                -0x4000_0000 * k <= acc <= 0x4000_0000 * k,
            decreases count - k,
        {
            proof {
                lemma_stride_in_range(first as int, stride as int, count as int, k as int);
            }
            let c: i64 = coeffs[from] as i64;
            let x: i64 = line[at + k as usize] as i64;
            assert(-0x4000_0000 <= c * x <= 0x4000_0000) by (nonlinear_arith)
                requires
                    -0x8000 <= c <= 0x7FFF,
                    -0x8000 <= x <= 0x7FFF,
            ;
            acc = acc + c * x;
            k = k + 1;
            if k < count {
                from = from + stride;
            }
        }
        narrow_q15(acc)
    }
}

impl TapSum for i32 {
    fn weigh(
        coeffs: &[i32],
        first: usize,
        stride: usize,
        count: u16,
        line: &[i32],
        at: usize,
    ) -> (y: i32) {
        let ghost taps = q31_values(strided(coeffs@, first as int, stride as int, count as int));
        let ghost seen = q31_values(window(line@, at as int, count as int));
        let total: usize = line.len();
        let mut acc: i128 = 0;
        let mut from: usize = first;
        let mut k: u16 = 0;
        while k < count
            invariant
                k <= count,
                stride >= 1,
                total == line@.len(),
                first + (count - 1) * stride < coeffs@.len(),
                at + count <= line@.len(),
                k < count ==> from == first + k * stride,
                taps == q31_values(strided(coeffs@, first as int, stride as int, count as int)),
                seen == q31_values(window(line@, at as int, count as int)),
                acc == dot(taps, seen, k as nat),
                -0x4000_0000_0000_0000 * k <= acc <= 0x4000_0000_0000_0000 * k,
            decreases count - k,
        {
            proof {
                lemma_stride_in_range(first as int, stride as int, count as int, k as int);
            }
            let c: i128 = coeffs[from] as i128;
            let x: i128 = line[at + k as usize] as i128;
            assert(-0x4000_0000_0000_0000 <= c * x <= 0x4000_0000_0000_0000) by (nonlinear_arith)
                requires
                    -0x8000_0000 <= c <= 0x7FFF_FFFF,
                    -0x8000_0000 <= x <= 0x7FFF_FFFF,
            ;
            acc = acc + c * x;
            k = k + 1;
            if k < count {
                from = from + stride;
            }
        }
        narrow_q31(acc)
    }
}

/// Coefficient `k` of a strided run lies inside the run, and so does the one
/// after it unless `k` is the last.
proof fn lemma_stride_in_range(first: int, stride: int, count: int, k: int)
    requires
        0 <= first,
        1 <= stride,
        0 <= k < count,
    ensures
        first + k * stride <= first + (count - 1) * stride,
        k + 1 < count ==> first + (k + 1) * stride <= first + (count - 1) * stride,
        first + (k + 1) * stride == first + k * stride + stride,
{
    assert(k * stride <= (count - 1) * stride && (k + 1) * stride == k * stride + stride)
        by (nonlinear_arith)
        requires
            1 <= stride,
            0 <= k < count,
    ;
    if k + 1 < count {
        assert((k + 1) * stride <= (count - 1) * stride) by (nonlinear_arith)
            requires
                1 <= stride,
                k + 1 < count,
        ;
    }
}

impl FirKernel for i16 {
    fn fir(
        inst: &FirInstance,
        state: &mut [i16],
        coeffs: &[i16],
        source: &[i16],
        destination: &mut [i16],
        block_size: u32,
    ) {
        fir::<i16>(inst, state, coeffs, source, destination, block_size)
    }

    fn fir_decimate(
        inst: &FirDecimateInstance,
        state: &mut [i16],
        coeffs: &[i16],
        source: &[i16],
        destination: &mut [i16],
        block_size: u32,
    ) {
        fir_decimate::<i16>(inst, state, coeffs, source, destination, block_size)
    }

    fn fir_interpolate(
        inst: &FirInterpolateInstance,
        state: &mut [i16],
        coeffs: &[i16],
        source: &[i16],
        destination: &mut [i16],
        block_size: u32,
    ) {
        fir_interpolate::<i16>(inst, state, coeffs, source, destination, block_size)
    }
}

impl FirKernel for i32 {
    fn fir(
        inst: &FirInstance,
        state: &mut [i32],
        coeffs: &[i32],
        source: &[i32],
        destination: &mut [i32],
        block_size: u32,
    ) {
        fir::<i32>(inst, state, coeffs, source, destination, block_size)
    }

    fn fir_decimate(
        inst: &FirDecimateInstance,
        state: &mut [i32],
        coeffs: &[i32],
        source: &[i32],
        destination: &mut [i32],
        block_size: u32,
    ) {
        fir_decimate::<i32>(inst, state, coeffs, source, destination, block_size)
    }

    fn fir_interpolate(
        inst: &FirInterpolateInstance,
        state: &mut [i32],
        coeffs: &[i32],
        source: &[i32],
        destination: &mut [i32],
        block_size: u32,
    ) {
        fir_interpolate::<i32>(inst, state, coeffs, source, destination, block_size)
    }
}

/// Position `at` of row `row` in a table of rows of `l` entries.
proof fn lemma_row_position(row: int, at: int, l: int)
    requires
        0 <= at < l,
    ensures
        (row * l + at) % l == at,
        (row * l + at) / l == row,
{
    assert((row * l + at) % l == at && (row * l + at) / l == row) by (nonlinear_arith)
        requires
            0 <= at < l,
    ;
}

/// Within one row of `l` products of which all but the one at `hit` vanish,
/// the sum grows by that product when it passes `hit` and not otherwise.
proof fn lemma_dot_row(coeffs: Seq<int>, seen: Seq<int>, l: int, hit: int, row: int, upto: int)
    requires
        0 <= hit < l,
        0 <= row,
        0 <= upto <= l,
        forall|i: int| row * l <= i < row * l + l && i % l != hit ==> seen[i] == 0,
    ensures
        row * l >= 0,
        dot(coeffs, seen, (row * l + upto) as nat) == dot(coeffs, seen, (row * l) as nat) + (if upto
            > hit {
            coeffs[row * l + hit] * seen[row * l + hit]
        } else {
            0
        }),
    decreases upto,
{
    assert(row * l >= 0) by (nonlinear_arith)
        requires
            0 <= row,
            0 < l,
    ;
    if upto > 0 {
        lemma_dot_row(coeffs, seen, l, hit, row, upto - 1);
        lemma_row_position(row, upto - 1, l);
        let i = row * l + upto - 1;
        if upto - 1 != hit {
            assert(coeffs[i] * seen[i] == 0) by (nonlinear_arith)
                requires
                    seen[i] == 0,
            ;
        }
    }
}

/// The dot product over a zero-stuffed window is the dot product of one
/// polyphase branch over the samples that were stuffed: of all the products
/// only those that meet a sample remain.
proof fn lemma_dot_polyphase(
    coeffs: Seq<int>,
    stuffed: Seq<int>,
    branch: Seq<int>,
    samples: Seq<int>,
    l: int,
    hit: int,
    rows: int,
)
    requires
        0 <= hit < l,
        0 <= rows,
        forall|i: int|
            0 <= i < rows * l ==> stuffed[i] == (if i % l == hit {
                samples[i / l]
            } else {
                0
            }),
        forall|k: int| 0 <= k < rows ==> branch[k] == coeffs[hit + k * l],
    ensures
        rows * l >= 0,
        dot(coeffs, stuffed, (rows * l) as nat) == dot(branch, samples, rows as nat),
    decreases rows,
{
    assert(rows * l >= 0) by (nonlinear_arith)
        requires
            0 <= rows,
            0 < l,
    ;
    if rows > 0 {
        let row = rows - 1;
        assert(row * l + l == rows * l && row * l >= 0) by (nonlinear_arith)
            requires
                row == rows - 1,
                row >= 0,
                l > 0,
        ;
        lemma_dot_polyphase(coeffs, stuffed, branch, samples, l, hit, row);
        lemma_dot_row(coeffs, stuffed, l, hit, row, l);
        lemma_row_position(row, hit, l);
    } else {
        assert(rows * l == 0) by (nonlinear_arith)
            requires
                rows == 0,
        ;
    }
}

/// Sample `at` of the window that a filter over the zero-stuffed signal sees
/// when it computes output `phase` of input sample `n`: a sample of the
/// window of branch `phase` where the branch has a coefficient, zero
/// elsewhere.
proof fn lemma_stuffed_window<T>(
    past: Seq<T>,
    block: Seq<T>,
    zero: T,
    l: int,
    phase_length: int,
    n: int,
    phase: int,
    at: int,
)
    requires
        l >= 1,
        phase_length >= 1,
        past.len() + 1 == phase_length,
        0 <= n < block.len(),
        0 <= phase < l,
        0 <= at < phase_length * l,
    ensures
        0 <= n * l + phase < block.len() * l,
        0 <= at / l < phase_length,
        window(
            Seq::new((l - 1) as nat, |i: int| zero) + zero_stuffed(past, l, zero) + zero_stuffed(
                block,
                l,
                zero,
            ),
            n * l + phase,
            phase_length * l,
        )[at] == (if at % l == l - 1 - phase {
            window(past + block, n, phase_length)[at / l]
        } else {
            zero
        }),
{
    let lead = Seq::new((l - 1) as nat, |i: int| zero);
    let line = lead + zero_stuffed(past, l, zero) + zero_stuffed(block, l, zero);
    let hit = l - 1 - phase;
    let row = at / l;
    let col = at % l;
    assert(at == row * l + col && 0 <= col < l && 0 <= row < phase_length) by (nonlinear_arith)
        requires
            row == at / l,
            col == at % l,
            l >= 1,
            0 <= at < phase_length * l,
    ;
    // Index into the stuffed signal behind the leading zeros, as a row and a
    // position in the row.
    let u = n * l + phase + at - (l - 1);
    let q = if col >= hit {
        n + row
    } else {
        n + row - 1
    };
    let r = if col >= hit {
        col - hit
    } else {
        l + col - hit
    };
    let behind = past.len() * l;
    assert(u == q * l + r && u - behind == (q - past.len()) * l + r) by (nonlinear_arith)
        requires
            u == n * l + phase + (row * l + col) - (l - 1),
            hit == l - 1 - phase,
            behind == past.len() * l,
            q == (if col >= hit {
                n + row
            } else {
                n + row - 1
            }),
            r == (if col >= hit {
                col - hit
            } else {
                l + col - hit
            }),
    ;
    assert(n * l + phase < block.len() * l && phase_length * l == behind + l && behind >= 0)
        by (nonlinear_arith)
        requires
            0 <= n < block.len(),
            0 <= phase < l,
            past.len() + 1 == phase_length,
            behind == past.len() * l,
    ;
    assert(window(line, n * l + phase, phase_length * l)[at] == line[n * l + phase + at]);
    assert(window(past + block, n, phase_length)[row] == (past + block)[n + row]);
    lemma_row_position(q, r, l);
    lemma_row_position(q - past.len(), r, l);
    if q < 0 {
        assert(u < 0) by (nonlinear_arith)
            requires
                u == q * l + r,
                q < 0,
                r < l,
                l >= 1,
        ;
        assert(line[n * l + phase + at] == lead[n * l + phase + at]);
    } else if q < past.len() {
        assert(0 <= u < behind) by (nonlinear_arith)
            requires
                u == q * l + r,
                behind == past.len() * l,
                0 <= q < past.len(),
                0 <= r < l,
        ;
        assert(line[n * l + phase + at] == zero_stuffed(past, l, zero)[u]);
    } else {
        assert(0 <= u - behind < block.len() * l) by (nonlinear_arith)
            requires
                u - behind == (q - past.len()) * l + r,
                0 <= q - past.len() < block.len(),
                0 <= r < l,
        ;
        assert(line[n * l + phase + at] == zero_stuffed(block, l, zero)[u - behind]);
    }
}

/// In Q15 an interpolating filter by `l` computes what a plain filter
/// computes from the signal with `l - 1` zeros inserted after every sample:
/// the polyphase branches only leave out the products with those zeros.
pub proof fn theorem_q15_interpolation_is_zero_stuffing(
    coeffs: Seq<i16>,
    l: int,
    phase_length: int,
    past: Seq<i16>,
    block: Seq<i16>,
)
    requires
        l >= 1,
        phase_length >= 1,
        past.len() + 1 == phase_length,
        coeffs.len() >= phase_length * l,
    ensures
        fir_interpolate_response::<i16>(coeffs, l, phase_length, past, block) == fir_response::<
            i16,
        >(
            coeffs.take(phase_length * l),
            Seq::new((l - 1) as nat, |i: int| 0i16) + zero_stuffed(past, l, 0i16),
            zero_stuffed(block, l, 0i16),
        ),
{
    let taps = phase_length * l;
    assert(taps >= 1) by (nonlinear_arith)
        requires
            taps == phase_length * l,
            phase_length >= 1,
            l >= 1,
    ;
    let used = coeffs.take(taps);
    let lead = Seq::new((l - 1) as nat, |i: int| 0i16);
    let long_past = lead + zero_stuffed(past, l, 0i16);
    let long_block = zero_stuffed(block, l, 0i16);
    let fast = fir_interpolate_response::<i16>(coeffs, l, phase_length, past, block);
    let slow = fir_response::<i16>(used, long_past, long_block);
    assert(fast.len() == slow.len());
    assert forall|j: int| 0 <= j < fast.len() implies fast[j] == slow[j] by {
        let n = j / l;
        let phase = j % l;
        assert(j == n * l + phase && 0 <= phase < l && 0 <= n < block.len()) by (nonlinear_arith)
            requires
                n == j / l,
                phase == j % l,
                l >= 1,
                0 <= j < block.len() * l,
        ;
        let branch = phase_taps(coeffs, l, phase, phase_length);
        let seen = window(past + block, n, phase_length);
        let long_seen = window(long_past + long_block, j, taps);
        assert(long_past.len() == taps - 1 && long_block.len() == block.len() * l)
            by (nonlinear_arith)
            requires
                long_past.len() == (l - 1) + past.len() * l,
                long_block.len() == block.len() * l,
                past.len() + 1 == phase_length,
                taps == phase_length * l,
        ;
        assert(long_seen.len() == taps && seen.len() == phase_length);
        assert forall|i: int| 0 <= i < taps implies q15_values(long_seen)[i] == (if i % l == l - 1
            - phase {
            q15_values(seen)[i / l]
        } else {
            0
        }) by {
            lemma_stuffed_window(past, block, 0i16, l, phase_length, n, phase, i);
        }
        assert forall|k: int| 0 <= k < phase_length implies q15_values(branch)[k] == q15_values(
            used,
        )[l - 1 - phase + k * l] by {
            assert(0 <= l - 1 - phase + k * l < taps) by (nonlinear_arith)
                requires
                    0 <= k < phase_length,
                    0 <= phase < l,
                    taps == phase_length * l,
            ;
        }
        lemma_dot_polyphase(
            q15_values(used),
            q15_values(long_seen),
            q15_values(branch),
            q15_values(seen),
            l,
            l - 1 - phase,
            phase_length,
        );
    }
    assert(fast =~= slow);
}

/// In Q31 an interpolating filter by `l` computes what a plain filter
/// computes from the signal with `l - 1` zeros inserted after every sample.
pub proof fn theorem_q31_interpolation_is_zero_stuffing(
    coeffs: Seq<i32>,
    l: int,
    phase_length: int,
    past: Seq<i32>,
    block: Seq<i32>,
)
    requires
        l >= 1,
        phase_length >= 1,
        past.len() + 1 == phase_length,
        coeffs.len() >= phase_length * l,
    ensures
        fir_interpolate_response::<i32>(coeffs, l, phase_length, past, block) == fir_response::<
            i32,
        >(
            coeffs.take(phase_length * l),
            Seq::new((l - 1) as nat, |i: int| 0i32) + zero_stuffed(past, l, 0i32),
            zero_stuffed(block, l, 0i32),
        ),
{
    let taps = phase_length * l;
    assert(taps >= 1) by (nonlinear_arith)
        requires
            taps == phase_length * l,
            phase_length >= 1,
            l >= 1,
    ;
    let used = coeffs.take(taps);
    let lead = Seq::new((l - 1) as nat, |i: int| 0i32);
    let long_past = lead + zero_stuffed(past, l, 0i32);
    let long_block = zero_stuffed(block, l, 0i32);
    let fast = fir_interpolate_response::<i32>(coeffs, l, phase_length, past, block);
    let slow = fir_response::<i32>(used, long_past, long_block);
    assert(fast.len() == slow.len());
    assert forall|j: int| 0 <= j < fast.len() implies fast[j] == slow[j] by {
        let n = j / l;
        let phase = j % l;
        assert(j == n * l + phase && 0 <= phase < l && 0 <= n < block.len()) by (nonlinear_arith)
            requires
                n == j / l,
                phase == j % l,
                l >= 1,
                0 <= j < block.len() * l,
        ;
        let branch = phase_taps(coeffs, l, phase, phase_length);
        let seen = window(past + block, n, phase_length);
        let long_seen = window(long_past + long_block, j, taps);
        assert(long_past.len() == taps - 1 && long_block.len() == block.len() * l)
            by (nonlinear_arith)
            requires
                long_past.len() == (l - 1) + past.len() * l,
                long_block.len() == block.len() * l,
                past.len() + 1 == phase_length,
                taps == phase_length * l,
        ;
        assert(long_seen.len() == taps && seen.len() == phase_length);
        assert forall|i: int| 0 <= i < taps implies q31_values(long_seen)[i] == (if i % l == l - 1
            - phase {
            q31_values(seen)[i / l]
        } else {
            0
        }) by {
            lemma_stuffed_window(past, block, 0i32, l, phase_length, n, phase, i);
        }
        assert forall|k: int| 0 <= k < phase_length implies q31_values(branch)[k] == q31_values(
            used,
        )[l - 1 - phase + k * l] by {
            assert(0 <= l - 1 - phase + k * l < taps) by (nonlinear_arith)
                requires
                    0 <= k < phase_length,
                    0 <= phase < l,
                    taps == phase_length * l,
            ;
        }
        lemma_dot_polyphase(
            q31_values(used),
            q31_values(long_seen),
            q31_values(branch),
            q31_values(seen),
            l,
            l - 1 - phase,
            phase_length,
        );
    }
    assert(fast =~= slow);
}

} // verus!
