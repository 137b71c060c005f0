//! The mathematical model of block-wise FIR filtering.
//!
//! A filter with `n` coefficients looks at a window of the `n` most recent
//! input samples for every output sample. Between two blocks it has to remember
//! the last `n - 1` samples: the *history*. Everything here is stated over the
//! history and the block, oldest sample first, and is independent of how a
//! sample type does its arithmetic: that is hidden in [`Sample::tap_sum`].
use vstd::prelude::*;
use crate::sample::Sample;

verus! {

/// The `len` samples of `line` that start at index `at`.
pub open spec fn window<T>(line: Seq<T>, at: int, len: int) -> Seq<T> {
    line.subrange(at, at + len)
}

/// The part of a delay line that carries history for a filter with `taps`
/// coefficients: its first `taps - 1` samples.
pub open spec fn history<T>(delay_line: Seq<T>, taps: int) -> Seq<T> {
    delay_line.take(taps - 1)
}

/// The history after `block` has been consumed: the most recent samples of the
/// old history followed by the block, as many as the old history held.
pub open spec fn advance<T>(history: Seq<T>, block: Seq<T>) -> Seq<T> {
    (history + block).skip(block.len() as int)
}

/// Output of a plain FIR filter for one block: sample `i` is the tap sum over
/// the window that ends at input sample `i`.
pub open spec fn fir_response<T: Sample>(coeffs: Seq<T>, history: Seq<T>, block: Seq<T>) -> Seq<T> {
    Seq::new(
        block.len(),
        |i: int| T::tap_sum(coeffs, window(history + block, i, coeffs.len() as int)),
    )
}

/// Every `m`-th sample of `full`, starting with the first.
pub open spec fn decimated<T>(full: Seq<T>, m: int) -> Seq<T> {
    Seq::new((full.len() as int / m) as nat, |j: int| full[j * m])
}

/// Output of a decimating FIR filter for one block.
pub open spec fn fir_decimate_response<T: Sample>(
    coeffs: Seq<T>,
    m: int,
    history: Seq<T>,
    block: Seq<T>,
) -> Seq<T> {
    decimated(fir_response(coeffs, history, block), m)
}

/// The `count` samples of `line` at `first`, `first + stride`, and so on.
pub open spec fn strided<T>(line: Seq<T>, first: int, stride: int, count: int) -> Seq<T> {
    Seq::new(count as nat, |k: int| line[first + k * stride])
}

/// The coefficients of polyphase branch `phase` of an interpolator by `l`:
/// every `l`-th coefficient, starting at index `l - 1 - phase`.
///
/// These are the coefficients that meet a non-zero sample when `l - 1` zeros
/// are inserted after every input sample and output `phase` of the `l` outputs
/// that belong to the newest input sample is computed.
pub open spec fn phase_taps<T>(coeffs: Seq<T>, l: int, phase: int, phase_length: int) -> Seq<T> {
    strided(coeffs, l - 1 - phase, l, phase_length)
}

/// `signal` with `l - 1` samples `zero` inserted after each of its samples.
pub open spec fn zero_stuffed<T>(signal: Seq<T>, l: int, zero: T) -> Seq<T> {
    Seq::new(
        (signal.len() * l) as nat,
        |j: int|
            if j % l == 0 {
                signal[j / l]
            } else {
                zero
            },
    )
}

/// Output of an interpolating FIR filter for one block: input sample `n`
/// yields the `l` output samples `n * l .. n * l + l`, one per polyphase branch,
/// each a tap sum over the `phase_length` most recent input samples.
pub open spec fn fir_interpolate_response<T: Sample>(
    coeffs: Seq<T>,
    l: int,
    phase_length: int,
    history: Seq<T>,
    block: Seq<T>,
) -> Seq<T> {
    Seq::new(
        (block.len() * l) as nat,
        |j: int|
            T::tap_sum(
                phase_taps(coeffs, l, j % l, phase_length),
                window(history + block, j / l, phase_length),
            ),
    )
}

/// Output of a plain FIR filter that is fed `blocks` one after another, each
/// call starting from the history that the one before it left.
pub open spec fn fir_stream<T: Sample>(coeffs: Seq<T>, history: Seq<T>, blocks: Seq<Seq<T>>) -> Seq<
    T,
>
    decreases blocks.len(),
{
    if blocks.len() == 0 {
        Seq::empty()
    } else {
        fir_response(coeffs, history, blocks.first()) + fir_stream(
            coeffs,
            advance(history, blocks.first()),
            blocks.drop_first(),
        )
    }
}

/// Output of a decimating FIR filter that is fed `blocks` one after another.
pub open spec fn fir_decimate_stream<T: Sample>(
    coeffs: Seq<T>,
    m: int,
    history: Seq<T>,
    blocks: Seq<Seq<T>>,
) -> Seq<T>
    decreases blocks.len(),
{
    if blocks.len() == 0 {
        Seq::empty()
    } else {
        fir_decimate_response(coeffs, m, history, blocks.first()) + fir_decimate_stream(
            coeffs,
            m,
            advance(history, blocks.first()),
            blocks.drop_first(),
        )
    }
}

/// Output of an interpolating FIR filter that is fed `blocks` one after
/// another.
pub open spec fn fir_interpolate_stream<T: Sample>(
    coeffs: Seq<T>,
    l: int,
    phase_length: int,
    history: Seq<T>,
    blocks: Seq<Seq<T>>,
) -> Seq<T>
    decreases blocks.len(),
{
    if blocks.len() == 0 {
        Seq::empty()
    } else {
        fir_interpolate_response(coeffs, l, phase_length, history, blocks.first())
            + fir_interpolate_stream(
            coeffs,
            l,
            phase_length,
            advance(history, blocks.first()),
            blocks.drop_first(),
        )
    }
}

/// The history after `blocks` have been consumed one after another.
pub open spec fn advance_all<T>(history: Seq<T>, blocks: Seq<Seq<T>>) -> Seq<T>
    decreases blocks.len(),
{
    if blocks.len() == 0 {
        history
    } else {
        advance_all(advance(history, blocks.first()), blocks.drop_first())
    }
}

/// Consuming a block keeps the length of the history.
pub proof fn lemma_advance_len<T>(history: Seq<T>, block: Seq<T>)
    ensures
        advance(history, block).len() == history.len(),
{
}

/// Consuming two blocks in turn leaves the history that consuming their
/// concatenation leaves.
pub proof fn lemma_advance_concat<T>(history: Seq<T>, a: Seq<T>, b: Seq<T>)
    ensures
        advance(advance(history, a), b) == advance(history, a + b),
{
    assert(advance(advance(history, a), b) =~= advance(history, a + b));
}

/// A window that ends inside the first of two blocks does not see the second.
proof fn lemma_window_first<T>(history: Seq<T>, a: Seq<T>, b: Seq<T>, at: int, len: int)
    requires
        0 <= at,
        0 <= len,
        at + len <= history.len() + a.len(),
    ensures
        window(history + (a + b), at, len) == window(history + a, at, len),
{
    assert(window(history + (a + b), at, len) =~= window(history + a, at, len));
}

/// A window over the second of two blocks sees the history that the first
/// block left.
proof fn lemma_window_second<T>(history: Seq<T>, a: Seq<T>, b: Seq<T>, at: int, len: int)
    requires
        0 <= at,
        0 <= len,
        at + len <= history.len() + b.len(),
    ensures
        window(history + (a + b), at + a.len(), len) == window(advance(history, a) + b, at, len),
{
    assert(window(history + (a + b), at + a.len(), len) =~= window(
        advance(history, a) + b,
        at,
        len,
    ));
}

/// Filtering two blocks in turn gives the output of filtering their
/// concatenation in one call.
pub proof fn lemma_fir_concat<T: Sample>(coeffs: Seq<T>, history: Seq<T>, a: Seq<T>, b: Seq<T>)
    requires
        history.len() + 1 == coeffs.len(),
    ensures
        fir_response(coeffs, history, a + b) == fir_response(coeffs, history, a) + fir_response(
            coeffs,
            advance(history, a),
            b,
        ),
{
    let whole = fir_response(coeffs, history, a + b);
    let parts = fir_response(coeffs, history, a) + fir_response(coeffs, advance(history, a), b);
    let taps = coeffs.len() as int;
    assert forall|i: int| 0 <= i < whole.len() implies whole[i] == parts[i] by {
        if i < a.len() {
            lemma_window_first(history, a, b, i, taps);
        } else {
            lemma_window_second(history, a, b, i - a.len(), taps);
        }
    }
    assert(whole =~= parts);
}

/// Decimating two blocks in turn gives the output of decimating their
/// concatenation in one call, provided the first block is a whole number of
/// decimation steps long.
pub proof fn lemma_fir_decimate_concat<T: Sample>(
    coeffs: Seq<T>,
    m: int,
    history: Seq<T>,
    a: Seq<T>,
    b: Seq<T>,
)
    requires
        history.len() + 1 == coeffs.len(),
        m >= 1,
        a.len() as int % m == 0,
    ensures
        fir_decimate_response(coeffs, m, history, a + b) == fir_decimate_response(
            coeffs,
            m,
            history,
            a,
        ) + fir_decimate_response(coeffs, m, advance(history, a), b),
{
    let whole = fir_decimate_response(coeffs, m, history, a + b);
    let first = fir_decimate_response(coeffs, m, history, a);
    let second = fir_decimate_response(coeffs, m, advance(history, a), b);
    let na = a.len() as int;
    let nb = b.len() as int;
    lemma_fir_concat(coeffs, history, a, b);
    assert((na + nb) / m == na / m + nb / m && na == (na / m) * m) by (nonlinear_arith)
        requires
            m >= 1,
            na % m == 0,
            na >= 0,
            nb >= 0,
    ;
    assert forall|j: int| 0 <= j < whole.len() implies whole[j] == (first + second)[j] by {
        if j < na / m {
            assert(0 <= j * m < na) by (nonlinear_arith)
                requires
                    0 <= j < na / m,
                    na == (na / m) * m,
                    m >= 1,
            ;
        } else {
            let k = j - na / m;
            assert(0 <= k * m < nb && j * m == na + k * m) by (nonlinear_arith)
                requires
                    0 <= k < nb / m,
                    k == j - na / m,
                    na == (na / m) * m,
                    m >= 1,
                    nb >= 0,
            ;
        }
    }
    assert(whole =~= first + second);
}

/// Interpolating two blocks in turn gives the output of interpolating their
/// concatenation in one call.
pub proof fn lemma_fir_interpolate_concat<T: Sample>(
    coeffs: Seq<T>,
    l: int,
    phase_length: int,
    history: Seq<T>,
    a: Seq<T>,
    b: Seq<T>,
)
    requires
        l >= 1,
        history.len() + 1 == phase_length,
    ensures
        fir_interpolate_response(coeffs, l, phase_length, history, a + b)
            == fir_interpolate_response(coeffs, l, phase_length, history, a)
            + fir_interpolate_response(coeffs, l, phase_length, advance(history, a), b),
{
    let whole = fir_interpolate_response(coeffs, l, phase_length, history, a + b);
    let first = fir_interpolate_response(coeffs, l, phase_length, history, a);
    let second = fir_interpolate_response(coeffs, l, phase_length, advance(history, a), b);
    let na = a.len() as int;
    let nb = b.len() as int;
    assert((na + nb) * l == na * l + nb * l && na * l >= 0 && nb * l >= 0) by (nonlinear_arith)
        requires
            l >= 1,
            na >= 0,
            nb >= 0,
    ;
    assert forall|j: int| 0 <= j < whole.len() implies whole[j] == (first + second)[j] by {
        if j < na * l {
            assert(0 <= j / l < na) by (nonlinear_arith)
                requires
                    0 <= j < na * l,
                    l >= 1,
            ;
            lemma_window_first(history, a, b, j / l, phase_length);
        } else {
            let k = j - na * l;
            assert(0 <= k / l < nb && j / l == na + k / l && j % l == k % l) by (nonlinear_arith)
                requires
                    0 <= k < nb * l,
                    k == j - na * l,
                    l >= 1,
                    na >= 0,
            ;
            lemma_window_second(history, a, b, k / l, phase_length);
        }
    }
    assert(whole =~= first + second);
}

/// What a filter answers, and the history it is left with, depends on its
/// delay line through the history alone: two delay lines that agree on their
/// first `taps - 1` samples cannot be told apart by filtering.
pub proof fn lemma_same_history_same_output<T: Sample>(
    coeffs: Seq<T>,
    taps: int,
    first: Seq<T>,
    second: Seq<T>,
    block: Seq<T>,
)
    requires
        history(first, taps) == history(second, taps),
    ensures
        fir_response(coeffs, history(first, taps), block) == fir_response(
            coeffs,
            history(second, taps),
            block,
        ),
        advance(history(first, taps), block) == advance(history(second, taps), block),
{
}

/// Consuming blocks one after another leaves the history that consuming
/// their concatenation leaves.
pub proof fn lemma_advance_all<T>(history: Seq<T>, blocks: Seq<Seq<T>>)
    ensures
        advance_all(history, blocks) == advance(history, blocks.flatten()),
        advance_all(history, blocks).len() == history.len(),
    decreases blocks.len(),
{
    if blocks.len() == 0 {
        assert(advance(history, blocks.flatten()) =~= history);
    } else {
        lemma_advance_all(advance(history, blocks.first()), blocks.drop_first());
        lemma_advance_concat(history, blocks.first(), blocks.drop_first().flatten());
    }
}

/// Streaming: a plain FIR filter that is fed a signal block by block, in
/// blocks of any sizes, produces sample for sample the output of one pass over
/// the whole signal.
pub proof fn theorem_fir_streaming<T: Sample>(
    coeffs: Seq<T>,
    history: Seq<T>,
    blocks: Seq<Seq<T>>,
)
    requires
        history.len() + 1 == coeffs.len(),
    ensures
        fir_stream(coeffs, history, blocks) == fir_response(coeffs, history, blocks.flatten()),
    decreases blocks.len(),
{
    if blocks.len() == 0 {
        assert(fir_response(coeffs, history, blocks.flatten()) =~= Seq::<T>::empty());
    } else {
        theorem_fir_streaming(coeffs, advance(history, blocks.first()), blocks.drop_first());
        lemma_fir_concat(coeffs, history, blocks.first(), blocks.drop_first().flatten());
    }
}

/// Streaming: a decimating FIR filter that is fed a signal in blocks whose
/// sizes are multiples of the decimation factor produces the output of one
/// pass over the whole signal.
pub proof fn theorem_fir_decimate_streaming<T: Sample>(
    coeffs: Seq<T>,
    m: int,
    history: Seq<T>,
    blocks: Seq<Seq<T>>,
)
    requires
        history.len() + 1 == coeffs.len(),
        m >= 1,
        forall|k: int| 0 <= k < blocks.len() ==> (#[trigger] blocks[k]).len() as int % m == 0,
    ensures
        fir_decimate_stream(coeffs, m, history, blocks) == fir_decimate_response(
            coeffs,
            m,
            history,
            blocks.flatten(),
        ),
    decreases blocks.len(),
{
    if blocks.len() == 0 {
        assert(fir_decimate_response(coeffs, m, history, blocks.flatten()) =~= Seq::<T>::empty());
    } else {
        let rest = blocks.drop_first();
        assert forall|k: int| 0 <= k < rest.len() implies (#[trigger] rest[k]).len() as int % m
            == 0 by {
            assert(rest[k] == blocks[k + 1]);
        }
        theorem_fir_decimate_streaming(coeffs, m, advance(history, blocks.first()), rest);
        lemma_fir_decimate_concat(coeffs, m, history, blocks.first(), rest.flatten());
    }
}

/// Streaming: an interpolating FIR filter that is fed a signal block by block
/// produces the output of one pass over the whole signal.
pub proof fn theorem_fir_interpolate_streaming<T: Sample>(
    coeffs: Seq<T>,
    l: int,
    phase_length: int,
    history: Seq<T>,
    blocks: Seq<Seq<T>>,
)
    requires
        l >= 1,
        history.len() + 1 == phase_length,
    ensures
        fir_interpolate_stream(coeffs, l, phase_length, history, blocks)
            == fir_interpolate_response(coeffs, l, phase_length, history, blocks.flatten()),
    decreases blocks.len(),
{
    if blocks.len() == 0 {
        assert(fir_interpolate_response(coeffs, l, phase_length, history, blocks.flatten())
            =~= Seq::<T>::empty());
    } else {
        theorem_fir_interpolate_streaming(
            coeffs,
            l,
            phase_length,
            advance(history, blocks.first()),
            blocks.drop_first(),
        );
        lemma_fir_interpolate_concat(
            coeffs,
            l,
            phase_length,
            history,
            blocks.first(),
            blocks.drop_first().flatten(),
        );
    }
}

} // verus!
