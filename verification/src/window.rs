//! Cutting a signal into the zero-padded windows that the spectral estimate is
//! taken over.

use vstd::prelude::*;
use crate::demux::rows;
use crate::error::FeatureError;

verus! {

/// How many samples two successive windows share: half a window when windows
/// overlap, none when they do not.
pub open spec fn spec_overlap_samples(nfft: usize, overlap: bool) -> usize {
    if overlap {
        nfft / 2
    } else {
        0
    }
}

/// Computes [`spec_overlap_samples`].
#[verifier::when_used_as_spec(spec_overlap_samples)]
pub fn overlap_samples(nfft: usize, overlap: bool) -> (r: usize)
    ensures
        r == spec_overlap_samples(nfft, overlap),
        nfft > 0 ==> r < nfft,
{
    if overlap {
        nfft / 2
    } else {
        0
    }
}

/// The number of windows that start inside a signal of `len` samples when each
/// starts `stride` samples after the one before: `len / stride`, rounded up.
pub open spec fn window_count(len: int, stride: int) -> int {
    (len + stride - 1) / stride
}

/// The window of `nfft` samples that starts at `start`: the samples of the
/// signal from there on, and `zero` wherever the signal has ended.
pub open spec fn window<T>(signal: Seq<T>, start: int, nfft: int, zero: T) -> Seq<T> {
    Seq::new(
        nfft as nat,
        |j: int|
            if start + j < signal.len() {
                signal[start + j]
            } else {
                zero
            },
    )
}

/// Every window of a signal, in order: window `k` starts at sample
/// `k * (nfft - n_overlap)`.
pub open spec fn windows<T>(signal: Seq<T>, nfft: int, n_overlap: int, zero: T) -> Seq<Seq<T>> {
    Seq::new(
        window_count(signal.len() as int, nfft - n_overlap) as nat,
        |k: int| window(signal, k * (nfft - n_overlap), nfft, zero),
    )
}

/// The windows are those whose start lies inside the signal: `k` counts a
/// window exactly when `k * stride` is less than `len`.
pub proof fn lemma_window_starts(len: int, stride: int, k: int)
    requires
        0 <= len,
        0 < stride,
        0 <= k,
    ensures
        0 <= window_count(len, stride),
        k < window_count(len, stride) <==> k * stride < len,
{
    let c = window_count(len, stride);
    assert(c * stride <= len + stride - 1 < c * stride + stride && 0 <= c) by (nonlinear_arith)
        requires
            c == (len + stride - 1) / stride,
            0 < stride,
            0 <= len,
    ;
    if k < c {
        assert(k * stride + stride <= c * stride) by (nonlinear_arith)
            requires
                k + 1 <= c,
                0 < stride,
        ;
    } else {
        assert(c * stride <= k * stride) by (nonlinear_arith)
            requires
                c <= k,
                0 < stride,
        ;
    }
}

/// A signal that is not empty and no longer than the stride has exactly one
/// window, and an empty signal has none.
pub proof fn lemma_single_window(len: int, stride: int)
    requires
        0 <= len <= stride,
        0 < stride,
    ensures
        window_count(len, stride) == (if len == 0 {
            0int
        } else {
            1int
        }),
{
    lemma_window_starts(len, stride, 0);
    lemma_window_starts(len, stride, 1);
    assert(0 * stride == 0 && 1 * stride == stride) by (nonlinear_arith);
}

/// Computes [`window_count`].
pub fn count_windows(len: usize, stride: usize) -> (r: usize)
    requires
        0 < stride,
    ensures
        r == window_count(len as int, stride as int),
{
    let whole: usize = len / stride;
    let rest: usize = len % stride;
    proof {
        let c = window_count(len as int, stride as int);
        lemma_window_starts(len as int, stride as int, whole as int);
        lemma_window_starts(len as int, stride as int, whole + 1);
        assert(len == whole * stride + rest && 0 <= rest < stride) by (nonlinear_arith)
            requires
                whole == len / stride,
                rest == len % stride,
                0 < stride,
        ;
        assert((whole + 1) * stride == whole * stride + stride) by (nonlinear_arith);
        if rest != 0 {
            assert(whole * 2 <= whole * stride) by (nonlinear_arith)
                requires
                    2 <= stride,
                    0 <= whole,
            ;
        }
        if whole > 0 {
            lemma_window_starts(len as int, stride as int, whole - 1);
            assert((whole - 1) * stride == whole * stride - stride) by (nonlinear_arith);
        }
    }
    if rest == 0 {
        whole
    } else {
        whole + 1
    }
}

/// Copies one window out of a signal.
pub fn padded_frame<T: Copy>(signal: &Vec<T>, start: usize, nfft: usize, zero: T) -> (r: Vec<T>)
    ensures
        r@ == window(signal@, start as int, nfft as int, zero),
{
    let mut frame: Vec<T> = Vec::new();
    let available: usize = if start < signal.len() {
        signal.len() - start
    } else {
        0
    };
    let mut j: usize = 0;
    while j < nfft
        invariant
            j <= nfft,
            frame.len() == j,
            available == (if start < signal.len() {
                signal.len() - start
            } else {
                0
            }),
            forall|i: int| 0 <= i < j ==> #[trigger] frame[i] == window(signal@, start as int, nfft as int, zero)[i],
        decreases nfft - j,
    {
        if j < available {
            frame.push(signal[start + j]);
        } else {
            frame.push(zero);
        }
        j += 1;
    }
    assert(frame@ =~= window(signal@, start as int, nfft as int, zero));
    frame
}

/// Cuts a signal into windows of `nfft` samples, each starting
/// `nfft - n_overlap` samples after the one before, as long as the start lies
/// inside the signal. A window that reaches past the end of the signal is
/// filled up with `zero`.
pub fn cut_windows<T: Copy>(signal: &Vec<T>, nfft: usize, n_overlap: usize, zero: T) -> (cut: Vec<
    Vec<T>,
>)
    requires
        n_overlap < nfft,
    ensures
        rows(cut@) == windows(signal@, nfft as int, n_overlap as int, zero),
        cut.len() == window_count(signal.len() as int, nfft - n_overlap),
        forall|k: int|
            0 <= k < cut.len() ==> (#[trigger] cut[k])@ == window(
                signal@,
                k * (nfft - n_overlap),
                nfft as int,
                zero,
            ),
{
    let stride: usize = nfft - n_overlap;
    let len: usize = signal.len();
    let mut cut: Vec<Vec<T>> = Vec::new();
    let mut start: usize = 0;
    let mut done: bool = len == 0;
    proof {
        lemma_window_starts(len as int, stride as int, 0);
        assert(0 * (stride as int) == 0) by (nonlinear_arith);
    }
    while !done
        invariant
            0 < stride,
            stride == nfft - n_overlap,
            len == signal.len(),
            !done ==> start == cut.len() * stride && start < len,
            done ==> cut.len() == window_count(len as int, stride as int),
            cut.len() <= window_count(len as int, stride as int),
            forall|k: int|
                0 <= k < cut.len() ==> (#[trigger] cut[k])@ == window(
                    signal@,
                    k * stride,
                    nfft as int,
                    zero,
                ),
        decreases len - start + (if done {
            0int
        } else {
            1int
        }),
    {
        let ghost k = cut.len() as int;
        proof {
            lemma_window_starts(len as int, stride as int, k);
            lemma_window_starts(len as int, stride as int, k + 1);
            assert((k + 1) * stride == k * stride + stride) by (nonlinear_arith);
        }
        let frame = padded_frame(signal, start, nfft, zero);
        cut.push(frame);
        if len - start <= stride {
            done = true;
        } else {
            start += stride;
        }
    }
    assert(rows(cut@) =~= windows(signal@, nfft as int, n_overlap as int, zero));
    cut
}

/// Cuts a signal into windows as [`cut_windows`] does, after checking the
/// parameters.
///
/// Fails with `InvalidParameterError` when `nfft` is zero or the overlap leaves
/// no step between two windows.
pub fn frames<T: Copy>(signal: &Vec<T>, nfft: usize, n_overlap: usize, zero: T) -> (r: Result<
    Vec<Vec<T>>,
    FeatureError,
>)
    ensures
        nfft == 0 || n_overlap >= nfft ==> r == Err::<Vec<Vec<T>>, FeatureError>(
            FeatureError::InvalidParameterError,
        ),
        0 < nfft && n_overlap < nfft ==> r is Ok && rows(r->Ok_0@) == windows(
            signal@,
            nfft as int,
            n_overlap as int,
            zero,
        ),
        r matches Ok(cut) ==> cut.len() == window_count(signal.len() as int, nfft - n_overlap)
            && forall|k: int|
            0 <= k < cut.len() ==> (#[trigger] cut[k])@ == window(
                signal@,
                k * (nfft - n_overlap),
                nfft as int,
                zero,
            ),
{
    if nfft == 0 || n_overlap >= nfft {
        return Err(FeatureError::InvalidParameterError);
    }
    Ok(cut_windows(signal, nfft, n_overlap, zero))
}

} // verus!
