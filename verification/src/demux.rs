//! Splitting one interleaved frame into its axes.

use vstd::prelude::*;
use crate::error::FeatureError;

verus! {

/// The samples of axis `k` in a frame that interleaves `axes` axes: sample `i`
/// of the axis is element `i * axes + k` of the frame.
pub open spec fn axis_signal<T>(frame: Seq<T>, axes: int, k: int) -> Seq<T> {
    Seq::new((frame.len() / axes as nat) as nat, |i: int| frame[i * axes + k])
}

/// The rows of a vector of vectors.
pub open spec fn rows<T>(v: Seq<Vec<T>>) -> Seq<Seq<T>> {
    Seq::new(v.len(), |k: int| v[k]@)
}

/// All axes of a frame, in axis order.
pub open spec fn axis_signals<T>(frame: Seq<T>, axes: int) -> Seq<Seq<T>> {
    Seq::new(axes as nat, |k: int| axis_signal(frame, axes, k))
}

/// An index into an axis is an index into the frame.
pub proof fn lemma_sample_index(len: int, axes: int, k: int, i: int)
    requires
        0 < axes,
        0 <= len,
        0 <= k < axes,
        0 <= i < len / axes,
    ensures
        0 <= i * axes + k < len,
{
    assert((len / axes) * axes <= len) by (nonlinear_arith)
        requires
            0 < axes,
            0 <= len,
    ;
    assert((i + 1) * axes <= (len / axes) * axes) by (nonlinear_arith)
        requires
            0 < axes,
            i + 1 <= len / axes,
    ;
    assert(0 <= i * axes) by (nonlinear_arith)
        requires
            0 < axes,
            0 <= i,
    ;
    assert((i + 1) * axes == i * axes + axes) by (nonlinear_arith);
}

/// Splits an interleaved frame into `axes` signals.
///
/// Fails with `InvalidParameterError` when there is no axis to split into, and
/// with `ShapeError` when the frame's length is not a multiple of `axes`.
/// Otherwise signal `k` holds, in order, the elements `k`, `axes + k`,
/// `2 * axes + k`, ... of the frame.
pub fn demultiplex<T: Copy>(frame: &Vec<T>, axes: usize) -> (r: Result<Vec<Vec<T>>, FeatureError>)
    ensures
        axes == 0 ==> r == Err::<Vec<Vec<T>>, FeatureError>(FeatureError::InvalidParameterError),
        axes > 0 && frame.len() % axes != 0 ==> r == Err::<Vec<Vec<T>>, FeatureError>(
            FeatureError::ShapeError,
        ),
        axes > 0 && frame.len() % axes == 0 ==> r is Ok && rows(r->Ok_0@) == axis_signals(
            frame@,
            axes as int,
        ),
        r matches Ok(signals) ==> signals.len() == axes && forall|k: int|
            0 <= k < axes ==> (#[trigger] signals[k])@ == axis_signal(frame@, axes as int, k),
{
    if axes == 0 {
        return Err(FeatureError::InvalidParameterError);
    }
    if frame.len() % axes != 0 {
        return Err(FeatureError::ShapeError);
    }
    let per: usize = frame.len() / axes;
    let mut signals: Vec<Vec<T>> = Vec::new();
    let mut k: usize = 0;
    while k < axes
        invariant
            0 < axes,
            k <= axes,
            per == frame.len() / axes,
            signals.len() == k,
            forall|a: int| 0 <= a < k ==> (#[trigger] signals[a])@ == axis_signal(frame@, axes as int, a),
        decreases axes - k,
    {
        let mut signal: Vec<T> = Vec::new();
        let mut i: usize = 0;
        while i < per
            invariant
                0 < axes,
                k < axes,
                i <= per,
                per == frame.len() / axes,
                signal.len() == i,
                forall|j: int| 0 <= j < i ==> #[trigger] signal[j] == frame[j * axes + k],
            decreases per - i,
        {
            proof {
                lemma_sample_index(frame.len() as int, axes as int, k as int, i as int);
            }
            signal.push(frame[i * axes + k]);
            i += 1;
        }
        assert(signal@ =~= axis_signal(frame@, axes as int, k as int));
        signals.push(signal);
        k += 1;
    }
    assert(rows(signals@) =~= axis_signals(frame@, axes as int));
    Ok(signals)
}

/// In a frame of three axes, sample `i` of axis `j` is element `3 * i + j` of
/// the frame, and likewise for any number of axes.
pub proof fn lemma_demultiplex_places<T>(frame: Seq<T>, axes: int, j: int, i: int)
    requires
        0 < axes,
        frame.len() % (axes as nat) == 0,
        0 <= j < axes,
        0 <= i < frame.len() / (axes as nat),
    ensures
        axis_signals(frame, axes).len() == axes,
        axis_signals(frame, axes)[j].len() == frame.len() / (axes as nat),
        axis_signals(frame, axes)[j][i] == frame[axes * i + j],
        0 <= axes * i + j < frame.len(),
{
    lemma_sample_index(frame.len() as int, axes, j, i);
    assert(axes * i == i * axes) by (nonlinear_arith);
}

} // verus!
