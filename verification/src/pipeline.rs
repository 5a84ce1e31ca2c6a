//! The extraction of one frame, step by step.
//!
//! An [`Extraction`] knows what has to be computed next (its [`Task`]) and
//! what to do with the result (the [`Reply`]). The caller computes, the
//! extraction decides: which axis comes next, how the windows are cut, which
//! power is held at each bin, whether the spectrum is described and
//! compressed, and where each value goes in the feature vector.

use vstd::prelude::*;
use crate::assembler::{axis_block, axis_feature_len, axis_features, feature_len, lemma_axis_block_len};
use crate::binary64::{spec_is_zero, ZERO};
use crate::config::{rejection, Config};
use crate::demux::{axis_signal, axis_signals, demultiplex, rows};
use crate::descriptor::{skew, spec_skew, Moments};
use crate::error::FeatureError;
use crate::spectrum::{floored, max_held, max_hold, spec_bin_count, zero_handling};
use crate::window::{
    count_windows, cut_windows, lemma_window_starts, overlap_samples, spec_overlap_samples, window_count,
    windows,
};

verus! {

/// Where the extraction stands within the current axis.
#[derive(Clone, Copy, Debug, PartialEq, Eq, Structural)]
pub enum Stage {
    /// The axis is to be centered.
    Centering,
    /// The centered signal is to be described.
    TimeMoments,
    /// Each window of the centered signal is to be transformed.
    Transforming,
    /// The held power spectrum is to be described.
    SpectralMoments,
    /// The logarithm of the held power spectrum is to be taken.
    Compressing,
    /// Every axis is done.
    Finished,
}

/// What the caller has to compute next.
#[derive(Debug)]
pub enum Task {
    /// Subtract from every sample the mean of the whole signal. The signal is
    /// never empty.
    Center(Vec<u64>),
    /// Report the [`Moments`] of the values.
    Describe(Vec<u64>),
    /// Transform each window and report its one-sided power spectrum: for each
    /// bin from 0 to half the window's length, the squared magnitude of the
    /// forward transform at that bin over the window's length. No taper is
    /// applied before the transform.
    Transform(Vec<Vec<u64>>),
    /// Report the base-10 logarithm of each value. No value is zero.
    Logarithm(Vec<u64>),
    /// Nothing: this is the feature vector.
    Finished(Vec<u64>),
}

/// What a [`Task`] holds, as sequences.
pub enum TaskView {
    Center(Seq<u64>),
    Describe(Seq<u64>),
    Transform(Seq<Seq<u64>>),
    Logarithm(Seq<u64>),
    Finished(Seq<u64>),
}

impl View for Task {
    type V = TaskView;

    open spec fn view(&self) -> TaskView {
        match self {
            Task::Center(signal) => TaskView::Center(signal@),
            Task::Describe(values) => TaskView::Describe(values@),
            Task::Transform(cut) => TaskView::Transform(rows(cut@)),
            Task::Logarithm(values) => TaskView::Logarithm(values@),
            Task::Finished(features) => TaskView::Finished(features@),
        }
    }
}

/// What the caller has computed.
#[derive(Debug)]
pub enum Reply {
    /// The centered signal, in answer to [`Task::Center`].
    Signal(Vec<u64>),
    /// The moments, in answer to [`Task::Describe`].
    Moments(Moments),
    /// The power spectrum of each window, in the order of the windows, in
    /// answer to [`Task::Transform`].
    Spectra(Vec<Vec<u64>>),
    /// The logarithms, in answer to [`Task::Logarithm`].
    Values(Vec<u64>),
}

/// What a [`Reply`] holds, as sequences.
pub enum ReplyView {
    Signal(Seq<u64>),
    Moments(Moments),
    Spectra(Seq<Seq<u64>>),
    Values(Seq<u64>),
}

impl View for Reply {
    type V = ReplyView;

    open spec fn view(&self) -> ReplyView {
        match self {
            Reply::Signal(signal) => ReplyView::Signal(signal@),
            Reply::Moments(moments) => ReplyView::Moments(*moments),
            Reply::Spectra(spectra) => ReplyView::Spectra(rows(spectra@)),
            Reply::Values(values) => ReplyView::Values(values@),
        }
    }
}

/// The state of an extraction.
pub struct State {
    /// Number of points of each transform.
    pub fft_length: int,
    /// Number of samples that two successive windows share.
    pub n_overlap: int,
    /// Whether powers are reported as logarithms.
    pub do_log: bool,
    /// Whether the power spectrum is described.
    pub spectral_stats: bool,
    /// The axes of the frame, as they were split.
    pub signals: Seq<Seq<u64>>,
    /// The axis at work; the number of axes once all are done.
    pub axis: int,
    /// Where the axis at work stands.
    pub stage: Stage,
    /// The centered signal of the axis at work, once it is known.
    pub centered: Seq<u64>,
    /// The moments of the centered signal, once they are known.
    pub time: Moments,
    /// The held power spectrum of the axis at work, once it is known.
    pub held: Seq<u64>,
    /// The moments of the held power spectrum, once they are known.
    pub spectral: Moments,
    /// The features of the axes that are done.
    pub features: Seq<u64>,
}

impl State {
    /// The state in which the extraction of a frame starts: the frame is
    /// split, and the first axis is to be centered.
    pub open spec fn start(
        fft_length: i32,
        do_fft_overlap: bool,
        do_log: bool,
        spectral_stats: bool,
        frame: Seq<u64>,
        axes: int,
    ) -> State {
        State {
            fft_length: fft_length as int,
            n_overlap: spec_overlap_samples(fft_length as usize, do_fft_overlap) as int,
            do_log,
            spectral_stats,
            signals: axis_signals(frame, axes),
            axis: 0,
            stage: Stage::Centering,
            centered: Seq::empty(),
            time: Moments { rms: ZERO, deviation: ZERO, skewness: ZERO, kurtosis: ZERO },
            held: Seq::empty(),
            spectral: Moments { rms: ZERO, deviation: ZERO, skewness: ZERO, kurtosis: ZERO },
            features: Seq::empty(),
        }
    }

    /// The number of bins of each power spectrum.
    pub open spec fn bins(self) -> int {
        spec_bin_count(self.fft_length)
    }

    /// What holds of every state that an extraction reaches.
    pub open spec fn inv(self) -> bool {
        &&& 0 <= self.n_overlap < self.fft_length
        &&& self.signals.len() > 0
        &&& forall|k: int| 0 <= k < self.signals.len() ==> (#[trigger] self.signals[k]).len() > 0
        &&& 0 <= self.axis <= self.signals.len()
        &&& (self.stage == Stage::Finished <==> self.axis == self.signals.len())
        &&& self.features.len() == feature_len(self.axis, self.fft_length, self.spectral_stats)
        &&& (self.stage == Stage::SpectralMoments || self.stage == Stage::Compressing)
            ==> self.held.len() == self.bins()
        &&& self.stage == Stage::SpectralMoments ==> self.spectral_stats
        &&& self.stage == Stage::Compressing ==> self.do_log
    }

    /// What is to be computed next.
    pub open spec fn task(self) -> TaskView {
        match self.stage {
            Stage::Centering => TaskView::Center(self.signals[self.axis]),
            Stage::TimeMoments => TaskView::Describe(self.centered),
            Stage::Transforming => TaskView::Transform(
                windows(self.centered, self.fft_length, self.n_overlap, ZERO),
            ),
            Stage::SpectralMoments => TaskView::Describe(self.held),
            Stage::Compressing => TaskView::Logarithm(floored(self.held)),
            Stage::Finished => TaskView::Finished(self.features),
        }
    }

    /// Whether a reply answers the task: it is of the kind that the task asks
    /// for, and it has the task's shape. A centered signal is as long as the
    /// axis; there is one power spectrum for each window, with one power for
    /// each bin; there is one logarithm for each bin.
    pub open spec fn accepts(self, reply: ReplyView) -> bool {
        match reply {
            ReplyView::Signal(signal) => self.stage == Stage::Centering && signal.len()
                == self.signals[self.axis].len(),
            ReplyView::Moments(_) => self.stage == Stage::TimeMoments || self.stage
                == Stage::SpectralMoments,
            ReplyView::Spectra(spectra) => self.stage == Stage::Transforming && spectra.len()
                == window_count(self.centered.len() as int, self.fft_length - self.n_overlap)
                && forall|k: int|
                0 <= k < spectra.len() ==> (#[trigger] spectra[k]).len() == self.bins(),
            ReplyView::Values(values) => self.stage == Stage::Compressing && values.len()
                == self.held.len(),
        }
    }

    /// The statistics of the spectrum that go into the feature vector, where
    /// they are asked for: its skewness by the rule for sequences without
    /// spread, and its kurtosis as reported.
    pub open spec fn spectral_features(self) -> Option<(u64, u64)> {
        if self.spectral_stats {
            Some((spec_skew(self.held.len() as int, self.spectral), self.spectral.kurtosis))
        } else {
            None
        }
    }

    /// The state after the axis at work is done, its spectrum being reported
    /// as `bins`: the features of the axis are appended, and the next axis, if
    /// there is one, is to be centered.
    pub open spec fn close(self, bins: Seq<u64>) -> State {
        State {
            axis: self.axis + 1,
            stage: if self.axis + 1 < self.signals.len() {
                Stage::Centering
            } else {
                Stage::Finished
            },
            features: self.features + axis_block(
                self.time.rms,
                spec_skew(self.centered.len() as int, self.time),
                self.time.kurtosis,
                self.spectral_features(),
                bins,
            ),
            ..self
        }
    }

    /// The state after the spectrum of the axis at work is held and, where
    /// asked for, described: its logarithm is to be taken, or, where powers are
    /// reported as they are, the axis is done.
    pub open spec fn compress_or_close(self) -> State {
        if self.do_log {
            State { stage: Stage::Compressing, ..self }
        } else {
            self.close(self.held)
        }
    }

    /// The state after a reply. A reply that does not answer the task changes
    /// nothing.
    ///
    /// The spectrum is described before its logarithm is taken, so its
    /// skewness and kurtosis are those of the linear powers.
    pub open spec fn next(self, reply: ReplyView) -> State {
        if !self.accepts(reply) {
            self
        } else {
            match reply {
                ReplyView::Signal(signal) => State {
                    stage: Stage::TimeMoments,
                    centered: signal,
                    ..self
                },
                ReplyView::Moments(moments) => if self.stage == Stage::TimeMoments {
                    State { stage: Stage::Transforming, time: moments, ..self }
                } else {
                    (State { spectral: moments, ..self }).compress_or_close()
                },
                ReplyView::Spectra(spectra) => {
                    let held = State { held: max_held(spectra, self.bins()), ..self };
                    if self.spectral_stats {
                        State { stage: Stage::SpectralMoments, ..held }
                    } else {
                        held.compress_or_close()
                    }
                },
                ReplyView::Values(values) => self.close(values),
            }
        }
    }

    /// Whether the parameters and the frame are those of `other`.
    pub open spec fn same_frame(self, other: State) -> bool {
        &&& self.fft_length == other.fft_length
        &&& self.n_overlap == other.n_overlap
        &&& self.do_log == other.do_log
        &&& self.spectral_stats == other.spectral_stats
        &&& self.signals == other.signals
    }

    /// The largest number of replies that are still needed: five for each axis
    /// that is not done, less those that the axis at work has had.
    pub open spec fn replies_left(self) -> int {
        5 * (self.signals.len() - self.axis) - match self.stage {
            Stage::Centering => 0int,
            Stage::TimeMoments => 1int,
            Stage::Transforming => 2int,
            Stage::SpectralMoments => 3int,
            Stage::Compressing => 4int,
            Stage::Finished => 0int,
        }
    }
}

/// Every reply that answers the task leads to a state that an extraction may
/// be in, leaves the parameters and the frame as they are, and brings the end
/// nearer: an extraction takes at most five replies for each axis.
pub proof fn lemma_next_keeps_inv(state: State, reply: ReplyView)
    requires
        state.inv(),
        state.accepts(reply),
    ensures
        state.next(reply).inv(),
        state.next(reply).same_frame(state),
        0 <= state.next(reply).replies_left() < state.replies_left(),
{
    let after = state.next(reply);
    let per = axis_feature_len(state.fft_length, state.spectral_stats);
    assert((state.axis + 1) * per == state.axis * per + per) by (nonlinear_arith);
    if after.axis == state.axis + 1 {
        let closing = if state.stage == Stage::SpectralMoments {
            State { spectral: reply->Moments_0, ..state }
        } else if state.stage == Stage::Transforming {
            State { held: max_held(reply->Spectra_0, state.bins()), ..state }
        } else {
            state
        };
        let reported = if state.stage == Stage::Compressing {
            reply->Values_0
        } else {
            closing.held
        };
        assert(after == closing.close(reported));
        lemma_axis_block_len(
            closing.time.rms,
            spec_skew(closing.centered.len() as int, closing.time),
            closing.time.kurtosis,
            closing.spectral_features(),
            reported,
            state.fft_length,
        );
    }
}

/// When every axis is done, the feature vector holds, for each axis, three
/// statistics of the signal, two of the spectrum where they are asked for, and
/// one power for each bin but bin 0.
pub proof fn lemma_finished_length(state: State)
    requires
        state.inv(),
        state.stage == Stage::Finished,
    ensures
        state.task() == TaskView::Finished(state.features),
        state.features.len() == state.signals.len() * (3 + (if state.spectral_stats {
            2int
        } else {
            0int
        }) + state.fft_length / 2),
        state.replies_left() == 0,
{
}

/// What the caller reports for one axis.
pub struct AxisReplies {
    /// The centered signal.
    pub centered: Seq<u64>,
    /// The moments of the centered signal.
    pub time: Moments,
    /// The power spectrum of each window of the centered signal.
    pub spectra: Seq<Seq<u64>>,
    /// The moments of the held power spectrum. Not asked for, and without
    /// effect, where the spectrum is not described.
    pub spectral: Moments,
    /// The logarithms of the held power spectrum, its zeros replaced. Not asked
    /// for, and without effect, where powers are reported as they are.
    pub logarithms: Seq<u64>,
}

impl State {
    /// Whether the replies have the shape that the tasks for `axis` ask for.
    pub open spec fn fits(self, axis: int, replies: AxisReplies) -> bool {
        &&& replies.centered.len() == self.signals[axis].len()
        &&& replies.spectra.len() == window_count(
            replies.centered.len() as int,
            self.fft_length - self.n_overlap,
        )
        &&& forall|k: int|
            0 <= k < replies.spectra.len() ==> (#[trigger] replies.spectra[k]).len() == self.bins()
        &&& replies.logarithms.len() == self.bins()
    }

    /// The features of an axis for which the caller reports `replies`: root
    /// mean square, skewness and kurtosis of the centered signal; skewness and
    /// kurtosis of the held power spectrum, taken before any logarithm, where
    /// the spectrum is described; then, for every bin but bin 0, the held power
    /// or, where powers are reported as logarithms, the logarithm that was
    /// reported. The skewness of a sequence without spread is zero; the
    /// kurtosis is always the reported one.
    pub open spec fn block(self, replies: AxisReplies) -> Seq<u64> {
        axis_block(
            replies.time.rms,
            spec_skew(replies.centered.len() as int, replies.time),
            replies.time.kurtosis,
            if self.spectral_stats {
                Some((spec_skew(self.bins(), replies.spectral), replies.spectral.kurtosis))
            } else {
                None
            },
            if self.do_log {
                replies.logarithms
            } else {
                max_held(replies.spectra, self.bins())
            },
        )
    }

    /// The state after the replies for one axis, in the order in which they
    /// are asked for: the centered signal, its moments, the power spectra of
    /// its windows, then the moments of the held spectrum where the spectrum is
    /// described, then the logarithms where powers are reported as logarithms.
    pub open spec fn after_axis(self, replies: AxisReplies) -> State {
        let held = self.next(ReplyView::Signal(replies.centered)).next(
            ReplyView::Moments(replies.time),
        ).next(ReplyView::Spectra(replies.spectra));
        let described = if self.spectral_stats {
            held.next(ReplyView::Moments(replies.spectral))
        } else {
            held
        };
        if self.do_log {
            described.next(ReplyView::Values(replies.logarithms))
        } else {
            described
        }
    }

    /// The state after the replies for several axes, one after the other.
    pub open spec fn after_axes(self, replies: Seq<AxisReplies>) -> State
        decreases replies.len(),
    {
        if replies.len() == 0 {
            self
        } else {
            self.after_axes(replies.drop_last()).after_axis(replies.last())
        }
    }

    /// The features of several axes, one block after the other.
    pub open spec fn blocks(self, replies: Seq<AxisReplies>) -> Seq<u64>
        decreases replies.len(),
    {
        if replies.len() == 0 {
            Seq::empty()
        } else {
            self.blocks(replies.drop_last()) + self.block(replies.last())
        }
    }
}

/// The replies for one axis append exactly the features of that axis, and
/// change nothing else but the axis at work.
pub proof fn lemma_axis_features(state: State, replies: AxisReplies)
    requires
        state.inv(),
        state.stage == Stage::Centering,
        state.fits(state.axis, replies),
    ensures
        state.after_axis(replies).inv(),
        state.after_axis(replies).same_frame(state),
        state.after_axis(replies).axis == state.axis + 1,
        state.after_axis(replies).stage == Stage::Centering || state.after_axis(replies).stage
            == Stage::Finished,
        state.after_axis(replies).features == state.features + state.block(replies),
{
    let s1 = state.next(ReplyView::Signal(replies.centered));
    lemma_next_keeps_inv(state, ReplyView::Signal(replies.centered));
    let s2 = s1.next(ReplyView::Moments(replies.time));
    lemma_next_keeps_inv(s1, ReplyView::Moments(replies.time));
    let s3 = s2.next(ReplyView::Spectra(replies.spectra));
    lemma_next_keeps_inv(s2, ReplyView::Spectra(replies.spectra));
    if state.spectral_stats {
        lemma_next_keeps_inv(s3, ReplyView::Moments(replies.spectral));
        let s4 = s3.next(ReplyView::Moments(replies.spectral));
        if state.do_log {
            lemma_next_keeps_inv(s4, ReplyView::Values(replies.logarithms));
        }
    } else {
        if state.do_log {
            lemma_next_keeps_inv(s3, ReplyView::Values(replies.logarithms));
        }
    }
}

/// Axes are processed one after the other, in the order of the frame, and
/// independently: the replies for some axes append the blocks of those axes,
/// in order, and each block depends on the replies for its own axis alone.
pub proof fn lemma_axes_features(state: State, replies: Seq<AxisReplies>)
    requires
        state.inv(),
        state.stage == Stage::Centering,
        state.axis + replies.len() <= state.signals.len(),
        forall|k: int|
            0 <= k < replies.len() ==> state.fits(state.axis + k, #[trigger] replies[k]),
    ensures
        state.after_axes(replies).inv(),
        state.after_axes(replies).same_frame(state),
        state.after_axes(replies).axis == state.axis + replies.len(),
        state.after_axes(replies).stage == Stage::Centering || state.after_axes(replies).stage
            == Stage::Finished,
        state.after_axes(replies).features == state.features + state.blocks(replies),
    decreases replies.len(),
{
    if replies.len() > 0 {
        let before = state.after_axes(replies.drop_last());
        lemma_axes_features(state, replies.drop_last());
        assert(before.fits(before.axis, replies.last()));
        lemma_axis_features(before, replies.last());
        assert(before.block(replies.last()) == state.block(replies.last()));
        assert(state.features + state.blocks(replies.drop_last()) + state.block(replies.last())
            =~= state.features + state.blocks(replies));
    } else {
        assert(state.features + state.blocks(replies) =~= state.features);
    }
}

/// The extraction of a frame that is not refused starts in a state that an
/// extraction may be in, and its first task is to center the first axis.
pub proof fn lemma_start(
    sampling_freq: i32,
    fft_length: i32,
    do_fft_overlap: bool,
    do_log: bool,
    spectral_stats: bool,
    frame: Seq<u64>,
    axes: int,
)
    requires
        0 <= axes,
        rejection(sampling_freq, fft_length, frame.len() as int, axes) is None,
    ensures
        State::start(fft_length, do_fft_overlap, do_log, spectral_stats, frame, axes).inv(),
        State::start(fft_length, do_fft_overlap, do_log, spectral_stats, frame, axes).task()
            == TaskView::Center(axis_signal(frame, axes, 0)),
{
    let count = axes as nat;
    let len = frame.len();
    assert(len / count > 0) by (nonlinear_arith)
        requires
            count > 0,
            len > 0,
            len % count == 0,
    ;
    assert(feature_len(0, fft_length as int, spectral_stats) == 0) by (nonlinear_arith);
}

/// The whole extraction: once the caller has answered the tasks of every
/// axis of a frame that is not refused, the extraction is finished, and the
/// feature vector is the blocks of the axes in the order of the axes.
pub proof fn lemma_extraction(
    sampling_freq: i32,
    fft_length: i32,
    do_fft_overlap: bool,
    do_log: bool,
    spectral_stats: bool,
    frame: Seq<u64>,
    axes: int,
    replies: Seq<AxisReplies>,
)
    requires
        0 <= axes,
        rejection(sampling_freq, fft_length, frame.len() as int, axes) is None,
        replies.len() == axes,
        forall|k: int|
            0 <= k < axes ==> State::start(
                fft_length,
                do_fft_overlap,
                do_log,
                spectral_stats,
                frame,
                axes,
            ).fits(k, #[trigger] replies[k]),
    ensures
        ({
            let start = State::start(fft_length, do_fft_overlap, do_log, spectral_stats, frame, axes);
            let end = start.after_axes(replies);
            &&& end.stage == Stage::Finished
            &&& end.task() == TaskView::Finished(start.blocks(replies))
            &&& end.features.len() == feature_len(axes, fft_length as int, spectral_stats)
        }),
{
    let start = State::start(fft_length, do_fft_overlap, do_log, spectral_stats, frame, axes);
    lemma_start(sampling_freq, fft_length, do_fft_overlap, do_log, spectral_stats, frame, axes);
    lemma_axes_features(start, replies);
    assert(start.features + start.blocks(replies) =~= start.blocks(replies));
}

/// What a task holds. A signal to center is one axis of the frame and is not
/// empty; the windows to transform are those of the centered signal, each of
/// the transform's length; among the values whose logarithm is asked for there
/// is no zero.
pub proof fn lemma_task_shape(state: State)
    requires
        state.inv(),
    ensures
        state.task() matches TaskView::Center(signal) ==> signal.len() > 0 && signal
            == state.signals[state.axis],
        state.task() matches TaskView::Transform(cut) ==> cut.len() == window_count(
            state.centered.len() as int,
            state.fft_length - state.n_overlap,
        ) && forall|k: int| 0 <= k < cut.len() ==> (#[trigger] cut[k]).len() == state.fft_length,
        state.task() matches TaskView::Logarithm(values) ==> values.len() == state.bins()
            && forall|i: int| 0 <= i < values.len() ==> !spec_is_zero(#[trigger] values[i]),
{
    if state.stage == Stage::Transforming {
        lemma_window_starts(state.centered.len() as int, state.fft_length - state.n_overlap, 0);
    }
}

/// The extraction of one frame.
pub struct Extraction {
    fft_length: usize,
    n_overlap: usize,
    do_log: bool,
    spectral_stats: bool,
    signals: Vec<Vec<u64>>,
    axis: usize,
    stage: Stage,
    centered: Vec<u64>,
    time: Moments,
    held: Vec<u64>,
    spectral: Moments,
    features: Vec<u64>,
}

impl View for Extraction {
    type V = State;

    closed spec fn view(&self) -> State {
        State {
            fft_length: self.fft_length as int,
            n_overlap: self.n_overlap as int,
            do_log: self.do_log,
            spectral_stats: self.spectral_stats,
            signals: rows(self.signals@),
            axis: self.axis as int,
            stage: self.stage,
            centered: self.centered@,
            time: self.time,
            held: self.held@,
            spectral: self.spectral,
            features: self.features@,
        }
    }
}

/// A copy of the values.
fn copy_of(values: &Vec<u64>) -> (r: Vec<u64>)
    ensures
        r@ == values@,
{
    let mut copy: Vec<u64> = Vec::new();
    let mut i: usize = 0;
    while i < values.len()
        invariant
            i <= values.len(),
            copy@ == values@.take(i as int),
        decreases values.len() - i,
    {
        copy.push(values[i]);
        assert(values@.take(i as int).push(values[i as int]) =~= values@.take(i + 1));
        i += 1;
    }
    assert(values@.take(values.len() as int) =~= values@);
    copy
}

/// Whether there are `count` rows of `width` values each.
fn has_shape(grid: &Vec<Vec<u64>>, count: usize, width: usize) -> (r: bool)
    ensures
        r == (grid.len() == count && forall|k: int|
            0 <= k < grid.len() ==> (#[trigger] rows(grid@)[k]).len() == width),
{
    if grid.len() != count {
        return false;
    }
    let mut k: usize = 0;
    while k < grid.len()
        invariant
            k <= grid.len(),
            forall|j: int| 0 <= j < k ==> (#[trigger] rows(grid@)[j]).len() == width,
        decreases grid.len() - k,
    {
        if grid[k].len() != width {
            assert(rows(grid@)[k as int].len() != width);
            return false;
        }
        k += 1;
    }
    true
}

impl Extraction {
    #[verifier::type_invariant]
    closed spec fn well_formed(&self) -> bool {
        self@.inv()
    }

    /// What is to be computed next.
    pub fn task(&self) -> (t: Task)
        ensures
            self@.inv(),
            t@ == self@.task(),
    {
        proof {
            use_type_invariant(self);
        }
        match self.stage {
            Stage::Centering => Task::Center(copy_of(&self.signals[self.axis])),
            Stage::TimeMoments => Task::Describe(copy_of(&self.centered)),
            Stage::Transforming => Task::Transform(
                cut_windows(&self.centered, self.fft_length, self.n_overlap, ZERO),
            ),
            Stage::SpectralMoments => Task::Describe(copy_of(&self.held)),
            Stage::Compressing => {
                let mut values = copy_of(&self.held);
                zero_handling(&mut values);
                Task::Logarithm(values)
            },
            Stage::Finished => Task::Finished(copy_of(&self.features)),
        }
    }

    /// Whether every axis is done.
    pub fn is_finished(&self) -> (r: bool)
        ensures
            r == (self@.stage == Stage::Finished),
    {
        self.stage == Stage::Finished
    }

    /// Whether a reply answers the task.
    pub fn accepts(&self, reply: &Reply) -> (r: bool)
        ensures
            r == self@.accepts(reply@),
    {
        proof {
            use_type_invariant(self);
        }
        match reply {
            Reply::Signal(signal) => self.stage == Stage::Centering && signal.len()
                == self.signals[self.axis].len(),
            Reply::Moments(_) => self.stage == Stage::TimeMoments || self.stage
                == Stage::SpectralMoments,
            Reply::Spectra(spectra) => {
                self.stage == Stage::Transforming && has_shape(
                    spectra,
                    count_windows(self.centered.len(), self.fft_length - self.n_overlap),
                    self.fft_length / 2 + 1,
                )
            },
            Reply::Values(values) => self.stage == Stage::Compressing && values.len()
                == self.held.len(),
        }
    }

    /// Appends the features of the axis at work and turns to the next axis.
    fn close(self, bins: &Vec<u64>) -> (next: Extraction)
        requires
            self@.stage != Stage::Finished,
            bins.len() == self@.bins(),
        ensures
            next@ == self@.close(bins@),
    {
        proof {
            use_type_invariant(&self);
            assert(self@.signals.len() == self.signals.len());
            assert(self.axis < self.signals.len());
        }
        let spectral = if self.spectral_stats {
            Some((skew(self.held.len(), &self.spectral), self.spectral.kurtosis))
        } else {
            None
        };
        let mut block = axis_features(
            self.time.rms,
            skew(self.centered.len(), &self.time),
            self.time.kurtosis,
            spectral,
            bins,
        );
        let ghost before = self@;
        let next_axis: usize = self.axis + 1;
        let stage = if next_axis < self.signals.len() {
            Stage::Centering
        } else {
            Stage::Finished
        };
        let Extraction {
            fft_length,
            n_overlap,
            do_log,
            spectral_stats,
            signals,
            axis: _,
            stage: _,
            centered,
            time,
            held,
            spectral,
            mut features,
        } = self;
        features.append(&mut block);
        proof {
            let per = axis_feature_len(before.fft_length, before.spectral_stats);
            assert((before.axis + 1) * per == before.axis * per + per) by (nonlinear_arith);
            lemma_axis_block_len(
                before.time.rms,
                spec_skew(before.centered.len() as int, before.time),
                before.time.kurtosis,
                before.spectral_features(),
                bins@,
                before.fft_length,
            );
        }
        Extraction {
            fft_length,
            n_overlap,
            do_log,
            spectral_stats,
            signals,
            axis: next_axis,
            stage,
            centered,
            time,
            held,
            spectral,
            features,
        }
    }

    /// Turns to the logarithm of the held spectrum, or, where powers are
    /// reported as they are, closes the axis.
    fn compress_or_close(self) -> (next: Extraction)
        requires
            self@.stage == Stage::Transforming || self@.stage == Stage::SpectralMoments,
            self@.held.len() == self@.bins(),
        ensures
            next@ == self@.compress_or_close(),
    {
        proof {
            use_type_invariant(&self);
        }
        if self.do_log {
            Extraction { stage: Stage::Compressing, ..self }
        } else {
            let bins = copy_of(&self.held);
            self.close(&bins)
        }
    }

    /// Takes a reply and moves on to the next task. A reply that does not
    /// answer the task changes nothing.
    pub fn advance(self, reply: Reply) -> (next: Extraction)
        ensures
            next@ == self@.next(reply@),
            next@.inv(),
    {
        proof {
            use_type_invariant(&self);
            if self@.accepts(reply@) {
                lemma_next_keeps_inv(self@, reply@);
            }
        }
        if !self.accepts(&reply) {
            return self;
        }
        match reply {
            Reply::Signal(signal) => Extraction {
                stage: Stage::TimeMoments,
                centered: signal,
                ..self
            },
            Reply::Moments(moments) => {
                if self.stage == Stage::TimeMoments {
                    Extraction { stage: Stage::Transforming, time: moments, ..self }
                } else {
                    let described = Extraction { spectral: moments, ..self };
                    described.compress_or_close()
                }
            },
            Reply::Spectra(spectra) => {
                assert forall|k: int| 0 <= k < spectra.len() implies (#[trigger] spectra[k]).len()
                    == self@.bins() by {
                    assert(rows(spectra@)[k] == spectra[k]@);
                }
                let powers = max_hold(&spectra, self.fft_length / 2 + 1);
                if self.spectral_stats {
                    Extraction { stage: Stage::SpectralMoments, held: powers, ..self }
                } else {
                    let held = Extraction { held: powers, ..self };
                    held.compress_or_close()
                }
            },
            Reply::Values(values) => self.close(&values),
        }
    }
}

/// Starts the extraction of a frame of interleaved samples, one axis for each
/// name in `axes`.
///
/// The inputs are checked in the order of the stages, and the first reason to
/// refuse them is returned: `InvalidParameterError` when there is no axis,
/// `ShapeError` when the frame's length is not a multiple of the number of
/// axes, `EmptySignalError` when the frame is empty, `InvalidParameterError`
/// when the transform length or the sampling frequency is not positive.
/// Otherwise the frame is split into its axes, and the extraction that is
/// returned asks for the first axis to be centered.
pub fn generate_features(config: &Config, raw_data: &Vec<u64>, axes: &Vec<String>) -> (r: Result<
    Extraction,
    FeatureError,
>)
    ensures
        (match rejection(
            config.sampling_freq,
            config.fft_length,
            raw_data.len() as int,
            axes.len() as int,
        ) {
            Some(e) => r == Err::<Extraction, FeatureError>(e),
            None => r is Ok && r->Ok_0@.inv() && r->Ok_0@ == State::start(
                config.fft_length,
                config.do_fft_overlap,
                config.do_log,
                config.spectral_stats,
                raw_data@,
                axes.len() as int,
            ),
        }),
{
    match config.validate(raw_data.len(), axes.len()) {
        Err(e) => {
            return Err(e);
        },
        Ok(()) => {},
    }
    let signals = match demultiplex(raw_data, axes.len()) {
        Ok(signals) => signals,
        Err(e) => {
            return Err(e);
        },
    };
    let fft_length: usize = config.fft_length as usize;
    proof {
        lemma_start(
            config.sampling_freq,
            config.fft_length,
            config.do_fft_overlap,
            config.do_log,
            config.spectral_stats,
            raw_data@,
            axes.len() as int,
        );
    }
    Ok(
        Extraction {
            fft_length,
            n_overlap: overlap_samples(fft_length, config.do_fft_overlap),
            do_log: config.do_log,
            spectral_stats: config.spectral_stats,
            signals,
            axis: 0,
            stage: Stage::Centering,
            centered: Vec::new(),
            time: Moments { rms: ZERO, deviation: ZERO, skewness: ZERO, kurtosis: ZERO },
            held: Vec::new(),
            spectral: Moments { rms: ZERO, deviation: ZERO, skewness: ZERO, kurtosis: ZERO },
            features: Vec::new(),
        },
    )
}

} // verus!
