//! The parameters of an extraction.

use vstd::prelude::*;
use crate::error::FeatureError;

verus! {

/// The parameters of an extraction. It is read, never changed.
///
/// Only the first five fields act on the result. The others are accepted so
/// that a caller can hand over a complete parameter set; they have no effect.
#[derive(Debug)]
pub struct Config {
    /// Sampling frequency in Hz. Has to be positive.
    pub sampling_freq: i32,
    /// Number of points of each transform. Has to be positive; a power of two
    /// is usual but not asked for.
    pub fft_length: i32,
    /// Whether successive windows share half their samples.
    pub do_fft_overlap: bool,
    /// Whether the power of each bin is reported as its base-10 logarithm.
    pub do_log: bool,
    /// Whether skewness and kurtosis of the power spectrum are reported.
    pub spectral_stats: bool,
    /// No effect.
    pub implementation_version: i32,
    /// No effect.
    pub draw_graphs: bool,
    /// No effect.
    pub scale_axes: i32,
    /// No effect.
    pub input_decimation_ratio: i32,
    /// No effect.
    pub filter_type: String,
    /// No effect. A binary64 bit pattern.
    pub filter_cutoff: u64,
    /// No effect.
    pub filter_order: i32,
    /// No effect.
    pub analysis_type: String,
    /// No effect.
    pub spectral_peaks_count: i32,
    /// No effect.
    pub spectral_peaks_threshold: i32,
    /// No effect.
    pub spectral_power_edges: String,
    /// No effect.
    pub wavelet_level: i32,
    /// No effect.
    pub wavelet: String,
    /// No effect.
    pub extra_low_freq: bool,
}

/// The first reason, in the order of the stages, for which a frame of
/// `frame_len` samples and `axes` axes cannot be processed, if there is one:
/// the frame cannot be split (no axis, or a length that is not a multiple of
/// the axis count), an axis would be empty, or the spectral estimate has a
/// transform length or a sampling frequency that is not positive.
pub open spec fn rejection(
    sampling_freq: i32,
    fft_length: i32,
    frame_len: int,
    axes: int,
) -> Option<FeatureError> {
    if axes == 0 {
        Some(FeatureError::InvalidParameterError)
    } else if frame_len % axes != 0 {
        Some(FeatureError::ShapeError)
    } else if frame_len == 0 {
        Some(FeatureError::EmptySignalError)
    } else if fft_length <= 0 || sampling_freq <= 0 {
        Some(FeatureError::InvalidParameterError)
    } else {
        None
    }
}

impl Config {
    /// Checks the parameters against a frame of `frame_len` samples that
    /// interleaves `axes` axes, and reports the first reason to refuse it.
    pub fn validate(&self, frame_len: usize, axes: usize) -> (r: Result<(), FeatureError>)
        ensures
            r == (match rejection(self.sampling_freq, self.fft_length, frame_len as int, axes as int) {
                Some(e) => Err::<(), FeatureError>(e),
                None => Ok::<(), FeatureError>(()),
            }),
    {
        if axes == 0 {
            Err(FeatureError::InvalidParameterError)
        } else if frame_len % axes != 0 {
            Err(FeatureError::ShapeError)
        } else if frame_len == 0 {
            Err(FeatureError::EmptySignalError)
        } else if self.fft_length <= 0 || self.sampling_freq <= 0 {
            Err(FeatureError::InvalidParameterError)
        } else {
            Ok(())
        }
    }
}

} // verus!
