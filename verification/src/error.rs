use vstd::prelude::*;

verus! {

/// Why a frame could not be turned into a feature vector.
#[derive(Clone, Copy, Debug, PartialEq, Eq, Structural)]
pub enum FeatureError {
    /// The frame's length is not a multiple of the axis count.
    ShapeError,
    /// An axis holds no sample, so its mean is undefined.
    EmptySignalError,
    /// A parameter is out of range: a transform length or a sampling frequency
    /// that is not positive, an overlap that leaves no step, or no axis at all.
    InvalidParameterError,
}

} // verus!
