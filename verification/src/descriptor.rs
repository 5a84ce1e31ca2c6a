//! The statistical description of a sequence of values, and the rule for the
//! skewness of a sequence that has no spread.

use vstd::prelude::*;
use crate::binary64::{is_zero, spec_is_zero, ZERO};

verus! {

/// What the caller reports of a sequence of values `x` with mean `m`.
#[derive(Clone, Copy, Debug, PartialEq, Eq, Structural)]
pub struct Moments {
    /// Root mean square: the square root of the mean of `x * x`.
    pub rms: u64,
    /// Population standard deviation `s`: the square root of the mean of
    /// `(x - m)` squared.
    pub deviation: u64,
    /// The mean of `(x - m)` cubed over `s` cubed, as the arithmetic gives it,
    /// whatever `s` is.
    pub skewness: u64,
    /// The mean of `(x - m)` to the fourth over `s` to the fourth, less 3, as
    /// the arithmetic gives it, whatever `s` is.
    pub kurtosis: u64,
}

/// The population skewness of `count` values: zero when there are fewer than
/// two values or their deviation is zero, and the reported skewness otherwise.
pub open spec fn spec_skew(count: int, moments: Moments) -> u64 {
    if count < 2 || spec_is_zero(moments.deviation) {
        ZERO
    } else {
        moments.skewness
    }
}

/// Computes [`spec_skew`]: the skewness to report for `count` values whose
/// moments are given. A sequence without spread has skewness zero by
/// definition, not whatever a division by zero would give. The kurtosis has no
/// such rule: it is reported as the arithmetic gives it.
pub fn skew(count: usize, moments: &Moments) -> (r: u64)
    ensures
        r == spec_skew(count as int, *moments),
{
    if count < 2 || is_zero(moments.deviation) {
        ZERO
    } else {
        moments.skewness
    }
}

} // verus!
