//! Bit patterns of IEEE-754 binary64 numbers, and what can be decided about a
//! number from its pattern alone: whether it is a zero or a NaN, and which of
//! two numbers is the larger.

use vstd::prelude::*;

verus! {

/// The sign bit.
pub const SIGN: u64 = 0x8000_0000_0000_0000;

/// Positive infinity. Every pattern whose magnitude is larger is a NaN.
pub const INFINITY: u64 = 0x7FF0_0000_0000_0000;

/// Positive zero.
pub const ZERO: u64 = 0;

/// The number nearest to 1e-10, which stands in for a zero before a logarithm.
pub const FLOOR: u64 = 0x3DDB_7CDF_D9D7_BDBB;

/// The pattern without its sign bit.
pub open spec fn magnitude(bits: u64) -> int {
    if bits >= SIGN {
        bits - SIGN
    } else {
        bits as int
    }
}

/// The pattern encodes no number.
pub open spec fn spec_is_nan(bits: u64) -> bool {
    magnitude(bits) > INFINITY
}

/// The pattern encodes positive or negative zero.
pub open spec fn spec_is_zero(bits: u64) -> bool {
    magnitude(bits) == 0
}

/// An integer that orders the patterns as the numbers they encode are ordered:
/// for two patterns that are not NaN, the first number is less than the second
/// exactly when its rank is, and the two are equal exactly when their ranks are
/// (both zeros have rank 0).
pub open spec fn rank(bits: u64) -> int {
    if bits >= SIGN {
        -magnitude(bits)
    } else {
        magnitude(bits)
    }
}

/// The larger of two numbers, where a NaN gives way to the other argument and
/// the first argument is kept when the two are equal.
pub open spec fn maximum(a: u64, b: u64) -> u64 {
    if spec_is_nan(b) {
        a
    } else if spec_is_nan(a) {
        b
    } else if rank(a) < rank(b) {
        b
    } else {
        a
    }
}

#[verifier::when_used_as_spec(spec_is_nan)]
pub fn is_nan(bits: u64) -> (r: bool)
    ensures
        r == spec_is_nan(bits),
{
    if bits >= SIGN {
        bits - SIGN > INFINITY
    } else {
        bits > INFINITY
    }
}

#[verifier::when_used_as_spec(spec_is_zero)]
pub fn is_zero(bits: u64) -> (r: bool)
    ensures
        r == spec_is_zero(bits),
{
    bits == ZERO || bits == SIGN
}

/// The rank, moved into the unsigned range.
fn key(bits: u64) -> (k: u64)
    ensures
        k == rank(bits) + SIGN,
{
    if bits >= SIGN {
        SIGN - (bits - SIGN)
    } else {
        SIGN + bits
    }
}

/// Computes [`maximum`].
pub fn larger(a: u64, b: u64) -> (r: u64)
    ensures
        r == maximum(a, b),
{
    if is_nan(b) {
        a
    } else if is_nan(a) {
        b
    } else if key(a) < key(b) {
        b
    } else {
        a
    }
}

/// Of numbers, the maximum is one of its arguments and no smaller than either.
pub proof fn lemma_maximum_is_upper_bound(a: u64, b: u64)
    requires
        !spec_is_nan(a),
        !spec_is_nan(b),
    ensures
        !spec_is_nan(maximum(a, b)),
        maximum(a, b) == a || maximum(a, b) == b,
        rank(a) <= rank(maximum(a, b)),
        rank(b) <= rank(maximum(a, b)),
{
}

} // verus!
