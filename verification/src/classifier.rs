//! Around the classifier that consumes the feature vector: the text it reads
//! its inputs from, the choice of the most probable class, and the status
//! codes that report how a classification ended.
//!
//! A probability is carried as the bit pattern of an IEEE-754 binary32 number.

use vstd::prelude::*;
use crate::text::{split_trimmed, trimmed_entries};

verus! {

/// Why a classification failed.
#[derive(Clone, Copy, Debug, PartialEq, Eq, Structural)]
pub enum E {
    /// The model could not be loaded.
    ModelLoad,
    /// The model could not be optimized.
    Optimization,
    /// The model could not be made runnable.
    Runnable,
    /// The input data could not be read or is no list of numbers.
    DataLoad,
    /// The model failed on the input.
    Run,
    /// A tensor could not be built from the input or read from the output.
    Conversion,
}

/// Status: the model gave no probability at all.
pub const NO_PROBABILITY: i32 = -7;

/// Status: the report could not be created.
pub const REPORT_NOT_CREATED: i32 = -8;

/// Status: the report could not be written.
pub const REPORT_NOT_WRITTEN: i32 = -9;

/// Status: the class names could not be read.
pub const CLASSES_NOT_LOADED: i32 = -10;

/// Status: there are not as many probabilities as classes.
pub const CLASS_COUNT_MISMATCH: i32 = -11;

impl E {
    /// The status that reports the failure: -1 for `ModelLoad` down to -6 for
    /// `Conversion`, in the order of the variants.
    pub open spec fn spec_code(self) -> i32 {
        match self {
            E::ModelLoad => -1i32,
            E::Optimization => -2i32,
            E::Runnable => -3i32,
            E::DataLoad => -4i32,
            E::Run => -5i32,
            E::Conversion => -6i32,
        }
    }

    /// Computes [`E::spec_code`].
    #[verifier::when_used_as_spec(spec_code)]
    pub fn code(self) -> (r: i32)
        ensures
            r == self.spec_code(),
    {
        match self {
            E::ModelLoad => -1,
            E::Optimization => -2,
            E::Runnable => -3,
            E::DataLoad => -4,
            E::Run => -5,
            E::Conversion => -6,
        }
    }
}

/// Reads the class names from the text that lists them, one on each line:
/// every line of the text, without the white space at either end. A line that
/// holds nothing else gives an empty name.
pub fn load_classes(text: &str) -> (r: Result<Vec<String>, E>)
    ensures
        r is Ok,
        r->Ok_0.len() == trimmed_entries(text@, false).len(),
        forall|i: int|
            0 <= i < r->Ok_0.len() ==> (#[trigger] r->Ok_0[i])@ == trimmed_entries(text@, false)[i],
{
    Ok(split_trimmed(text, false))
}

/// Reads the fields of comma-separated sensor data: every field of every line
/// of the text, in order, without the white space at either end. What number a
/// field stands for, if any, is for the caller to find out.
pub fn accelerometer_fields(text: &str) -> (r: Vec<String>)
    ensures
        r.len() == trimmed_entries(text@, true).len(),
        forall|i: int| 0 <= i < r.len() ==> (#[trigger] r[i])@ == trimmed_entries(text@, true)[i],
{
    split_trimmed(text, true)
}

/// The sign bit of a binary32 pattern.
pub const SIGN32: u32 = 0x8000_0000;

/// Positive infinity as a binary32 pattern. Every pattern whose magnitude is
/// larger is a NaN.
pub const INFINITY32: u32 = 0x7F80_0000;

/// The pattern without its sign bit.
pub open spec fn magnitude32(bits: u32) -> int {
    if bits >= SIGN32 {
        bits - SIGN32
    } else {
        bits as int
    }
}

/// The pattern encodes no number.
pub open spec fn is_nan32(bits: u32) -> bool {
    magnitude32(bits) > INFINITY32
}

/// An integer that orders binary32 patterns as the numbers they encode are
/// ordered; both zeros have rank 0.
pub open spec fn rank32(bits: u32) -> int {
    if bits >= SIGN32 {
        -magnitude32(bits)
    } else {
        magnitude32(bits)
    }
}

/// The rank, moved into the unsigned range.
fn key32(bits: u32) -> (k: u32)
    ensures
        k == rank32(bits) + SIGN32,
{
    if bits >= SIGN32 {
        SIGN32 - (bits - SIGN32)
    } else {
        SIGN32 + bits
    }
}

/// Class `i` is the most probable: no class is more probable, and every class
/// after it is less probable.
pub open spec fn is_most_probable(probabilities: Seq<u32>, i: int) -> bool {
    &&& 0 <= i < probabilities.len()
    &&& forall|j: int|
        0 <= j < probabilities.len() ==> rank32(#[trigger] probabilities[j]) <= rank32(
            probabilities[i],
        )
    &&& forall|j: int|
        i < j < probabilities.len() ==> rank32(#[trigger] probabilities[j]) < rank32(
            probabilities[i],
        )
}

/// Finds the most probable class: the last one among those of the largest
/// probability. There is none only where there is no probability.
///
/// Two or more probabilities can only be compared if each is a number.
pub fn most_probable(probabilities: &Vec<u32>) -> (r: Option<usize>)
    requires
        probabilities.len() >= 2 ==> forall|j: int|
            0 <= j < probabilities.len() ==> !is_nan32(#[trigger] probabilities[j]),
    ensures
        r is None <==> probabilities.len() == 0,
        r matches Some(i) ==> is_most_probable(probabilities@, i as int),
{
    if probabilities.len() == 0 {
        return None;
    }
    let mut best: usize = 0;
    let mut j: usize = 1;
    while j < probabilities.len()
        invariant
            1 <= j <= probabilities.len(),
            best < j,
            forall|k: int| 0 <= k < j ==> rank32(#[trigger] probabilities[k]) <= rank32(probabilities[best as int]),
            forall|k: int| best < k < j ==> rank32(#[trigger] probabilities[k]) < rank32(probabilities[best as int]),
        decreases probabilities.len() - j,
    {
        if key32(probabilities[j]) >= key32(probabilities[best]) {
            best = j;
        }
        j += 1;
    }
    Some(best)
}

/// The status of a classification whose report was written: the index of the
/// most probable class, or `NO_PROBABILITY`.
pub fn label_code(probabilities: &Vec<u32>) -> (r: i32)
    requires
        probabilities.len() <= i32::MAX,
        probabilities.len() >= 2 ==> forall|j: int|
            0 <= j < probabilities.len() ==> !is_nan32(#[trigger] probabilities[j]),
    ensures
        probabilities.len() == 0 ==> r == NO_PROBABILITY,
        probabilities.len() > 0 ==> is_most_probable(probabilities@, r as int),
{
    match most_probable(probabilities) {
        Some(index) => index as i32,
        None => NO_PROBABILITY,
    }
}

} // verus!
