//! The max-hold power spectrum: per bin, the largest power seen in any window.

use vstd::prelude::*;
use crate::binary64::{larger, maximum, rank, spec_is_nan, spec_is_zero, is_zero, FLOOR, ZERO};
use crate::demux::rows;
use crate::error::FeatureError;

verus! {

/// The number of bins of a one-sided spectrum of `nfft` points: bins `0` to
/// `nfft / 2`, both included.
pub open spec fn spec_bin_count(nfft: int) -> int {
    nfft / 2 + 1
}

/// The power held at one bin after the given spectra, in order: it starts at
/// zero and is replaced by each larger power that comes.
pub open spec fn held(spectra: Seq<Seq<u64>>, bin: int) -> u64
    decreases spectra.len(),
{
    if spectra.len() == 0 {
        ZERO
    } else {
        maximum(held(spectra.drop_last(), bin), spectra.last()[bin])
    }
}

/// The held power of each of the first `bins` bins.
pub open spec fn max_held(spectra: Seq<Seq<u64>>, bins: int) -> Seq<u64> {
    Seq::new(bins as nat, |i: int| held(spectra, i))
}

/// The held power is a number, is not negative, is no smaller than the power of
/// any window at that bin, and is either zero or the power of one of the
/// windows. A NaN among the powers is passed over.
pub proof fn lemma_held_is_maximum(spectra: Seq<Seq<u64>>, bin: int)
    ensures
        !spec_is_nan(held(spectra, bin)),
        0 <= rank(held(spectra, bin)),
        forall|k: int|
            0 <= k < spectra.len() && !spec_is_nan(#[trigger] spectra[k][bin]) ==> rank(
                spectra[k][bin],
            ) <= rank(held(spectra, bin)),
        held(spectra, bin) == ZERO || exists|k: int|
            0 <= k < spectra.len() && held(spectra, bin) == #[trigger] spectra[k][bin],
    decreases spectra.len(),
{
    if spectra.len() > 0 {
        let before = spectra.drop_last();
        lemma_held_is_maximum(before, bin);
        let last = spectra.len() - 1;
        assert(forall|k: int| 0 <= k < before.len() ==> before[k] == spectra[k]);
        if held(spectra, bin) != ZERO {
            if held(spectra, bin) == spectra[last][bin] {
            } else {
                let k = choose|k: int| 0 <= k < before.len() && held(before, bin) == #[trigger] before[k][bin];
                assert(held(spectra, bin) == spectra[k][bin]);
            }
        }
    }
}

/// A power spectrum estimate: the power at each bin from `0` to
/// `fft_length / 2`, and what is needed to say which frequency a bin stands for.
pub struct Spectrum {
    /// Sampling frequency of the signal, in Hz.
    pub sampling_freq: i32,
    /// Number of points of each transform.
    pub fft_length: i32,
    /// Power per bin.
    pub powers: Vec<u64>,
}

impl Spectrum {
    /// The parameters are positive, there is one power for each bin, and each
    /// power is a number that is not negative.
    pub open spec fn wf(&self) -> bool {
        &&& self.sampling_freq > 0
        &&& self.fft_length > 0
        &&& self.powers.len() == spec_bin_count(self.fft_length as int)
        &&& forall|i: int|
            0 <= i < self.powers.len() ==> !spec_is_nan(#[trigger] self.powers[i]) && 0 <= rank(
                self.powers[i],
            )
    }

    /// The frequency that a bin stands for, as an exact fraction in Hz:
    /// `bin * sampling_freq` over `fft_length`.
    pub fn frequency(&self, bin: usize) -> (r: (u64, u64))
        requires
            self.wf(),
            bin < self.powers.len(),
        ensures
            r.0 == bin * self.sampling_freq,
            r.1 == self.fft_length,
    {
        assert(bin * self.sampling_freq <= 0x4000_0000 * 0x8000_0000) by (nonlinear_arith)
            requires
                0 <= bin <= 0x4000_0000,
                0 < self.sampling_freq <= 0x8000_0000,
        ;
        (bin as u64 * (self.sampling_freq as u64), self.fft_length as u64)
    }
}

/// The bins stand for ascending, evenly spaced frequencies that start at zero:
/// each lies `sampling_freq / fft_length` above the one before.
pub proof fn lemma_frequencies_evenly_spaced(sampling_freq: int, bin: int)
    requires
        0 < sampling_freq,
        0 <= bin,
    ensures
        0 * sampling_freq == 0,
        (bin + 1) * sampling_freq - bin * sampling_freq == sampling_freq,
        bin * sampling_freq < (bin + 1) * sampling_freq,
{
    assert((bin + 1) * sampling_freq == bin * sampling_freq + sampling_freq) by (nonlinear_arith);
}

/// Holds, for each bin, the largest power over the one-sided power spectra of
/// all windows of a signal.
///
/// Fails with `InvalidParameterError` when the transform length or the sampling
/// frequency is not positive. Otherwise the estimate has `fft_length / 2 + 1`
/// bins, and its power at a bin is [`held`] over the spectra given: zero where
/// there is no window at all.
pub fn welch_max_hold(spectra: &Vec<Vec<u64>>, sampling_freq: i32, fft_length: i32) -> (r: Result<
    Spectrum,
    FeatureError,
>)
    requires
        fft_length > 0 ==> forall|k: int|
            0 <= k < spectra.len() ==> (#[trigger] spectra[k]).len() == spec_bin_count(
                fft_length as int,
            ),
    ensures
        fft_length <= 0 || sampling_freq <= 0 ==> r == Err::<Spectrum, FeatureError>(
            FeatureError::InvalidParameterError,
        ),
        fft_length > 0 && sampling_freq > 0 ==> r is Ok && r->Ok_0.wf() && r->Ok_0.sampling_freq
            == sampling_freq && r->Ok_0.fft_length == fft_length && r->Ok_0.powers@ == max_held(
            rows(spectra@),
            spec_bin_count(fft_length as int),
        ),
{
    if fft_length <= 0 || sampling_freq <= 0 {
        return Err(FeatureError::InvalidParameterError);
    }
    let bins: usize = fft_length as usize / 2 + 1;
    let powers = max_hold(spectra, bins);
    proof {
        assert forall|i: int| 0 <= i < powers.len() implies !spec_is_nan(#[trigger] powers[i]) && 0
            <= rank(powers[i]) by {
            lemma_held_is_maximum(rows(spectra@), i);
        }
    }
    Ok(Spectrum { sampling_freq, fft_length, powers })
}

/// Holds the largest power per bin over spectra of at least `bins` bins each.
pub fn max_hold(spectra: &Vec<Vec<u64>>, bins: usize) -> (r: Vec<u64>)
    requires
        forall|k: int| 0 <= k < spectra.len() ==> (#[trigger] spectra[k]).len() >= bins,
    ensures
        r@ == max_held(rows(spectra@), bins as int),
{
    let mut powers: Vec<u64> = Vec::new();
    let mut i: usize = 0;
    while i < bins
        invariant
            i <= bins,
            powers.len() == i,
            forall|j: int| 0 <= j < i ==> #[trigger] powers[j] == held(rows(spectra@).take(0), j),
        decreases bins - i,
    {
        powers.push(ZERO);
        i += 1;
    }
    let mut m: usize = 0;
    while m < spectra.len()
        invariant
            m <= spectra.len(),
            powers.len() == bins,
            forall|k: int| 0 <= k < spectra.len() ==> (#[trigger] spectra[k]).len() >= bins,
            forall|j: int| 0 <= j < bins ==> #[trigger] powers[j] == held(rows(spectra@).take(m as int), j),
        decreases spectra.len() - m,
    {
        let spectrum = &spectra[m];
        let ghost before = rows(spectra@).take(m as int);
        let ghost after = rows(spectra@).take(m + 1);
        proof {
            assert(after.drop_last() =~= before);
            assert(after.last() == spectrum@);
        }
        let mut i: usize = 0;
        while i < bins
            invariant
                i <= bins,
                powers.len() == bins,
                spectrum.len() >= bins,
                after.len() > 0,
                after.drop_last() == before,
                after.last() == spectrum@,
                forall|j: int| 0 <= j < i ==> #[trigger] powers[j] == held(after, j),
                forall|j: int| i <= j < bins ==> #[trigger] powers[j] == held(before, j),
            decreases bins - i,
        {
            let held_so_far: u64 = powers[i];
            powers.set(i, larger(held_so_far, spectrum[i]));
            i += 1;
        }
        m += 1;
    }
    assert(rows(spectra@).take(spectra.len() as int) =~= rows(spectra@));
    assert(powers@ =~= max_held(rows(spectra@), bins as int));
    powers
}

/// The values with each zero, positive or negative, replaced by [`FLOOR`].
pub open spec fn floored(values: Seq<u64>) -> Seq<u64> {
    Seq::new(
        values.len(),
        |i: int|
            if spec_is_zero(values[i]) {
                FLOOR
            } else {
                values[i]
            },
    )
}

/// Replaces every value that is exactly zero by [`FLOOR`], so that a logarithm
/// taken afterwards meets no zero. All other values are left as they are.
pub fn zero_handling(x: &mut Vec<u64>)
    ensures
        final(x)@ == floored(old(x)@),
        forall|i: int| 0 <= i < final(x).len() ==> !spec_is_zero(#[trigger] final(x)[i]),
{
    let ghost before = x@;
    let mut i: usize = 0;
    while i < x.len()
        invariant
            i <= x.len(),
            x.len() == before.len(),
            forall|j: int| 0 <= j < i ==> #[trigger] x[j] == floored(before)[j],
            forall|j: int| i <= j < x.len() ==> #[trigger] x[j] == before[j],
        decreases x.len() - i,
    {
        if is_zero(x[i]) {
            x.set(i, FLOOR);
        }
        i += 1;
    }
    assert(x@ =~= floored(before));
}

} // verus!
