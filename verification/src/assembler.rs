//! The layout of the feature vector.

use vstd::prelude::*;

verus! {

/// All values but the first.
pub open spec fn without_first(bins: Seq<u64>) -> Seq<u64> {
    if bins.len() == 0 {
        bins
    } else {
        bins.skip(1)
    }
}

/// The two spectral statistics, where there are any.
pub open spec fn spectral_part(spectral: Option<(u64, u64)>) -> Seq<u64> {
    match spectral {
        Some((skewness, kurtosis)) => seq![skewness, kurtosis],
        None => Seq::empty(),
    }
}

/// The features of one axis, in order: root mean square, skewness and kurtosis
/// of the centered signal; skewness and kurtosis of the power spectrum, where
/// they are asked for; then the power of every bin but bin 0.
pub open spec fn axis_block(
    rms: u64,
    skewness: u64,
    kurtosis: u64,
    spectral: Option<(u64, u64)>,
    bins: Seq<u64>,
) -> Seq<u64> {
    seq![rms, skewness, kurtosis] + spectral_part(spectral) + without_first(bins)
}

/// The number of features of one axis: three statistics of the signal, two of
/// the spectrum where they are asked for, and one power for each bin from 1 to
/// `nfft / 2`.
pub open spec fn axis_feature_len(nfft: int, spectral_stats: bool) -> int {
    3 + (if spectral_stats {
        2int
    } else {
        0int
    }) + nfft / 2
}

/// The number of features of a frame of `axes` axes.
pub open spec fn feature_len(axes: int, nfft: int, spectral_stats: bool) -> int {
    axes * axis_feature_len(nfft, spectral_stats)
}

/// The block of an axis whose spectrum has `nfft / 2 + 1` bins holds
/// `axis_feature_len` features.
pub proof fn lemma_axis_block_len(
    rms: u64,
    skewness: u64,
    kurtosis: u64,
    spectral: Option<(u64, u64)>,
    bins: Seq<u64>,
    nfft: int,
)
    requires
        0 <= nfft,
        bins.len() == nfft / 2 + 1,
    ensures
        axis_block(rms, skewness, kurtosis, spectral, bins).len() == axis_feature_len(
            nfft,
            spectral is Some,
        ),
{
    assert(seq![rms, skewness, kurtosis].len() == 3);
    match spectral {
        Some((s, k)) => {
            assert(spectral_part(spectral) == seq![s, k]);
            assert(seq![s, k].len() == 2);
        },
        None => {},
    }
    assert(without_first(bins).len() == nfft / 2);
}

/// Lays out the features of one axis as [`axis_block`] says.
pub fn axis_features(
    rms: u64,
    skewness: u64,
    kurtosis: u64,
    spectral: Option<(u64, u64)>,
    bins: &Vec<u64>,
) -> (r: Vec<u64>)
    ensures
        r@ == axis_block(rms, skewness, kurtosis, spectral, bins@),
{
    let mut features: Vec<u64> = Vec::new();
    features.push(rms);
    features.push(skewness);
    features.push(kurtosis);
    match spectral {
        Some((spectral_skewness, spectral_kurtosis)) => {
            features.push(spectral_skewness);
            features.push(spectral_kurtosis);
        },
        None => {},
    }
    let ghost head = features@;
    assert(head =~= seq![rms, skewness, kurtosis] + spectral_part(spectral));
    let mut i: usize = 1;
    while i < bins.len()
        invariant
            1 <= i,
            i <= bins.len() || bins.len() == 0,
            bins.len() > 0 ==> features@ == head + bins@.subrange(1, i as int),
            bins.len() == 0 ==> features@ == head,
        decreases bins.len() - i,
    {
        features.push(bins[i]);
        assert(bins@.subrange(1, i as int).push(bins[i as int]) =~= bins@.subrange(1, i + 1));
        i += 1;
    }
    assert(bins.len() > 0 ==> bins@.subrange(1, bins.len() as int) =~= bins@.skip(1));
    assert(bins.len() == 0 ==> head + without_first(bins@) =~= head);
    features
}

} // verus!
