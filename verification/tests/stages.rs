use rustfft::num_complex::Complex;
use rustfft::FftPlanner;
use spectral_analysis::assembler::axis_features;
use spectral_analysis::binary64::{is_nan, is_zero, larger, FLOOR, INFINITY, SIGN, ZERO};
use spectral_analysis::demux::demultiplex;
use spectral_analysis::descriptor::{skew, Moments};
use spectral_analysis::error::FeatureError;
use spectral_analysis::spectrum::{max_hold, welch_max_hold, zero_handling};
use spectral_analysis::window::{count_windows, frames, overlap_samples, padded_frame};

fn bits_of(values: &[f64]) -> Vec<u64> {
    values.iter().map(|v| v.to_bits()).collect()
}

fn numbers_of(bits: &[u64]) -> Vec<f64> {
    bits.iter().map(|b| f64::from_bits(*b)).collect()
}

fn power_spectrum(frame: &[f64]) -> Vec<f64> {
    let n = frame.len();
    let mut planner = FftPlanner::new();
    let fft = planner.plan_fft_forward(n);
    let mut buffer: Vec<Complex<f64>> = frame.iter().map(|x| Complex::new(*x, 0.0)).collect();
    fft.process(&mut buffer);
    buffer.iter().take(n / 2 + 1).map(|x| x.norm_sqr() / n as f64).collect()
}

fn describe(values: &[f64]) -> Moments {
    let n = values.len() as f64;
    let rms = (values.iter().map(|x| x * x).sum::<f64>() / n).sqrt();
    let mean = values.iter().sum::<f64>() / n;
    let variance = values.iter().map(|x| (x - mean).powi(2)).sum::<f64>() / n;
    let deviation = variance.sqrt();
    let skewness = values.iter().map(|x| (x - mean).powi(3)).sum::<f64>() / (n * deviation.powi(3));
    let fourth = values.iter().map(|x| (x - mean).powi(4)).sum::<f64>() / n;
    let kurtosis = fourth / variance.powi(2) - 3.0;
    Moments {
        rms: rms.to_bits(),
        deviation: deviation.to_bits(),
        skewness: skewness.to_bits(),
        kurtosis: kurtosis.to_bits(),
    }
}

#[test]
fn demultiplex_puts_sample_i_of_axis_j_at_three_i_plus_j() {
    let frame: Vec<f64> = (0..30).map(|i| i as f64 * 1.5 - 4.0).collect();
    let signals = demultiplex(&frame, 3).unwrap();
    assert_eq!(signals.len(), 3);
    for j in 0..3 {
        assert_eq!(signals[j].len(), 10);
        for i in 0..10 {
            assert_eq!(signals[j][i], frame[3 * i + j]);
        }
    }
}

#[test]
fn demultiplex_works_for_any_number_of_axes() {
    let frame: Vec<u64> = (0..12).collect();
    assert_eq!(demultiplex(&frame, 1).unwrap(), vec![frame.clone()]);
    assert_eq!(demultiplex(&frame, 4).unwrap(), vec![vec![0, 4, 8], vec![1, 5, 9], vec![2, 6, 10], vec![3, 7, 11]]);
    assert_eq!(demultiplex(&frame, 12).unwrap().len(), 12);
    let empty: Vec<u64> = Vec::new();
    assert_eq!(demultiplex(&empty, 3).unwrap(), vec![Vec::<u64>::new(), Vec::new(), Vec::new()]);
}

#[test]
fn demultiplex_refuses_a_frame_that_does_not_split_evenly() {
    let frame: Vec<u64> = (0..10).collect();
    assert_eq!(demultiplex(&frame, 3), Err(FeatureError::ShapeError));
    assert_eq!(demultiplex(&frame, 11), Err(FeatureError::ShapeError));
    assert_eq!(demultiplex(&frame, 0), Err(FeatureError::InvalidParameterError));
}

#[test]
fn windows_start_every_stride_while_the_start_is_inside() {
    let signal: Vec<u64> = (1..=10).collect();
    let cut = frames(&signal, 4, 0, 0).unwrap();
    assert_eq!(cut, vec![vec![1, 2, 3, 4], vec![5, 6, 7, 8], vec![9, 10, 0, 0]]);
    let cut = frames(&signal, 4, 2, 0).unwrap();
    assert_eq!(
        cut,
        vec![vec![1, 2, 3, 4], vec![3, 4, 5, 6], vec![5, 6, 7, 8], vec![7, 8, 9, 10], vec![9, 10, 0, 0]]
    );
    let cut = frames(&signal, 5, 0, 0).unwrap();
    assert_eq!(cut, vec![vec![1, 2, 3, 4, 5], vec![6, 7, 8, 9, 10]]);
}

#[test]
fn short_signal_gives_one_padded_window() {
    let signal: Vec<u64> = vec![7, 8, 9];
    assert_eq!(frames(&signal, 8, 0, 0).unwrap(), vec![vec![7, 8, 9, 0, 0, 0, 0, 0]]);
    assert_eq!(frames(&signal, 8, 4, 0).unwrap(), vec![vec![7, 8, 9, 0, 0, 0, 0, 0]]);
    let empty: Vec<u64> = Vec::new();
    assert_eq!(frames(&empty, 8, 4, 0).unwrap(), Vec::<Vec<u64>>::new());
}

#[test]
fn half_overlap_of_an_odd_length_steps_by_the_larger_half() {
    assert_eq!(overlap_samples(16, true), 8);
    assert_eq!(overlap_samples(16, false), 0);
    assert_eq!(overlap_samples(5, true), 2);
    assert_eq!(overlap_samples(1, true), 0);
    let signal: Vec<u64> = (1..=7).collect();
    let cut = frames(&signal, 5, overlap_samples(5, true), 0).unwrap();
    assert_eq!(cut, vec![vec![1, 2, 3, 4, 5], vec![4, 5, 6, 7, 0], vec![7, 0, 0, 0, 0]]);
}

#[test]
fn windows_need_a_length_and_a_step() {
    let signal: Vec<u64> = vec![1, 2, 3];
    assert_eq!(frames(&signal, 0, 0, 0), Err(FeatureError::InvalidParameterError));
    assert_eq!(frames(&signal, 4, 4, 0), Err(FeatureError::InvalidParameterError));
    assert_eq!(frames(&signal, 4, 9, 0), Err(FeatureError::InvalidParameterError));
}

#[test]
fn window_count_is_the_length_over_the_stride_rounded_up() {
    assert_eq!(count_windows(0, 8), 0);
    assert_eq!(count_windows(1, 8), 1);
    assert_eq!(count_windows(8, 8), 1);
    assert_eq!(count_windows(9, 8), 2);
    assert_eq!(count_windows(104, 8), 13);
    assert_eq!(count_windows(usize::MAX, 1), usize::MAX);
    assert_eq!(count_windows(usize::MAX, 2), usize::MAX / 2 + 1);
}

#[test]
fn padded_frame_takes_what_is_there_and_fills_up() {
    let signal = vec![1.5f64, 2.5, 3.5];
    assert_eq!(padded_frame(&signal, 1, 4, 0.0), vec![2.5, 3.5, 0.0, 0.0]);
    assert_eq!(padded_frame(&signal, 3, 2, 0.0), vec![0.0, 0.0]);
    assert_eq!(padded_frame(&signal, usize::MAX, 2, 9.0), vec![9.0, 9.0]);
    assert_eq!(padded_frame(&signal, 0, 0, 0.0), Vec::<f64>::new());
}

#[test]
fn larger_agrees_with_the_maximum_of_two_numbers() {
    let values = [
        0.0,
        -0.0,
        1.0,
        -1.0,
        1e-310,
        -1e-310,
        2.5,
        1e300,
        -1e300,
        f64::INFINITY,
        f64::NEG_INFINITY,
        f64::MIN_POSITIVE,
        f64::MAX,
        f64::MIN,
        f64::NAN,
        -f64::NAN,
    ];
    for a in values {
        for b in values {
            let got = f64::from_bits(larger(a.to_bits(), b.to_bits()));
            let want = a.max(b);
            if want.is_nan() {
                assert!(got.is_nan());
            } else {
                assert_eq!(got, want);
            }
        }
    }
    assert_eq!(larger(1.0f64.to_bits(), 2.0f64.to_bits()), 2.0f64.to_bits());
    assert_eq!(larger(ZERO, SIGN), ZERO);
    assert_eq!(larger(SIGN, ZERO), SIGN);
}

#[test]
fn zero_and_nan_are_told_from_the_pattern() {
    assert!(is_zero(0.0f64.to_bits()));
    assert!(is_zero((-0.0f64).to_bits()));
    assert!(!is_zero(f64::MIN_POSITIVE.to_bits()));
    assert!(!is_zero(5e-324f64.to_bits()));
    assert!(!is_zero(f64::NAN.to_bits()));
    assert!(is_nan(f64::NAN.to_bits()));
    assert!(is_nan((-f64::NAN).to_bits()));
    assert!(is_nan(INFINITY + 1));
    assert!(!is_nan(f64::INFINITY.to_bits()));
    assert!(!is_nan(f64::NEG_INFINITY.to_bits()));
    assert!(!is_nan(1.0f64.to_bits()));
    assert_eq!(INFINITY, f64::INFINITY.to_bits());
    assert_eq!(SIGN, (-0.0f64).to_bits());
    assert_eq!(ZERO, 0.0f64.to_bits());
}

#[test]
fn floor_is_ten_to_the_minus_ten() {
    assert_eq!(FLOOR, 1e-10f64.to_bits());
    assert_eq!(f64::from_bits(FLOOR).log10(), -10.0);
}

#[test]
fn zero_handling_replaces_exact_zeros_only() {
    let mut values = bits_of(&[0.0, 1.0, -0.0, 1e-300, -2.0, 5e-324, f64::INFINITY]);
    zero_handling(&mut values);
    assert_eq!(numbers_of(&values), vec![1e-10, 1.0, 1e-10, 1e-300, -2.0, 5e-324, f64::INFINITY]);
    let mut nan = bits_of(&[f64::NAN]);
    zero_handling(&mut nan);
    assert_eq!(nan, bits_of(&[f64::NAN]));
    let mut empty: Vec<u64> = Vec::new();
    zero_handling(&mut empty);
    assert!(empty.is_empty());
}

#[test]
fn zero_power_becomes_minus_ten_after_the_logarithm() {
    let mut powers = bits_of(&[0.0, 0.0, 100.0]);
    zero_handling(&mut powers);
    let logs: Vec<f64> = numbers_of(&powers).iter().map(|x| x.log10()).collect();
    assert_eq!(logs, vec![-10.0, -10.0, 2.0]);
    assert!(logs.iter().all(|x| x.is_finite()));
}

#[test]
fn max_hold_keeps_the_largest_power_of_each_bin() {
    let spectra = vec![
        bits_of(&[1.0, 5.0, 0.25]),
        bits_of(&[3.0, 2.0, 0.5]),
        bits_of(&[2.0, f64::NAN, 0.125]),
    ];
    assert_eq!(numbers_of(&max_hold(&spectra, 3)), vec![3.0, 5.0, 0.5]);
    assert_eq!(numbers_of(&max_hold(&spectra, 2)), vec![3.0, 5.0]);
    let none: Vec<Vec<u64>> = Vec::new();
    assert_eq!(numbers_of(&max_hold(&none, 3)), vec![0.0, 0.0, 0.0]);
    let negative = vec![bits_of(&[-1.0, -0.0])];
    assert_eq!(max_hold(&negative, 2), vec![ZERO, ZERO]);
}

#[test]
fn spectrum_has_half_the_length_plus_one_bins_at_exact_frequencies() {
    for n in [1i32, 2, 5, 16, 17, 64] {
        let bins = n as usize / 2 + 1;
        let spectra = vec![vec![1.0f64.to_bits(); bins]; 3];
        let spectrum = welch_max_hold(&spectra, 52, n).unwrap();
        assert_eq!(spectrum.powers.len(), bins);
        assert_eq!(spectrum.sampling_freq, 52);
        assert_eq!(spectrum.fft_length, n);
        for i in 0..bins {
            let (numerator, denominator) = spectrum.frequency(i);
            assert_eq!(numerator, i as u64 * 52);
            assert_eq!(denominator, n as u64);
            assert_eq!(numerator as f64 / denominator as f64, i as f64 * 52.0 / n as f64);
        }
    }
}

#[test]
fn spectrum_needs_positive_parameters() {
    let spectra: Vec<Vec<u64>> = Vec::new();
    assert!(matches!(welch_max_hold(&spectra, 52, 0), Err(FeatureError::InvalidParameterError)));
    assert!(matches!(welch_max_hold(&spectra, 52, -4), Err(FeatureError::InvalidParameterError)));
    assert!(matches!(welch_max_hold(&spectra, 0, 16), Err(FeatureError::InvalidParameterError)));
    assert!(matches!(welch_max_hold(&spectra, -52, 16), Err(FeatureError::InvalidParameterError)));
    let spectrum = welch_max_hold(&spectra, 52, 16).unwrap();
    assert_eq!(spectrum.powers, vec![ZERO; 9]);
}

#[test]
fn sinusoid_at_a_bin_frequency_peaks_at_that_bin() {
    for overlap in [false, true] {
        for bin in 1..8usize {
            let signal: Vec<f64> = (0..64)
                .map(|n| (2.0 * std::f64::consts::PI * bin as f64 * n as f64 / 16.0).sin())
                .collect();
            let cut = frames(&bits_of(&signal), 16, overlap_samples(16, overlap), ZERO).unwrap();
            let spectra: Vec<Vec<u64>> =
                cut.iter().map(|frame| bits_of(&power_spectrum(&numbers_of(frame)))).collect();
            let spectrum = welch_max_hold(&spectra, 16, 16).unwrap();
            let powers = numbers_of(&spectrum.powers);
            assert_eq!(powers.len(), 9);
            assert!((powers[bin] - 4.0).abs() < 1e-9);
            for other in 0..9 {
                if other != bin {
                    assert!(powers[bin] > powers[other]);
                }
            }
            assert_eq!(spectrum.frequency(bin), (bin as u64 * 16, 16));
        }
    }
}

#[test]
fn constant_values_have_skewness_zero_and_their_own_root_mean_square() {
    let moments = describe(&[5.0, 5.0, 5.0]);
    assert_eq!(f64::from_bits(moments.rms), 5.0);
    assert_eq!(f64::from_bits(moments.deviation), 0.0);
    assert_eq!(f64::from_bits(skew(3, &moments)), 0.0);
    assert!(f64::from_bits(moments.kurtosis).is_nan());
}

#[test]
fn skewness_is_zero_for_fewer_than_two_values() {
    let moments = Moments {
        rms: 1.0f64.to_bits(),
        deviation: 2.0f64.to_bits(),
        skewness: 0.75f64.to_bits(),
        kurtosis: (-1.5f64).to_bits(),
    };
    assert_eq!(skew(0, &moments), ZERO);
    assert_eq!(skew(1, &moments), ZERO);
    assert_eq!(skew(2, &moments), 0.75f64.to_bits());
    assert_eq!(skew(1000, &moments), 0.75f64.to_bits());
    let flat = Moments { deviation: (-0.0f64).to_bits(), ..moments };
    assert_eq!(skew(1000, &flat), ZERO);
    let undefined = Moments { deviation: f64::NAN.to_bits(), ..moments };
    assert_eq!(skew(1000, &undefined), 0.75f64.to_bits());
}

#[test]
fn skewness_of_spread_values_is_the_reported_one() {
    let values = [1.0, 2.0, 3.0, 10.0];
    let moments = describe(&values);
    let skewness = f64::from_bits(skew(values.len(), &moments));
    assert!((skewness - 1.0182337649086284).abs() < 1e-12);
    let kurtosis = f64::from_bits(moments.kurtosis);
    assert!((kurtosis - (-0.7696)).abs() < 1e-12);
    assert!((f64::from_bits(moments.rms) - 28.5f64.sqrt()).abs() < 1e-12);
}

#[test]
fn axis_features_drop_bin_zero() {
    let bins = vec![10, 11, 12, 13];
    assert_eq!(axis_features(1, 2, 3, Some((4, 5)), &bins), vec![1, 2, 3, 4, 5, 11, 12, 13]);
    assert_eq!(axis_features(1, 2, 3, None, &bins), vec![1, 2, 3, 11, 12, 13]);
    assert_eq!(axis_features(1, 2, 3, None, &vec![10]), vec![1, 2, 3]);
    assert_eq!(axis_features(1, 2, 3, Some((4, 5)), &Vec::new()), vec![1, 2, 3, 4, 5]);
}
