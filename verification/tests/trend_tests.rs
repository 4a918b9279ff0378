use ternary_prophet::stats::moments;
use ternary_prophet::{Ternary, Trend, TrendDetector};

#[test]
fn test_trend_detector_rising() {
    let detector = TrendDetector::new(10);
    let data = vec![Ternary::Negative, Ternary::Negative, Ternary::Zero, Ternary::Zero, Ternary::Positive];
    assert_eq!(detector.detect(&data), Trend::Rising);
}

#[test]
fn test_trend_detector_falling() {
    let detector = TrendDetector::new(10);
    let data = vec![Ternary::Positive, Ternary::Positive, Ternary::Zero, Ternary::Zero, Ternary::Negative];
    assert_eq!(detector.detect(&data), Trend::Falling);
}

#[test]
fn test_trend_detector_stable() {
    let detector = TrendDetector::new(10);
    let data = vec![Ternary::Zero, Ternary::Zero, Ternary::Zero, Ternary::Zero, Ternary::Zero];
    assert_eq!(detector.detect(&data), Trend::Stable);
}

#[test]
fn test_trend_detector_too_short() {
    let detector = TrendDetector::new(10);
    assert_eq!(detector.detect(&[Ternary::Positive]), Trend::Flat);
}

fn strength(detector: &TrendDetector, data: &[Ternary]) -> f64 {
    match detector.slope(data) {
        Some(r) => (r.num.abs() as f64 / r.den as f64).min(1.0),
        None => 0.0,
    }
}

#[test]
fn test_trend_strength() {
    let detector = TrendDetector::new(10);
    let rising = vec![Ternary::Negative, Ternary::Negative, Ternary::Zero, Ternary::Zero, Ternary::Positive];
    let flat = vec![Ternary::Zero, Ternary::Zero, Ternary::Zero, Ternary::Zero, Ternary::Zero];
    assert!(strength(&detector, &rising) > strength(&detector, &flat));
}

#[test]
fn slope_of_rising_data_is_one_half() {
    let detector = TrendDetector::new(10);
    let rising = vec![Ternary::Negative, Ternary::Negative, Ternary::Zero, Ternary::Zero, Ternary::Positive];
    let r = detector.slope(&rising).unwrap();
    // n * sum_xy - sum_x * sum_y = 5 * 3 - 10 * (-1); n * sum_xx - sum_x^2 = 150 - 100
    assert_eq!((r.num, r.den), (25, 50));
    assert_eq!(detector.slope(&rising[..2]), None);
}

#[test]
fn negated_data_mirrors_the_trend() {
    let detector = TrendDetector::new(10);
    let data = vec![Ternary::Negative, Ternary::Zero, Ternary::Zero, Ternary::Positive, Ternary::Positive];
    let negated: Vec<Ternary> = data
        .iter()
        .map(|t| Ternary::from_value(-t.value()).unwrap())
        .collect();
    assert_eq!(detector.detect(&data), Trend::Rising);
    assert_eq!(detector.detect(&negated), Trend::Falling);
}

#[test]
fn constant_nonzero_data_is_stable() {
    let detector = TrendDetector::new(4);
    let data = vec![Ternary::Positive; 7];
    assert_eq!(detector.detect(&data), Trend::Stable);
}

#[test]
fn noisy_data_without_slope_is_flat() {
    let detector = TrendDetector::new(10);
    let data = vec![Ternary::Positive, Ternary::Negative, Ternary::Positive, Ternary::Negative, Ternary::Positive, Ternary::Negative, Ternary::Positive];
    assert_eq!(detector.detect(&data), Trend::Flat);
}

#[test]
fn detector_window_is_at_least_three() {
    // A window of one value would see no trend; the detector widens it to
    // three, which here rise.
    let detector = TrendDetector::new(1);
    let data = vec![Ternary::Positive, Ternary::Positive, Ternary::Negative, Ternary::Zero, Ternary::Positive];
    assert_eq!(detector.detect(&data), Trend::Rising);
}

#[test]
fn detector_only_sees_its_window() {
    let detector = TrendDetector::new(3);
    let data = vec![Ternary::Positive, Ternary::Positive, Ternary::Positive, Ternary::Negative, Ternary::Zero, Ternary::Positive];
    assert_eq!(detector.detect(&data), Trend::Rising);
    let wide = TrendDetector::new(10);
    assert_eq!(wide.detect(&data), Trend::Flat);
}

#[test]
fn ternary_values_round_trip() {
    for t in [Ternary::Negative, Ternary::Zero, Ternary::Positive] {
        assert_eq!(Ternary::from_value(t.value()), Some(t));
    }
    assert_eq!(Ternary::Negative.value(), -1);
    assert_eq!(Ternary::Positive.value(), 1);
    assert_eq!(Ternary::from_value(2), None);
    assert_eq!(Ternary::from_value(-2), None);
}

#[test]
fn moments_of_a_stretch() {
    let data = vec![Ternary::Zero, Ternary::Negative, Ternary::Negative, Ternary::Zero, Ternary::Zero, Ternary::Positive];
    let m = moments(&data, 1);
    // stretch [-1, -1, 0, 0, 1] at positions 0..5
    assert_eq!((m.n, m.sx, m.sxx, m.sy, m.sxy, m.syy), (5, 10, 30, -1, 3, 3));
    let empty = moments(&data, 6);
    assert_eq!((empty.n, empty.sx, empty.sy), (0, 0, 0));
}

#[test]
fn window_size_of_a_detector() {
    assert_eq!(TrendDetector::new(0).window_size(), 3);
    assert_eq!(TrendDetector::new(12).window_size(), 12);
}

#[test]
fn short_windows_behave_like_three() {
    let data = vec![Ternary::Zero, Ternary::Positive, Ternary::Negative, Ternary::Zero, Ternary::Positive, Ternary::Positive];
    for k in 0..3 {
        let d = TrendDetector::new(k);
        assert_eq!(d.detect(&data), TrendDetector::new(3).detect(&data));
        assert_eq!(d.slope(&data), TrendDetector::new(3).slope(&data));
    }
}

#[test]
fn values_before_the_window_do_not_matter() {
    let detector = TrendDetector::new(4);
    let data = vec![Ternary::Negative, Ternary::Zero, Ternary::Zero, Ternary::Positive];
    let mut longer = vec![Ternary::Positive, Ternary::Positive, Ternary::Negative];
    longer.extend_from_slice(&data);
    assert_eq!(detector.detect(&longer), detector.detect(&data));
    assert_eq!(detector.slope(&longer), detector.slope(&data));
    assert_eq!(detector.detect(&data), Trend::Rising);
}

#[test]
fn rising_steps_are_never_falling() {
    let detector = TrendDetector::new(10);
    let data = vec![Ternary::Negative, Ternary::Zero, Ternary::Zero, Ternary::Zero, Ternary::Zero, Ternary::Zero, Ternary::Positive];
    assert_ne!(detector.detect(&data), Trend::Falling);
    let r = detector.slope(&data).unwrap();
    assert!(r.num >= 0 && r.den > 0);
}
