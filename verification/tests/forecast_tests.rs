use ternary_prophet::{
    confidence_interval, interval_contains, walk_forward_hits, Basis, ConfidenceBand, Prophet,
    Ratio, SeasonalPattern, Seasonality, Ternary,
};

fn strength(p: &SeasonalPattern) -> f64 {
    p.strength.num as f64 / p.strength.den as f64
}

#[test]
fn test_seasonality_detect() {
    let data = vec![
        Ternary::Positive, Ternary::Zero, Ternary::Negative,
        Ternary::Positive, Ternary::Zero, Ternary::Negative,
        Ternary::Positive, Ternary::Zero, Ternary::Negative,
    ];
    let pattern = Seasonality::detect_period(&data, 2, 4);
    assert!(pattern.is_some());
    let pattern = pattern.unwrap();
    assert_eq!(pattern.period, 3);
    assert!(strength(&pattern) > 0.3);
}

#[test]
fn test_seasonality_no_pattern() {
    let data = vec![Ternary::Positive, Ternary::Negative, Ternary::Zero, Ternary::Positive];
    let pattern = Seasonality::detect_period(&data, 2, 4);
    // Too short for reliable detection
    assert!(pattern.is_none() || strength(&pattern.unwrap()) < 0.5);
}

#[test]
fn test_seasonality_forecast() {
    let pattern = SeasonalPattern {
        period: 3,
        pattern: vec![Ternary::Positive, Ternary::Zero, Ternary::Negative],
        strength: Ratio { num: 4, den: 5 },
    };
    assert_eq!(Seasonality::forecast(&pattern, 1, 3), Ternary::Positive); // idx=(3+1-1)%3=0
    assert_eq!(Seasonality::forecast(&pattern, 2, 3), Ternary::Zero); // idx=(3+2-1)%3=1
    assert_eq!(Seasonality::forecast(&pattern, 3, 3), Ternary::Negative); // idx=(3+3-1)%3=2
}

#[test]
fn test_prophet_empty_predict() {
    let prophet = Prophet::new();
    let pred = prophet.predict(1);
    assert_eq!(pred.predicted, Ternary::Zero);
}

#[test]
fn test_prophet_trend_detected() {
    let mut prophet = Prophet::new();
    prophet.observe(&[Ternary::Negative, Ternary::Negative, Ternary::Zero, Ternary::Zero, Ternary::Positive]);
    assert!(prophet.trend().is_some());
}

#[test]
fn test_prophet_seasonality_detected() {
    let mut prophet = Prophet::new();
    let data = vec![
        Ternary::Positive, Ternary::Zero, Ternary::Negative,
        Ternary::Positive, Ternary::Zero, Ternary::Negative,
        Ternary::Positive, Ternary::Zero,
    ];
    prophet.observe(&data);
    assert!(prophet.seasonality().is_some());
}

#[test]
fn detected_strength_is_the_exact_autocorrelation() {
    let data = vec![
        Ternary::Positive, Ternary::Zero, Ternary::Negative,
        Ternary::Positive, Ternary::Zero, Ternary::Negative,
        Ternary::Positive, Ternary::Zero, Ternary::Negative,
    ];
    let p = Seasonality::detect_period(&data, 2, 4).unwrap();
    // deviations 9 * v: lag-3 products sum to 81 * 4, squares to 81 * 6
    assert_eq!(p.strength, Ratio { num: 324, den: 486 });
    assert_eq!(p.pattern, vec![Ternary::Positive, Ternary::Zero, Ternary::Negative]);
}

#[test]
fn no_cycle_in_constant_or_short_data() {
    let constant = vec![Ternary::Positive; 8];
    assert!(Seasonality::detect_period(&constant, 2, 4).is_none());
    let short = vec![Ternary::Positive, Ternary::Negative, Ternary::Positive];
    assert!(Seasonality::detect_period(&short, 2, 4).is_none());
    let data = vec![Ternary::Positive, Ternary::Zero, Ternary::Negative, Ternary::Positive, Ternary::Zero, Ternary::Negative];
    // a period of zero is never reported
    assert!(Seasonality::detect_period(&data, 0, 0).is_none());
}

#[test]
fn seasonal_forecasts_repeat_with_the_period() {
    let pattern = SeasonalPattern {
        period: 3,
        pattern: vec![Ternary::Positive, Ternary::Zero, Ternary::Negative],
        strength: Ratio { num: 4, den: 5 },
    };
    for h in 1..10usize {
        assert_eq!(
            Seasonality::forecast(&pattern, h, 7),
            Seasonality::forecast(&pattern, h + 3, 7)
        );
    }
    assert_eq!(Seasonality::forecast(&pattern, 1, 7), Ternary::Zero);
}

#[test]
fn prophet_forecasts_follow_seasonal_cycle() {
    let mut prophet = Prophet::new();
    let data = vec![
        Ternary::Positive, Ternary::Zero, Ternary::Negative,
        Ternary::Positive, Ternary::Zero, Ternary::Negative,
        Ternary::Positive, Ternary::Zero,
    ];
    prophet.observe(&data);
    assert_eq!(prophet.data_len(), 8);
    let f = prophet.predict(1);
    // strength 181/312 is above 1/2: the cycle continues with Negative
    assert_eq!(f.basis, Basis::Seasonal(Ratio { num: 181, den: 312 }));
    assert_eq!(f.predicted, Ternary::Negative);
    assert_eq!(f.horizon, 1);
    assert_eq!(prophet.predict(2).predicted, Ternary::Positive);
}

#[test]
fn prophet_extrapolates_the_trend() {
    let mut prophet = Prophet::new();
    prophet.observe(&[Ternary::Negative, Ternary::Negative, Ternary::Zero, Ternary::Zero, Ternary::Positive]);
    let f = prophet.predict(1);
    assert_eq!(f.basis, Basis::Regression);
    assert_eq!(f.predicted, Ternary::Positive);
    // a very distant horizon follows the sign of the slope
    assert_eq!(prophet.predict(usize::MAX - 5).predicted, Ternary::Positive);
}

#[test]
fn prophet_with_one_value_repeats_it() {
    let mut prophet = Prophet::new();
    prophet.observe(&[Ternary::Negative]);
    let f = prophet.predict(3);
    assert_eq!(f.predicted, Ternary::Negative);
    assert_eq!(f.basis, Basis::LastValue);
    assert!(prophet.trend().is_none());
    assert!(prophet.seasonality().is_none());
}

#[test]
fn observing_in_steps_equals_observing_at_once() {
    let data = [Ternary::Positive, Ternary::Zero, Ternary::Negative, Ternary::Positive, Ternary::Zero, Ternary::Negative, Ternary::Positive];
    let mut a = Prophet::new();
    a.observe(&data);
    let mut b = Prophet::new();
    b.observe(&data[..2]);
    b.observe(&data[2..]);
    b.reanalyze();
    assert_eq!(a.data_len(), b.data_len());
    assert_eq!(a.trend(), b.trend());
    assert_eq!(a.seasonality().map(|p| p.period), b.seasonality().map(|p| p.period));
    for h in 0..5 {
        assert_eq!(a.predict(h), b.predict(h));
    }
}

#[test]
fn walk_forward_counts_correct_forecasts() {
    let data = [
        Ternary::Negative, Ternary::Zero, Ternary::Positive,
        Ternary::Negative, Ternary::Zero, Ternary::Positive,
        Ternary::Negative, Ternary::Zero, Ternary::Positive,
    ];
    let (train, test) = data.split_at(6);
    let hits = walk_forward_hits(train, test);
    // count the same thing by hand
    let mut prophet = Prophet::new();
    prophet.observe(train);
    let mut expected = 0;
    for &actual in test {
        if prophet.predict(1).predicted == actual {
            expected += 1;
        }
        prophet.observe(&[actual]);
    }
    assert_eq!(hits, expected);
    assert_eq!(hits, 2);
    assert_eq!(walk_forward_hits(&data, &[]), 0);
}

#[test]
fn confidence_intervals() {
    for t in [Ternary::Negative, Ternary::Zero, Ternary::Positive] {
        assert_eq!(confidence_interval(t, ConfidenceBand::High), (t, t));
        assert_eq!(confidence_interval(t, ConfidenceBand::Medium), (Ternary::Negative, Ternary::Positive));
        assert_eq!(confidence_interval(t, ConfidenceBand::Low), (Ternary::Negative, Ternary::Positive));
    }
    assert!(interval_contains(Ternary::Positive, Ternary::Positive, Ternary::Positive));
    assert!(!interval_contains(Ternary::Positive, Ternary::Positive, Ternary::Negative));
    assert!(interval_contains(Ternary::Negative, Ternary::Positive, Ternary::Zero));
    assert!(!interval_contains(Ternary::Zero, Ternary::Positive, Ternary::Negative));
}

#[test]
fn prophet_reads_a_level_line_as_zero() {
    let mut prophet = Prophet::new();
    prophet.observe(&[Ternary::Positive, Ternary::Negative, Ternary::Negative, Ternary::Positive]);
    let f = prophet.predict(1);
    assert_eq!(f.basis, Basis::Regression);
    assert_eq!(f.predicted, Ternary::Zero);
    let mut falling = Prophet::new();
    falling.observe(&[Ternary::Positive, Ternary::Zero, Ternary::Negative]);
    assert_eq!(falling.predict(1).predicted, Ternary::Negative);
    assert_eq!(falling.trend(), Some(&ternary_prophet::Trend::Falling));
}

#[test]
fn test_prophet_observe_and_predict() {
    let mut prophet = Prophet::new();
    prophet.observe(&[Ternary::Negative, Ternary::Zero, Ternary::Positive]);
    let pred = prophet.predict(1);
    assert_eq!(pred.horizon, 1);
    // the forecast rests on the regression line, whose confidence is positive
    assert_eq!(pred.basis, Basis::Regression);
    assert_eq!(pred.predicted, Ternary::Positive);
}

#[test]
fn autocorrelation_of_exactly_three_tenths_is_no_cycle() {
    let data = vec![
        Ternary::Negative, Ternary::Negative, Ternary::Zero, Ternary::Negative, Ternary::Negative,
        Ternary::Zero, Ternary::Zero, Ternary::Zero, Ternary::Zero, Ternary::Zero,
    ];
    // period 3 correlates with strength 72/240 = 3/10 exactly
    assert!(Seasonality::detect_period(&data, 2, 5).is_none());
    let mut prophet = Prophet::new();
    prophet.observe(&data);
    assert!(prophet.seasonality().is_none());
}
