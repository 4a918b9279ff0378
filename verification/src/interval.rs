use vstd::prelude::*;

use crate::ternary::Ternary;

verus! {

/// How confident a forecast is, by the thresholds that set how wide its
/// interval is: above 0.7, above 0.4, or neither.
#[derive(Debug, Clone, Copy, PartialEq, Eq, Structural)]
pub enum ConfidenceBand {
    High,
    Medium,
    Low,
}

/// The interval `(lower, upper)` around a forecast of `predicted`: just the
/// value itself when confidence is high; one step wider on each side of the
/// value and of Zero (within the ternary range) when it is medium; the
/// whole range when it is low.
pub open spec fn interval_bounds(predicted: Ternary, band: ConfidenceBand) -> (Ternary, Ternary) {
    let v = predicted.spec_value();
    match band {
        ConfidenceBand::High => (predicted, predicted),
        ConfidenceBand::Medium => (
            match Ternary::spec_from_value(if v < 0 { v } else { 0 } - 1) {
                Some(t) => t,
                None => Ternary::Negative,
            },
            match Ternary::spec_from_value(if v > 0 { v } else { 0 } + 1) {
                Some(t) => t,
                None => Ternary::Positive,
            },
        ),
        ConfidenceBand::Low => (Ternary::Negative, Ternary::Positive),
    }
}

/// The confidence interval of a forecast of `predicted`.
pub fn confidence_interval(predicted: Ternary, band: ConfidenceBand) -> (r: (Ternary, Ternary))
    ensures
        r == interval_bounds(predicted, band),
{
    match band {
        ConfidenceBand::High => (predicted, predicted),
        ConfidenceBand::Medium => {
            let v = predicted.value();
            let below: i8 = if v < 0 {
                v
            } else {
                0
            };
            let above: i8 = if v > 0 {
                v
            } else {
                0
            };
            let lower = match Ternary::from_value(below - 1) {
                Some(t) => t,
                None => Ternary::Negative,
            };
            let upper = match Ternary::from_value(above + 1) {
                Some(t) => t,
                None => Ternary::Positive,
            };
            (lower, upper)
        },
        ConfidenceBand::Low => (Ternary::Negative, Ternary::Positive),
    }
}

/// Whether `value` lies within the interval from `lower` to `upper`.
pub fn interval_contains(lower: Ternary, upper: Ternary, value: Ternary) -> (r: bool)
    ensures
        r == (lower.spec_value() <= value.spec_value() <= upper.spec_value()),
{
    value.value() >= lower.value() && value.value() <= upper.value()
}

/// Every confidence interval holds the forecast value; only a highly
/// confident one is narrower than the whole range, which the medium band
/// always reaches too.
pub proof fn lemma_interval_shape(predicted: Ternary, band: ConfidenceBand)
    ensures
        ({
            let (lo, hi) = interval_bounds(predicted, band);
            lo.spec_value() <= predicted.spec_value() <= hi.spec_value()
        }),
        band != ConfidenceBand::High ==> interval_bounds(predicted, band) == (
            Ternary::Negative,
            Ternary::Positive,
        ),
{
}

} // verus!
