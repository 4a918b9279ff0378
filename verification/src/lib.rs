//! Forecasting with uncertainty for ternary state sequences: values in
//! {-1, 0, +1}, trend detection by least-squares regression, seasonal cycles
//! by autocorrelation, point forecasts, confidence intervals and
//! prediction-accuracy bookkeeping.
//!
//! All statistics are computed exactly over the integers; every threshold of
//! the forecasting rules is compared as an exact rational.

pub mod accuracy;
pub mod interval;
pub mod prophet;
pub mod seasonality;
pub mod stats;
pub mod ternary;
pub mod trend;

pub use accuracy::AccuracyTracker;
pub use interval::{confidence_interval, interval_contains, ConfidenceBand};
pub use prophet::{walk_forward_hits, Basis, Forecast, Prophet};
pub use seasonality::{SeasonalPattern, Seasonality};
pub use stats::{Ratio, MAX_SERIES_LEN};
pub use ternary::Ternary;
pub use trend::{Trend, TrendDetector};
