use vstd::prelude::*;

use crate::seasonality::{
    forecast_index, lemma_forecast_periodic, lemma_seasonal_cycle, outcome_is, seasonal_cycle,
    SeasonalPattern, Seasonality,
};
use crate::stats::{
    lemma_moment_bounds, lemma_slope_den_closed, moments, slope_den, slope_num, sum_x, sum_xx,
    sum_xy, sum_y, Moments, Ratio, MAX_SERIES_LEN,
};
use crate::ternary::Ternary;
use crate::trend::{detect_trend, Trend, TrendDetector};

verus! {

/// The window of the trend that a prophet reports.
pub const TREND_WINDOW: usize = 10;

/// The trend that a prophet reports for its data: none before three values.
pub open spec fn analysis_trend(s: Seq<Ternary>) -> Option<Trend> {
    if s.len() >= 3 {
        Some(detect_trend(s, TREND_WINDOW as nat))
    } else {
        None
    }
}

/// The seasonal cycle that a prophet reports for its data, searched among
/// the periods from 2 to half the data: none before six values.
pub open spec fn analysis_cycle(s: Seq<Ternary>) -> Option<(int, int, int)> {
    if s.len() >= 6 {
        seasonal_cycle(s, 2, s.len() / 2)
    } else {
        None
    }
}

/// `n * slope_den(n)` times the value at position `n + horizon - 1` of the
/// least-squares line through all of `s`: with slope `m = num / den` and
/// intercept `(sum_y - m * sum_x) / n`, the line's value there is
/// `extrapolation(s, horizon) / (n * den)`.
pub open spec fn extrapolation(s: Seq<Ternary>, horizon: nat) -> int {
    let n = s.len();
    sum_y(s) * slope_den(n) - slope_num(s) * sum_x(n) + n * slope_num(s) * (n + horizon - 1)
}

/// The trend-based forecast `horizon` steps ahead: the last value when the
/// data has fewer than two values or does not determine a line; otherwise
/// the line extended to the forecast position, read as Positive above
/// 33/100, Negative below -33/100 and Zero in between.
pub open spec fn trend_forecast(s: Seq<Ternary>, horizon: nat) -> Ternary {
    let n = s.len();
    let den = slope_den(n);
    if n == 0 {
        Ternary::Zero
    } else if n < 2 || den == 0 {
        s.last()
    } else if 100 * extrapolation(s, horizon) > line_threshold(s) {
        Ternary::Positive
    } else if 100 * extrapolation(s, horizon) < -line_threshold(s) {
        Ternary::Negative
    } else {
        Ternary::Zero
    }
}

/// Whether the trend-based forecast follows the regression line.
pub open spec fn trend_follows_line(s: Seq<Ternary>) -> bool {
    s.len() >= 2 && slope_den(s.len()) != 0
}

/// What a forecast rests on, which decides how confident it is.
#[derive(Debug, Clone, Copy, PartialEq, Eq, Structural)]
pub enum Basis {
    /// No data has been observed.
    NoData,
    /// The data repeats a seasonal cycle whose autocorrelation, given here,
    /// is above 1/2.
    Seasonal(Ratio),
    /// The least-squares line through all the data.
    Regression,
    /// The last observed value, for data too short to determine a line.
    LastValue,
}

/// A point forecast.
#[derive(Debug, Clone, Copy, PartialEq, Eq, Structural)]
pub struct Forecast {
    /// Predicted value.
    pub predicted: Ternary,
    /// Number of steps ahead this forecast is for.
    pub horizon: usize,
    /// What the forecast rests on.
    pub basis: Basis,
}

/// The basis of a prophet's forecast for data `s`.
pub open spec fn forecast_basis(s: Seq<Ternary>) -> Basis {
    if s.len() == 0 {
        Basis::NoData
    } else {
        match analysis_cycle(s) {
            Some((p, a, b)) if 2 * a > b => Basis::Seasonal(Ratio { num: a as i128, den: b as i128 }),
            _ => if trend_follows_line(s) {
                Basis::Regression
            } else {
                Basis::LastValue
            },
        }
    }
}

/// The value that a prophet with data `s` forecasts `horizon` steps ahead:
/// Zero without data; the seasonal cycle's value when a cycle with an
/// autocorrelation above 1/2 has been found; the trend-based forecast
/// otherwise.
pub open spec fn forecast_value(s: Seq<Ternary>, horizon: nat) -> Ternary {
    if s.len() == 0 {
        Ternary::Zero
    } else {
        match analysis_cycle(s) {
            Some((p, a, b)) if 2 * a > b => s[forecast_index(s.len() as int, horizon as int, p)],
            _ => trend_forecast(s, horizon),
        }
    }
}

/// The reading threshold 33/100, scaled like `100 * extrapolation(s, _)`:
/// `100 * n * slope_den(n)` times 33/100.
pub open spec fn line_threshold(s: Seq<Ternary>) -> int {
    33 * (s.len() * slope_den(s.len()))
}

/// The reading of the regression line at the forecast position, for data
/// whose line is determined.
pub open spec fn line_reading(s: Seq<Ternary>, horizon: nat) -> Ternary {
    if 100 * extrapolation(s, horizon) > line_threshold(s) {
        Ternary::Positive
    } else if 100 * extrapolation(s, horizon) < -line_threshold(s) {
        Ternary::Negative
    } else {
        Ternary::Zero
    }
}

/// Bounds on the terms of the extrapolation of a line through at most
/// `MAX_SERIES_LEN` values.
proof fn lemma_extrapolation_bounds(n: int, sx: int, sy: int, num: int, den: int)
    requires
        0 <= n <= 0x800000,
        0 <= sx <= 0x400000000000,
        -n <= sy <= n,
        -0x400000000000000000 <= num <= 0x400000000000000000,
        0 <= den <= 0x100000000000000000000000,
    ensures
        -0x80000000000000000000000000000 <= sy * den <= 0x80000000000000000000000000000,
        -0x100000000000000000000000000000 <= num * sx <= 0x100000000000000000000000000000,
        -0x200000000000000000000000 <= n * num <= 0x200000000000000000000000,
        0 <= 33 * (n * den) <= 0x2000000000000000000000000000000,
        0 <= n * den,
{
    assert(-0x80000000000000000000000000000 <= sy * den <= 0x80000000000000000000000000000)
        by (nonlinear_arith)
        requires
            -0x800000 <= sy <= 0x800000,
            0 <= den <= 0x100000000000000000000000,
    ;
    assert(-0x100000000000000000000000000000 <= num * sx <= 0x100000000000000000000000000000)
        by (nonlinear_arith)
        requires
            -0x400000000000000000 <= num <= 0x400000000000000000,
            0 <= sx <= 0x400000000000,
    ;
    assert(-0x200000000000000000000000 <= n * num <= 0x200000000000000000000000)
        by (nonlinear_arith)
        requires
            -0x400000000000000000 <= num <= 0x400000000000000000,
            0 <= n <= 0x800000,
    ;
    assert(0 <= n * den <= 0x80000000000000000000000000000) by (nonlinear_arith)
        requires
            0 <= n <= 0x800000,
            0 <= den <= 0x100000000000000000000000,
    ;
}

/// The reading of the regression line of `s`, whose statistics `m` holds,
/// `horizon` steps past its end.
fn extrapolated_class(m: &Moments, horizon: usize, Ghost(s): Ghost<Seq<Ternary>>) -> (t: Ternary)
    requires
        m.describes(s),
        s.len() >= 2,
        s.len() + horizon <= usize::MAX,
    ensures
        t == line_reading(s, horizon as nat),
{
    proof {
        lemma_moment_bounds(*m, s);
        lemma_slope_den_closed(s.len());
        assert(m.sx <= 0x400000000000) by (nonlinear_arith)
            requires
                0 <= m.n <= 0x800000,
                m.sx <= m.n * m.n,
        ;
    }
    let den: i128 = m.n * m.sxx - m.sx * m.sx;
    let num: i128 = m.n * m.sxy - m.sx * m.sy;
    proof {
        lemma_extrapolation_bounds(m.n as int, m.sx as int, m.sy as int, num as int, den as int);
    }
    let t1: i128 = m.sy * den - num * m.sx;
    let g: i128 = m.n * num;
    let pos: i128 = m.n + (horizon as i128) - 1;
    let lim: i128 = 33 * (m.n * den);
    proof {
        assert(extrapolation(s, horizon as nat) == t1 + g * pos) by (nonlinear_arith)
            requires
                t1 == m.sy * den - num * m.sx,
                g == m.n * num,
                pos == m.n + horizon - 1,
                m.n == s.len(),
                m.sy == sum_y(s),
                m.sx == sum_x(s.len()),
                num == slope_num(s),
                den == slope_den(s.len()),
                extrapolation(s, horizon as nat) == sum_y(s) * slope_den(s.len()) - slope_num(s)
                    * sum_x(s.len()) + s.len() * slope_num(s) * (s.len() + horizon - 1),
        ;
    }
    let bound: i128 = 0x800000000000000000000000000000;
    let prod = g.checked_mul(pos);
    let exact: bool = match prod {
        Some(pr) => -bound <= pr && pr <= bound,
        None => false,
    };
    let ghost big_e = extrapolation(s, horizon as nat);
    let ghost big_l = line_threshold(s);
    assert(lim == big_l);
    assert(0 <= big_l <= 0x2000000000000000000000000000000);
    assert(-0x200000000000000000000000000000 <= t1 <= 0x200000000000000000000000000000);
    if exact {
        let pr = prod.unwrap();
        let e: i128 = t1 + pr;
        assert(e == big_e);
        if 100 * e > lim {
            assert(line_reading(s, horizon as nat) == Ternary::Positive);
            Ternary::Positive
        } else if 100 * e < -lim {
            assert(line_reading(s, horizon as nat) == Ternary::Negative);
            Ternary::Negative
        } else {
            assert(line_reading(s, horizon as nat) == Ternary::Zero);
            Ternary::Zero
        }
    } else {
        proof {
            assert(!(-bound <= g * pos <= bound));
            assert(g == 0 ==> g * pos == 0) by (nonlinear_arith);
            assert(g != 0);
            assert(big_e == t1 + g * pos);
            if g > 0 {
                assert(g * pos > bound) by (nonlinear_arith)
                    requires
                        g > 0,
                        pos >= 1,
                        !(-bound <= g * pos <= bound),
                ;
                assert(big_e > 0x400000000000000000000000000000);
                assert(100 * big_e > big_l);
            } else {
                assert(g * pos < -bound) by (nonlinear_arith)
                    requires
                        g < 0,
                        pos >= 1,
                        !(-bound <= g * pos <= bound),
                ;
                assert(big_e < -0x400000000000000000000000000000);
                assert(100 * big_e < -big_l);
            }
        }
        if g > 0 {
            assert(line_reading(s, horizon as nat) == Ternary::Positive);
            Ternary::Positive
        } else {
            assert(line_reading(s, horizon as nat) == Ternary::Negative);
            Ternary::Negative
        }
    }
}

/// The forecasting engine for ternary state sequences: the observed data
/// with its trend and seasonal cycle.
#[derive(Debug, Clone)]
pub struct Prophet {
    data: Vec<Ternary>,
    trend: Option<Trend>,
    seasonality: Option<SeasonalPattern>,
}

impl View for Prophet {
    type V = Seq<Ternary>;

    /// The observed data.
    closed spec fn view(&self) -> Seq<Ternary> {
        self.data@
    }
}

impl Prophet {
    /// The trend and seasonal cycle held are those of the data.
    pub closed spec fn wf(self) -> bool {
        &&& self.data@.len() <= MAX_SERIES_LEN
        &&& self.trend == analysis_trend(self.data@)
        &&& outcome_is(self.seasonality, self.data@, analysis_cycle(self.data@))
    }

    pub fn new() -> (p: Self)
        ensures
            p.wf(),
            p@ == Seq::<Ternary>::empty(),
    {
        Prophet { data: Vec::new(), trend: None, seasonality: None }
    }

    /// The trend currently held.
    pub closed spec fn held_trend(self) -> Option<Trend> {
        self.trend
    }

    /// The seasonal pattern currently held.
    pub closed spec fn held_seasonality(self) -> Option<SeasonalPattern> {
        self.seasonality
    }

    /// Add observations.
    pub fn observe(&mut self, values: &[Ternary])
        requires
            old(self).wf(),
            old(self)@.len() + values@.len() <= MAX_SERIES_LEN,
        ensures
            final(self).wf(),
            final(self)@ == old(self)@ + values@,
    {
        let ghost start = self.data@;
        let mut i: usize = 0;
        while i < values.len()
            invariant
                i <= values@.len(),
                self.data@ == start + values@.take(i as int),
                start.len() + values@.len() <= MAX_SERIES_LEN,
                start.len() < 3 ==> self.trend is None,
                start.len() < 6 ==> self.seasonality is None,
            decreases values@.len() - i,
        {
            self.data.push(values[i]);
            assert(values@.take(i + 1) =~= values@.take(i as int).push(values@[i as int]));
            i = i + 1;
        }
        assert(values@.take(values@.len() as int) =~= values@);
        self.reanalyze();
    }

    /// Re-analyze the data for trends and seasonality: from three values on
    /// the trend of the last ten values is detected again, and from six
    /// values on the seasonal cycle; with less data each stays as it was.
    /// For a prophet whose analysis is up to date this changes nothing.
    pub fn reanalyze(&mut self)
        requires
            old(self)@.len() <= MAX_SERIES_LEN,
        ensures
            final(self)@ == old(self)@,
            old(self)@.len() >= 3 ==> final(self).held_trend() == analysis_trend(old(self)@),
            old(self)@.len() < 3 ==> final(self).held_trend() == old(self).held_trend(),
            old(self)@.len() >= 6 ==> outcome_is(
                final(self).held_seasonality(),
                old(self)@,
                analysis_cycle(old(self)@),
            ),
            old(self)@.len() < 6 ==> final(self).held_seasonality() == old(
                self,
            ).held_seasonality(),
            old(self).wf() ==> final(self).wf(),
    {
        if self.data.len() >= 3 {
            let detector = TrendDetector::new(TREND_WINDOW);
            self.trend = Some(detector.detect(&self.data));
        }
        if self.data.len() >= 6 {
            self.seasonality = Seasonality::detect_period(&self.data, 2, self.data.len() / 2);
        }
    }

    /// The trend-based forecast and its basis.
    fn predict_from_trend(&self, horizon: usize) -> (r: (Ternary, Basis))
        requires
            self.data@.len() >= 1,
            self.data@.len() <= MAX_SERIES_LEN,
            self.data@.len() >= 2 ==> self.data@.len() + horizon <= usize::MAX,
        ensures
            r.0 == trend_forecast(self.data@, horizon as nat),
            r.1 == if trend_follows_line(self.data@) {
                Basis::Regression
            } else {
                Basis::LastValue
            },
    {
        let len = self.data.len();
        if len < 2 {
            return (self.data[len - 1], Basis::LastValue);
        }
        let m = moments(&self.data, 0);
        proof {
            assert(self.data@.subrange(0, len as int) =~= self.data@);
            lemma_slope_den_closed(len as nat);
            lemma_moment_bounds(m, self.data@);
        }
        let den: i128 = m.n * m.sxx - m.sx * m.sx;
        if den == 0 {
            return (self.data[len - 1], Basis::LastValue);
        }
        let t = extrapolated_class(&m, horizon, Ghost(self.data@));
        (t, Basis::Regression)
    }

    /// Generate a forecast for `horizon` steps ahead.
    pub fn predict(&self, horizon: usize) -> (f: Forecast)
        requires
            self.wf(),
            self@.len() >= 2 ==> self@.len() + horizon <= usize::MAX,
        ensures
            f.predicted == forecast_value(self@, horizon as nat),
            f.horizon == horizon,
            f.basis == forecast_basis(self@),
    {
        let len = self.data.len();
        if len == 0 {
            return Forecast { predicted: Ternary::Zero, horizon, basis: Basis::NoData };
        }
        let trend_pred = self.predict_from_trend(horizon);
        match &self.seasonality {
            Some(s) => {
                proof {
                    lemma_seasonal_cycle(self.data@, 2, self.data@.len() / 2);
                    lemma_forecast_periodic(len as int, horizon as int, s.period as int);
                }
                let sp = Seasonality::forecast(s, horizon, len);
                if s.strength.num > s.strength.den - s.strength.num {
                    Forecast { predicted: sp, horizon, basis: Basis::Seasonal(s.strength) }
                } else {
                    Forecast { predicted: trend_pred.0, horizon, basis: trend_pred.1 }
                }
            },
            None => Forecast { predicted: trend_pred.0, horizon, basis: trend_pred.1 },
        }
    }

    /// Get the current data length.
    pub fn data_len(&self) -> (n: usize)
        ensures
            n == self@.len(),
    {
        self.data.len()
    }

    /// Get the detected trend.
    pub fn trend(&self) -> (t: Option<&Trend>)
        requires
            self.wf(),
        ensures
            match t {
                Some(t) => analysis_trend(self@) == Some(*t),
                None => analysis_trend(self@) is None,
            },
    {
        self.trend.as_ref()
    }

    /// Get the detected seasonality.
    pub fn seasonality(&self) -> (p: Option<&SeasonalPattern>)
        requires
            self.wf(),
        ensures
            match p {
                Some(p) => analysis_cycle(self@) matches Some(c) && p.found_in(self@, c),
                None => analysis_cycle(self@) is None,
            },
            self@.len() >= 6 ==> outcome_is(
                match p {
                    Some(q) => Some(*q),
                    None => None,
                },
                self@,
                seasonal_cycle(self@, 2, self@.len() / 2),
            ),
            self@.len() < 6 ==> p is None,
            p matches Some(q) ==> 2 <= q.period && 2 * q.period <= self@.len(),
    {
        proof {
            lemma_prophet_cycle(self@);
        }
        self.seasonality.as_ref()
    }
}

} // verus!

verus! {

/// The cycle a prophet holds is searched among the periods from 2 to half
/// its data, once it has six values: it is what `detect_period(data, 2,
/// data.len() / 2)` finds, and its period is never below 2.
pub proof fn lemma_prophet_cycle(s: Seq<Ternary>)
    ensures
        s.len() >= 6 ==> analysis_cycle(s) == seasonal_cycle(s, 2, s.len() / 2),
        s.len() < 6 ==> analysis_cycle(s) is None,
        analysis_cycle(s) matches Some((p, a, b)) ==> 2 <= p && 2 * p <= s.len() && 3 * b < 10
            * a && a <= b,
{
    lemma_seasonal_cycle(s, 2, s.len() / 2);
}

/// A prophet reports the trend of its last ten values once it holds three.
pub proof fn lemma_prophet_trend(s: Seq<Ternary>)
    ensures
        s.len() >= 3 ==> analysis_trend(s) == Some(detect_trend(s, 10)),
        s.len() < 3 ==> analysis_trend(s) is None,
{
}

/// What a prophet forecasts besides the trend: Zero without data, the one
/// value it has seen with a single value, and, when it holds a cycle with
/// an autocorrelation above 1/2, the value of that cycle at the forecast
/// position `n + horizon - 1`, read from the data's first period.
pub proof fn lemma_forecast_cases(s: Seq<Ternary>, horizon: nat)
    ensures
        s.len() == 0 ==> forecast_value(s, horizon) == Ternary::Zero,
        s.len() == 1 ==> forecast_value(s, horizon) == s[0],
        analysis_cycle(s) matches Some((p, a, b)) ==> (2 * a > b ==> {
            &&& 2 <= p
            &&& (s.len() + horizon - 1) % p < p
            &&& forecast_value(s, horizon) == s[(s.len() + horizon - 1) % p]
        }),
{
    lemma_prophet_cycle(s);
    if let Some((p, a, b)) = analysis_cycle(s) {
        lemma_forecast_periodic(s.len() as int, horizon as int, p);
    }
}

/// Away from a strong cycle, the forecast `horizon` steps ahead reads the
/// least-squares line through all the data at position `n + horizon - 1`:
/// with slope `num / den` and intercept `(sum_y - slope * sum_x) / n`, the
/// line there is Positive above 33/100, Negative below -33/100, Zero
/// otherwise (written scaled by `100 * n * den`, with `den > 0`).
pub proof fn lemma_trend_forecast_reads_line(s: Seq<Ternary>, horizon: nat)
    requires
        s.len() >= 2,
        !(analysis_cycle(s) matches Some((p, a, b)) && 2 * a > b),
    ensures
        ({
            let n = s.len() as int;
            let num = n * sum_xy(s) - sum_x(s.len()) * sum_y(s);
            let den = n * sum_xx(s.len()) - sum_x(s.len()) * sum_x(s.len());
            let at = 100 * (sum_y(s) * den - num * sum_x(s.len()) + n * num * (n + horizon - 1));
            let bar = 33 * (n * den);
            &&& den > 0
            &&& forecast_value(s, horizon) == if at > bar {
                Ternary::Positive
            } else if at < -bar {
                Ternary::Negative
            } else {
                Ternary::Zero
            }
        }),
{
    lemma_slope_den_closed(s.len());
}

/// How far ahead the forecast of data `s` follows the direction of its
/// least-squares line, whatever its intercept.
pub open spec fn settling_horizon(s: Seq<Ternary>) -> nat {
    let n = s.len() as int;
    let num = n * sum_xy(s) - sum_x(s.len()) * sum_y(s);
    let den = n * sum_xx(s.len()) - sum_x(s.len()) * sum_x(s.len());
    let t = 100 * (sum_y(s) * den - num * sum_x(s.len()));
    ((if t < 0 { -t } else { t }) + 33 * (n * den) + 1) as nat
}

/// The trend forecast depends on the horizon: away from a strong cycle,
/// data whose least-squares line rises is forecast Positive, and data
/// whose line falls Negative, for every horizon from `settling_horizon` on.
pub proof fn lemma_trend_forecast_far_ahead(s: Seq<Ternary>, horizon: nat)
    requires
        s.len() >= 2,
        !(analysis_cycle(s) matches Some((p, a, b)) && 2 * a > b),
        horizon >= settling_horizon(s),
    ensures
        slope_num(s) > 0 ==> forecast_value(s, horizon) == Ternary::Positive,
        slope_num(s) < 0 ==> forecast_value(s, horizon) == Ternary::Negative,
{
    lemma_trend_forecast_reads_line(s, horizon);
    lemma_slope_den_closed(s.len());
    let n = s.len() as int;
    let num = n * sum_xy(s) - sum_x(s.len()) * sum_y(s);
    let den = n * sum_xx(s.len()) - sum_x(s.len()) * sum_x(s.len());
    let t = 100 * (sum_y(s) * den - num * sum_x(s.len()));
    let k = n + horizon - 1;
    let bar = 33 * (n * den);
    assert(bar >= 0) by (nonlinear_arith)
        requires
            n >= 2,
            den > 0,
            bar == 33 * (n * den),
    ;
    if num > 0 {
        assert(n * num * k >= k) by (nonlinear_arith)
            requires
                n >= 2,
                num >= 1,
                k >= 0,
        ;
    } else if num < 0 {
        assert(n * num * k <= -k) by (nonlinear_arith)
            requires
                n >= 2,
                num <= -1,
                k >= 0,
        ;
    }
    assert(100 * (sum_y(s) * den - num * sum_x(s.len()) + n * num * k) == t + 100 * (n * num * k))
        by (nonlinear_arith)
        requires
            t == 100 * (sum_y(s) * den - num * sum_x(s.len())),
    ;
}

/// A prophet's analysis and forecasts depend on nothing but the data it has
/// observed: observing `a` and then `b` leaves it with the same data, and so
/// the same trend, cycle and forecasts, as observing `a + b` at once.
pub proof fn lemma_observe_in_steps(s: Seq<Ternary>, a: Seq<Ternary>, b: Seq<Ternary>, horizon: nat)
    ensures
        (s + a) + b == s + (a + b),
        analysis_trend((s + a) + b) == analysis_trend(s + (a + b)),
        analysis_cycle((s + a) + b) == analysis_cycle(s + (a + b)),
        forecast_value((s + a) + b, horizon) == forecast_value(s + (a + b), horizon),
{
    assert((s + a) + b =~= s + (a + b));
}

/// How many values of `test` a prophet forecasts correctly one step ahead
/// when it has observed `train` and every earlier value of `test`.
pub open spec fn walk_forward_count(train: Seq<Ternary>, test: Seq<Ternary>) -> nat
    decreases test.len(),
{
    if test.len() == 0 {
        0
    } else {
        walk_forward_count(train, test.drop_last()) + if forecast_value(
            train + test.drop_last(),
            1,
        ) == test.last() {
            1nat
        } else {
            0nat
        }
    }
}

/// Every test value is scored: extending the test data by `v` adds one hit
/// exactly when a prophet that has observed the training data and all the
/// earlier test data forecasts `v` one step ahead; no test data, no hits.
pub proof fn lemma_walk_forward_step(train: Seq<Ternary>, test: Seq<Ternary>, v: Ternary)
    ensures
        walk_forward_count(train, Seq::<Ternary>::empty()) == 0,
        walk_forward_count(train, test.push(v)) == walk_forward_count(train, test) + if forecast_value(
            train + test,
            1,
        ) == v {
            1nat
        } else {
            0nat
        },
{
    assert(test.push(v).drop_last() =~= test);
}

/// Walk-forward evaluation: a prophet observes `train`, then forecasts each
/// value of `test` one step ahead before observing it; the number of
/// correct forecasts.
#[verifier::spinoff_prover]
#[verifier::rlimit(40)]
pub fn walk_forward_hits(train: &[Ternary], test: &[Ternary]) -> (hits: usize)
    requires
        train@.len() + test@.len() <= MAX_SERIES_LEN,
    ensures
        hits == walk_forward_count(train@, test@),
        hits <= test@.len(),
        test@.len() == 1 ==> (hits == 1 <==> forecast_value(train@, 1) == test@[0]),
        test@.len() == 1 ==> (hits == 0 <==> forecast_value(train@, 1) != test@[0]),
{
    proof {
        lemma_walk_forward_step(train@, Seq::<Ternary>::empty(), test@.last());
        if test@.len() == 1 {
            assert(Seq::<Ternary>::empty().push(test@[0]) =~= test@);
            assert(train@ + Seq::<Ternary>::empty() =~= train@);
        }
    }
    let mut prophet = Prophet::new();
    prophet.observe(train);
    assert(train@ =~= Seq::<Ternary>::empty() + train@);
    let mut correct: usize = 0;
    let mut i: usize = 0;
    while i < test.len()
        invariant
            i <= test@.len(),
            prophet.wf(),
            prophet@ == train@ + test@.take(i as int),
            train@.len() + test@.len() <= MAX_SERIES_LEN,
            correct == walk_forward_count(train@, test@.take(i as int)),
            correct <= i,
        decreases test@.len() - i,
    {
        let actual = test[i];
        let pred = prophet.predict(1);
        assert(test@.take(i + 1).drop_last() =~= test@.take(i as int));
        assert(test@.take(i + 1).last() == actual);
        if pred.predicted == actual {
            correct = correct + 1;
        }
        let one = [actual];
        prophet.observe(&one);
        assert(train@ + test@.take(i + 1) =~= train@ + test@.take(i as int) + one@);
        i = i + 1;
    }
    assert(test@.take(test@.len() as int) =~= test@);
    correct
}

} // verus!
