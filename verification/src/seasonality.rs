use vstd::prelude::*;

use crate::stats::{moments, sum_y, Ratio, MAX_SERIES_LEN};
use crate::ternary::Ternary;

verus! {

/// `n * n` times the deviation of `s[i]` from the mean of `s`.
pub open spec fn centered(s: Seq<Ternary>, i: int) -> int {
    s.len() * s[i].spec_value() - sum_y(s)
}

/// Sum of `centered(s, i) * centered(s, i + p)` over `0 <= i < k`.
pub open spec fn lag_sum(s: Seq<Ternary>, p: int, k: int) -> int
    decreases k,
{
    if k <= 0 {
        0
    } else {
        lag_sum(s, p, k - 1) + centered(s, k - 1) * centered(s, k - 1 + p)
    }
}

/// `n^2` times the autocovariance of `s` at lag `p`: the autocorrelation at
/// lag `p` is `lag_corr(s, p) / energy(s)`.
pub open spec fn lag_corr(s: Seq<Ternary>, p: int) -> int {
    lag_sum(s, p, s.len() - p)
}

/// `n^2` times the sum of squared deviations from the mean of `s`.
pub open spec fn energy(s: Seq<Ternary>) -> int {
    lag_sum(s, 0, s.len() as int)
}

/// Scanning the lags `lo, lo + 1, ..., e - 1` in order from the pair
/// `(0, 0)`, the lag with the highest autocorrelation seen so far replaces
/// the pair `(lag, lag_corr)` whenever it is strictly higher.
pub open spec fn best_lag(s: Seq<Ternary>, lo: int, e: int) -> (int, int)
    decreases e - lo,
{
    if e <= lo {
        (0, 0)
    } else {
        let prev = best_lag(s, lo, e - 1);
        let a = lag_corr(s, e - 1);
        if a > prev.1 {
            (e - 1, a)
        } else {
            prev
        }
    }
}

/// The largest lag examined: `max_period`, but no more than half the data.
pub open spec fn last_lag(n: nat, max_period: nat) -> int {
    if max_period < n / 2 {
        max_period as int
    } else {
        (n / 2) as int
    }
}

/// The seasonal cycle found in `s` among the periods
/// `min_period ..= last_lag(s.len(), max_period)`, as
/// `(period, lag_corr, energy)`: the first period of highest
/// autocorrelation, if that autocorrelation is above 3/10. None when the
/// data is shorter than two cycles of `min_period`, or constant.
pub open spec fn seasonal_cycle(s: Seq<Ternary>, min_period: nat, max_period: nat) -> Option<
    (int, int, int),
> {
    let n = s.len();
    let b = energy(s);
    if n < 2 * min_period || b == 0 {
        None
    } else {
        let best = best_lag(s, min_period as int, last_lag(n, max_period) + 1);
        if best.0 == 0 || 10 * best.1 <= 3 * b {
            None
        } else {
            Some((best.0, best.1, b))
        }
    }
}

/// A detected repeating cycle.
#[derive(Debug, Clone)]
pub struct SeasonalPattern {
    /// Detected period (number of steps per cycle).
    pub period: usize,
    /// The repeating pattern.
    pub pattern: Vec<Ternary>,
    /// Strength of the seasonal signal: the autocorrelation at the period,
    /// as an exact fraction.
    pub strength: Ratio,
}

impl SeasonalPattern {
    /// This pattern is the cycle `(period, lag_corr, energy)` found in `s`.
    pub open spec fn found_in(self, s: Seq<Ternary>, cycle: (int, int, int)) -> bool {
        &&& self.period == cycle.0
        &&& self.pattern@ == s.take(cycle.0)
        &&& self.strength.num == cycle.1
        &&& self.strength.den == cycle.2
    }
}

/// `r` is the outcome `cycle` of a search for a cycle in `s`.
pub open spec fn outcome_is(
    r: Option<SeasonalPattern>,
    s: Seq<Ternary>,
    cycle: Option<(int, int, int)>,
) -> bool {
    match (r, cycle) {
        (None, None) => true,
        (Some(p), Some(c)) => p.found_in(s, c),
        _ => false,
    }
}

/// Index into a pattern of the value forecast `steps_ahead` steps after
/// `data_len` observations.
pub open spec fn forecast_index(data_len: int, steps_ahead: int, period: int) -> int {
    (data_len + steps_ahead - 1) % period
}

/// The scan of lags `lo .. e` ends on the first lag of highest
/// autocorrelation, if that autocorrelation is positive, and on `(0, 0)`
/// when no lag has a positive one.
pub proof fn lemma_best_lag(s: Seq<Ternary>, lo: int, e: int)
    requires
        0 <= lo,
    ensures
        ({
            let (p, a) = best_lag(s, lo, e);
            &&& a >= 0
            &&& (p == 0 && a == 0) || (lo <= p < e && a == lag_corr(s, p) && a > 0)
            &&& forall|q: int| lo <= q < e ==> lag_corr(s, q) <= a
            &&& forall|q: int| lo <= q < p ==> lag_corr(s, q) < a
        }),
    decreases e - lo,
{
    if e > lo {
        lemma_best_lag(s, lo, e - 1);
    }
}

/// Analyzes ternary data for seasonal/cyclic patterns.
pub struct Seasonality;

/// The deviations `centered(s, i)` of every value, as computed.
fn centered_values(data: &[Ternary]) -> (c: Vec<i128>)
    requires
        data@.len() <= MAX_SERIES_LEN,
    ensures
        c@.len() == data@.len(),
        forall|i: int| 0 <= i < c@.len() ==> c@[i] == centered(data@, i),
        forall|i: int|
            0 <= i < c@.len() ==> -2 * MAX_SERIES_LEN <= #[trigger] c@[i] <= 2 * MAX_SERIES_LEN,
{
    let m = moments(data, 0);
    assert(data@.subrange(0, data@.len() as int) =~= data@);
    let n: i128 = data.len() as i128;
    let mut c: Vec<i128> = Vec::new();
    let mut i: usize = 0;
    while i < data.len()
        invariant
            i <= data@.len(),
            n == data@.len(),
            n <= MAX_SERIES_LEN,
            m.sy == sum_y(data@),
            -n <= m.sy <= n,
            c@.len() == i,
            forall|j: int| 0 <= j < i ==> c@[j] == centered(data@, j),
            forall|j: int| 0 <= j < i ==> -2 * MAX_SERIES_LEN <= #[trigger] c@[j] <= 2 * MAX_SERIES_LEN,
        decreases data@.len() - i,
    {
        let v: i128 = data[i].value() as i128;
        assert(-n <= n * v <= n) by (nonlinear_arith)
            requires
                -1 <= v <= 1,
                n >= 0,
        ;
        c.push(n * v - m.sy);
        i = i + 1;
    }
    c
}

proof fn lemma_product_bound(x: int, y: int)
    requires
        -16777216 <= x <= 16777216,
        -16777216 <= y <= 16777216,
    ensures
        -281474976710656 <= x * y <= 281474976710656,
{
    if x >= 0 && y >= 0 {
        assert(x * y <= 16777216 * 16777216) by (nonlinear_arith)
            requires
                0 <= x <= 16777216,
                0 <= y <= 16777216,
        ;
        assert(x * y >= 0) by (nonlinear_arith)
            requires
                0 <= x,
                0 <= y,
        ;
    } else if x >= 0 {
        assert((-y) * x <= 16777216 * 16777216) by (nonlinear_arith)
            requires
                0 <= x <= 16777216,
                0 <= -y <= 16777216,
        ;
        assert((-y) * x >= 0) by (nonlinear_arith)
            requires
                0 <= x,
                0 <= -y,
        ;
        assert(x * y == -((-y) * x)) by (nonlinear_arith);
    } else if y >= 0 {
        assert((-x) * y <= 16777216 * 16777216) by (nonlinear_arith)
            requires
                0 <= -x <= 16777216,
                0 <= y <= 16777216,
        ;
        assert((-x) * y >= 0) by (nonlinear_arith)
            requires
                0 <= -x,
                0 <= y,
        ;
        assert(x * y == -((-x) * y)) by (nonlinear_arith);
    } else {
        assert((-x) * (-y) <= 16777216 * 16777216) by (nonlinear_arith)
            requires
                0 <= -x <= 16777216,
                0 <= -y <= 16777216,
        ;
        assert((-x) * (-y) >= 0) by (nonlinear_arith)
            requires
                0 <= -x,
                0 <= -y,
        ;
        assert(x * y == (-x) * (-y)) by (nonlinear_arith);
    }
}

/// `lag_sum(s, p, k)`, computed from the deviations `c` of `s`.
fn lag_product(c: &Vec<i128>, p: usize, k: usize, Ghost(s): Ghost<Seq<Ternary>>) -> (r: i128)
    requires
        c@.len() == s.len(),
        s.len() <= MAX_SERIES_LEN,
        p + k <= s.len(),
        forall|i: int| 0 <= i < c@.len() ==> c@[i] == centered(s, i),
        forall|i: int|
            0 <= i < c@.len() ==> -2 * MAX_SERIES_LEN <= #[trigger] c@[i] <= 2 * MAX_SERIES_LEN,
    ensures
        r == lag_sum(s, p as int, k as int),
        -(k as int) * 281474976710656 <= r <= (k as int) * 281474976710656,
{
    let mut acc: i128 = 0;
    let mut j: usize = 0;
    while j < k
        invariant
            j <= k,
            p + k <= s.len(),
            c@.len() == s.len(),
            s.len() <= MAX_SERIES_LEN,
            forall|i: int| 0 <= i < c@.len() ==> c@[i] == centered(s, i),
            forall|i: int|
                0 <= i < c@.len() ==> -2 * MAX_SERIES_LEN <= #[trigger] c@[i] <= 2 * MAX_SERIES_LEN,
            acc == lag_sum(s, p as int, j as int),
            -(j as int) * 281474976710656 <= acc <= (j as int) * 281474976710656,
        decreases k - j,
    {
        let x = c[j];
        let y = c[j + p];
        assert(-16777216 <= c@[j as int] <= 16777216);
        assert(-16777216 <= c@[j + p] <= 16777216);
        proof {
            lemma_product_bound(x as int, y as int);
        }
        acc = acc + x * y;
        j = j + 1;
    }
    acc
}

impl Seasonality {
    /// Detect the dominant period using autocorrelation.
    pub fn detect_period(data: &[Ternary], min_period: usize, max_period: usize) -> (r: Option<
        SeasonalPattern,
    >)
        requires
            data@.len() <= MAX_SERIES_LEN,
        ensures
            outcome_is(r, data@, seasonal_cycle(data@, min_period as nat, max_period as nat)),
            r matches Some(p) ==> {
                &&& min_period <= p.period <= max_period
                &&& 1 <= p.period
                &&& 2 * p.period <= data@.len()
                &&& p.pattern@ == data@.take(p.period as int)
                &&& 0 < 3 * p.strength.den < 10 * p.strength.num
                &&& p.strength.num <= p.strength.den
            },
    {
        proof {
            lemma_seasonal_cycle(data@, min_period as nat, max_period as nat);
        }
        let n = data.len();
        if n / 2 < min_period {
            return None;
        }
        let c = centered_values(data);
        let b = lag_product(&c, 0, n, Ghost(data@));
        if b == 0 {
            return None;
        }
        let hi: usize = if max_period < n / 2 {
            max_period
        } else {
            n / 2
        };
        let mut best_period: usize = 0;
        let mut best_corr: i128 = 0;
        let mut period: usize = min_period;
        while period <= hi
            invariant
                min_period <= period,
                period <= hi + 1 || period == min_period,
                hi <= n / 2,
                0 <= best_corr <= MAX_SERIES_LEN * 281474976710656,
                n == data@.len(),
                n <= MAX_SERIES_LEN,
                c@.len() == n,
                forall|i: int| 0 <= i < c@.len() ==> c@[i] == centered(data@, i),
                forall|i: int|
                    0 <= i < c@.len() ==> -2 * MAX_SERIES_LEN <= #[trigger] c@[i] <= 2
                        * MAX_SERIES_LEN,
                (best_period as int, best_corr as int) == best_lag(
                    data@,
                    min_period as int,
                    period as int,
                ),
            decreases hi + 1 - period,
        {
            let corr = lag_product(&c, period, n - period, Ghost(data@));
            if corr > best_corr {
                best_corr = corr;
                best_period = period;
            }
            period = period + 1;
        }
        assert(best_lag(data@, min_period as int, hi + 1) == best_lag(
            data@,
            min_period as int,
            period as int,
        ));
        proof {
            lemma_best_lag(data@, min_period as int, hi + 1);
        }
        if best_period == 0 || 10 * best_corr <= 3 * b {
            return None;
        }
        let mut pattern: Vec<Ternary> = Vec::new();
        let mut i: usize = 0;
        while i < best_period
            invariant
                i <= best_period,
                best_period <= n,
                n == data@.len(),
                pattern@ == data@.take(i as int),
            decreases best_period - i,
        {
            pattern.push(data[i]);
            assert(data@.take(i + 1) =~= data@.take(i as int).push(data@[i as int]));
            i = i + 1;
        }
        Some(SeasonalPattern { period: best_period, pattern, strength: Ratio { num: best_corr, den: b } })
    }

    /// Forecast n steps ahead using a detected seasonal pattern.
    pub fn forecast(pattern: &SeasonalPattern, steps_ahead: usize, data_len: usize) -> (t: Ternary)
        requires
            pattern.period > 0,
            1 <= data_len + steps_ahead <= usize::MAX,
            forecast_index(data_len as int, steps_ahead as int, pattern.period as int)
                < pattern.pattern@.len(),
        ensures
            t == pattern.pattern@[forecast_index(
                data_len as int,
                steps_ahead as int,
                pattern.period as int,
            )],
    {
        let idx = (data_len + steps_ahead - 1) % pattern.period;
        pattern.pattern[idx]
    }
}

} // verus!

verus! {

/// Sum of `centered(s, a + i)^2` over `0 <= i < k`.
pub open spec fn sq_sum(s: Seq<Ternary>, a: int, k: int) -> int
    decreases k,
{
    if k <= 0 {
        0
    } else {
        sq_sum(s, a, k - 1) + centered(s, a + k - 1) * centered(s, a + k - 1)
    }
}

proof fn lemma_sq_sum_nonneg_monotone(s: Seq<Ternary>, a: int, k: int, k2: int)
    requires
        0 <= k <= k2,
    ensures
        0 <= sq_sum(s, a, k) <= sq_sum(s, a, k2),
    decreases k2,
{
    if k2 > k {
        lemma_sq_sum_nonneg_monotone(s, a, k, k2 - 1);
        let x = centered(s, a + k2 - 1);
        assert(x * x >= 0) by (nonlinear_arith);
    } else if k > 0 {
        lemma_sq_sum_nonneg_monotone(s, a, k - 1, k - 1);
        let x = centered(s, a + k - 1);
        assert(x * x >= 0) by (nonlinear_arith);
    }
}

proof fn lemma_sq_sum_split(s: Seq<Ternary>, a: int, k: int)
    requires
        0 <= a,
        0 <= k,
    ensures
        sq_sum(s, 0, a + k) == sq_sum(s, 0, a) + sq_sum(s, a, k),
    decreases k,
{
    if k > 0 {
        lemma_sq_sum_split(s, a, k - 1);
    }
}

proof fn lemma_energy_is_sq_sum(s: Seq<Ternary>, k: int)
    ensures
        lag_sum(s, 0, k) == sq_sum(s, 0, k),
    decreases k,
{
    if k > 0 {
        lemma_energy_is_sq_sum(s, k - 1);
    }
}

proof fn lemma_lag_sum_bound(s: Seq<Ternary>, p: int, k: int)
    ensures
        2 * lag_sum(s, p, k) <= sq_sum(s, 0, k) + sq_sum(s, p, k),
    decreases k,
{
    if k > 0 {
        lemma_lag_sum_bound(s, p, k - 1);
        let x = centered(s, k - 1);
        let y = centered(s, p + k - 1);
        assert(k - 1 + p == p + k - 1);
        assert(2 * (x * y) <= x * x + y * y) by (nonlinear_arith);
    }
}

/// No lag of a series is more strongly correlated than the series with
/// itself: the autocorrelation at any lag within the data is at most 1.
pub proof fn lemma_lag_corr_at_most_energy(s: Seq<Ternary>, p: int)
    requires
        0 <= p <= s.len(),
    ensures
        lag_corr(s, p) <= energy(s),
        energy(s) >= 0,
{
    let n = s.len() as int;
    lemma_lag_sum_bound(s, p, n - p);
    lemma_energy_is_sq_sum(s, n);
    lemma_sq_sum_nonneg_monotone(s, 0, n - p, n);
    lemma_sq_sum_split(s, p, n - p);
    lemma_sq_sum_nonneg_monotone(s, 0, 0, p);
    lemma_sq_sum_nonneg_monotone(s, p, 0, n - p);
}

/// What a detected cycle is: its period lies among the examined periods,
/// is at least 1 and fits twice in the data; the pattern is the data's first
/// period; its autocorrelation is the highest of all examined periods, no
/// earlier period reaches it, and it lies above 3/10 and at most 1. When no cycle
/// is found although two cycles of `min_period >= 1` fit in non-constant
/// data, every examined period has an autocorrelation of at most 3/10.
pub proof fn lemma_seasonal_cycle(s: Seq<Ternary>, min_period: nat, max_period: nat)
    ensures
        seasonal_cycle(s, min_period, max_period) matches Some((p, a, b)) ==> {
            &&& min_period <= p <= last_lag(s.len(), max_period)
            &&& min_period <= p <= max_period
            &&& 1 <= p
            &&& 2 * p <= s.len()
            &&& a == lag_corr(s, p)
            &&& b == energy(s)
            &&& 3 * b < 10 * a
            &&& a <= b
            &&& forall|q: int|
                min_period <= q <= last_lag(s.len(), max_period) ==> lag_corr(s, q) <= a
            &&& forall|q: int|
                min_period <= q <= max_period && 2 * q <= s.len() ==> lag_corr(s, q) <= a
            &&& forall|q: int| min_period <= q < p ==> lag_corr(s, q) < a
        },
        (seasonal_cycle(s, min_period, max_period) is None && min_period >= 1 && 2 * min_period
            <= s.len() && energy(s) != 0) ==> forall|q: int|
            min_period <= q <= max_period && 2 * q <= s.len() ==> 10 * lag_corr(s, q) <= 3
                * energy(s),
        (seasonal_cycle(s, min_period, max_period) is None && min_period >= 1 && 2 * min_period
            <= s.len() && energy(s) != 0) ==> forall|q: int|
            min_period <= q <= last_lag(s.len(), max_period) ==> 10 * lag_corr(s, q) <= 3 * energy(
                s,
            ),
{
    let n = s.len();
    let last = last_lag(n, max_period);
    lemma_best_lag(s, min_period as int, last + 1);
    let best = best_lag(s, min_period as int, last + 1);
    if n >= 2 * min_period && energy(s) != 0 && best.0 != 0 {
        lemma_lag_corr_at_most_energy(s, best.0);
    }
    if n >= 2 * min_period && energy(s) != 0 {
        lemma_lag_corr_at_most_energy(s, 0);
    }
}

/// Forecasts from a seasonal pattern repeat with its period, and always
/// index into its first cycle.
pub proof fn lemma_forecast_periodic(data_len: int, steps_ahead: int, period: int)
    requires
        period > 0,
    ensures
        forecast_index(data_len, steps_ahead + period, period) == forecast_index(
            data_len,
            steps_ahead,
            period,
        ),
        0 <= forecast_index(data_len, steps_ahead, period) < period,
        forecast_index(data_len, 1, period) == data_len % period,
{
    vstd::arithmetic::div_mod::lemma_mod_add_multiples_vanish(
        data_len + steps_ahead - 1,
        period,
    );
    assert(data_len + (steps_ahead + period) - 1 == period + (data_len + steps_ahead - 1));
}

} // verus!
