use vstd::prelude::*;

use crate::stats::{
    lemma_moment_bounds, lemma_slope_den_closed, moments, slope_den, slope_num, spread, sum_x,
    sum_xx, sum_xy, sum_y, sum_yy, Moments, Ratio, MAX_SERIES_LEN,
};
use crate::ternary::Ternary;

verus! {

/// Direction of movement of ternary data.
#[derive(Debug, Clone, Copy, PartialEq, Eq, Structural)]
pub enum Trend {
    /// Values trending toward +1.
    Rising,
    /// Values trending toward -1.
    Falling,
    /// Values stable around 0.
    Stable,
    /// No clear trend.
    Flat,
}

/// The trend of a stretch of data by least squares: a slope above 1/5 is
/// rising, one below -1/5 falling; otherwise the data is stable when its
/// variance is below 1/10, and flat when it is not (or when the positions do
/// not determine a slope).
pub open spec fn classify(s: Seq<Ternary>) -> Trend {
    let n = s.len();
    let num = slope_num(s);
    let den = slope_den(n);
    if den == 0 {
        Trend::Flat
    } else if 5 * num > den {
        Trend::Rising
    } else if 5 * num < -den {
        Trend::Falling
    } else if 10 * spread(s) < n * n {
        Trend::Stable
    } else {
        Trend::Flat
    }
}

/// The last `w` values of `data`, or all of it when it is shorter.
pub open spec fn trend_window(data: Seq<Ternary>, w: nat) -> Seq<Ternary> {
    if data.len() > w {
        data.subrange(data.len() - w, data.len() as int)
    } else {
        data
    }
}

/// The trend that a detector with window `w` reports for `data`.
pub open spec fn detect_trend(data: Seq<Ternary>, w: nat) -> Trend {
    if data.len() < 3 {
        Trend::Flat
    } else {
        classify(trend_window(data, w))
    }
}

/// The least-squares slope, as `(numerator, denominator)`, that a detector
/// with window `w` measures on `data`; none for fewer than three values or
/// when the positions do not determine a slope.
pub open spec fn detect_slope(data: Seq<Ternary>, w: nat) -> Option<(int, int)> {
    let s = trend_window(data, w);
    if data.len() < 3 || slope_den(s.len()) == 0 {
        None
    } else {
        Some((slope_num(s), slope_den(s.len())))
    }
}

/// Detects trends in ternary state sequences.
pub struct TrendDetector {
    window_size: usize,
}

impl View for TrendDetector {
    type V = nat;

    /// The number of most recent values that the detector looks at.
    closed spec fn view(&self) -> nat {
        self.window_size as nat
    }
}

/// The trend of the stretch that `m` describes.
fn classify_moments(m: &Moments, Ghost(s): Ghost<Seq<Ternary>>) -> (t: Trend)
    requires
        m.describes(s),
    ensures
        t == classify(s),
{
    proof {
        lemma_moment_bounds(*m, s);
    }
    let den: i128 = m.n * m.sxx - m.sx * m.sx;
    let num: i128 = m.n * m.sxy - m.sx * m.sy;
    if den == 0 {
        Trend::Flat
    } else if 5 * num > den {
        Trend::Rising
    } else if 5 * num < -den {
        Trend::Falling
    } else if 10 * (m.n * m.syy - m.sy * m.sy) < m.n * m.n {
        Trend::Stable
    } else {
        Trend::Flat
    }
}

impl TrendDetector {
    /// A detector that looks at the last `window_size` values, and at no
    /// fewer than three.
    pub fn new(window_size: usize) -> (d: Self)
        ensures
            d@ == if window_size < 3 { 3 } else { window_size as nat },
            d@ >= 3,
    {
        TrendDetector { window_size: if window_size < 3 { 3 } else { window_size } }
    }

    /// The number of most recent values that the detector looks at.
    pub fn window_size(&self) -> (w: usize)
        ensures
            w == self@,
    {
        self.window_size
    }

    /// Where the window of the last `self@` values of `data` starts.
    fn window_start(&self, data: &[Ternary]) -> (start: usize)
        ensures
            start <= data@.len(),
            data@.subrange(start as int, data@.len() as int) == trend_window(data@, self@),
    {
        if data.len() > self.window_size {
            data.len() - self.window_size
        } else {
            assert(data@.subrange(0, data@.len() as int) =~= data@);
            0
        }
    }

    /// Detect the current trend in a data window.
    pub fn detect(&self, data: &[Ternary]) -> (t: Trend)
        requires
            data@.len() <= MAX_SERIES_LEN || self@ <= MAX_SERIES_LEN,
        ensures
            t == detect_trend(data@, self@),
    {
        if data.len() < 3 {
            return Trend::Flat;
        }
        let start = self.window_start(data);
        let m = moments(data, start);
        classify_moments(&m, Ghost(trend_window(data@, self@)))
    }

    /// The least-squares slope of the data window, as an exact fraction
    /// with a positive denominator; none for fewer than three values.
    pub fn slope(&self, data: &[Ternary]) -> (r: Option<Ratio>)
        requires
            data@.len() <= MAX_SERIES_LEN || self@ <= MAX_SERIES_LEN,
        ensures
            match r {
                Some(q) => detect_slope(data@, self@) == Some((q.num as int, q.den as int))
                    && q.den > 0,
                None => detect_slope(data@, self@) is None,
            },
    {
        if data.len() < 3 {
            return None;
        }
        let start = self.window_start(data);
        let m = moments(data, start);
        proof {
            lemma_moment_bounds(m, trend_window(data@, self@));
            lemma_slope_den_closed(m.n as nat);
        }
        let den: i128 = m.n * m.sxx - m.sx * m.sx;
        let num: i128 = m.n * m.sxy - m.sx * m.sy;
        if den == 0 {
            None
        } else {
            Some(Ratio { num, den })
        }
    }
}

} // verus!

verus! {

/// `s` with every value replaced by the value of opposite sign.
pub open spec fn negated(s: Seq<Ternary>) -> Seq<Ternary> {
    s.map_values(|t: Ternary| t.spec_neg())
}

/// The trend of the opposite direction.
pub open spec fn mirrored(t: Trend) -> Trend {
    match t {
        Trend::Rising => Trend::Falling,
        Trend::Falling => Trend::Rising,
        other => other,
    }
}

proof fn lemma_sums_negated(s: Seq<Ternary>)
    ensures
        sum_y(negated(s)) == -sum_y(s),
        sum_xy(negated(s)) == -sum_xy(s),
        sum_yy(negated(s)) == sum_yy(s),
        negated(s).len() == s.len(),
    decreases s.len(),
{
    if s.len() > 0 {
        assert(negated(s).drop_last() =~= negated(s.drop_last()));
        lemma_sums_negated(s.drop_last());
        let v = s.last().spec_value();
        assert(negated(s).last().spec_value() == -v);
        assert((s.len() - 1) * (-v) == -((s.len() - 1) * v)) by (nonlinear_arith);
        assert((-v) * (-v) == v * v) by (nonlinear_arith);
    }
}

proof fn lemma_classify_negated(s: Seq<Ternary>)
    ensures
        classify(negated(s)) == mirrored(classify(s)),
{
    lemma_sums_negated(s);
    lemma_slope_den_closed(s.len());
    let n = s.len();
    assert(slope_num(negated(s)) == -slope_num(s)) by (nonlinear_arith)
        requires
            sum_y(negated(s)) == -sum_y(s),
            sum_xy(negated(s)) == -sum_xy(s),
            negated(s).len() == n,
            slope_num(negated(s)) == n * sum_xy(negated(s)) - sum_x(n) * sum_y(negated(s)),
            slope_num(s) == n * sum_xy(s) - sum_x(n) * sum_y(s),
    ;
    assert(spread(negated(s)) == spread(s)) by (nonlinear_arith)
        requires
            sum_y(negated(s)) == -sum_y(s),
            sum_yy(negated(s)) == sum_yy(s),
            negated(s).len() == n,
            spread(negated(s)) == n * sum_yy(negated(s)) - sum_y(negated(s)) * sum_y(
                negated(s),
            ),
            spread(s) == n * sum_yy(s) - sum_y(s) * sum_y(s),
    ;
}

/// Trend detection is symmetric in sign: negating every value of the data
/// turns a rising trend into a falling one and back, and keeps a stable or
/// flat trend as it is.
pub proof fn lemma_detect_negated(data: Seq<Ternary>, w: nat)
    ensures
        detect_trend(negated(data), w) == mirrored(detect_trend(data, w)),
{
    assert(trend_window(negated(data), w) =~= negated(trend_window(data, w)));
    lemma_classify_negated(trend_window(data, w));
}

proof fn lemma_sums_constant(s: Seq<Ternary>, t: Ternary)
    requires
        forall|i: int| 0 <= i < s.len() ==> s[i] == t,
    ensures
        sum_y(s) == s.len() * t.spec_value(),
        sum_yy(s) == s.len() * (t.spec_value() * t.spec_value()),
        sum_xy(s) == t.spec_value() * sum_x(s.len()),
    decreases s.len(),
{
    if s.len() > 0 {
        let p = s.drop_last();
        lemma_sums_constant(p, t);
        let v = t.spec_value();
        let n = s.len() as int;
        assert(s.last() == t);
        assert(n * v == (n - 1) * v + v) by (nonlinear_arith);
        assert(n * (v * v) == (n - 1) * (v * v) + v * v) by (nonlinear_arith);
        assert(v * sum_x(s.len()) == v * sum_x(p.len()) + (n - 1) * v) by (nonlinear_arith)
            requires
                sum_x(s.len()) == sum_x(p.len()) + (n - 1),
        ;
    }
}

/// A window whose values are all equal has no slope and no variance: a
/// detector (whose window holds at least three values) reports it as stable.
pub proof fn lemma_detect_constant(data: Seq<Ternary>, w: nat, t: Ternary)
    requires
        w >= 3,
        data.len() >= 3,
        forall|i: int| 0 <= i < data.len() ==> data[i] == t,
    ensures
        detect_trend(data, w) == Trend::Stable,
{
    let s = trend_window(data, w);
    assert forall|i: int| 0 <= i < s.len() implies s[i] == t by {
        if data.len() > w {
            assert(s[i] == data[data.len() - w + i]);
        }
    }
    lemma_sums_constant(s, t);
    lemma_slope_den_closed(s.len());
    let n = s.len() as int;
    let v = t.spec_value();
    assert(slope_num(s) == 0) by (nonlinear_arith)
        requires
            slope_num(s) == n * sum_xy(s) - sum_x(s.len()) * sum_y(s),
            sum_y(s) == n * v,
            sum_xy(s) == v * sum_x(s.len()),
    ;
    assert(spread(s) == 0) by (nonlinear_arith)
        requires
            spread(s) == n * sum_yy(s) - sum_y(s) * sum_y(s),
            sum_y(s) == n * v,
            sum_yy(s) == n * (v * v),
    ;
    assert(n * n > 0) by (nonlinear_arith)
        requires
            n >= 3,
    ;
}

} // verus!

verus! {

/// The detector looks at nothing but its window: once the data holds at
/// least a window's worth of values, values in front of it change neither
/// the trend nor the slope.
pub proof fn lemma_detect_sliding_window(prefix: Seq<Ternary>, data: Seq<Ternary>, w: nat)
    requires
        w >= 3,
        data.len() >= w,
    ensures
        detect_trend(prefix + data, w) == detect_trend(data, w),
        detect_slope(prefix + data, w) == detect_slope(data, w),
{
    let all = prefix + data;
    if all.len() > w {
        assert(all.subrange(all.len() - w, all.len() as int) =~= trend_window(data, w));
    } else {
        assert(prefix.len() == 0);
        assert(all =~= data);
    }
}

/// The window of a detector is the last `w` values of the data, or all of
/// it when it holds fewer.
pub proof fn lemma_window_is_newest_values(data: Seq<Ternary>, w: nat)
    ensures
        ({
            let m = if data.len() < w {
                data.len() as int
            } else {
                w as int
            };
            &&& trend_window(data, w).len() == m
            &&& forall|i: int|
                0 <= i < m ==> #[trigger] trend_window(data, w)[i] == data[data.len() - m + i]
        }),
{
}

/// A trend has a direction exactly when the slope is steeper than 1/5 in
/// magnitude: Rising when the slope is above 1/5, Falling when it is below
/// -1/5.
pub proof fn lemma_direction_iff_steep(data: Seq<Ternary>, w: nat)
    ensures
        detect_trend(data, w) == Trend::Rising <==> (detect_slope(data, w) matches Some((num, den))
            && 5 * num > den),
        detect_trend(data, w) == Trend::Falling <==> (detect_slope(data, w) matches Some((num, den))
            && 5 * num < -den),
        detect_slope(data, w) matches Some((num, den)) ==> den > 0,
{
    lemma_slope_den_closed(trend_window(data, w).len());
}

/// Whether the values of `s` never decrease.
pub open spec fn nondecreasing(s: Seq<Ternary>) -> bool {
    forall|i: int, j: int| 0 <= i <= j < s.len() ==> s[i].spec_value() <= s[j].spec_value()
}

/// For a prefix `t` of length `k` of a series of length `n` whose values
/// are at most `y`: `sum over i < k of (n - i) * (y - t[i])`, which is
/// never negative.
proof fn lemma_weighted_gap(t: Seq<Ternary>, n: int, y: int)
    requires
        t.len() <= n,
        forall|i: int| 0 <= i < t.len() ==> t[i].spec_value() <= y,
    ensures
        sum_xy(t) - n * sum_y(t) + y * (t.len() * n - sum_x(t.len())) >= 0,
    decreases t.len(),
{
    if t.len() > 0 {
        let p = t.drop_last();
        lemma_weighted_gap(p, n, y);
        let k = p.len() as int;
        let v = t.last().spec_value();
        assert(t[k] == t.last());
        assert((n - k) * (y - v) >= 0) by (nonlinear_arith)
            requires
                n - k > 0,
                y - v >= 0,
        ;
        assert(y * ((k + 1) * n - (sum_x(p.len()) + k)) == y * (k * n - sum_x(p.len())) + y * (n
            - k)) by (nonlinear_arith);
        assert(n * (sum_y(p) + v) == n * sum_y(p) + n * v) by (nonlinear_arith);
        assert(k * v - n * v + y * (n - k) == (n - k) * (y - v)) by (nonlinear_arith);
        assert(t.len() * n == (k + 1) * n);
        assert(sum_x(t.len()) == sum_x(p.len()) + k);
    } else {
        assert(y * (t.len() * n - sum_x(t.len())) == 0) by (nonlinear_arith)
            requires
                t.len() == 0,
                sum_x(t.len()) == 0,
        ;
    }
}

/// Values that never decrease have a slope of at least zero.
proof fn lemma_nondecreasing_slope(s: Seq<Ternary>)
    requires
        nondecreasing(s),
    ensures
        slope_num(s) >= 0,
    decreases s.len(),
{
    if s.len() > 0 {
        let p = s.drop_last();
        let n = p.len() as int;
        let y = s.last().spec_value();
        assert(nondecreasing(p)) by {
            assert forall|i: int, j: int| 0 <= i <= j < p.len() implies p[i].spec_value()
                <= p[j].spec_value() by {
                assert(p[i] == s[i] && p[j] == s[j]);
            }
        }
        lemma_nondecreasing_slope(p);
        assert forall|i: int| 0 <= i < p.len() implies p[i].spec_value() <= y by {
            assert(p[i] == s[i]);
            assert(s.last() == s[n]);
        }
        lemma_weighted_gap(p, n, y);
        let sxy = sum_xy(p);
        let sy = sum_y(p);
        let sx = sum_x(p.len());
        assert(slope_num(s) == (n + 1) * (sxy + n * y) - (sx + n) * (sy + y));
        assert((n + 1) * (sxy + n * y) == n * sxy + sxy + n * n * y + n * y) by (nonlinear_arith);
        assert((sx + n) * (sy + y) == sx * sy + sx * y + n * sy + n * y) by (nonlinear_arith);
        assert(y * (n * n - sx) == n * n * y - sx * y) by (nonlinear_arith);
        assert(slope_num(p) == n * sxy - sx * sy);
    }
}

/// Data whose values never decrease is never read as falling.
pub proof fn lemma_nondecreasing_not_falling(data: Seq<Ternary>, w: nat)
    requires
        nondecreasing(data),
    ensures
        detect_trend(data, w) != Trend::Falling,
{
    let s = trend_window(data, w);
    if data.len() >= 3 {
        assert(nondecreasing(s)) by {
            if data.len() > w {
                assert forall|i: int, j: int| 0 <= i <= j < s.len() implies s[i].spec_value()
                    <= s[j].spec_value() by {
                    assert(s[i] == data[data.len() - w + i]);
                    assert(s[j] == data[data.len() - w + j]);
                }
            }
        }
        lemma_nondecreasing_slope(s);
        lemma_slope_den_closed(s.len());
    }
}

} // verus!

verus! {

/// Without a slope steeper than 1/5, a window is stable exactly when the
/// population variance of its `n` values, `sum_yy / n - (sum_y / n)^2`, is
/// below 1/10, and flat otherwise.
pub proof fn lemma_detect_calm(data: Seq<Ternary>, w: nat)
    requires
        w >= 3,
        data.len() >= 3,
    ensures
        ({
            let s = trend_window(data, w);
            let n = s.len() as int;
            let num = n * sum_xy(s) - sum_x(s.len()) * sum_y(s);
            let den = n * sum_xx(s.len()) - sum_x(s.len()) * sum_x(s.len());
            let gentle = -den <= 5 * num <= den;
            let low_variance = 10 * (n * sum_yy(s) - sum_y(s) * sum_y(s)) < n * n;
            &&& n >= 3
            &&& detect_trend(data, w) == Trend::Stable <==> gentle && low_variance
            &&& detect_trend(data, w) == Trend::Flat <==> gentle && !low_variance
        }),
{
    lemma_slope_den_closed(trend_window(data, w).len());
}

} // verus!
