use vstd::prelude::*;

use crate::ternary::Ternary;

verus! {

/// The longest series whose statistics this library computes. Every sum and
/// product of the regression and autocorrelation formulas over a series of at
/// most this many values fits in an `i128`.
pub const MAX_SERIES_LEN: usize = 8388608;

/// Sum of the values of `s`.
pub open spec fn sum_y(s: Seq<Ternary>) -> int
    decreases s.len(),
{
    if s.len() == 0 {
        0
    } else {
        sum_y(s.drop_last()) + s.last().spec_value()
    }
}

/// Sum of the squared values of `s`.
pub open spec fn sum_yy(s: Seq<Ternary>) -> int
    decreases s.len(),
{
    if s.len() == 0 {
        0
    } else {
        sum_yy(s.drop_last()) + s.last().spec_value() * s.last().spec_value()
    }
}

/// Sum of `i * s[i]` over the positions `i` of `s`.
pub open spec fn sum_xy(s: Seq<Ternary>) -> int
    decreases s.len(),
{
    if s.len() == 0 {
        0
    } else {
        sum_xy(s.drop_last()) + (s.len() - 1) * s.last().spec_value()
    }
}

/// Sum of the positions `0 + 1 + ... + (n - 1)`.
pub open spec fn sum_x(n: nat) -> int
    decreases n,
{
    if n == 0 {
        0
    } else {
        sum_x((n - 1) as nat) + (n - 1)
    }
}

/// Sum of the squared positions `0 + 1 + ... + (n - 1)^2`.
pub open spec fn sum_xx(n: nat) -> int
    decreases n,
{
    if n == 0 {
        0
    } else {
        sum_xx((n - 1) as nat) + (n - 1) * (n - 1)
    }
}

/// Numerator of the least-squares slope of `s` against its positions:
/// the slope is `slope_num(s) / slope_den(s.len())`.
pub open spec fn slope_num(s: Seq<Ternary>) -> int {
    s.len() * sum_xy(s) - sum_x(s.len()) * sum_y(s)
}

/// Denominator of the least-squares slope over `n` positions.
pub open spec fn slope_den(n: nat) -> int {
    n * sum_xx(n) - sum_x(n) * sum_x(n)
}

/// `n * n` times the population variance of the values of `s`
/// (the variance itself is `spread(s) / (n * n)`).
pub open spec fn spread(s: Seq<Ternary>) -> int {
    s.len() * sum_yy(s) - sum_y(s) * sum_y(s)
}

pub proof fn lemma_sum_x_closed(n: nat)
    ensures
        2 * sum_x(n) == n * (n - 1),
    decreases n,
{
    if n > 0 {
        lemma_sum_x_closed((n - 1) as nat);
        assert(2 * sum_x(n) == n * (n - 1)) by (nonlinear_arith)
            requires
                2 * sum_x((n - 1) as nat) == (n - 1) * (n - 2),
                sum_x(n) == sum_x((n - 1) as nat) + (n - 1),
                n > 0,
        ;
    } else {
        assert(n * (n - 1) == 0) by (nonlinear_arith)
            requires
                n == 0,
        ;
    }
}

pub proof fn lemma_sum_xx_closed(n: nat)
    ensures
        6 * sum_xx(n) == (n - 1) * n * (2 * n - 1),
    decreases n,
{
    if n > 0 {
        lemma_sum_xx_closed((n - 1) as nat);
        assert(6 * sum_xx(n) == (n - 1) * n * (2 * n - 1)) by (nonlinear_arith)
            requires
                6 * sum_xx((n - 1) as nat) == (n - 2) * (n - 1) * (2 * n - 3),
                sum_xx(n) == sum_xx((n - 1) as nat) + (n - 1) * (n - 1),
                n > 0,
        ;
    } else {
        assert((n - 1) * n * (2 * n - 1) == 0) by (nonlinear_arith)
            requires
                n == 0,
        ;
    }
}

/// The slope denominator is `n^2 (n^2 - 1) / 12`: zero for fewer than two
/// positions and positive from two on.
pub proof fn lemma_slope_den_closed(n: nat)
    ensures
        12 * slope_den(n) == n * n * (n * n - 1),
        n >= 2 ==> slope_den(n) > 0,
        n < 2 ==> slope_den(n) == 0,
{
    lemma_sum_x_closed(n);
    lemma_sum_xx_closed(n);
    assert(12 * slope_den(n) == n * n * (n * n - 1)) by (nonlinear_arith)
        requires
            2 * sum_x(n) == n * (n - 1),
            6 * sum_xx(n) == (n - 1) * n * (2 * n - 1),
            slope_den(n) == n * sum_xx(n) - sum_x(n) * sum_x(n),
    ;
    if n >= 2 {
        assert(n * n * (n * n - 1) > 0) by (nonlinear_arith)
            requires
                n >= 2,
        ;
    } else {
        assert(n * n * (n * n - 1) == 0) by (nonlinear_arith)
            requires
                n < 2,
        ;
    }
}

/// An exact fraction `num / den`.
#[derive(Debug, Clone, Copy, PartialEq, Eq, Structural)]
pub struct Ratio {
    pub num: i128,
    pub den: i128,
}

/// The running sums of a series, as computed over one of its stretches.
pub struct Moments {
    pub n: i128,
    pub sx: i128,
    pub sxx: i128,
    pub sy: i128,
    pub sxy: i128,
    pub syy: i128,
}

impl Moments {
    /// The sums hold the statistics of `s`, within the bounds that keep the
    /// formulas built on them inside `i128`.
    pub open spec fn describes(self, s: Seq<Ternary>) -> bool {
        &&& self.n == s.len()
        &&& self.n <= MAX_SERIES_LEN
        &&& self.sx == sum_x(s.len())
        &&& self.sxx == sum_xx(s.len())
        &&& self.sy == sum_y(s)
        &&& self.sxy == sum_xy(s)
        &&& self.syy == sum_yy(s)
        &&& 0 <= self.sx <= self.n * self.n
        &&& 0 <= self.sxx <= self.n * self.n * self.n
        &&& -self.n <= self.sy <= self.n
        &&& -self.sx <= self.sxy <= self.sx
        &&& 0 <= self.syy <= self.n
    }
}

/// The slope and variance of the stretch that `m` describes, bounded so
/// that the classification arithmetic stays inside `i128`.
pub proof fn lemma_moment_bounds(m: Moments, s: Seq<Ternary>)
    requires
        m.describes(s),
    ensures
        0 <= m.n * m.sxx <= 8388608 * 8388608 * 8388608 * 8388608,
        0 <= m.sx * m.sx <= 8388608 * 8388608 * 8388608 * 8388608,
        -8388608 * 8388608 * 8388608 <= m.n * m.sxy <= 8388608 * 8388608 * 8388608,
        -8388608 * 8388608 * 8388608 <= m.sx * m.sy <= 8388608 * 8388608 * 8388608,
        0 <= m.n * m.syy <= 8388608 * 8388608,
        0 <= m.sy * m.sy <= 8388608 * 8388608,
        0 <= m.n * m.n <= 8388608 * 8388608,
{
    let n = m.n as int;
    assert(0 <= n * n <= 8388608 * 8388608) by (nonlinear_arith)
        requires
            0 <= n <= 8388608,
    ;
    assert(0 <= n * m.sxx <= 8388608 * 8388608 * 8388608 * 8388608) by (nonlinear_arith)
        requires
            0 <= n <= 8388608,
            0 <= m.sxx <= n * n * n,
    ;
    assert(0 <= m.sx * m.sx <= 8388608 * 8388608 * 8388608 * 8388608) by (nonlinear_arith)
        requires
            0 <= n <= 8388608,
            0 <= m.sx <= n * n,
    ;
    assert(-8388608 * 8388608 * 8388608 <= n * m.sxy <= 8388608 * 8388608 * 8388608)
        by (nonlinear_arith)
        requires
            0 <= n <= 8388608,
            0 <= m.sx <= n * n,
            -m.sx <= m.sxy <= m.sx,
    ;
    assert(-8388608 * 8388608 * 8388608 <= m.sx * m.sy <= 8388608 * 8388608 * 8388608)
        by (nonlinear_arith)
        requires
            0 <= n <= 8388608,
            0 <= m.sx <= n * n,
            -n <= m.sy <= n,
    ;
    assert(0 <= n * m.syy <= 8388608 * 8388608) by (nonlinear_arith)
        requires
            0 <= n <= 8388608,
            0 <= m.syy <= n,
    ;
    assert(0 <= m.sy * m.sy <= 8388608 * 8388608) by (nonlinear_arith)
        requires
            0 <= n <= 8388608,
            -n <= m.sy <= n,
    ;
}

/// The statistics of the stretch `data[start..]`.
pub fn moments(data: &[Ternary], start: usize) -> (m: Moments)
    requires
        start <= data@.len(),
        data@.len() - start <= MAX_SERIES_LEN,
    ensures
        m.describes(data@.subrange(start as int, data@.len() as int)),
{
    let len = data.len();
    let mut sx: i128 = 0;
    let mut sxx: i128 = 0;
    let mut sy: i128 = 0;
    let mut sxy: i128 = 0;
    let mut syy: i128 = 0;
    let mut i: usize = start;
    while i < len
        invariant
            start <= i <= len,
            len == data@.len(),
            len - start <= MAX_SERIES_LEN,
            (Moments { n: (i - start) as i128, sx, sxx, sy, sxy, syy }).describes(
                data@.subrange(start as int, i as int),
            ),
        decreases len - i,
    {
        let ghost prev = data@.subrange(start as int, i as int);
        let ghost next = data@.subrange(start as int, i + 1);
        assert(next.drop_last() =~= prev);
        assert(next.last() == data@[i as int]);
        let k: i128 = (i - start) as i128;
        let v: i128 = data[i].value() as i128;
        proof {
            assert(sx + k <= (k + 1) * (k + 1)) by (nonlinear_arith)
                requires
                    sx <= k * k,
                    k >= 0,
            ;
            assert(sxx + k * k <= (k + 1) * (k + 1) * (k + 1)) by (nonlinear_arith)
                requires
                    sxx <= k * k * k,
                    k >= 0,
            ;
            assert(k * k <= 8388608 * 8388608) by (nonlinear_arith)
                requires
                    0 <= k <= 8388608,
            ;
            assert(k * k * k <= 8388608 * 8388608 * 8388608) by (nonlinear_arith)
                requires
                    0 <= k <= 8388608,
            ;
            assert(-k <= k * v <= k) by (nonlinear_arith)
                requires
                    -1 <= v <= 1,
                    k >= 0,
            ;
            assert(0 <= v * v <= 1) by (nonlinear_arith)
                requires
                    -1 <= v <= 1,
            ;
        }
        sx = sx + k;
        sxx = sxx + k * k;
        sy = sy + v;
        sxy = sxy + k * v;
        syy = syy + v * v;
        i = i + 1;
    }
    Moments { n: (len - start) as i128, sx, sxx, sy, sxy, syy }
}

} // verus!
