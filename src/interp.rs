use vstd::arithmetic::div_mod::{lemma_fundamental_div_mod, lemma_mod_pos_bound};
use vstd::prelude::*;

verus! {

/// The bounds a mapping accepts: a range of `[start / unit, end / unit]`
/// spread over `width` pixels.
pub open spec fn valid_bounds(start: int, end: int, unit: int, width: int) -> bool {
    &&& start < end
    &&& 0 < unit
    &&& 1 < width <= i32::MAX
}

/// Rounds `n / d` to the nearest integer, halves away from zero.
pub open spec fn round_half_away(n: int, d: int) -> int
    recommends
        d > 0,
{
    if n >= 0 {
        (2 * n + d) / (2 * d)
    } else {
        -((d - 2 * n) / (2 * d))
    }
}

/// Numerator of the exact position of pixel `x` in the range, over
/// `exact_den(unit, width)`: `start + (end - start) * x / (width - 1)`,
/// all divided by `unit`.
pub open spec fn exact_num(start: int, end: int, width: int, x: int) -> int {
    start * (width - 1) + (end - start) * x
}

pub open spec fn exact_den(unit: int, width: int) -> int {
    unit * (width - 1)
}

/// A mapped value: the rational number `num / den`, with `den > 0`.
#[derive(Clone, Copy, Debug, PartialEq, Eq, Structural)]
pub struct Value {
    pub num: i128,
    pub den: i128,
}

/// Why a range cannot be mapped.
#[derive(Clone, Copy, Debug, PartialEq, Eq, Structural)]
pub enum MappingError {
    /// `start` is not below `end`.
    EmptyRange,
    /// The unit the bounds are counted in is zero.
    ZeroUnit,
    /// Fewer than two pixels, or more than a pixel offset can address.
    BadWidth,
}

/// Linear interpolation from a pixel offset onto `[start / unit, end / unit]`.
/// Pixel `0` maps to the start and pixel `width - 1` to the end.
#[derive(Clone, Copy, Debug)]
pub struct Mapping {
    pub start: i32,
    pub end: i32,
    pub unit: u32,
    pub width: u32,
    pub floating: bool,
}

impl Mapping {
    pub open spec fn wf(&self) -> bool {
        valid_bounds(self.start as int, self.end as int, self.unit as int, self.width as int)
    }

    /// The mapped value of pixel `x`, as (numerator, denominator): exact when
    /// `floating`, else rounded to the nearest integer.
    pub open spec fn value_at(&self, x: int) -> (int, int) {
        let n = exact_num(self.start as int, self.end as int, self.width as int, x);
        let d = exact_den(self.unit as int, self.width as int);
        if self.floating {
            (n, d)
        } else {
            (round_half_away(n, d), 1)
        }
    }

    /// The mapped value of pixel `x` as a `Value`.
    pub open spec fn mapped(&self, x: int) -> Value {
        Value { num: self.value_at(x).0 as i128, den: self.value_at(x).1 as i128 }
    }

    /// Checks the bounds and builds the mapping.
    pub fn new(start: i32, end: i32, unit: u32, width: u32, floating: bool) -> (r: Result<
        Mapping,
        MappingError,
    >)
        ensures
            r matches Ok(m) ==> m.wf() && m == (Mapping { start, end, unit, width, floating }),
            r is Ok <==> valid_bounds(start as int, end as int, unit as int, width as int),
            r == Err::<Mapping, _>(MappingError::EmptyRange) <==> start >= end,
            r == Err::<Mapping, _>(MappingError::ZeroUnit) <==> start < end && unit == 0,
            r == Err::<Mapping, _>(MappingError::BadWidth) <==> start < end && unit > 0 && !(1
                < width <= i32::MAX),
    {
        if start >= end {
            Err(MappingError::EmptyRange)
        } else if unit == 0 {
            Err(MappingError::ZeroUnit)
        } else if width <= 1 || width > i32::MAX as u32 {
            Err(MappingError::BadWidth)
        } else {
            Ok(Mapping { start, end, unit, width, floating })
        }
    }

    /// The value that pixel `x` maps to.
    pub fn interpolate(&self, x: i32) -> (r: Value)
        requires
            self.wf(),
        ensures
            (r.num as int, r.den as int) == self.value_at(x as int),
            r == self.mapped(x as int),
            r.den > 0,
    {
        let w: i128 = self.width as i128 - 1;
        let s: i128 = self.start as i128;
        let range: i128 = self.end as i128 - s;
        assert(-0x1_0000_0000_0000_0000 < s * w < 0x1_0000_0000_0000_0000) by (nonlinear_arith)
            requires
                0 < w < 0x1_0000_0000,
                -0x8000_0000 <= s < 0x8000_0000,
        ;
        assert(-0x1_0000_0000_0000_0000 < range * (x as i128) < 0x1_0000_0000_0000_0000)
            by (nonlinear_arith)
            requires
                0 < range < 0x1_0000_0000,
                -0x8000_0000 <= x < 0x8000_0000,
        ;
        assert(0 < (self.unit as i128) * w < 0x1_0000_0000_0000_0000) by (nonlinear_arith)
            requires
                0 < w < 0x1_0000_0000,
                0 < self.unit < 0x1_0000_0000,
        ;
        let n: i128 = s * w + range * (x as i128);
        let d: i128 = (self.unit as i128) * w;
        if self.floating {
            Value { num: n, den: d }
        } else {
            Value { num: round_nearest(n, d), den: 1 }
        }
    }
}

/// `n / d` rounded to the nearest integer, halves away from zero.
pub fn round_nearest(n: i128, d: i128) -> (r: i128)
    requires
        0 < d < 0x1_0000_0000_0000_0000,
        -0x2_0000_0000_0000_0000 < n < 0x2_0000_0000_0000_0000,
    ensures
        r == round_half_away(n as int, d as int),
{
    if n >= 0 {
        let q: i128 = (2 * n + d) / (2 * d);
        q
    } else {
        let q: i128 = (d - 2 * n) / (2 * d);
        -q
    }
}

/// Rounding picks a nearest integer: `n / d` lies within half of one of
/// `round_half_away(n, d)`. Of two equally near integers it picks the one
/// farther from zero.
pub proof fn lemma_round_nearest(n: int, d: int)
    requires
        d > 0,
    ensures
        -d <= 2 * (n - round_half_away(n, d) * d) <= d,
        2 * (n - round_half_away(n, d) * d) == d ==> n < 0,
        2 * (n - round_half_away(n, d) * d) == -d ==> n >= 0,
{
    let r = round_half_away(n, d);
    if n >= 0 {
        let a = 2 * n + d;
        lemma_fundamental_div_mod(a, 2 * d);
        lemma_mod_pos_bound(a, 2 * d);
        assert(r * d * 2 == (2 * d) * (a / (2 * d))) by (nonlinear_arith)
            requires
                r == a / (2 * d),
        ;
    } else {
        let a = d - 2 * n;
        lemma_fundamental_div_mod(a, 2 * d);
        lemma_mod_pos_bound(a, 2 * d);
        assert(r * d * 2 == -((2 * d) * (a / (2 * d)))) by (nonlinear_arith)
            requires
                r == -(a / (2 * d)),
        ;
    }
}

/// An integer as near to `n / d` as `lemma_round_nearest` describes is the
/// rounded value.
pub proof fn lemma_round_unique(n: int, d: int, r: int)
    requires
        d > 0,
        -d <= 2 * (n - r * d) <= d,
        2 * (n - r * d) == d ==> n < 0,
        2 * (n - r * d) == -d ==> n >= 0,
    ensures
        round_half_away(n, d) == r,
{
    let q = round_half_away(n, d);
    lemma_round_nearest(n, d);
    assert(-2 * d <= 2 * d * (q - r) <= 2 * d) by (nonlinear_arith)
        requires
            -d <= 2 * (n - r * d) <= d,
            -d <= 2 * (n - q * d) <= d,
    ;
    if q > r + 1 {
        assert(2 * d * (q - r) >= 4 * d) by (nonlinear_arith)
            requires
                q - r >= 2,
                d > 0,
        ;
    } else if q < r - 1 {
        assert(2 * d * (r - q) >= 4 * d) by (nonlinear_arith)
            requires
                r - q >= 2,
                d > 0,
        ;
        assert(2 * d * (q - r) == -(2 * d * (r - q))) by (nonlinear_arith);
    } else if q == r + 1 {
        assert(q * d == r * d + d) by (nonlinear_arith)
            requires
                q == r + 1,
        ;
    } else if q == r - 1 {
        assert(q * d == r * d - d) by (nonlinear_arith)
            requires
                q == r - 1,
        ;
    }
}

/// Every pixel of the bar maps into the range: the exact value lies between
/// `start / unit` and `end / unit`. Rounded to integers, the value lies
/// between `start` and `end` where the bounds are whole (`unit == 1`).
pub proof fn lemma_value_in_range(m: Mapping, x: int)
    requires
        m.wf(),
        0 <= x <= m.width - 1,
    ensures
        m.floating ==> m.start * m.value_at(x).1 <= m.value_at(x).0 * m.unit <= m.end * m.value_at(
            x,
        ).1,
        !m.floating && m.unit == 1 ==> m.start <= m.value_at(x).0 <= m.end,
{
    let s = m.start as int;
    let e = m.end as int;
    let u = m.unit as int;
    let w = m.width as int - 1;
    let n = exact_num(s, e, m.width as int, x);
    let d = exact_den(u, m.width as int);
    assert(s * d <= n * u <= e * d) by (nonlinear_arith)
        requires
            n == s * w + (e - s) * x,
            d == u * w,
            0 <= x <= w,
            s < e,
            u > 0,
    ;
    if !m.floating && u == 1 {
        let r = round_half_away(n, d);
        assert(d > 0) by (nonlinear_arith)
            requires
                d == u * w,
                u > 0,
                w > 0,
        ;
        lemma_round_nearest(n, d);
        assert(s <= r <= e) by (nonlinear_arith)
            requires
                s * d <= n * u <= e * d,
                u == 1,
                -d <= 2 * (n - r * d) <= d,
                d > 0,
        ;
    }
}

/// The first pixel maps to the start of the range and the last pixel,
/// `width - 1`, to its end: exactly, or rounded as `start / unit` and
/// `end / unit` themselves round.
pub proof fn lemma_ends_of_range(m: Mapping)
    requires
        m.wf(),
    ensures
        m.floating ==> m.value_at(0).0 * m.unit == m.start * m.value_at(0).1,
        m.floating ==> m.value_at(m.width - 1).0 * m.unit == m.end * m.value_at(m.width - 1).1,
        !m.floating ==> m.value_at(0) == (round_half_away(m.start as int, m.unit as int), 1int),
        !m.floating ==> m.value_at(m.width - 1) == (
            round_half_away(m.end as int, m.unit as int),
            1int,
        ),
{
    let s = m.start as int;
    let e = m.end as int;
    let u = m.unit as int;
    let w = m.width as int - 1;
    let d = exact_den(u, m.width as int);
    assert((e - s) * 0 == 0 && s * w + (e - s) * w == e * w) by (nonlinear_arith);
    assert(d > 0) by (nonlinear_arith)
        requires
            d == u * w,
            u > 0,
            w > 0,
    ;
    assert(s * w * u == s * d && e * w * u == e * d) by (nonlinear_arith)
        requires
            d == u * w,
    ;
    lemma_round_scaled(s, u, w);
    lemma_round_scaled(e, u, w);
}

/// Scaling numerator and denominator alike leaves the rounded value as is.
proof fn lemma_round_scaled(n: int, d: int, k: int)
    requires
        d > 0,
        k > 0,
    ensures
        round_half_away(n * k, d * k) == round_half_away(n, d),
{
    let r = round_half_away(n, d);
    lemma_round_nearest(n, d);
    let t = 2 * (n - r * d);
    assert(2 * (n * k - r * (d * k)) == t * k) by (nonlinear_arith)
        requires
            t == 2 * (n - r * d),
    ;
    assert(-(d * k) <= t * k <= d * k) by (nonlinear_arith)
        requires
            -d <= t <= d,
            k > 0,
    ;
    assert(t * k == d * k ==> t == d) by (nonlinear_arith)
        requires
            k > 0,
    ;
    assert(t * k == -(d * k) ==> t == -d) by (nonlinear_arith)
        requires
            k > 0,
    ;
    assert(n * k >= 0 <==> n >= 0) by (nonlinear_arith)
        requires
            k > 0,
    ;
    lemma_round_unique(n * k, d * k, r);
}

} // verus!
