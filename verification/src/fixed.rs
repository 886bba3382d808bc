//! Decimal fixed-point numbers with six fractional digits.
//!
//! Every operation is total: a result that does not fit is clamped to the
//! nearest representable value, and a quotient is rounded to the nearest
//! step with ties going away from zero.

use vstd::prelude::*;

verus! {

/// Number of fixed-point steps in one whole unit.
pub const MICROS_PER_UNIT: i64 = 1_000_000;

/// `v` clamped to the range of `i64`.
pub open spec fn saturate(v: int) -> int {
    if v > i64::MAX as int {
        i64::MAX as int
    } else if v < i64::MIN as int {
        i64::MIN as int
    } else {
        v
    }
}

/// `v` clamped to the range of `i32`.
pub open spec fn saturate_i32(v: int) -> int {
    if v > i32::MAX as int {
        i32::MAX as int
    } else if v < i32::MIN as int {
        i32::MIN as int
    } else {
        v
    }
}

/// The absolute value of `v`.
pub open spec fn magnitude(v: int) -> int {
    if v < 0 {
        -v
    } else {
        v
    }
}

/// The quotient `n / d` of two non-negative numbers, `d > 0`, rounded to the
/// nearest integer, a tie going up.
pub open spec fn div_half_up(n: int, d: int) -> int
    recommends
        n >= 0,
        d > 0,
{
    (2 * n + d) / (2 * d)
}

/// The quotient `n / d`, `d != 0`, rounded to the nearest integer, a tie
/// going away from zero.
pub open spec fn div_round(n: int, d: int) -> int
    recommends
        d != 0,
{
    if (n >= 0) == (d > 0) {
        div_half_up(magnitude(n), magnitude(d))
    } else {
        -div_half_up(magnitude(n), magnitude(d))
    }
}

/// A decimal fixed-point number: `micros` millionths of a unit.
#[derive(Clone, Copy, Debug, PartialEq, Eq, Structural)]
pub struct Fixed {
    pub micros: i64,
}

/// Clamps a wide intermediate result to `i64`.
pub fn saturate_to_i64(v: i128) -> (r: i64)
    ensures
        r as int == saturate(v as int),
{
    if v > i64::MAX as i128 {
        i64::MAX
    } else if v < i64::MIN as i128 {
        i64::MIN
    } else {
        v as i64
    }
}

/// Clamps a wide intermediate result to `i32`.
pub fn saturate_to_i32(v: i128) -> (r: i32)
    ensures
        r as int == saturate_i32(v as int),
{
    if v > i32::MAX as i128 {
        i32::MAX
    } else if v < i32::MIN as i128 {
        i32::MIN
    } else {
        v as i32
    }
}

/// The absolute value of `v` as an unsigned number.
pub fn magnitude_of(v: i128) -> (r: u128)
    ensures
        r as int == magnitude(v as int),
{
    if v < 0 {
        if v == i128::MIN {
            170141183460469231731687303715884105728u128
        } else {
            (-v) as u128
        }
    } else {
        v as u128
    }
}

/// Rounded quotient of two signed numbers of moderate size.
pub fn div_round_exec(n: i128, d: i128) -> (r: i128)
    requires
        d != 0,
        -0x4000_0000_0000_0000_0000_0000_0000_0000 <= n
            <= 0x4000_0000_0000_0000_0000_0000_0000_0000,
        -0x10_0000_0000_0000_0000_0000_0000 <= d <= 0x10_0000_0000_0000_0000_0000_0000,
    ensures
        r as int == div_round(n as int, d as int),
        magnitude(r as int) <= magnitude(n as int),
{
    let un: u128 = magnitude_of(n);
    let ud: u128 = magnitude_of(d);
    let q: u128 = (2 * un + ud) / (2 * ud);
    proof {
        lemma_div_half_up_bound(un as int, ud as int);
    }
    if (n >= 0) == (d > 0) {
        q as i128
    } else {
        -(q as i128)
    }
}

/// A rounded quotient is never larger than its numerator.
pub proof fn lemma_div_half_up_bound(n: int, d: int)
    requires
        n >= 0,
        d > 0,
    ensures
        0 <= div_half_up(n, d) <= n,
{
    let q = (2 * n + d) / (2 * d);
    vstd::arithmetic::div_mod::lemma_fundamental_div_mod(2 * n + d, 2 * d);
    vstd::arithmetic::div_mod::lemma_div_pos_is_pos(2 * n + d, 2 * d);
    assert(2 * d * q <= 2 * n + d);
    if q > n {
        assert(2 * d * q >= 2 * d * (n + 1)) by (nonlinear_arith)
            requires
                q >= n + 1,
                d > 0,
        ;
        assert(2 * d * (n + 1) == 2 * d * n + 2 * d) by (nonlinear_arith);
        assert(2 * d * n >= 2 * n) by (nonlinear_arith)
            requires
                d >= 1,
                n >= 0,
        ;
    }
}

/// A rounded quotient is a nearest whole number to the exact one: taken
/// times the divisor, it differs from the numerator by at most half the
/// divisor.
pub proof fn lemma_div_round_nearest(n: int, d: int)
    requires
        d != 0,
    ensures
        2 * magnitude(div_round(n, d) * d - n) <= magnitude(d),
{
    let a = magnitude(n);
    let b = magnitude(d);
    let q = div_half_up(a, b);
    vstd::arithmetic::div_mod::lemma_fundamental_div_mod(2 * a + b, 2 * b);
    vstd::arithmetic::div_mod::lemma_mod_bound(2 * a + b, 2 * b);
    let r = (2 * a + b) % (2 * b);
    assert(2 * a + b == (2 * b) * q + r);
    assert((2 * b) * q == 2 * (b * q)) by (nonlinear_arith);
    assert(-b <= 2 * (a - b * q) < b);
    assert(q * b == b * q && q * (-b) == -(b * q) && (-q) * b == -(b * q) && (-q) * (-b) == b * q)
        by (nonlinear_arith);
    assert(div_round(n, d) * d - n == b * q - a || div_round(n, d) * d - n == a - b * q);
}

impl Fixed {
    /// `other` itself, or `other` taken as an offset from `self`.
    pub open spec fn resolved(self, relative: bool, other: Fixed) -> Fixed {
        if relative {
            Fixed { micros: saturate(self.micros + other.micros) as i64 }
        } else {
            other
        }
    }

    /// The point reflection of `self` through `center`: `2 * center - self`.
    pub open spec fn reflected(self, center: Fixed) -> Fixed {
        Fixed { micros: saturate(2 * center.micros - self.micros) as i64 }
    }

    /// `self` moved two thirds of the way toward `target`.
    pub open spec fn two_thirds(self, target: Fixed) -> Fixed {
        Fixed {
            micros: saturate(self.micros + div_round(2 * (target.micros - self.micros), 3)) as i64,
        }
    }

    /// Whether `self` and `other` differ by more than `tolerance` millionths.
    pub open spec fn apart(self, other: Fixed, tolerance: int) -> bool {
        magnitude(self.micros - other.micros) > tolerance
    }

    /// The number that is `micros` millionths.
    pub fn from_micros(micros: i64) -> (r: Fixed)
        ensures
            r.micros == micros,
    {
        Fixed { micros }
    }

    /// The whole number `units`.
    pub fn from_int(units: i32) -> (r: Fixed)
        ensures
            r.micros == units * MICROS_PER_UNIT,
    {
        Fixed { micros: (units as i64) * MICROS_PER_UNIT }
    }

    /// The sum, clamped.
    pub fn plus(self, other: Fixed) -> (r: Fixed)
        ensures
            r.micros == saturate(self.micros + other.micros),
    {
        Fixed { micros: saturate_to_i64(self.micros as i128 + other.micros as i128) }
    }

    /// `other` itself, or `other` taken as an offset from `self`, clamped.
    pub fn resolve(self, relative: bool, other: Fixed) -> (r: Fixed)
        ensures
            r == self.resolved(relative, other),
    {
        if relative {
            self.plus(other)
        } else {
            other
        }
    }

    /// The point reflection of `self` through `center`, clamped.
    pub fn reflect_through(self, center: Fixed) -> (r: Fixed)
        ensures
            r == self.reflected(center),
    {
        Fixed { micros: saturate_to_i64(2 * (center.micros as i128) - self.micros as i128) }
    }

    /// `self` moved two thirds of the way toward `target`, rounded and
    /// clamped.
    pub fn two_thirds_toward(self, target: Fixed) -> (r: Fixed)
        ensures
            r == self.two_thirds(target),
    {
        let delta: i128 = 2 * (target.micros as i128 - self.micros as i128);
        let step: i128 = div_round_exec(delta, 3);
        Fixed { micros: saturate_to_i64(self.micros as i128 + step) }
    }

    /// Whether `self` and `other` lie more than `tolerance` millionths
    /// apart.
    pub fn farther_than(self, other: Fixed, tolerance: u64) -> (r: bool)
        ensures
            r == self.apart(other, tolerance as int),
    {
        let gap: u128 = magnitude_of(self.micros as i128 - other.micros as i128);
        gap > tolerance as u128
    }
}

} // verus!
