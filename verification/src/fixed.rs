//! Fixed-point numbers and the integer arithmetic the ray caster is built on.
//!
//! A length or a coordinate is an `i64` that counts sub-units: one world unit
//! is [`ONE`] sub-units, so the low sixteen bits are the fraction. Angles are
//! degrees in the same representation.

use vstd::prelude::*;
use vstd::arithmetic::div_mod::lemma_fundamental_div_mod;
use vstd::arithmetic::div_mod::lemma_fundamental_div_mod_converse;
use vstd::arithmetic::div_mod::lemma_div_pos_is_pos;

verus! {

/// The fixed-point representation of the number one.
pub const ONE: i64 = 65536;

/// The largest magnitude of a coordinate that the ray caster accepts: 2^31
/// world units.
pub const COORD_MAX: i64 = 0x8000_0000_0000;

/// A full turn, 360 degrees, in fixed point.
pub const FULL_TURN: i64 = 23592960;

/// A point of the world, or a displacement in it, in fixed point.
#[derive(Clone, Copy, Debug, PartialEq, Eq, Structural)]
pub struct Vector2 {
    pub x: i64,
    pub y: i64,
}

impl Vector2 {
    /// Both coordinates lie within [`COORD_MAX`] of zero.
    pub open spec fn in_range(self) -> bool {
        &&& -COORD_MAX <= self.x <= COORD_MAX
        &&& -COORD_MAX <= self.y <= COORD_MAX
    }

    /// Both components lie in `[-ONE, ONE]`, as a cosine and a sine do.
    pub open spec fn is_direction(self) -> bool {
        &&& -ONE <= self.x <= ONE
        &&& -ONE <= self.y <= ONE
    }

    /// The coordinates as a pair of mathematical integers.
    pub open spec fn pair(self) -> (int, int) {
        (self.x as int, self.y as int)
    }

    /// The point with the coordinates `x` and `y`.
    pub fn new(x: i64, y: i64) -> (v: Vector2)
        ensures
            v.x == x,
            v.y == y,
    {
        Vector2 { x, y }
    }

    /// Tells whether both coordinates lie within [`COORD_MAX`] of zero.
    pub fn check_range(&self) -> (ok: bool)
        ensures
            ok == self.in_range(),
    {
        -COORD_MAX <= self.x && self.x <= COORD_MAX && -COORD_MAX <= self.y && self.y <= COORD_MAX
    }

    /// Tells whether both components lie in `[-ONE, ONE]`.
    pub fn check_direction(&self) -> (ok: bool)
        ensures
            ok == self.is_direction(),
    {
        -ONE <= self.x && self.x <= ONE && -ONE <= self.y && self.y <= ONE
    }
}

/// The quotient of `a` by `b`, rounded towards negative infinity.
pub open spec fn floor_div(a: int, b: int) -> int
    recommends
        b != 0,
{
    if b > 0 {
        a / b
    } else {
        (-a) / (-b)
    }
}

/// `floor_div(a, b)` is the one integer `q` with `q * b <= a < (q + 1) * b`
/// for positive `b`, and with `q * b >= a > (q + 1) * b` for negative `b`.
pub proof fn lemma_floor_div_bounds(a: int, b: int)
    requires
        b != 0,
    ensures
        b > 0 ==> floor_div(a, b) * b <= a < (floor_div(a, b) + 1) * b,
        b < 0 ==> floor_div(a, b) * b >= a > (floor_div(a, b) + 1) * b,
{
    if b > 0 {
        lemma_fundamental_div_mod(a, b);
        let q = a / b;
        assert(b * q + a % b == a);
        assert(q * b == b * q) by (nonlinear_arith);
        assert((q + 1) * b == q * b + b) by (nonlinear_arith);
    } else {
        lemma_fundamental_div_mod(-a, -b);
        let q = (-a) / (-b);
        assert((-b) * q + (-a) % (-b) == -a);
        assert(q * b == -((-b) * q)) by (nonlinear_arith);
        assert((q + 1) * b == q * b + b) by (nonlinear_arith);
    }
}

/// Any `q` that brackets `a` between two multiples of `b` is the floored
/// quotient.
pub proof fn lemma_floor_div_unique(a: int, b: int, q: int)
    requires
        b > 0,
        q * b <= a < (q + 1) * b,
    ensures
        floor_div(a, b) == q,
{
    let r = a - q * b;
    assert((q + 1) * b == q * b + b) by (nonlinear_arith);
    assert(q * b == b * q) by (nonlinear_arith);
    lemma_fundamental_div_mod_converse(a, b, q, r);
}

/// The magnitude of a floored quotient is at most that of the dividend.
pub proof fn lemma_floor_div_magnitude(a: int, b: int, m: int)
    requires
        b != 0,
        -m <= a <= m,
    ensures
        -m <= floor_div(a, b) <= m,
{
    lemma_floor_div_bounds(a, b);
    let q = floor_div(a, b);
    if b > 0 {
        assert(q <= m) by (nonlinear_arith)
            requires
                b >= 1,
                q * b <= a,
                a <= m,
                -m <= a,
        ;
        assert(q >= -m) by (nonlinear_arith)
            requires
                b >= 1,
                a < (q + 1) * b,
                -m <= a,
                a <= m,
        ;
    } else {
        assert(q <= m) by (nonlinear_arith)
            requires
                b <= -1,
                q * b >= a,
                a <= m,
                -m <= a,
        ;
        assert(q >= -m) by (nonlinear_arith)
            requires
                b <= -1,
                a > (q + 1) * b,
                -m <= a,
                a <= m,
        ;
    }
}

/// The magnitude of a product is at most the product of the bounds on its
/// factors.
pub proof fn lemma_product_bound(a: int, b: int, m: int, n: int)
    by (nonlinear_arith)
    requires
        -m <= a <= m,
        -n <= b <= n,
    ensures
        -(m * n) <= a * b <= m * n,
{
}

/// Floored division of wide machine integers.
pub fn floor_div_i128(a: i128, b: i128) -> (q: i128)
    requires
        b != 0,
        a != i128::MIN,
        b != i128::MIN,
    ensures
        q == floor_div(a as int, b as int),
{
    let ua: u128 = if a < 0 { (-a) as u128 } else { a as u128 };
    let ub: u128 = if b < 0 { (-b) as u128 } else { b as u128 };
    let uq: u128 = ua / ub;
    let ur: u128 = ua % ub;
    proof {
        lemma_fundamental_div_mod(ua as int, ub as int);
        assert(ub * uq == uq * ub) by (nonlinear_arith);
        assert((uq + 1) * ub == uq * ub + ub) by (nonlinear_arith);
        assert(uq <= ua) by (nonlinear_arith)
            requires
                uq * ub <= ua,
                ub >= 1,
        ;
    }
    let same_sign: bool = (a < 0) == (b < 0);
    if same_sign || ua == 0 {
        proof {
            if b > 0 {
                lemma_floor_div_unique(a as int, b as int, uq as int);
            } else {
                lemma_floor_div_unique(-(a as int), -(b as int), uq as int);
            }
        }
        uq as i128
    } else {
        // The signs differ: the quotient is negative, and rounds away from zero
        // when the division leaves a remainder.
        let down: i128 = if ur == 0 { 0 } else { 1 };
        proof {
            let q = -(uq as int) - down;
            let d = if b > 0 { b as int } else { -(b as int) };
            assert(q * d == -(uq * ub) - down * ub) by (nonlinear_arith)
                requires
                    q == -(uq as int) - down,
                    d == ub,
            ;
            assert((q + 1) * d == q * d + d) by (nonlinear_arith);
            assert(down * ub == if ur == 0 { 0int } else { ub as int }) by (nonlinear_arith)
                requires
                    down == (if ur == 0 { 0int } else { 1int }),
            ;
            if b > 0 {
                lemma_floor_div_unique(a as int, b as int, q);
            } else {
                lemma_floor_div_unique(-(a as int), -(b as int), q);
            }
        }
        -(uq as i128) - down
    }
}

/// Floored division of machine integers.
pub fn floor_div_i64(a: i64, b: i64) -> (q: i64)
    requires
        b != 0,
        a != i64::MIN,
    ensures
        q == floor_div(a as int, b as int),
{
    proof {
        lemma_floor_div_magnitude(a as int, b as int, i64::MAX as int);
    }
    floor_div_i128(a as i128, b as i128) as i64
}

/// The integer square root: the largest `r` with `r * r <= n`.
pub open spec fn isqrt(n: nat) -> nat
    decreases n,
{
    if n == 0 {
        0
    } else {
        let r = isqrt((n - 1) as nat);
        if (r + 1) * (r + 1) <= n {
            r + 1
        } else {
            r
        }
    }
}

/// `isqrt(n)` squares to at most `n`, and its successor squares to more.
pub proof fn lemma_isqrt_bounds(n: nat)
    ensures
        isqrt(n) * isqrt(n) <= n < (isqrt(n) + 1) * (isqrt(n) + 1),
    decreases n,
{
    let s = isqrt(n);
    if n == 0 {
        assert(s == 0);
        assert(s * s == 0 && (s + 1) * (s + 1) == 1) by (nonlinear_arith)
            requires
                s == 0,
        ;
    } else {
        lemma_isqrt_bounds((n - 1) as nat);
        let r = isqrt((n - 1) as nat);
        if (r + 1) * (r + 1) <= n {
            assert(s == r + 1);
            assert(n < (s + 1) * (s + 1)) by (nonlinear_arith)
                requires
                    n - 1 < (r + 1) * (r + 1),
                    s == r + 1,
            ;
        } else {
            assert(s == r);
        }
    }
}

/// Only one number squares to at most `n` while its successor squares to more.
pub proof fn lemma_isqrt_unique(n: nat, r: nat)
    requires
        r * r <= n < (r + 1) * (r + 1),
    ensures
        isqrt(n) == r,
{
    lemma_isqrt_bounds(n);
    let s = isqrt(n);
    if s < r {
        assert((s + 1) * (s + 1) <= r * r) by (nonlinear_arith)
            requires
                s + 1 <= r,
        ;
    } else if s > r {
        assert((r + 1) * (r + 1) <= s * s) by (nonlinear_arith)
            requires
                r + 1 <= s,
        ;
    }
}

/// The integer square root of a machine integer below 2^126.
pub fn isqrt_u128(n: u128) -> (r: u64)
    requires
        n < 0x4000_0000_0000_0000_0000_0000_0000_0000,
    ensures
        r == isqrt(n as nat),
{
    let mut lo: u128 = 0;
    let mut hi: u128 = 0x8000_0000_0000_0000;
    while hi - lo > 1
        invariant
            lo < hi <= 0x8000_0000_0000_0000,
            lo * lo <= n < hi * hi,
        decreases hi - lo,
    {
        let mid: u128 = lo + (hi - lo) / 2;
        assert(mid * mid < 0x4000_0000_0000_0000_0000_0000_0000_0000) by (nonlinear_arith)
            requires
                mid < 0x8000_0000_0000_0000,
        ;
        if mid * mid <= n {
            lo = mid;
        } else {
            hi = mid;
        }
    }
    proof {
        lemma_isqrt_unique(n as nat, lo as nat);
    }
    lo as u64
}

/// `v`, or the nearest of `low` and `high` where `v` lies outside them.
pub open spec fn clamp(v: int, low: int, high: int) -> int {
    if v < low {
        low
    } else if v > high {
        high
    } else {
        v
    }
}

/// `v`, or the nearest `i64` where `v` is none.
pub open spec fn saturated(v: int) -> int {
    clamp(v, i64::MIN as int, i64::MAX as int)
}

/// The product of two fixed-point numbers, rounded down to a whole
/// sub-unit, or the nearest `i64`.
pub open spec fn product(a: int, b: int) -> int {
    saturated(floor_div(a * b, ONE as int))
}

/// The quotient of `a` by the positive `b`, rounded towards zero.
pub open spec fn trunc_div(a: int, b: int) -> int
    recommends
        b > 0,
{
    if a >= 0 {
        a / b
    } else {
        -((-a) / b)
    }
}

/// The whole part of a fixed-point number: the number rounded towards
/// zero, or the nearest `i32`.
pub open spec fn whole(v: int) -> int {
    clamp(trunc_div(v, ONE as int), i32::MIN as int, i32::MAX as int)
}

/// Narrows a wide integer to the nearest `i64`.
pub fn saturate(v: i128) -> (r: i64)
    ensures
        r == saturated(v as int),
{
    if v < i64::MIN as i128 {
        i64::MIN
    } else if v > i64::MAX as i128 {
        i64::MAX
    } else {
        v as i64
    }
}

/// Narrows a wide integer to the nearest number between `low` and `high`.
pub fn clamp_to(v: i128, low: i64, high: i64) -> (r: i64)
    requires
        low <= high,
    ensures
        r == clamp(v as int, low as int, high as int),
{
    if v < low as i128 {
        low
    } else if v > high as i128 {
        high
    } else {
        v as i64
    }
}

/// Multiplies two fixed-point numbers.
pub fn mul_fixed(a: i64, b: i64) -> (r: i64)
    ensures
        r == product(a as int, b as int),
{
    proof {
        lemma_mul_fits(a as int, b as int);
    }
    saturate(floor_div_i128((a as i128) * (b as i128), ONE as i128))
}

/// The product of two `i64` lies well inside the `i128`.
pub proof fn lemma_mul_fits(a: int, b: int)
    by (nonlinear_arith)
    requires
        -0x8000_0000_0000_0000 <= a <= 0x8000_0000_0000_0000,
        -0x8000_0000_0000_0000 <= b <= 0x8000_0000_0000_0000,
    ensures
        -0x4000_0000_0000_0000_0000_0000_0000_0000 <= a * b <= 0x4000_0000_0000_0000_0000_0000_0000_0000,
{
}

/// Divides by the positive `b`, rounding towards zero.
pub fn trunc_div_i128(a: i128, b: i128) -> (q: i128)
    requires
        b > 0,
        a != i128::MIN,
    ensures
        q == trunc_div(a as int, b as int),
        a >= 0 ==> 0 <= q <= a && q * b <= a,
        a <= 0 ==> a <= q <= 0 && q * b >= a,
{
    proof {
        let m = if a >= 0 { a as int } else { -(a as int) };
        let d = b as int;
        lemma_fundamental_div_mod(m, d);
        lemma_div_pos_is_pos(m, d);
        assert(m / d <= m && (m / d) * d <= m && (-(m / d)) * d >= -m) by (nonlinear_arith)
            requires
                d * (m / d) + m % d == m,
                0 <= m % d,
                0 <= m / d,
                d >= 1,
        ;
    }
    if a >= 0 {
        a / b
    } else {
        -((-a) / b)
    }
}

/// The whole part of a fixed-point number, as a count of pixels.
pub fn to_whole(v: i64) -> (r: i32)
    ensures
        r == whole(v as int),
{
    let q: i128 = trunc_div_i128(v as i128, ONE as i128);
    if q < i32::MIN as i128 {
        i32::MIN
    } else if q > i32::MAX as i128 {
        i32::MAX
    } else {
        q as i32
    }
}

} // verus!
