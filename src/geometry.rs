//! Integer vectors and the rounding helpers shared by the engine.
use vstd::prelude::*;

verus! {

/// Largest magnitude of a stored coordinate, speed or acceleration.
pub const COORD_MAX: i64 = 0x1_0000_0000;

/// A 2D vector in world units.
#[derive(Clone, Copy, Debug, PartialEq, Eq, Structural)]
pub struct Vec2 {
    pub x: i64,
    pub y: i64,
}

impl Vec2 {
    pub fn new(x: i64, y: i64) -> (r: Vec2)
        ensures
            r.x == x,
            r.y == y,
    {
        Vec2 { x, y }
    }

    /// Both components lie in `[-lim, lim]`.
    pub open spec fn bounded(self, lim: int) -> bool {
        -lim <= self.x <= lim && -lim <= self.y <= lim
    }
}

pub open spec fn abs(v: int) -> int {
    if v < 0 {
        -v
    } else {
        v
    }
}

pub open spec fn sign(v: int) -> int {
    if v > 0 {
        1
    } else if v < 0 {
        -1
    } else {
        0
    }
}

pub open spec fn min(a: int, b: int) -> int {
    if a <= b {
        a
    } else {
        b
    }
}

pub open spec fn max(a: int, b: int) -> int {
    if a >= b {
        a
    } else {
        b
    }
}

/// Division rounding toward zero.
pub open spec fn div_trunc(n: int, d: int) -> int {
    if n >= 0 {
        n / d
    } else {
        -((-n) / d)
    }
}

/// Division rounding to the nearest integer, halves away from zero.
pub open spec fn div_round(n: int, d: int) -> int {
    if n >= 0 {
        (2 * n + d) / (2 * d)
    } else {
        -((-2 * n + d) / (2 * d))
    }
}

/// The point `num / den` of the way from `a` to `b`, rounded to the nearest
/// integer (halves away from zero).
pub open spec fn lerp_round(a: int, b: int, num: int, den: int) -> int {
    div_round(a * den + (b - a) * num, den)
}

/// Floor division by a positive divisor.
pub fn floor_div(n: i64, d: i64) -> (r: i64)
    requires
        d > 0,
    ensures
        r == n as int / d as int,
{
    match n.checked_div_euclid(d) {
        Some(q) => q,
        None => {
            // n / d never leaves the range of i64 when d is positive
            proof {
                lemma_div_bounded(n as int, d as int);
            }
            0
        },
    }
}

/// Division by a positive divisor, rounding toward zero.
pub fn trunc_div(n: i64, d: i64) -> (r: i64)
    requires
        d > 0,
        n > i64::MIN,
    ensures
        r == div_trunc(n as int, d as int),
{
    if n >= 0 {
        floor_div(n, d)
    } else {
        let q = floor_div(-n, d);
        proof {
            lemma_div_bounded(-n as int, d as int);
        }
        -q
    }
}

pub proof fn lemma_div_bounded(n: int, d: int)
    requires
        d > 0,
    ensures
        n >= 0 ==> 0 <= n / d <= n,
        n < 0 ==> n <= n / d < 0,
{
    if n >= 0 {
        vstd::arithmetic::div_mod::lemma_div_pos_is_pos(n, d);
        vstd::arithmetic::div_mod::lemma_div_is_ordered_by_denominator(n, 1, d);
    } else {
        vstd::arithmetic::div_mod::lemma_fundamental_div_mod(n, d);
        assert(n % d < d) by {
            vstd::arithmetic::div_mod::lemma_mod_bound(n, d);
        }
        assert(n / d < 0) by (nonlinear_arith)
            requires
                n == d * (n / d) + n % d,
                0 <= n % d < d,
                n < 0,
                d > 0,
        ;
        assert(n <= n / d) by (nonlinear_arith)
            requires
                n == d * (n / d) + n % d,
                0 <= n % d < d,
                n / d < 0,
                d > 0,
        ;
    }
}

/// Largest magnitude of a coordinate handed to `lerp_i64`.
pub const LERP_MAX: i64 = 0x100_0000_0000;

/// `lerp_round` on machine integers; the result lies between the ends.
pub fn lerp_i64(a: i64, b: i64, num: i64, den: i64) -> (r: i64)
    requires
        0 <= num <= den,
        0 < den <= LERP_MAX,
        -LERP_MAX <= a <= LERP_MAX,
        -LERP_MAX <= b <= LERP_MAX,
    ensures
        r == lerp_round(a as int, b as int, num as int, den as int),
        min(a as int, b as int) <= r <= max(a as int, b as int),
{
    let ai = a as i128;
    let bi = b as i128;
    let di = den as i128;
    let ni = num as i128;
    proof {
        assert(-LERP_MAX * LERP_MAX <= ai * di <= LERP_MAX * LERP_MAX) by (nonlinear_arith)
            requires
                -LERP_MAX <= ai <= LERP_MAX,
                0 < di <= LERP_MAX,
        ;
        assert(-2 * LERP_MAX * LERP_MAX <= (bi - ai) * ni <= 2 * LERP_MAX * LERP_MAX)
            by (nonlinear_arith)
            requires
                -2 * LERP_MAX <= bi - ai <= 2 * LERP_MAX,
                0 <= ni <= LERP_MAX,
        ;
    }
    let n: i128 = ai * di + (bi - ai) * ni;
    assert(-3 * LERP_MAX * LERP_MAX <= n <= 3 * LERP_MAX * LERP_MAX);
    let q: i128 = if n >= 0 {
        (2 * n + di) / (2 * di)
    } else {
        let m: i128 = -n;
        -((2 * m + di) / (2 * di))
    };
    proof {
        lemma_lerp_between(a as int, b as int, num as int, den as int);
    }
    q as i64
}

/// For a positive divisor, `lo * d <= x < (hi + 1) * d` puts `x / d` in
/// `[lo, hi]`.
pub proof fn lemma_div_between(x: int, d: int, lo: int, hi: int)
    requires
        d > 0,
        lo * d <= x,
        x < (hi + 1) * d,
    ensures
        lo <= x / d <= hi,
{
    vstd::arithmetic::div_mod::lemma_fundamental_div_mod(x, d);
    vstd::arithmetic::div_mod::lemma_mod_bound(x, d);
    let q = x / d;
    let r = x % d;
    if q < lo {
        assert(false) by (nonlinear_arith)
            requires
                x == d * q + r,
                r < d,
                q < lo,
                lo * d <= x,
                d > 0,
        ;
    }
    if q > hi {
        assert(false) by (nonlinear_arith)
            requires
                x == d * q + r,
                0 <= r,
                q > hi,
                x < (hi + 1) * d,
                d > 0,
        ;
    }
}

/// A rounded interpolation never leaves the segment between its ends.
pub proof fn lemma_lerp_between(a: int, b: int, num: int, den: int)
    requires
        0 <= num <= den,
        0 < den,
    ensures
        min(a, b) <= lerp_round(a, b, num, den) <= max(a, b),
{
    let lo = min(a, b);
    let hi = max(a, b);
    let n = a * den + (b - a) * num;
    assert(lo * den <= n <= hi * den) by (nonlinear_arith)
        requires
            0 <= num <= den,
            0 < den,
            lo == min(a, b),
            hi == max(a, b),
            n == a * den + (b - a) * num,
    ;
    if n >= 0 {
        assert(lo * (2 * den) <= 2 * n + den) by (nonlinear_arith)
            requires
                lo * den <= n,
                den > 0,
        ;
        assert(2 * n + den < (hi + 1) * (2 * den)) by (nonlinear_arith)
            requires
                n <= hi * den,
                den > 0,
        ;
        lemma_div_between(2 * n + den, 2 * den, lo, hi);
    } else {
        let m = -n;
        assert((-hi) * (2 * den) <= 2 * m + den) by (nonlinear_arith)
            requires
                m == -n,
                n <= hi * den,
                den > 0,
        ;
        assert(2 * m + den < (-lo + 1) * (2 * den)) by (nonlinear_arith)
            requires
                m == -n,
                lo * den <= n,
                den > 0,
        ;
        lemma_div_between(2 * m + den, 2 * den, -hi, -lo);
    }
}

/// `(n / d) * d` is the largest multiple of `d` not above `n`.
pub proof fn lemma_floor_edge(n: int, d: int)
    requires
        d > 0,
    ensures
        (n / d) * d <= n < (n / d) * d + d,
{
    vstd::arithmetic::div_mod::lemma_fundamental_div_mod(n, d);
    vstd::arithmetic::div_mod::lemma_mod_bound(n, d);
    vstd::arithmetic::mul::lemma_mul_is_commutative(n / d, d);
}

/// Multiplying by a positive factor keeps the order.
pub proof fn lemma_mul_mono(a: int, b: int, k: int)
    requires
        a <= b,
        k > 0,
    ensures
        a * k <= b * k,
{
    assert(a * k <= b * k) by (nonlinear_arith)
        requires
            a <= b,
            k > 0,
    ;
}

} // verus!
