//! Fixed-point quantities.
//!
//! Every length, speed and duration of the simulation is a signed integer
//! count of small steps: a length unit is [`UNIT`] steps, a second is
//! [`SECOND`] ticks of the clock, and a speed is a number of length steps per
//! second. All arithmetic is exact integer arithmetic; a quotient is always
//! rounded towards zero, so a quantity and its negation scale alike.
use vstd::arithmetic::div_mod::{lemma_fundamental_div_mod, lemma_fundamental_div_mod_converse_mod};
use vstd::prelude::*;

verus! {

/// Steps in one length unit.
pub const UNIT: i64 = 1000;

/// Clock ticks in one second.
pub const SECOND: i64 = 1_000_000;

/// The ratio one: ratios and factors are counted in thousandths.
pub const WHOLE: i64 = 1000;

/// Largest magnitude a stored coordinate, speed or duration may have.
pub const LIMIT: i64 = 1_000_000_000;

/// The value of the angle pi, in millionths of a radian.
pub const HALF_TURN: i64 = 3_141_593;

/// A full turn, in millionths of a radian.
pub const FULL_TURN: i64 = 6_283_186;

/// A quarter turn, in millionths of a radian.
pub const QUARTER_TURN: i64 = 1_570_796;

/// A magnitude within [`LIMIT`].
pub open spec fn in_limit(a: int) -> bool {
    -LIMIT <= a <= LIMIT
}

/// Absolute value.
pub open spec fn magnitude(a: int) -> int {
    if a >= 0 {
        a
    } else {
        -a
    }
}

/// Quotient rounded towards zero, for a positive divisor.
pub open spec fn tdiv(a: int, d: int) -> int {
    if a >= 0 {
        a / d
    } else {
        -((-a) / d)
    }
}

/// `a * num / den`, rounded towards zero.
pub open spec fn scaled_of(a: int, num: int, den: int) -> int {
    tdiv(a * num, den)
}

/// The distance covered in `dt` clock ticks at speed `v`.
pub open spec fn travel_of(v: int, dt: int) -> int {
    scaled_of(v, dt, SECOND as int)
}

/// The sine of an angle between zero and a half turn, in thousandths: the
/// rational approximation `16 x (pi - x) / (5 pi^2 - 4 x (pi - x))`.
pub open spec fn arc_of(x: int) -> int {
    (16_000 * (x * (HALF_TURN - x))) / (49_348_032_888_245 - 4 * (x * (HALF_TURN - x)))
}

/// The sine of an angle given in millionths of a radian, in thousandths.
pub open spec fn sine_of(a: int) -> int {
    let t = a % (FULL_TURN as int);
    if t <= HALF_TURN {
        arc_of(t)
    } else {
        -arc_of(t - HALF_TURN)
    }
}

/// The cosine of an angle given in millionths of a radian, in thousandths.
pub open spec fn cosine_of(a: int) -> int {
    sine_of(a + QUARTER_TURN)
}

/// `r` is the integer square root of `n`.
pub open spec fn is_root(n: int, r: int) -> bool {
    r >= 0 && r * r <= n < (r + 1) * (r + 1)
}

/// The integer square root of a non-negative `n`.
pub open spec fn root(n: int) -> int {
    choose|r: int| is_root(n, r)
}

/// The product of two bounded factors is bounded by the product of the bounds.
pub proof fn lemma_product_bound(a: int, b: int, m: int, n: int)
    requires
        magnitude(a) <= m,
        magnitude(b) <= n,
    ensures
        magnitude(a * b) <= m * n,
{
    assert(magnitude(a * b) <= m * n) by (nonlinear_arith)
        requires
            -m <= a <= m,
            -n <= b <= n,
            magnitude(a * b) == if a * b >= 0 {
                a * b
            } else {
                -(a * b)
            },
    ;
}

/// A truncated quotient is no larger in magnitude than `m` when the dividend
/// is no larger than `m * d`.
pub proof fn lemma_tdiv_bound(p: int, d: int, m: int)
    requires
        d > 0,
        m >= 0,
        magnitude(p) <= m * d,
    ensures
        magnitude(tdiv(p, d)) <= m,
        p >= 0 ==> tdiv(p, d) >= 0,
        p <= 0 ==> tdiv(p, d) <= 0,
{
    let q = magnitude(p) / d;
    assert(0 <= q <= m) by (nonlinear_arith)
        requires
            d > 0,
            m >= 0,
            0 <= magnitude(p) <= m * d,
            q == magnitude(p) / d,
    ;
}

/// A truncated quotient, multiplied back, does not exceed the dividend in
/// magnitude.
pub proof fn lemma_tdiv_floor(p: int, d: int)
    requires
        d > 0,
    ensures
        magnitude(tdiv(p, d)) * d <= magnitude(p),
        magnitude(tdiv(p, d)) == magnitude(p) / d,
{
    lemma_fundamental_div_mod(magnitude(p), d);
    let q = magnitude(p) / d;
    assert(q * d == d * q) by (nonlinear_arith);
}

/// Scaling by a ratio of magnitude at most one never grows a quantity.
pub proof fn lemma_scaled_shrinks(a: int, num: int, den: int)
    requires
        den > 0,
        magnitude(num) <= den,
    ensures
        magnitude(scaled_of(a, num, den)) <= magnitude(a),
{
    lemma_product_bound(a, num, magnitude(a), den);
    lemma_tdiv_bound(a * num, den, magnitude(a));
}

/// A number has only one integer square root.
pub proof fn lemma_root_unique(n: int, r: int)
    requires
        is_root(n, r),
    ensures
        root(n) == r,
{
    let s = root(n);
    assert(s == r) by (nonlinear_arith)
        requires
            r >= 0,
            s >= 0,
            r * r <= n,
            n < (r + 1) * (r + 1),
            s * s <= n,
            n < (s + 1) * (s + 1),
    ;
}

/// `a * num / den` rounded towards zero.
pub fn scaled(a: i64, num: i64, den: i64) -> (r: i64)
    requires
        in_limit(a as int),
        in_limit(num as int),
        den > 0,
    ensures
        r == scaled_of(a as int, num as int, den as int),
        magnitude(r as int) <= 1_000_000_000_000_000_000,
        magnitude(num as int) <= den ==> magnitude(r as int) <= magnitude(a as int),
        magnitude(a as int) <= den ==> magnitude(r as int) <= magnitude(num as int),
        (a >= 0 && num >= 0) || (a <= 0 && num <= 0) ==> r >= 0,
        (a >= 0 && num <= 0) || (a <= 0 && num >= 0) ==> r <= 0,
{
    proof {
        lemma_product_bound(a as int, num as int, 1_000_000_000, 1_000_000_000);
        if magnitude(num as int) <= den {
            lemma_scaled_shrinks(a as int, num as int, den as int);
        }
        if magnitude(a as int) <= den {
            lemma_scaled_shrinks(num as int, a as int, den as int);
        }
        assert((a >= 0 && num >= 0) || (a <= 0 && num <= 0) ==> a * num >= 0) by (nonlinear_arith);
        assert((a >= 0 && num <= 0) || (a <= 0 && num >= 0) ==> a * num <= 0) by (nonlinear_arith);
    }
    let p: i64 = a * num;
    if p >= 0 {
        p / den
    } else {
        -((-p) / den)
    }
}

/// The longest step the simulation takes, in clock ticks: twenty seconds.
/// It is the longest whole number of seconds after which a ship at the
/// largest speed that leaves room for the recoil of its weapons, thrust at
/// its hardest all the while, is within that speed again once drag has taken
/// its share. Within it whatever is on or near the field, at a speed that
/// things have there, stays where the arithmetic of the collision tests
/// reaches.
pub const LONGEST_STEP: i64 = 20_000_000;

/// The seconds in the longest step.
pub const STEP_SECONDS: i64 = 20;

/// In a step no longer than the longest, nothing travels farther than its
/// speed allows in that many seconds.
pub proof fn lemma_travel_within(v: int, dt: int)
    requires
        0 <= dt <= LONGEST_STEP,
    ensures
        magnitude(travel_of(v, dt)) <= STEP_SECONDS * magnitude(v),
{
    lemma_product_bound(v, dt, magnitude(v), LONGEST_STEP as int);
    lemma_tdiv_bound(v * dt, SECOND as int, STEP_SECONDS * magnitude(v));
}

/// The distance covered in `dt` clock ticks at speed `v`.
pub fn travel(v: i64, dt: i64) -> (r: i64)
    requires
        in_limit(v as int),
        0 <= dt <= LIMIT,
    ensures
        r == travel_of(v as int, dt as int),
        magnitude(r as int) <= 1_000_000_000_000_000_000,
        dt <= SECOND ==> magnitude(r as int) <= magnitude(v as int),
        dt <= LONGEST_STEP ==> magnitude(r as int) <= STEP_SECONDS * magnitude(v as int),
        v >= 0 ==> r >= 0,
        v <= 0 ==> r <= 0,
{
    proof {
        if dt <= LONGEST_STEP {
            lemma_travel_within(v as int, dt as int);
        }
    }
    scaled(v, dt, SECOND)
}

/// The remainder of `x` by `w` that lies between zero and `w`.
pub fn wrapped(x: i64, w: i64) -> (r: i64)
    requires
        w > 0,
    ensures
        r == x % w,
        0 <= r < w,
{
    if x >= 0 {
        x % w
    } else {
        let y: i64 = -(x + 1);
        let m: i64 = y % w;
        proof {
            let q = (y as int) / (w as int);
            lemma_fundamental_div_mod(y as int, w as int);
            assert(x == (-q - 1) * w + (w - 1 - m)) by (nonlinear_arith)
                requires
                    y == w * q + m,
                    x == -y - 1,
            ;
            lemma_fundamental_div_mod_converse_mod(x as int, w as int, -q - 1, w - 1 - m);
        }
        w - 1 - m
    }
}

/// The sine of an angle between zero and a half turn, in thousandths.
fn arc(x: i64) -> (r: i64)
    requires
        0 <= x <= HALF_TURN,
    ensures
        r == arc_of(x as int),
        0 <= r <= WHOLE,
{
    proof {
        let p = x * (HALF_TURN - x);
        assert(0 <= p && 4 * p <= 9_869_606_577_649) by (nonlinear_arith)
            requires
                0 <= x <= 3_141_593,
                p == x * (3_141_593 - x),
        ;
        let den = 49_348_032_888_245 - 4 * p;
        assert(0 <= (16_000 * p) / den <= 1000) by (nonlinear_arith)
            requires
                0 <= p,
                16_000 * p <= 1000 * den,
                den > 0,
        ;
    }
    let p: i64 = x * (HALF_TURN - x);
    (16_000 * p) / (49_348_032_888_245 - 4 * p)
}

/// The sine of an angle given in millionths of a radian, in thousandths.
pub fn sine(a: i64) -> (r: i64)
    ensures
        r == sine_of(a as int),
        -WHOLE <= r <= WHOLE,
{
    let t: i64 = wrapped(a, FULL_TURN);
    if t <= HALF_TURN {
        arc(t)
    } else {
        -arc(t - HALF_TURN)
    }
}

/// The cosine of an angle given in millionths of a radian, in thousandths.
pub fn cosine(a: i64) -> (r: i64)
    requires
        a <= i64::MAX - QUARTER_TURN,
    ensures
        r == cosine_of(a as int),
        -WHOLE <= r <= WHOLE,
{
    sine(a + QUARTER_TURN)
}

/// The integer square root of `n`.
pub fn isqrt(n: u64) -> (r: u64)
    ensures
        is_root(n as int, r as int),
        r == root(n as int),
        r <= 4_294_967_295,
{
    let mut lo: u64 = 0;
    let mut hi: u64 = 4_294_967_296;
    while hi - lo > 1
        invariant
            0 <= lo < hi <= 4_294_967_296,
            lo * lo <= n < hi * hi,
        decreases hi - lo,
    {
        let mid: u64 = lo + (hi - lo) / 2;
        assert(mid * mid <= 4_294_967_295 * 4_294_967_295) by (nonlinear_arith)
            requires
                0 <= mid <= 4_294_967_295,
        ;
        if mid * mid <= n {
            lo = mid;
        } else {
            hi = mid;
        }
    }
    proof {
        lemma_root_unique(n as int, lo as int);
    }
    lo
}

} // verus!
