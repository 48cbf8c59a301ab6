//! Points and displacements of the plane, in fixed-point steps.
use crate::units::{
    LIMIT, LONGEST_STEP, SECOND, STEP_SECONDS, UNIT, in_limit, is_root, isqrt, lemma_product_bound,
    lemma_tdiv_bound, lemma_tdiv_floor, magnitude, root, scaled, scaled_of, travel, travel_of,
};
use vstd::prelude::*;

verus! {

/// A point, a displacement or a velocity: two fixed-point coordinates.
#[derive(Clone, Copy, Debug, PartialEq, Eq, Structural)]
pub struct Vec2 {
    pub x: i64,
    pub y: i64,
}

/// The vector of the given mathematical coordinates.
pub open spec fn vec2_of(x: int, y: int) -> Vec2 {
    Vec2 { x: x as i64, y: y as i64 }
}

/// The squared distance between two points.
pub open spec fn dist_sq(a: Vec2, b: Vec2) -> int {
    (a.x - b.x) * (a.x - b.x) + (a.y - b.y) * (a.y - b.y)
}

/// The distance between `a` and `b` is strictly less than `r`.
pub open spec fn closer_than(a: Vec2, b: Vec2, r: int) -> bool {
    r > 0 && dist_sq(a, b) < r * r
}

/// The scalar product of two vectors.
pub open spec fn dot_of(a: Vec2, b: Vec2) -> int {
    a.x * b.x + a.y * b.y
}

/// The vector product of two vectors: positive where `b` points to the left
/// of `a`, negative where it points to the right, nothing where they point
/// along one line.
pub open spec fn cross_of(a: Vec2, b: Vec2) -> int {
    a.x * b.y - a.y * b.x
}

/// How much nearer to the direction of `w` the vector `a` points than the
/// vector `b`: the sine of the angle by which `b` is farther off, times the
/// lengths of `a` and `b` and the square of that of `w`.
pub open spec fn gain_of(a: Vec2, b: Vec2, w: Vec2) -> int {
    dot_of(a, w) * magnitude(cross_of(b, w)) - magnitude(cross_of(a, w)) * dot_of(b, w)
}

/// Whether `a` points nearer to where `w` points than `b` does: the angle
/// between `a` and `w` is strictly smaller than that between `b` and `w`.
pub open spec fn nearer(a: Vec2, b: Vec2, w: Vec2) -> bool {
    gain_of(a, b, w) > 0 || (cross_of(a, w) == 0 && dot_of(a, w) > 0 && cross_of(b, w) == 0
        && dot_of(b, w) < 0)
}

/// The squared length of a vector.
pub open spec fn norm_sq(v: Vec2) -> int {
    v.x * v.x + v.y * v.y
}

/// The length of a vector, rounded up to a whole step.
pub open spec fn length_of(v: Vec2) -> int {
    let r = root(norm_sq(v));
    if r * r == norm_sq(v) {
        r
    } else {
        r + 1
    }
}

/// The vector of length `len` that points as `v` does, each coordinate rounded
/// towards zero; the zero vector where `v` is the zero vector.
pub open spec fn with_length_of(v: Vec2, len: int) -> Vec2 {
    if length_of(v) == 0 {
        Vec2 { x: 0, y: 0 }
    } else {
        vec2_of(scaled_of(v.x as int, len, length_of(v)), scaled_of(v.y as int, len, length_of(v)))
    }
}

/// The vector of length [`UNIT`] that points as `v` does.
pub open spec fn unit_of(v: Vec2) -> Vec2 {
    with_length_of(v, UNIT as int)
}

/// The sum of two vectors.
pub open spec fn sum_of(a: Vec2, b: Vec2) -> Vec2 {
    vec2_of(a.x + b.x, a.y + b.y)
}

/// The difference of two vectors.
pub open spec fn diff_of(a: Vec2, b: Vec2) -> Vec2 {
    vec2_of(a.x - b.x, a.y - b.y)
}

/// The vector `v` scaled by `num / den`.
pub open spec fn stretch_of(v: Vec2, num: int, den: int) -> Vec2 {
    vec2_of(scaled_of(v.x as int, num, den), scaled_of(v.y as int, num, den))
}

/// The point reached from `p` after `dt` clock ticks at velocity `v`.
pub open spec fn moved_of(p: Vec2, v: Vec2, dt: int) -> Vec2 {
    vec2_of(p.x + travel_of(v.x as int, dt), p.y + travel_of(v.y as int, dt))
}

/// The point at `num / den` of the way from `a` to `b`.
pub open spec fn lerp_of(a: Vec2, b: Vec2, num: int, den: int) -> Vec2 {
    vec2_of(
        a.x + scaled_of(b.x - a.x, num, den),
        a.y + scaled_of(b.y - a.y, num, den),
    )
}

/// Squares of bounded numbers are bounded.
pub proof fn lemma_square_bound(a: int, m: int)
    requires
        magnitude(a) <= m,
    ensures
        0 <= a * a <= m * m,
{
    assert(0 <= a * a <= m * m) by (nonlinear_arith)
        requires
            -m <= a <= m,
    ;
}

/// Each coordinate of a vector is no longer than the vector, and only the
/// zero vector has length zero.
pub proof fn lemma_coordinate_within_length(v: Vec2)
    requires
        v.bounded(3 * LIMIT),
    ensures
        0 <= norm_sq(v) <= 18_000_000_000_000_000_000,
        is_root(norm_sq(v), root(norm_sq(v))),
        norm_sq(v) <= length_of(v) * length_of(v),
        magnitude(v.x as int) <= length_of(v),
        magnitude(v.y as int) <= length_of(v),
        0 <= length_of(v) <= 5 * LIMIT,
        length_of(v) == 0 <==> v.x == 0 && v.y == 0,
{
    let n = norm_sq(v);
    lemma_square_bound(v.x as int, 3_000_000_000);
    lemma_square_bound(v.y as int, 3_000_000_000);
    assert(exists|r: int| is_root(n, r)) by {
        lemma_root_exists(n, 5_000_000_000);
    }
    let s = root(n);
    let len = length_of(v);
    assert(magnitude(v.x as int) <= len) by (nonlinear_arith)
        requires
            len >= 0,
            v.x * v.x <= n,
            n <= len * len,
            magnitude(v.x as int) == if v.x >= 0 {
                v.x as int
            } else {
                -(v.x as int)
            },
    ;
    assert(magnitude(v.y as int) <= len) by (nonlinear_arith)
        requires
            len >= 0,
            v.y * v.y <= n,
            n <= len * len,
            magnitude(v.y as int) == if v.y >= 0 {
                v.y as int
            } else {
                -(v.y as int)
            },
    ;
    assert(s < 5_000_000_000) by (nonlinear_arith)
        requires
            s >= 0,
            s * s <= n,
            n <= 18_000_000_000_000_000_000,
    ;
    if v.x == 0 && v.y == 0 {
        assert(s == 0) by (nonlinear_arith)
            requires
                s >= 0,
                s * s <= 0,
        ;
    }
}

/// A vector no longer than `n`, scaled by `len / n`, is no longer than `len`.
pub proof fn lemma_scaling_keeps_norm(x: int, y: int, len: int, n: int)
    requires
        n > 0,
        len >= 0,
        x * x + y * y <= n * n,
    ensures
        scaled_of(x, len, n) * scaled_of(x, len, n) + scaled_of(y, len, n) * scaled_of(y, len, n)
            <= len * len,
{
    let a = magnitude(scaled_of(x, len, n));
    let b = magnitude(scaled_of(y, len, n));
    let ax = magnitude(x);
    let ay = magnitude(y);
    lemma_tdiv_floor(x * len, n);
    lemma_tdiv_floor(y * len, n);
    assert(magnitude(x * len) == ax * len) by (nonlinear_arith)
        requires
            len >= 0,
            ax == magnitude(x),
            magnitude(x * len) == if x * len >= 0 {
                x * len
            } else {
                -(x * len)
            },
            ax == if x >= 0 {
                x
            } else {
                -x
            },
    ;
    assert(magnitude(y * len) == ay * len) by (nonlinear_arith)
        requires
            len >= 0,
            magnitude(y * len) == if y * len >= 0 {
                y * len
            } else {
                -(y * len)
            },
            ay == if y >= 0 {
                y
            } else {
                -y
            },
    ;
    assert((a * n) * (a * n) <= (ax * len) * (ax * len)) by (nonlinear_arith)
        requires
            0 <= a * n <= ax * len,
    ;
    assert((b * n) * (b * n) <= (ay * len) * (ay * len)) by (nonlinear_arith)
        requires
            0 <= b * n <= ay * len,
    ;
    assert((a * a + b * b) * (n * n) == (a * n) * (a * n) + (b * n) * (b * n)) by (nonlinear_arith);
    assert((ax * len) * (ax * len) + (ay * len) * (ay * len) == (x * x + y * y) * (len * len))
        by (nonlinear_arith)
        requires
            ax == x || ax == -x,
            ay == y || ay == -y,
    ;
    assert((x * x + y * y) * (len * len) <= (n * n) * (len * len)) by (nonlinear_arith)
        requires
            x * x + y * y <= n * n,
    ;
    assert(a * a + b * b <= len * len) by (nonlinear_arith)
        requires
            (a * a + b * b) * (n * n) <= (n * n) * (len * len),
            n > 0,
    ;
    assert(a * a == scaled_of(x, len, n) * scaled_of(x, len, n)) by (nonlinear_arith)
        requires
            a == scaled_of(x, len, n) || a == -scaled_of(x, len, n),
    ;
    assert(b * b == scaled_of(y, len, n) * scaled_of(y, len, n)) by (nonlinear_arith)
        requires
            b == scaled_of(y, len, n) || b == -scaled_of(y, len, n),
    ;
}

/// A vector given a length falls short of that length by no more than the
/// rounding of its coordinates and of its own length allows: with each
/// coordinate made one step longer, it is longer than `len * (n - 1) / n`,
/// where `n` is the length of the vector it was made from.
pub proof fn lemma_with_length_floor(v: Vec2, len: int)
    requires
        v.bounded(3 * LIMIT),
        0 <= len <= LIMIT / 2,
        length_of(v) > 0,
    ensures
        ({
            let w = with_length_of(v, len);
            let n = length_of(v);
            ((magnitude(w.x as int) + 1) * (magnitude(w.x as int) + 1) + (magnitude(w.y as int) + 1)
                * (magnitude(w.y as int) + 1)) * (n * n) > ((n - 1) * len) * ((n - 1) * len)
        }),
{
    lemma_coordinate_within_length(v);
    let n = length_of(v);
    let w = with_length_of(v, len);
    let a = magnitude(w.x as int);
    let b = magnitude(w.y as int);
    let x = magnitude(v.x as int);
    let y = magnitude(v.y as int);
    let d = norm_sq(v);
    let r = root(d);
    lemma_product_bound(v.x as int, len, n, len);
    lemma_product_bound(v.y as int, len, n, len);
    lemma_tdiv_bound(v.x * len, n, len);
    lemma_tdiv_bound(v.y * len, n, len);
    assert(magnitude(v.x * len) == x * len) by (nonlinear_arith)
        requires
            len >= 0,
            magnitude(v.x * len) == if v.x * len >= 0 {
                v.x * len
            } else {
                -(v.x * len)
            },
            x == if v.x >= 0 {
                v.x as int
            } else {
                -(v.x as int)
            },
    ;
    assert(magnitude(v.y * len) == y * len) by (nonlinear_arith)
        requires
            len >= 0,
            magnitude(v.y * len) == if v.y * len >= 0 {
                v.y * len
            } else {
                -(v.y * len)
            },
            y == if v.y >= 0 {
                v.y as int
            } else {
                -(v.y as int)
            },
    ;
    vstd::arithmetic::div_mod::lemma_fundamental_div_mod(x * len, n);
    vstd::arithmetic::div_mod::lemma_fundamental_div_mod(y * len, n);
    assert(x * len < (a + 1) * n) by (nonlinear_arith)
        requires
            x * len == n * a + (x * len) % n,
            (x * len) % n < n,
    ;
    assert(y * len < (b + 1) * n) by (nonlinear_arith)
        requires
            y * len == n * b + (y * len) % n,
            (y * len) % n < n,
    ;
    assert((x * len) * (x * len) < ((a + 1) * n) * ((a + 1) * n)) by (nonlinear_arith)
        requires
            0 <= x * len < (a + 1) * n,
    ;
    assert((y * len) * (y * len) < ((b + 1) * n) * ((b + 1) * n)) by (nonlinear_arith)
        requires
            0 <= y * len < (b + 1) * n,
    ;
    assert((x * len) * (x * len) + (y * len) * (y * len) == d * (len * len)) by (nonlinear_arith)
        requires
            d == v.x * v.x + v.y * v.y,
            x == v.x || x == -v.x,
            y == v.y || y == -v.y,
    ;
    assert(((a + 1) * n) * ((a + 1) * n) + ((b + 1) * n) * ((b + 1) * n) == ((a + 1) * (a + 1) + (b
        + 1) * (b + 1)) * (n * n)) by (nonlinear_arith);
    assert((n - 1) * (n - 1) <= d) by (nonlinear_arith)
        requires
            r >= 0,
            r * r <= d,
            n == r || n == r + 1,
            n == r ==> r * r == d,
            n >= 1,
    ;
    assert(((n - 1) * len) * ((n - 1) * len) <= d * (len * len)) by (nonlinear_arith)
        requires
            (n - 1) * (n - 1) <= d,
            len >= 0,
    ;
}

/// A vector given a length is no longer than that length.
pub proof fn lemma_with_length_norm(v: Vec2, len: int)
    requires
        v.bounded(3 * LIMIT),
        0 <= len <= LIMIT / 2,
    ensures
        norm_sq(with_length_of(v, len)) <= len * len,
        with_length_of(v, len).bounded(len),
{
    lemma_coordinate_within_length(v);
    let n = length_of(v);
    if n != 0 {
        lemma_scaling_keeps_norm(v.x as int, v.y as int, len, n);
        lemma_product_bound(v.x as int, len, n, len);
        lemma_product_bound(v.y as int, len, n, len);
        lemma_tdiv_bound(v.x * len, n, len);
        lemma_tdiv_bound(v.y * len, n, len);
    }
}

/// Every number from zero up to `bound * bound` has an integer square root.
pub proof fn lemma_root_exists(n: int, bound: int)
    requires
        0 <= n,
        0 <= bound,
        n < (bound + 1) * (bound + 1),
    ensures
        exists|r: int| is_root(n, r),
    decreases bound,
{
    if bound * bound <= n {
        assert(is_root(n, bound));
    } else if bound == 0 {
    } else {
        lemma_root_exists(n, bound - 1);
    }
}

impl Vec2 {
    /// Both coordinates have magnitude at most `m`.
    pub open spec fn bounded(self, m: int) -> bool {
        -m <= self.x <= m && -m <= self.y <= m
    }

    /// The vector with the given coordinates.
    pub fn new(x: i64, y: i64) -> (v: Vec2)
        ensures
            v.x == x,
            v.y == y,
    {
        Vec2 { x, y }
    }

    /// The zero vector.
    pub fn zero() -> (v: Vec2)
        ensures
            v.x == 0,
            v.y == 0,
    {
        Vec2 { x: 0, y: 0 }
    }

    /// The sum of two vectors.
    pub fn plus(self, other: Vec2) -> (r: Vec2)
        requires
            self.bounded(4 * LIMIT),
            other.bounded(4 * LIMIT),
        ensures
            r == sum_of(self, other),
            r.x == self.x + other.x,
            r.y == self.y + other.y,
    {
        Vec2 { x: self.x + other.x, y: self.y + other.y }
    }

    /// The difference of two vectors.
    pub fn minus(self, other: Vec2) -> (r: Vec2)
        requires
            self.bounded(4 * LIMIT),
            other.bounded(4 * LIMIT),
        ensures
            r == diff_of(self, other),
            r.x == self.x - other.x,
            r.y == self.y - other.y,
    {
        Vec2 { x: self.x - other.x, y: self.y - other.y }
    }

    /// The vector scaled by `num / den`.
    pub fn stretch(self, num: i64, den: i64) -> (r: Vec2)
        requires
            self.bounded(LIMIT as int),
            in_limit(num as int),
            den > 0,
        ensures
            r == stretch_of(self, num as int, den as int),
            r.x == scaled_of(self.x as int, num as int, den as int),
            r.y == scaled_of(self.y as int, num as int, den as int),
            magnitude(num as int) <= den ==> magnitude(r.x as int) <= magnitude(self.x as int)
                && magnitude(r.y as int) <= magnitude(self.y as int),
            self.bounded(den as int) ==> r.bounded(magnitude(num as int)),
    {
        Vec2 { x: scaled(self.x, num, den), y: scaled(self.y, num, den) }
    }

    /// The point reached after `dt` clock ticks at velocity `vel`.
    pub fn moved(self, vel: Vec2, dt: i64) -> (r: Vec2)
        requires
            self.bounded(4 * LIMIT),
            vel.bounded(LIMIT as int),
            0 <= dt <= LIMIT,
        ensures
            r == moved_of(self, vel, dt as int),
            r.x == self.x + travel_of(vel.x as int, dt as int),
            r.y == self.y + travel_of(vel.y as int, dt as int),
            dt <= SECOND ==> magnitude(r.x - self.x) <= magnitude(vel.x as int),
            dt <= SECOND ==> magnitude(r.y - self.y) <= magnitude(vel.y as int),
            dt <= LONGEST_STEP ==> magnitude(r.x - self.x) <= STEP_SECONDS * magnitude(vel.x as int),
            dt <= LONGEST_STEP ==> magnitude(r.y - self.y) <= STEP_SECONDS * magnitude(vel.y as int),
    {
        Vec2 { x: self.x + travel(vel.x, dt), y: self.y + travel(vel.y, dt) }
    }

    /// The scalar product with `other`.
    pub fn dot(self, other: Vec2) -> (r: i64)
        requires
            self.bounded(2 * LIMIT),
            other.bounded(LIMIT as int),
        ensures
            r == dot_of(self, other),
            -4_000_000_000_000_000_000 <= r <= 4_000_000_000_000_000_000,
    {
        proof {
            lemma_product_bound(self.x as int, other.x as int, 2_000_000_000, 1_000_000_000);
            lemma_product_bound(self.y as int, other.y as int, 2_000_000_000, 1_000_000_000);
        }
        self.x * other.x + self.y * other.y
    }

    /// The vector product with `other`.
    pub fn cross(self, other: Vec2) -> (r: i64)
        requires
            self.bounded(LIMIT as int),
            other.bounded(2 * LIMIT),
        ensures
            r == cross_of(self, other),
            -4_000_000_000_000_000_000 <= r <= 4_000_000_000_000_000_000,
    {
        proof {
            lemma_product_bound(self.x as int, other.y as int, 1_000_000_000, 2_000_000_000);
            lemma_product_bound(self.y as int, other.x as int, 1_000_000_000, 2_000_000_000);
        }
        self.x * other.y - self.y * other.x
    }

    /// Whether this vector points nearer to where `w` points than `other`
    /// does.
    pub fn is_nearer(self, other: Vec2, w: Vec2) -> (r: bool)
        requires
            self.bounded(LIMIT as int),
            other.bounded(LIMIT as int),
            w.bounded(2 * LIMIT),
        ensures
            r == nearer(self, other, w),
    {
        let along: i64 = w.dot(self);
        let across: i64 = self.cross(w);
        let other_along: i64 = w.dot(other);
        let other_across: i64 = other.cross(w);
        let off: i64 = if across >= 0 {
            across
        } else {
            -across
        };
        let other_off: i64 = if other_across >= 0 {
            other_across
        } else {
            -other_across
        };
        proof {
            lemma_product_bound(
                along as int,
                other_off as int,
                4_000_000_000_000_000_000,
                4_000_000_000_000_000_000,
            );
            lemma_product_bound(
                off as int,
                other_along as int,
                4_000_000_000_000_000_000,
                4_000_000_000_000_000_000,
            );
            assert(dot_of(w, self) == dot_of(self, w)) by (nonlinear_arith);
            assert(dot_of(w, other) == dot_of(other, w)) by (nonlinear_arith);
        }
        let first: i128 = (along as i128) * (other_off as i128);
        let second: i128 = (off as i128) * (other_along as i128);
        first - second > 0 || (across == 0 && along > 0 && other_across == 0 && other_along < 0)
    }

    /// The squared distance to `other`.
    pub fn distance_squared(self, other: Vec2) -> (r: i64)
        requires
            self.bounded(LIMIT as int),
            other.bounded(LIMIT as int),
        ensures
            r == dist_sq(self, other),
            0 <= r <= 8_000_000_000_000_000_000,
    {
        let dx: i64 = self.x - other.x;
        let dy: i64 = self.y - other.y;
        proof {
            lemma_square_bound(dx as int, 2_000_000_000);
            lemma_square_bound(dy as int, 2_000_000_000);
        }
        dx * dx + dy * dy
    }

    /// Whether the distance to `other` is strictly less than `r`.
    pub fn is_closer_than(self, other: Vec2, r: i64) -> (hit: bool)
        requires
            self.bounded(LIMIT as int),
            other.bounded(LIMIT as int),
        ensures
            hit == closer_than(self, other, r as int),
    {
        if r <= 0 {
            return false;
        }
        let d: i64 = self.distance_squared(other);
        if r >= 3 * LIMIT {
            proof {
                assert(r * r >= 9_000_000_000_000_000_000) by (nonlinear_arith)
                    requires
                        r >= 3_000_000_000,
                ;
            }
            return true;
        }
        proof {
            lemma_square_bound(r as int, 3_000_000_000);
        }
        d < r * r
    }

    /// The length, rounded up to a whole step.
    pub fn length(self) -> (r: i64)
        requires
            self.bounded(3 * LIMIT),
        ensures
            r == length_of(self),
            norm_sq(self) <= r * r,
            magnitude(self.x as int) <= r,
            magnitude(self.y as int) <= r,
            0 <= r <= 5 * LIMIT,
            r == 0 <==> self.x == 0 && self.y == 0,
    {
        proof {
            lemma_coordinate_within_length(self);
        }
        let ax: u64 = if self.x >= 0 {
            self.x as u64
        } else {
            (-self.x) as u64
        };
        let ay: u64 = if self.y >= 0 {
            self.y as u64
        } else {
            (-self.y) as u64
        };
        assert(ax * ax == self.x * self.x) by (nonlinear_arith)
            requires
                ax == self.x || ax == -self.x,
        ;
        assert(ay * ay == self.y * self.y) by (nonlinear_arith)
            requires
                ay == self.y || ay == -self.y,
        ;
        let n: u64 = ax * ax + ay * ay;
        let r: u64 = isqrt(n);
        if r * r == n {
            r as i64
        } else {
            (r + 1) as i64
        }
    }

    /// The vector of length `len` that points the same way, each coordinate
    /// rounded towards zero; the zero vector where this is the zero vector.
    pub fn with_length(self, len: i64) -> (r: Vec2)
        requires
            self.bounded(3 * LIMIT),
            0 <= len <= LIMIT / 2,
        ensures
            r == with_length_of(self, len as int),
            r.bounded(len as int),
            norm_sq(r) <= len * len,
            (self.x == 0 && self.y == 0) ==> r.x == 0 && r.y == 0,
    {
        let n: i64 = self.length();
        if n == 0 {
            return Vec2 { x: 0, y: 0 };
        }
        proof {
            lemma_with_length_norm(self, len as int);
            lemma_product_bound(self.x as int, len as int, 3_000_000_000, 500_000_000);
            lemma_product_bound(self.y as int, len as int, 3_000_000_000, 500_000_000);
        }
        let px: i64 = self.x * len;
        let py: i64 = self.y * len;
        let x: i64 = if px >= 0 {
            px / n
        } else {
            -((-px) / n)
        };
        let y: i64 = if py >= 0 {
            py / n
        } else {
            -((-py) / n)
        };
        Vec2 { x, y }
    }

    /// The vector of length [`UNIT`] that points the same way.
    pub fn normalized(self) -> (r: Vec2)
        requires
            self.bounded(3 * LIMIT),
        ensures
            r == unit_of(self),
            r.bounded(UNIT as int),
            norm_sq(r) <= UNIT * UNIT,
            (self.x == 0 && self.y == 0) ==> r.x == 0 && r.y == 0,
    {
        self.with_length(UNIT)
    }

    /// The point at `num / den` of the way from this point to `target`.
    pub fn lerp(self, target: Vec2, num: i64, den: i64) -> (r: Vec2)
        requires
            self.bounded(LIMIT / 2),
            target.bounded(LIMIT / 2),
            0 <= num <= LIMIT,
            den > 0,
        ensures
            r == lerp_of(self, target, num as int, den as int),
            r.x == self.x + scaled_of(target.x - self.x, num as int, den as int),
            r.y == self.y + scaled_of(target.y - self.y, num as int, den as int),
            forall|m: int|
                #![trigger self.bounded(m)]
                num <= den && self.bounded(m) && target.bounded(m) ==> r.bounded(m),
    {
        let dx: i64 = scaled(target.x - self.x, num, den);
        let dy: i64 = scaled(target.y - self.y, num, den);
        Vec2 { x: self.x + dx, y: self.y + dy }
    }
}

} // verus!
