//! Why a missile's turn brings its heading nearer its target.
use crate::consts::TAME_SPEED;
use crate::units::{LIMIT, WHOLE, lemma_product_bound, lemma_tdiv_bound, magnitude, root, tdiv};
use crate::vec2::{
    Vec2, cross_of, dot_of, gain_of, lemma_coordinate_within_length, lemma_with_length_norm,
    length_of, nearer, norm_sq, with_length_of,
};
use crate::weapons::{FULL_SWING, lies_left, passed, swung_of};
use vstd::arithmetic::div_mod::lemma_remainder;
use vstd::prelude::*;

verus! {

/// What a truncated quotient leaves of the dividend is smaller than the
/// divisor and has the sign of the dividend.
pub proof fn lemma_tdiv_rest(p: int, d: int)
    requires
        d > 0,
    ensures
        -d < p - tdiv(p, d) * d < d,
        p >= 0 ==> p - tdiv(p, d) * d >= 0 && tdiv(p, d) >= 0,
        p <= 0 ==> p - tdiv(p, d) * d <= 0 && tdiv(p, d) <= 0,
{
    assert(magnitude(p) <= magnitude(p) * d) by (nonlinear_arith)
        requires
            d >= 1,
            magnitude(p) >= 0,
    ;
    lemma_tdiv_bound(p, d, magnitude(p));
    if p >= 0 {
        lemma_remainder(p, d);
    } else {
        lemma_remainder(-p, d);
        let q = (-p) / d;
        assert(p - (-q) * d == -((-p) - q * d)) by (nonlinear_arith);
    }
}

/// A vector is no longer than its two coordinates together.
pub proof fn lemma_length_within_sum(v: Vec2)
    requires
        v.bounded(3 * LIMIT),
    ensures
        length_of(v) <= magnitude(v.x as int) + magnitude(v.y as int),
{
    lemma_coordinate_within_length(v);
    let n = norm_sq(v);
    let r = root(n);
    let ax = magnitude(v.x as int);
    let ay = magnitude(v.y as int);
    let a = ax + ay;
    assert(a * a >= n) by (nonlinear_arith)
        requires
            a == ax + ay,
            ax >= 0,
            ay >= 0,
            ax == v.x || ax == -v.x,
            ay == v.y || ay == -v.y,
            n == v.x * v.x + v.y * v.y,
    ;
    assert(r <= a && (r * r != n ==> r + 1 <= a)) by (nonlinear_arith)
        requires
            r >= 0,
            a >= 0,
            r * r <= n,
            n <= a * a,
    ;
}

/// A swing that is more than rounding takes away is a swing, of a vector
/// that has a length, at a speed of eight steps a second or more.
pub proof fn lemma_swing_tells(speed: int, turn: int, a: int)
    requires
        0 <= speed,
        0 <= turn <= FULL_SWING,
        0 <= a,
        speed * turn >= 8 * FULL_SWING,
        turn * a >= 4 * WHOLE,
    ensures
        turn >= 1,
        a >= 1,
        speed >= 8,
{
    assert(turn >= 1 && a >= 1 && speed >= 8) by (nonlinear_arith)
        requires
            turn * a >= 4000,
            speed * turn >= 8_000_000,
            0 <= turn <= 1_000_000,
            a >= 0,
            speed >= 0,
    ;
}

/// A turn registers: a vector swung to one side, then cut to a length, lies
/// on that side of the vector it was swung from, wherever the swing is more
/// than rounding takes away at that length and at the length of the vector.
pub proof fn lemma_turn_registers(u: Vec2, swing: int, speed: int)
    requires
        u.bounded(TAME_SPEED as int),
        magnitude(swing) <= FULL_SWING,
        0 <= speed <= LIMIT / 2,
        speed * magnitude(swing) >= 8 * FULL_SWING,
        magnitude(swing) * (magnitude(u.x as int) + magnitude(u.y as int)) >= 4 * WHOLE,
    ensures
        swing > 0 ==> cross_of(u, with_length_of(swung_of(u, swing), speed)) > 0,
        swing < 0 ==> cross_of(u, with_length_of(swung_of(u, swing), speed)) < 0,
{
    let ax = magnitude(u.x as int);
    let ay = magnitude(u.y as int);
    let a = ax + ay;
    let n = norm_sq(u);
    let turn = magnitude(swing);
    lemma_swing_tells(speed, turn, a);
    assert(a * a <= 2 * n && n >= 1) by (nonlinear_arith)
        requires
            a == ax + ay,
            a >= 1,
            ax >= 0,
            ay >= 0,
            ax == u.x || ax == -u.x,
            ay == u.y || ay == -u.y,
            n == u.x * u.x + u.y * u.y,
    ;
    // What the swing adds to each coordinate.
    lemma_product_bound(swing, u.x as int, 1_000_000, 1_000_000);
    lemma_product_bound(swing, u.y as int, 1_000_000, 1_000_000);
    let ex = tdiv(swing * u.x, 1000);
    let ey = tdiv(swing * u.y, 1000);
    assert(magnitude(swing * u.x) <= 1000 * ax * 1000 && magnitude(swing * u.y) <= 1000 * ay * 1000)
        by (nonlinear_arith)
        requires
            -1_000_000 <= swing <= 1_000_000,
            -ax <= u.x <= ax,
            -ay <= u.y <= ay,
            magnitude(swing * u.x) == swing * u.x || magnitude(swing * u.x) == -(swing * u.x),
            magnitude(swing * u.y) == swing * u.y || magnitude(swing * u.y) == -(swing * u.y),
    ;
    lemma_tdiv_bound(swing * u.x, 1000, 1000 * ax);
    lemma_tdiv_bound(swing * u.y, 1000, 1000 * ay);
    lemma_tdiv_rest(swing * u.x, 1000);
    lemma_tdiv_rest(swing * u.y, 1000);
    let px = swing * u.x - ex * 1000;
    let py = swing * u.y - ey * 1000;
    let m = swung_of(u, swing);
    let mx = u.x * 1000 - ey;
    let my = u.y * 1000 + ex;
    assert(m.x == mx && m.y == my);
    // The swung vector stands off the vector by the swing, less what
    // rounding takes.
    let k = u.x * my - u.y * mx;
    let taken = u.x * px + u.y * py;
    assert(1000 * k == swing * n - taken) by (nonlinear_arith)
        requires
            k == u.x * my - u.y * mx,
            mx == u.x * 1000 - ey,
            my == u.y * 1000 + ex,
            px == swing * u.x - ex * 1000,
            py == swing * u.y - ey * 1000,
            taken == u.x * px + u.y * py,
            n == u.x * u.x + u.y * u.y,
    ;
    assert(-(1000 * a) < taken < 1000 * a) by (nonlinear_arith)
        requires
            taken == u.x * px + u.y * py,
            -1000 < px < 1000,
            -1000 < py < 1000,
            a == ax + ay,
            -ax <= u.x <= ax,
            -ay <= u.y <= ay,
            a >= 1,
    ;
    assert(2000 * a <= turn * n) by (nonlinear_arith)
        requires
            turn * a >= 4000,
            a * a <= 2 * n,
            a >= 1,
            turn >= 1,
    ;
    assert(speed * (turn * n) >= 8_000_000 * n) by (nonlinear_arith)
        requires
            speed * turn >= 8_000_000,
            n >= 1,
    ;
    assert(swing * n == if swing > 0 {
        turn * n
    } else {
        -(turn * n)
    }) by (nonlinear_arith)
        requires
            swing == turn || swing == -turn,
            swing > 0 ==> swing == turn,
            swing <= 0 ==> swing == -turn,
    ;
    assert(k != 0);
    // The swung vector, and what is left of it at the given length.
    assert(magnitude(mx) + magnitude(my) <= 2000 * a);
    assert(mx != 0 || my != 0) by {
        if mx == 0 && my == 0 {
            assert(k == 0) by (nonlinear_arith)
                requires
                    k == u.x * my - u.y * mx,
                    mx == 0,
                    my == 0,
            ;
        }
    }
    lemma_coordinate_within_length(m);
    lemma_length_within_sum(m);
    lemma_with_length_norm(m, speed);
    let len = length_of(m);
    let t = with_length_of(m, speed);
    let tx = tdiv(mx * speed, len);
    let ty = tdiv(my * speed, len);
    assert(magnitude(mx * speed) <= speed * len && magnitude(my * speed) <= speed * len)
        by (nonlinear_arith)
        requires
            -len <= mx <= len,
            -len <= my <= len,
            speed > 0,
            magnitude(mx * speed) == mx * speed || magnitude(mx * speed) == -(mx * speed),
            magnitude(my * speed) == my * speed || magnitude(my * speed) == -(my * speed),
    ;
    lemma_tdiv_bound(mx * speed, len, speed);
    lemma_tdiv_bound(my * speed, len, speed);
    assert(t.x == tx && t.y == ty);
    lemma_tdiv_rest(mx * speed, len);
    lemma_tdiv_rest(my * speed, len);
    let rx = mx * speed - tx * len;
    let ry = my * speed - ty * len;
    assert(len <= 2000 * a);
    let lost = u.x * ry - u.y * rx;
    assert(-(a * len) < lost < a * len) by (nonlinear_arith)
        requires
            lost == u.x * ry - u.y * rx,
            -len < rx < len,
            -len < ry < len,
            len > 0,
            a == ax + ay,
            -ax <= u.x <= ax,
            -ay <= u.y <= ay,
            a >= 1,
    ;
    assert(a * len <= 4000 * n) by (nonlinear_arith)
        requires
            len <= 2000 * a,
            a * a <= 2 * n,
            a >= 1,
    ;
    let c = cross_of(u, t);
    let txl = tx * len;
    let tyl = ty * len;
    assert(c * len == u.x * tyl - u.y * txl) by (nonlinear_arith)
        requires
            c == u.x * ty - u.y * tx,
            txl == tx * len,
            tyl == ty * len,
    ;
    let mxs = mx * speed;
    let mys = my * speed;
    assert(u.x * tyl - u.y * txl == (u.x * mys - u.y * mxs) - lost) by (nonlinear_arith)
        requires
            tyl == mys - ry,
            txl == mxs - rx,
            lost == u.x * ry - u.y * rx,
    ;
    assert(u.x * mys - u.y * mxs == speed * k) by (nonlinear_arith)
        requires
            mxs == mx * speed,
            mys == my * speed,
            k == u.x * my - u.y * mx,
    ;
    assert(c * len == speed * k - lost);
    if swing > 0 {
        assert(1000 * k >= turn * n - 1000 * a);
        assert(speed * (1000 * k) >= 4_000_000 * n) by (nonlinear_arith)
            requires
                1000 * k >= turn * n - 1000 * a,
                2000 * a <= turn * n,
                speed * (turn * n) >= 8_000_000 * n,
                speed >= 0,
                n >= 1,
        ;
        assert(c > 0) by (nonlinear_arith)
            requires
                c * len == speed * k - lost,
                speed * (1000 * k) >= 4_000_000 * n,
                lost < 4000 * n,
                len > 0,
        ;
    } else {
        assert(1000 * k <= -(turn * n) + 1000 * a);
        assert(speed * (1000 * k) <= -(4_000_000 * n)) by (nonlinear_arith)
            requires
                1000 * k <= -(turn * n) + 1000 * a,
                2000 * a <= turn * n,
                speed * (turn * n) >= 8_000_000 * n,
                speed >= 0,
                n >= 1,
        ;
        assert(c < 0) by (nonlinear_arith)
            requires
                c * len == speed * k - lost,
                speed * (1000 * k) <= -(4_000_000 * n),
                lost > -(4000 * n),
                len > 0,
        ;
    }
}

/// Products of two products may be regrouped.
proof fn lemma_regroup(a: int, p: int, c: int, q: int)
    ensures
        (a * p) * (c * q) == (a * c) * (p * q),
{
    assert((a * p) * (c * q) == (a * c) * (p * q)) by (nonlinear_arith);
}

/// The product of a sum and a difference, term by term.
proof fn lemma_spread(x: int, y: int, z: int, v: int)
    ensures
        (x + y) * (z - v) == x * z - x * v + y * z - y * v,
        (x - y) * (z + v) == x * z + x * v - y * z - y * v,
{
    assert((x + y) * (z - v) == x * z - x * v + y * z - y * v) by (nonlinear_arith);
    assert((x - y) * (z + v) == x * z + x * v - y * z - y * v) by (nonlinear_arith);
}

/// The scalar and vector products of two vectors with a third, combined
/// crosswise, give the vector product of the two times the squared length of
/// the third.
proof fn lemma_lagrange(a: int, b: int, c: int, d: int, p: int, q: int)
    ensures
        (a * p + b * q) * (c * q - d * p) - (a * q - b * p) * (c * p + d * q) == (p * p + q * q) * (
        c * b - d * a),
{
    lemma_spread(a * p, b * q, c * q, d * p);
    lemma_spread(a * q, b * p, c * p, d * q);
    lemma_regroup(a, p, c, q);
    lemma_regroup(a, p, d, p);
    lemma_regroup(b, q, c, q);
    lemma_regroup(b, q, d, p);
    lemma_regroup(a, q, c, p);
    lemma_regroup(a, q, d, q);
    lemma_regroup(b, p, c, p);
    lemma_regroup(b, p, d, q);
    let pq = p * q;
    let pp = p * p;
    let qq = q * q;
    assert(q * p == pq) by (nonlinear_arith)
        requires
            pq == p * q,
    ;
    let ac = a * c;
    let ad = a * d;
    let bc = b * c;
    let bd = b * d;
    assert((pp + qq) * (c * b - d * a) == bc * pp + bc * qq - ad * pp - ad * qq)
        by (nonlinear_arith)
        requires
            bc == b * c,
            ad == a * d,
    ;
}

/// A vector on the same side of `w` as `u`, and on that side of `u` too,
/// points nearer to where `w` points than `u` does.
pub proof fn lemma_turn_is_nearer(u: Vec2, t: Vec2, w: Vec2)
    requires
        w.x != 0 || w.y != 0,
        lies_left(u, w) ==> cross_of(u, t) > 0,
        !lies_left(u, w) ==> cross_of(u, t) < 0,
        !passed(t, u, w),
    ensures
        nearer(t, u, w),
{
    let n = norm_sq(w);
    assert(n >= 1) by (nonlinear_arith)
        requires
            n == w.x * w.x + w.y * w.y,
            w.x != 0 || w.y != 0,
    ;
    let turn = cross_of(u, t);
    let whole = dot_of(t, w) * cross_of(u, w) - cross_of(t, w) * dot_of(u, w);
    lemma_lagrange(t.x as int, t.y as int, u.x as int, u.y as int, w.x as int, w.y as int);
    assert(whole == n * turn);
    if lies_left(u, w) {
        assert(gain_of(t, u, w) == whole);
        assert(n * turn > 0) by (nonlinear_arith)
            requires
                n >= 1,
                turn > 0,
        ;
    } else {
        assert(gain_of(t, u, w) == -whole) by (nonlinear_arith)
            requires
                gain_of(t, u, w) == dot_of(t, w) * (-cross_of(u, w)) - (-cross_of(t, w)) * dot_of(
                    u,
                    w,
                ),
                whole == dot_of(t, w) * cross_of(u, w) - cross_of(t, w) * dot_of(u, w),
        ;
        assert(n * turn < 0) by (nonlinear_arith)
            requires
                n >= 1,
                turn < 0,
        ;
    }
}

/// The vector of a length of two steps or more along `w` points nearer to
/// where `w` points than any vector that points across `w` or away from it.
pub proof fn lemma_behind_is_farther(u: Vec2, w: Vec2, speed: int)
    requires
        w.bounded(2 * LIMIT),
        w.x != 0 || w.y != 0,
        u.x != 0 || u.y != 0,
        dot_of(u, w) <= 0,
        2 <= speed <= LIMIT / 2,
    ensures
        nearer(with_length_of(w, speed), u, w),
{
    lemma_coordinate_within_length(w);
    lemma_length_within_sum(w);
    lemma_with_length_norm(w, speed);
    let len = length_of(w);
    let on = with_length_of(w, speed);
    let ox = tdiv(w.x * speed, len);
    let oy = tdiv(w.y * speed, len);
    assert(magnitude(w.x * speed) <= speed * len && magnitude(w.y * speed) <= speed * len)
        by (nonlinear_arith)
        requires
            -len <= w.x <= len,
            -len <= w.y <= len,
            speed > 0,
            magnitude(w.x * speed) == w.x * speed || magnitude(w.x * speed) == -(w.x * speed),
            magnitude(w.y * speed) == w.y * speed || magnitude(w.y * speed) == -(w.y * speed),
    ;
    lemma_tdiv_bound(w.x * speed, len, speed);
    lemma_tdiv_bound(w.y * speed, len, speed);
    assert(on.x == ox && on.y == oy);
    lemma_tdiv_rest(w.x * speed, len);
    lemma_tdiv_rest(w.y * speed, len);
    // Each coordinate keeps its sign, and the longer one does not vanish.
    let along = dot_of(on, w);
    assert(along > 0) by (nonlinear_arith)
        requires
            along == ox * w.x + oy * w.y,
            -len < w.x * speed - ox * len < len,
            -len < w.y * speed - oy * len < len,
            len > 0,
            speed >= 2,
            len <= magnitude(w.x as int) + magnitude(w.y as int),
            magnitude(w.x as int) == w.x || magnitude(w.x as int) == -w.x,
            magnitude(w.y as int) == w.y || magnitude(w.y as int) == -w.y,
            magnitude(w.x as int) >= 0,
            magnitude(w.y as int) >= 0,
            w.x != 0 || w.y != 0,
    ;
    let off = magnitude(cross_of(u, w));
    let on_off = magnitude(cross_of(on, w));
    let back = dot_of(u, w);
    if off > 0 {
        assert(along * off - on_off * back > 0) by (nonlinear_arith)
            requires
                along > 0,
                off > 0,
                on_off >= 0,
                back <= 0,
        ;
    } else {
        assert(back != 0) by (nonlinear_arith)
            requires
                back == u.x * w.x + u.y * w.y,
                u.x * w.y - u.y * w.x == 0,
                u.x != 0 || u.y != 0,
                w.x != 0 || w.y != 0,
        ;
        if on_off > 0 {
            assert(along * off - on_off * back > 0) by (nonlinear_arith)
                requires
                    off == 0,
                    on_off > 0,
                    back < 0,
            ;
        }
    }
}

} // verus!
