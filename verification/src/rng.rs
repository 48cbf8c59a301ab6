//! Random draws.
//!
//! Every draw of the simulation comes from the generator of the windowing
//! crate, through the one trusted function below. What a draw returns is not
//! known in advance, so the contracts of this module promise only the range
//! in which it falls.
use vstd::prelude::*;

verus! {

/// One draw from `macroquad::rand::gen_range` between zero and `high`.
///
/// Not proved: that the draw is at least zero and below `high`. The
/// generator scales a 32-bit draw, divided by two to the 32nd, by `high` in
/// double precision and truncates; for a positive 32-bit `high` that product
/// stays below `high`.
#[verifier::external_body]
fn draw_below(high: i32) -> (r: i32)
    requires
        high > 0,
    ensures
        0 <= r < high,
{
    macroquad::rand::gen_range::<i32>(0, high)
}

/// A draw from zero up to, but not including, `high`.
pub fn draw(high: i32) -> (r: i32)
    requires
        high > 0,
    ensures
        0 <= r < high,
{
    draw_below(high)
}

/// A draw from `low` up to, but not including, `high`.
pub fn uniform(low: i64, high: i64) -> (r: i64)
    requires
        low < high,
        high - low <= i32::MAX,
    ensures
        low <= r < high,
{
    let span: i32 = (high - low) as i32;
    low + draw(span) as i64
}

/// Whether a draw out of a thousand wins against odds of `per_mille` in a
/// thousand: it does if it is below them.
pub fn wins(drawn: i32, per_mille: i32) -> (r: bool)
    ensures
        r == (drawn < per_mille),
{
    drawn < per_mille
}

/// Whether a draw out of `n` makes the thing happen that happens once in `n`
/// times: it does if it is zero, and the thing always happens where `n` is
/// not positive.
pub fn comes_up(drawn: i32, n: i32) -> (r: bool)
    ensures
        r == (n <= 0 || drawn == 0),
{
    n <= 0 || drawn == 0
}

/// A draw that is true `per_mille` times in a thousand: a draw out of a
/// thousand that wins against these odds.
pub fn chance(per_mille: i32) -> (r: bool)
    ensures
        per_mille <= 0 ==> !r,
        per_mille >= 1000 ==> r,
{
    wins(draw(1000), per_mille)
}

/// A draw that is true once in `n` times, and always where `n` is not
/// positive: a draw out of `n` that comes up.
pub fn one_in(n: i32) -> (r: bool)
    ensures
        n <= 1 ==> r,
{
    if n <= 0 {
        comes_up(0, n)
    } else {
        comes_up(draw(n), n)
    }
}

} // verus!
