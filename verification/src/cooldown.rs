//! The countdown that every timed ability runs on.
use crate::units::{LIMIT, WHOLE, in_limit, scaled, scaled_of};
use vstd::prelude::*;

verus! {

/// A countdown with a maximum: `time` clock ticks remain of at most `max`.
#[derive(Clone, Copy, Debug, PartialEq, Eq, Structural)]
pub struct Cooldown {
    pub time: i64,
    pub max: i64,
}

/// The larger of two numbers.
pub open spec fn larger(a: int, b: int) -> int {
    if a >= b {
        a
    } else {
        b
    }
}

/// The smaller of two numbers.
pub open spec fn smaller(a: int, b: int) -> int {
    if a <= b {
        a
    } else {
        b
    }
}

impl Cooldown {
    /// The remaining time lies between zero and the maximum.
    pub open spec fn wf(self) -> bool {
        0 <= self.time <= self.max <= LIMIT
    }

    /// Whether the countdown has run out.
    pub open spec fn is_ready(self) -> bool {
        self.time <= 0
    }

    /// The countdown after `dt` clock ticks.
    pub open spec fn ticked(self, dt: int) -> Cooldown {
        Cooldown { time: larger(self.time - dt, 0) as i64, max: self.max }
    }

    /// The countdown after `amount` clock ticks were given back.
    pub open spec fn increased(self, amount: int) -> Cooldown {
        Cooldown { time: smaller(self.time + amount, self.max as int) as i64, max: self.max }
    }

    /// The countdown wound up to its maximum.
    pub open spec fn wound(self) -> Cooldown {
        Cooldown { time: self.max, max: self.max }
    }

    /// A countdown that has run out.
    pub fn new(max: i64) -> (c: Cooldown)
        ensures
            c.time == 0,
            c.max == max,
    {
        Cooldown { time: 0, max }
    }

    /// A countdown at its maximum.
    pub fn full(max: i64) -> (c: Cooldown)
        ensures
            c.time == max,
            c.max == max,
    {
        Cooldown { time: max, max }
    }

    /// Lets `dt` clock ticks pass; the remaining time stops at zero.
    pub fn tick(&mut self, dt: i64)
        requires
            old(self).time - dt <= i64::MAX,
        ensures
            *final(self) == old(self).ticked(dt as int),
            final(self).time == larger(old(self).time - dt, 0),
            final(self).max == old(self).max,
            final(self).time >= 0,
            dt >= 0 ==> final(self).time <= larger(old(self).time as int, 0),
            old(self).wf() && dt >= 0 ==> final(self).wf(),
    {
        let left: i128 = self.time as i128 - dt as i128;
        if left <= 0 {
            self.time = 0;
        } else {
            self.time = left as i64;
        }
    }

    /// Gives `amount` clock ticks back; the remaining time stops at the
    /// maximum.
    pub fn increase(&mut self, amount: i64)
        requires
            old(self).time + amount >= i64::MIN,
        ensures
            *final(self) == old(self).increased(amount as int),
            final(self).time == smaller(old(self).time + amount, old(self).max as int),
            final(self).max == old(self).max,
            final(self).time <= final(self).max,
            old(self).wf() && amount >= 0 ==> final(self).wf(),
    {
        let sum: i128 = self.time as i128 + amount as i128;
        if sum >= self.max as i128 {
            self.time = self.max;
        } else {
            self.time = sum as i64;
        }
    }

    /// Whether the countdown has run out.
    pub fn ready(&self) -> (r: bool)
        ensures
            r == self.is_ready(),
            r == (self.time <= 0),
    {
        self.time <= 0
    }

    /// Winds the countdown up to its maximum.
    pub fn reset(&mut self)
        ensures
            *final(self) == old(self).wound(),
            final(self).time == old(self).max,
            final(self).max == old(self).max,
            final(self).time <= final(self).max,
    {
        self.time = self.max;
    }

    /// Sets the remaining time to `value`, or to zero where `value` is
    /// negative.
    pub fn set(&mut self, value: i64)
        ensures
            final(self).time == larger(value as int, 0),
            final(self).max == old(self).max,
            final(self).time >= 0,
    {
        if value < 0 {
            self.time = 0;
        } else {
            self.time = value;
        }
    }

    /// The remaining share of the maximum, in thousandths.
    pub fn percent(&self) -> (r: i64)
        requires
            self.max > 0,
            in_limit(self.time as int),
        ensures
            r == scaled_of(self.time as int, WHOLE as int, self.max as int),
            self.wf() ==> 0 <= r <= WHOLE,
    {
        scaled(self.time, WHOLE, self.max)
    }
}

} // verus!
