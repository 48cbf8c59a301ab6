//! The player's ship: steering, thrust and drag, the shield and slow-time
//! reserves, the invincibility window, and the trail it leaves.
use crate::consts::{
    ARENA, ENERGY_EPSILON, MAX_SHIELD_TIME, MAX_SLOWMO_TIME, PLAYER_INVINCIBLE_TIME, PLAYER_LIVES,
    SLOW_TIME_FACTOR, SPEED_LIMIT,
};
use crate::controls::Controls;
use crate::cooldown::Cooldown;
use crate::seqs::{lemma_filter_step, lemma_take_all};
use crate::units::{
    FULL_TURN, LIMIT, LONGEST_STEP, UNIT, WHOLE, cosine, cosine_of, in_limit, scaled, scaled_of,
    sine, sine_of, travel, travel_of, wrapped,
};
use crate::vec2::{Vec2, moved_of, stretch_of, unit_of, vec2_of};
use std::collections::VecDeque;
use vstd::prelude::*;

verus! {

/// Angle the ship turns by per clock tick while a turn control is held.
pub const TURN_RATE: i64 = 2;

/// Forward acceleration.
pub const THRUST: i64 = 500_000;

/// Backward acceleration.
pub const REVERSE_THRUST: i64 = 300_000;

/// Backward acceleration under reverse boost.
pub const BOOSTED_REVERSE_THRUST: i64 = 750_000;

/// Share of its velocity the ship keeps each step, in thousandths.
pub const DRAG: i64 = 970;

/// Time a point of the trail lasts.
pub const TRAIL_LIFE: i64 = 500_000;

/// Speed the ship can gain from the recoil of its weapons in one step.
pub const RECOIL_ROOM: i64 = 200_000;

/// Time the reverse-boost glow lasts.
pub const REVERSE_BOOST_TIME: i64 = 500_000;

/// Time a rapid-fire bonus lasts.
pub const RAPID_FIRE_TIME: i64 = 7_000_000;

/// A point the ship has passed through, fading out.
#[derive(Clone, Copy, Debug, PartialEq, Eq, Structural)]
pub struct TrailPoint {
    pub pos: Vec2,
    pub life: i64,
}

/// The player's ship.
pub struct Ship {
    pub pos: Vec2,
    pub vel: Vec2,
    /// Heading, in millionths of a radian, within one turn.
    pub rot: i64,
    /// The vector of length one unit along the heading.
    pub dir: Vec2,
    pub lives: i32,
    pub invincible_timer: Cooldown,
    pub shield_energy: Cooldown,
    pub shield_active: bool,
    pub slowmo_energy: Cooldown,
    pub slowmo_active: bool,
    pub is_slowmo_available: bool,
    pub rapid_fire_timer: Cooldown,
    pub reverse_boost_timer: Cooldown,
    pub trail: VecDeque<TrailPoint>,
}

/// A playing field of positive width and height within the arena.
pub open spec fn valid_screen(screen: Vec2) -> bool {
    0 < screen.x <= ARENA && 0 < screen.y <= ARENA
}

/// Whether the field has a positive width and height within the arena.
pub fn is_valid_screen(screen: Vec2) -> (r: bool)
    ensures
        r == valid_screen(screen),
{
    0 < screen.x && screen.x <= ARENA && 0 < screen.y && screen.y <= ARENA
}

/// The unit vector along the heading `rot`.
pub open spec fn heading_of(rot: int) -> Vec2 {
    unit_of(vec2_of(cosine_of(rot), sine_of(rot)))
}

/// The trail point `t` after `dt` clock ticks.
pub open spec fn faded(t: TrailPoint, dt: int) -> TrailPoint {
    TrailPoint { pos: t.pos, life: (t.life - dt) as i64 }
}

/// The trail after the ship has passed through `pos` and `dt` clock ticks
/// have gone by: the new point is added, every point fades, and those that
/// have faded out are dropped.
pub open spec fn trail_after(trail: Seq<TrailPoint>, pos: Vec2, dt: int) -> Seq<TrailPoint> {
    trail.push(TrailPoint { pos, life: TRAIL_LIFE }).map_values(|t: TrailPoint| faded(t, dt)).filter(
        |t: TrailPoint| t.life > 0,
    )
}

/// Every point of the trail has a bounded remaining life.
pub open spec fn trail_wf(trail: Seq<TrailPoint>) -> bool {
    forall|i: int| 0 <= i < trail.len() ==> in_limit(#[trigger] trail[i].life as int)
}

/// The unit vector along the heading `rot`.
pub fn heading(rot: i64) -> (d: Vec2)
    requires
        0 <= rot < FULL_TURN,
    ensures
        d == heading_of(rot as int),
        d.bounded(UNIT as int),
{
    let raw = Vec2 { x: cosine(rot), y: sine(rot) };
    raw.normalized()
}

impl Ship {
    /// Every stored quantity is within the limits the arithmetic needs.
    pub open spec fn wf(self) -> bool {
        &&& self.pos.bounded(LIMIT / 2)
        &&& self.vel.bounded(SPEED_LIMIT as int)
        &&& 0 <= self.rot < FULL_TURN
        &&& self.dir.bounded(UNIT as int)
        &&& self.invincible_timer.wf()
        &&& self.shield_energy.wf()
        &&& self.slowmo_energy.wf()
        &&& self.rapid_fire_timer.wf()
        &&& self.reverse_boost_timer.wf()
        &&& trail_wf(self.trail@)
    }

    /// The ship is slow enough to take the recoil of all its weapons.
    pub open spec fn cruising(self) -> bool {
        self.vel.bounded(SPEED_LIMIT - RECOIL_ROOM)
    }

    /// Whether the shield comes up this step.
    pub open spec fn shield_engaged(self, c: Controls) -> bool {
        c.shield && self.shield_energy.time > ENERGY_EPSILON
    }

    /// Whether slow-time comes on this step.
    pub open spec fn slowmo_engaged(self, c: Controls) -> bool {
        c.slowmo && self.slowmo_energy.time > ENERGY_EPSILON && self.is_slowmo_available
    }

    /// The slow-time reserve after this step: drained at two and a half
    /// times real time while on, refilled at two fifths of it while off.
    pub open spec fn slowmo_energy_after(self, dt: int, c: Controls) -> Cooldown {
        if self.slowmo_engaged(c) {
            self.slowmo_energy.ticked(scaled_of(dt, 5, 2))
        } else if self.slowmo_energy.time < self.slowmo_energy.max {
            self.slowmo_energy.increased(scaled_of(dt, 2, 5))
        } else {
            self.slowmo_energy
        }
    }

    /// Whether slow-time may be switched on after this step: lost when the
    /// reserve runs dry, regained when it is back at nine tenths.
    pub open spec fn slowmo_available_after(self, dt: int, c: Controls) -> bool {
        let after = self.slowmo_energy_after(dt, c);
        if self.slowmo_engaged(c) {
            if after.time <= 0 {
                false
            } else {
                self.is_slowmo_available
            }
        } else if self.slowmo_energy.time < self.slowmo_energy.max {
            if after.time >= scaled_of(self.slowmo_energy.max as int, 9, 10) {
                true
            } else {
                self.is_slowmo_available
            }
        } else {
            self.is_slowmo_available
        }
    }

    /// The ship after its timers and reserves have advanced by `dt`.
    pub open spec fn energized(self, dt: int, c: Controls) -> Ship {
        Ship {
            invincible_timer: self.invincible_timer.ticked(dt),
            rapid_fire_timer: self.rapid_fire_timer.ticked(dt),
            reverse_boost_timer: self.reverse_boost_timer.ticked(dt),
            shield_active: self.shield_engaged(c),
            shield_energy: if self.shield_engaged(c) {
                self.shield_energy.ticked(scaled_of(dt, 3, 2))
            } else {
                self.shield_energy.increased(scaled_of(dt, 3, 5))
            },
            slowmo_active: self.slowmo_engaged(c),
            slowmo_energy: self.slowmo_energy_after(dt, c),
            is_slowmo_available: self.slowmo_available_after(dt, c),
            ..self
        }
    }

    /// The heading after the turn controls have acted for `dt`.
    pub open spec fn rot_after(self, dt: int, c: Controls) -> int {
        (self.rot - (if c.left {
            TURN_RATE * dt
        } else {
            0
        }) + (if c.right {
            TURN_RATE * dt
        } else {
            0
        })) % (FULL_TURN as int)
    }

    /// Whether the reverse boost acts: its control is held and the shield is
    /// down.
    pub open spec fn boosting(self, c: Controls) -> bool {
        c.reverse_boost && !self.shield_active
    }

    /// The acceleration along the heading: backward thrust wins over forward
    /// thrust, and is amplified under reverse boost.
    pub open spec fn thrust_of(self, c: Controls) -> int {
        if c.down {
            if self.boosting(c) {
                -BOOSTED_REVERSE_THRUST
            } else {
                -REVERSE_THRUST
            }
        } else if c.up {
            THRUST as int
        } else {
            0
        }
    }

    /// The velocity after thrust has acted for `dt` and drag has taken its
    /// share.
    pub open spec fn vel_after(self, dt: int, c: Controls) -> Vec2 {
        let dir = heading_of(self.rot_after(dt, c));
        let push = stretch_of(dir, self.thrust_of(c), UNIT as int);
        let sped = vec2_of(
            self.vel.x + travel_of(push.x as int, dt),
            self.vel.y + travel_of(push.y as int, dt),
        );
        stretch_of(sped, DRAG as int, WHOLE as int)
    }

    /// The position after the step: carried along by the new velocity for
    /// `dt`, then wrapped round the edges of the field.
    pub open spec fn pos_after(self, dt: int, c: Controls, screen: Vec2) -> Vec2 {
        let flown = moved_of(self.pos, self.vel_after(dt, c), dt);
        vec2_of((flown.x as int) % (screen.x as int), (flown.y as int) % (screen.y as int))
    }

    /// The ship after the movement controls have acted for `dt`.
    pub open spec fn steered(self, dt: int, c: Controls, screen: Vec2) -> Ship {
        Ship {
            rot: self.rot_after(dt, c) as i64,
            dir: heading_of(self.rot_after(dt, c)),
            reverse_boost_timer: if self.boosting(c) {
                self.reverse_boost_timer.wound()
            } else {
                self.reverse_boost_timer
            },
            vel: self.vel_after(dt, c),
            pos: self.pos_after(dt, c, screen),
            ..self
        }
    }

    /// The ship at rest in the middle of the field, heading right, with three
    /// lives, full reserves and no trail.
    pub open spec fn is_fresh(self, screen: Vec2) -> bool {
        &&& self.pos == vec2_of(screen.x / 2, screen.y / 2)
        &&& self.vel == vec2_of(0, 0)
        &&& self.rot == 0
        &&& self.dir == vec2_of(UNIT as int, 0)
        &&& self.lives == PLAYER_LIVES
        &&& self.invincible_timer == Cooldown { time: 0, max: PLAYER_INVINCIBLE_TIME }
        &&& self.shield_energy == Cooldown { time: MAX_SHIELD_TIME, max: MAX_SHIELD_TIME }
        &&& !self.shield_active
        &&& self.slowmo_energy == Cooldown { time: MAX_SLOWMO_TIME, max: MAX_SLOWMO_TIME }
        &&& !self.slowmo_active
        &&& self.is_slowmo_available
        &&& self.rapid_fire_timer == Cooldown { time: 0, max: RAPID_FIRE_TIME }
        &&& self.reverse_boost_timer == Cooldown { time: 0, max: REVERSE_BOOST_TIME }
        &&& self.trail@.len() == 0
    }

    /// Whether a hit would cost a life: the invincibility window is closed
    /// and the shield is down.
    pub open spec fn vulnerable(self) -> bool {
        self.invincible_timer.is_ready() && !self.shield_active
    }

    /// The ship after a damaging hit: one life fewer, and invincible for a
    /// while.
    pub open spec fn hurt(self) -> Ship {
        Ship {
            lives: (self.lives - 1) as i32,
            invincible_timer: self.invincible_timer.wound(),
            ..self
        }
    }

    /// The ship at rest in the middle of the field, heading right, with full
    /// reserves.
    pub fn new(screen: Vec2) -> (s: Ship)
        requires
            valid_screen(screen),
        ensures
            s.wf(),
            s.is_fresh(screen),
    {
        Ship {
            pos: Vec2 { x: screen.x / 2, y: screen.y / 2 },
            vel: Vec2 { x: 0, y: 0 },
            rot: 0,
            dir: Vec2 { x: UNIT, y: 0 },
            lives: PLAYER_LIVES,
            invincible_timer: Cooldown::new(PLAYER_INVINCIBLE_TIME),
            shield_energy: Cooldown::full(MAX_SHIELD_TIME),
            shield_active: false,
            slowmo_energy: Cooldown::full(MAX_SLOWMO_TIME),
            slowmo_active: false,
            is_slowmo_available: true,
            rapid_fire_timer: Cooldown::new(RAPID_FIRE_TIME),
            reverse_boost_timer: Cooldown::new(REVERSE_BOOST_TIME),
            trail: VecDeque::new(),
        }
    }

    /// Takes a life unless the ship is invincible or shielded; tells whether
    /// it did.
    pub fn take_damage(&mut self) -> (hurt: bool)
        requires
            old(self).lives > i32::MIN,
        ensures
            hurt == old(self).vulnerable(),
            hurt ==> *final(self) == old(self).hurt(),
            !hurt ==> *final(self) == *old(self),
    {
        if self.invincible_timer.ready() && !self.shield_active {
            self.lives = self.lives - 1;
            self.invincible_timer.reset();
            true
        } else {
            false
        }
    }

    /// The ship `other`, with this ship's trail.
    pub open spec fn with_trail_of(self, other: Ship) -> Ship {
        Ship { trail: other.trail, ..self }
    }

    /// Advances the ship by `dt` clock ticks under the given controls, on a
    /// field of the given size, and returns its heading.
    pub fn update(&mut self, dt: i64, controls: &Controls, screen: Vec2) -> (dir: Vec2)
        requires
            old(self).wf(),
            0 <= dt <= LONGEST_STEP,
            valid_screen(screen),
        ensures
            final(self).wf(),
            *final(self) == old(self).energized(dt as int, *controls).steered(
                dt as int,
                *controls,
                screen,
            ).with_trail_of(*final(self)),
            final(self).trail@ == trail_after(old(self).trail@, final(self).pos, dt as int),
            dir == final(self).dir,
            0 <= final(self).pos.x < screen.x,
            0 <= final(self).pos.y < screen.y,
            final(self).lives == old(self).lives,
            final(self).cruising(),
    {
        self.invincible_timer.tick(dt);
        self.rapid_fire_timer.tick(dt);
        self.reverse_boost_timer.tick(dt);

        self.shield_active = controls.shield && self.shield_energy.time > ENERGY_EPSILON;
        if self.shield_active {
            self.shield_energy.tick(scaled(dt, 3, 2));
        } else {
            self.shield_energy.increase(scaled(dt, 3, 5));
        }

        self.slowmo_active = controls.slowmo && self.slowmo_energy.time > ENERGY_EPSILON
            && self.is_slowmo_available;
        if self.slowmo_active {
            self.slowmo_energy.tick(scaled(dt, 5, 2));
            if self.slowmo_energy.time <= 0 {
                self.is_slowmo_available = false;
            }
        } else if self.slowmo_energy.time < self.slowmo_energy.max {
            self.slowmo_energy.increase(scaled(dt, 2, 5));
            if self.slowmo_energy.time >= scaled(self.slowmo_energy.max, 9, 10) {
                self.is_slowmo_available = true;
            }
        }

        self.handle_input(dt, controls, screen);
        self.update_trail(dt);
        self.dir
    }

    /// Turns, accelerates, slows and moves the ship, and wraps it round the
    /// edges of the field.
    pub fn handle_input(&mut self, dt: i64, controls: &Controls, screen: Vec2)
        requires
            old(self).wf(),
            0 <= dt <= LONGEST_STEP,
            valid_screen(screen),
        ensures
            final(self).wf(),
            *final(self) == old(self).steered(dt as int, *controls, screen),
            0 <= final(self).pos.x < screen.x,
            0 <= final(self).pos.y < screen.y,
            final(self).cruising(),
    {
        let mut turn: i64 = self.rot;
        if controls.left {
            turn = turn - TURN_RATE * dt;
        }
        if controls.right {
            turn = turn + TURN_RATE * dt;
        }
        self.rot = wrapped(turn, FULL_TURN);
        self.dir = heading(self.rot);

        let boosting: bool = controls.reverse_boost && !self.shield_active;
        if boosting {
            self.reverse_boost_timer.reset();
        }
        let thrust: i64 = if controls.down {
            if boosting {
                -BOOSTED_REVERSE_THRUST
            } else {
                -REVERSE_THRUST
            }
        } else if controls.up {
            THRUST
        } else {
            0
        };
        let push: Vec2 = self.dir.stretch(thrust, UNIT);
        let gain: Vec2 = Vec2 { x: travel(push.x, dt), y: travel(push.y, dt) };
        let sped: Vec2 = Vec2 { x: self.vel.x + gain.x, y: self.vel.y + gain.y };
        self.vel = sped.stretch(DRAG, WHOLE);
        let flown: Vec2 = self.pos.moved(self.vel, dt);
        self.pos = Vec2 { x: wrapped(flown.x, screen.x), y: wrapped(flown.y, screen.y) };
    }

    /// Adds the ship's position to its trail, fades every point by `dt` and
    /// drops those that have faded out.
    pub fn update_trail(&mut self, dt: i64)
        requires
            old(self).wf(),
            0 <= dt <= LIMIT,
        ensures
            final(self).wf(),
            *final(self) == old(self).with_trail_of(*final(self)),
            final(self).trail@ == trail_after(old(self).trail@, old(self).pos, dt as int),
            old(self).cruising() ==> final(self).cruising(),
    {
        self.trail.push_back(TrailPoint { pos: self.pos, life: TRAIL_LIFE });
        let ghost all = self.trail@.map_values(|t: TrailPoint| faded(t, dt as int));
        let ghost keep = |t: TrailPoint| t.life > 0;
        let mut kept: VecDeque<TrailPoint> = VecDeque::new();
        let n: usize = self.trail.len();
        let mut i: usize = 0;
        while i < n
            invariant
                0 <= i <= n,
                n == self.trail@.len(),
                all.len() == n,
                0 <= dt <= LIMIT,
                trail_wf(self.trail@),
                trail_wf(kept@),
                forall|j: int| 0 <= j < n ==> all[j] == faded(#[trigger] self.trail@[j], dt as int),
                keep == |t: TrailPoint| t.life > 0,
                kept@ == all.take(i as int).filter(keep),
            decreases n - i,
        {
            let point: TrailPoint = self.trail[i];
            let aged: TrailPoint = TrailPoint { pos: point.pos, life: point.life - dt };
            proof {
                lemma_filter_step(all, keep, i as int);
            }
            if aged.life > 0 {
                kept.push_back(aged);
            }
            i = i + 1;
        }
        proof {
            lemma_take_all(all);
        }
        self.trail = kept;
    }

    /// Whether the invincibility window is open.
    pub fn is_invincible(&self) -> (r: bool)
        ensures
            r == !self.invincible_timer.is_ready(),
    {
        !self.invincible_timer.ready()
    }

    /// The factor by which time runs, in thousandths.
    pub open spec fn slow_time_factor(self) -> int {
        if self.slowmo_active {
            SLOW_TIME_FACTOR as int
        } else {
            WHOLE as int
        }
    }

    /// The time that passes in the simulation while `raw` clock ticks pass
    /// outside it: all of it, or three tenths while slow-time is on.
    pub fn dilate(&self, raw: i64) -> (dt: i64)
        requires
            0 <= raw <= LIMIT,
        ensures
            self.slowmo_active ==> dt == scaled_of(
                raw as int,
                SLOW_TIME_FACTOR as int,
                WHOLE as int,
            ),
            !self.slowmo_active ==> dt == raw,
            0 <= dt <= raw,
    {
        if self.slowmo_active {
            scaled(raw, SLOW_TIME_FACTOR, WHOLE)
        } else {
            raw
        }
    }

    /// The factor by which time runs, in thousandths: three tenths while
    /// slow-time is on, one otherwise.
    pub fn get_slow_time_factor(&self) -> (f: i64)
        ensures
            f == self.slow_time_factor(),
    {
        if self.slowmo_active {
            SLOW_TIME_FACTOR
        } else {
            WHOLE
        }
    }
}

} // verus!
