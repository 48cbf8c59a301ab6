//! What drifts, hunts and falls on the field: asteroids, drones, shots and
//! power-ups.
use crate::consts::{
    ASTEROID_MIN_RADIUS, FAR_MARGIN, HOME, MAX_LIVES, NEAR_MARGIN, REACH, SPEED_LIMIT, STRIDE,
    TAME_SPEED,
};
use crate::cooldown::{Cooldown, smaller};
use crate::events::Color;
use crate::rng::uniform;
use crate::ship::Ship;
use crate::units::{
    FULL_TURN, LIMIT, LONGEST_STEP, SECOND, STEP_SECONDS, WHOLE, in_limit, lemma_product_bound,
    lemma_tdiv_bound, scaled, scaled_of, travel, travel_of, wrapped,
};
use crate::vec2::{Vec2, diff_of, moved_of, stretch_of, sum_of, vec2_of, with_length_of};
use crate::weapons::WeaponSystem;
use vstd::prelude::*;

verus! {

/// Difficulty beyond which enemies get no faster, in thousandths.
pub const DIFFICULTY_CAP: i64 = 3000;

/// Speed a kamikaze drone steers towards.
pub const KAMIKAZE_SPEED: i64 = 40_000;

/// Speed at which a sniper drone sinks.
pub const SNIPER_SINK: i64 = 20_000;

/// Speed at which a bomber drone closes in sideways.
pub const BOMBER_SLIDE: i64 = 80_000;

/// Speed at which a bomber drone sinks.
pub const BOMBER_SINK: i64 = 30_000;

/// Time between two shots of a sniper drone.
pub const SNIPER_RELOAD: i64 = 2_500_000;

/// Time between two bombs of a bomber drone.
pub const BOMBER_RELOAD: i64 = 3_000_000;

/// Speed of a sniper's shot.
pub const SNIPER_SHOT_SPEED: i64 = 400_000;

/// Speed of a bomb.
pub const BOMB_SPEED: i64 = 150_000;

/// Time a hostile shot lasts.
pub const HOSTILE_SHOT_LIFE: i64 = 3_000_000;

/// Time a power-up lasts.
pub const POWERUP_LIFE: i64 = 10_000_000;

/// Downward acceleration of a power-up.
pub const POWERUP_GRAVITY: i64 = 50_000;

/// Largest sideways or upward speed a power-up starts with.
pub const POWERUP_DRIFT: i64 = 30_000;

/// A rock. Its radius is its health.
#[derive(Clone, Copy, Debug, PartialEq, Eq, Structural)]
pub struct Asteroid {
    pub pos: Vec2,
    pub vel: Vec2,
    pub radius: i64,
    /// Angle of rotation, in millionths of a radian, within one turn.
    pub rotation: i64,
    /// Angle turned per second, in millionths of a radian.
    pub rotation_speed: i64,
}

/// How a drone behaves.
#[derive(Clone, Copy, Debug, PartialEq, Eq, Structural)]
pub enum DroneType {
    /// Sinks slowly and fires aimed shots.
    Sniper,
    /// Chases the ship.
    Kamikaze,
    /// Slides over the ship and drops bombs.
    Bomber,
}

/// A hostile drone.
#[derive(Clone, Copy, Debug, PartialEq, Eq, Structural)]
pub struct Drone {
    pub pos: Vec2,
    pub vel: Vec2,
    pub cooldown: Cooldown,
    pub kind: DroneType,
    pub hp: i32,
    pub max_hp: i32,
}

/// A shot, the ship's or an enemy's.
#[derive(Clone, Copy, Debug, PartialEq, Eq, Structural)]
pub struct Bullet {
    pub pos: Vec2,
    pub vel: Vec2,
    /// Whether an enemy fired it.
    pub enemy: bool,
    pub size: i64,
    pub life: i64,
}

/// What a power-up gives.
#[derive(Clone, Copy, Debug, PartialEq, Eq, Structural)]
pub enum PowerUpType {
    Shield,
    Life,
    SlowTime,
    RapidFire,
}

/// A bonus that falls down the field.
#[derive(Clone, Copy, Debug, PartialEq, Eq, Structural)]
pub struct PowerUp {
    pub pos: Vec2,
    pub vel: Vec2,
    pub kind: PowerUpType,
    pub life: i64,
}

/// The point `p` lies on the field or within `margin` of it.
pub open spec fn near_field(p: Vec2, screen: Vec2, margin: int) -> bool {
    -margin < p.x < screen.x + margin && -margin < p.y < screen.y + margin
}

/// Whether `p` lies on the field or within `margin` of it.
pub fn is_near_field(p: Vec2, screen: Vec2, margin: i64) -> (r: bool)
    requires
        in_limit(screen.x as int),
        in_limit(screen.y as int),
        in_limit(margin as int),
    ensures
        r == near_field(p, screen, margin as int),
{
    p.y > -margin && p.y < screen.y + margin && p.x > -margin && p.x < screen.x + margin
}

impl Asteroid {
    /// Every stored quantity is within the limits the arithmetic needs.
    pub open spec fn wf(self) -> bool {
        &&& self.pos.bounded(LIMIT as int)
        &&& self.vel.bounded(SPEED_LIMIT as int)
        &&& in_limit(self.radius as int)
        &&& 0 <= self.rotation < FULL_TURN
        &&& in_limit(self.rotation_speed as int)
    }

    /// The asteroid is where an asteroid can be at the end of a step, and
    /// no faster than anything gets.
    pub open spec fn settled(self) -> bool {
        self.wf() && self.pos.bounded(HOME as int) && self.vel.bounded(TAME_SPEED as int)
    }

    /// The asteroid is where an asteroid can be in the course of a step, and
    /// no faster than anything gets.
    pub open spec fn astray(self) -> bool {
        self.wf() && self.pos.bounded(REACH as int) && self.vel.bounded(TAME_SPEED as int)
    }

    /// The asteroid has radius left to lose.
    pub open spec fn intact(self) -> bool {
        self.radius > ASTEROID_MIN_RADIUS
    }

    /// The asteroid is intact and on or near the field.
    pub open spec fn alive(self, screen: Vec2) -> bool {
        self.intact() && near_field(self.pos, screen, FAR_MARGIN as int)
    }

    /// The asteroid after `dt` clock ticks of drift and spin.
    pub open spec fn stepped(self, dt: int) -> Asteroid {
        Asteroid {
            pos: moved_of(self.pos, self.vel, dt),
            rotation: ((self.rotation + travel_of(self.rotation_speed as int, dt)) % (
            FULL_TURN as int)) as i64,
            ..self
        }
    }

    /// The asteroid with `damage` taken off its radius.
    pub open spec fn damaged(self, damage: int) -> Asteroid {
        Asteroid { radius: (self.radius - damage) as i64, ..self }
    }

    /// The asteroid that enters at `pos` with sideways speed `drift`, a fall
    /// speed of `fall` scaled by the difficulty up to its cap, and the given
    /// radius and spin.
    pub open spec fn launched_of(
        pos: Vec2,
        difficulty: int,
        drift: int,
        fall: int,
        radius: int,
        spin: int,
    ) -> Asteroid {
        Asteroid {
            pos,
            vel: vec2_of(
                drift,
                scaled_of(fall, smaller(difficulty, DIFFICULTY_CAP as int), WHOLE as int),
            ),
            radius: radius as i64,
            rotation: 0,
            rotation_speed: spin as i64,
        }
    }

    /// The draws that `new` makes fall in these ranges.
    pub open spec fn launch_ranges(drift: int, fall: int, radius: int, spin: int) -> bool {
        &&& -50_000 <= drift < 50_000
        &&& 50_000 <= fall < 150_000
        &&& 15_000 <= radius < 35_000
        &&& -2_000_000 <= spin < 2_000_000
    }

    /// The asteroid that enters at `pos` with the given draws.
    pub fn launched(
        pos: Vec2,
        difficulty: i64,
        drift: i64,
        fall: i64,
        radius: i64,
        spin: i64,
    ) -> (a: Asteroid)
        requires
            0 <= difficulty,
            in_limit(fall as int),
        ensures
            a == Asteroid::launched_of(
                pos,
                difficulty as int,
                drift as int,
                fall as int,
                radius as int,
                spin as int,
            ),
            Asteroid::launch_ranges(drift as int, fall as int, radius as int, spin as int)
                ==> a.intact() && 0 <= a.vel.y < 450_000 && -50_000 <= a.vel.x < 50_000,
            Asteroid::launch_ranges(drift as int, fall as int, radius as int, spin as int)
                && pos.bounded(LIMIT as int) ==> a.wf(),
    {
        let factor: i64 = if difficulty < DIFFICULTY_CAP {
            difficulty
        } else {
            DIFFICULTY_CAP
        };
        let vy: i64 = scaled(fall, factor, WHOLE);
        proof {
            if Asteroid::launch_ranges(drift as int, fall as int, radius as int, spin as int) {
                lemma_product_bound(fall as int, factor as int, 149_999, 3000);
            }
        }
        Asteroid { pos, vel: Vec2 { x: drift, y: vy }, radius, rotation: 0, rotation_speed: spin }
    }

    /// A new asteroid at `pos`, with a drawn drift, fall speed, radius and
    /// spin.
    pub fn new(pos: Vec2, difficulty: i64) -> (a: Asteroid)
        requires
            0 <= difficulty,
        ensures
            exists|drift: int, fall: int, radius: int, spin: int|
                Asteroid::launch_ranges(drift, fall, radius, spin)
                    && a == #[trigger] Asteroid::launched_of(
                    pos,
                    difficulty as int,
                    drift,
                    fall,
                    radius,
                    spin,
                ),
            a.pos == pos,
            a.intact(),
            pos.bounded(LIMIT as int) ==> a.wf(),
            a.vel.bounded(TAME_SPEED as int),
    {
        let drift: i64 = uniform(-50_000, 50_000);
        let fall: i64 = uniform(50_000, 150_000);
        let radius: i64 = uniform(15_000, 35_000);
        let spin: i64 = uniform(-2_000_000, 2_000_000);
        Asteroid::launched(pos, difficulty, drift, fall, radius, spin)
    }

    /// Drifts and spins for `dt` clock ticks.
    pub fn update(&mut self, dt: i64)
        requires
            old(self).wf(),
            0 <= dt <= LIMIT,
        ensures
            *final(self) == old(self).stepped(dt as int),
            final(self).vel == old(self).vel,
            final(self).radius == old(self).radius,
            dt <= SECOND && old(self).pos.bounded(LIMIT - SPEED_LIMIT) ==> final(self).wf(),
            dt <= LONGEST_STEP && old(self).settled() ==> final(self).astray(),
    {
        self.pos = self.pos.moved(self.vel, dt);
        self.rotation = wrapped(self.rotation + travel(self.rotation_speed, dt), FULL_TURN);
    }

    /// Whether the asteroid is intact and on or near the field.
    pub fn is_alive(&self, screen: Vec2) -> (r: bool)
        requires
            in_limit(screen.x as int),
            in_limit(screen.y as int),
        ensures
            r == self.alive(screen),
    {
        self.radius > ASTEROID_MIN_RADIUS && is_near_field(self.pos, screen, FAR_MARGIN)
    }

    /// Takes `damage` off the radius and tells whether that destroyed the
    /// asteroid.
    pub fn take_damage(&mut self, damage: i64) -> (destroyed: bool)
        requires
            in_limit(old(self).radius as int),
            in_limit(damage as int),
        ensures
            *final(self) == old(self).damaged(damage as int),
            destroyed == !final(self).intact(),
            damage >= 0 ==> final(self).radius <= old(self).radius,
    {
        self.radius = self.radius - damage;
        self.radius <= ASTEROID_MIN_RADIUS
    }
}

impl DroneType {
    /// The kind that a draw out of three stands for: one draw for each kind,
    /// so that a fair draw picks each kind as often as the others.
    pub open spec fn of_draw(pick: int) -> DroneType {
        if pick == 0 {
            DroneType::Sniper
        } else if pick == 1 {
            DroneType::Kamikaze
        } else {
            DroneType::Bomber
        }
    }

    /// The kind that the draw `pick` out of three stands for.
    pub fn picked(pick: i64) -> (kind: DroneType)
        ensures
            kind == DroneType::of_draw(pick as int),
    {
        if pick == 0 {
            DroneType::Sniper
        } else if pick == 1 {
            DroneType::Kamikaze
        } else {
            DroneType::Bomber
        }
    }
}

impl Drone {
    /// Every stored quantity is within the limits the arithmetic needs.
    pub open spec fn wf(self) -> bool {
        &&& self.pos.bounded(LIMIT as int)
        &&& self.vel.bounded(SPEED_LIMIT as int)
        &&& self.cooldown.wf()
    }

    /// The drone is where a drone can be at the end of a step, and no
    /// faster than anything gets.
    pub open spec fn settled(self) -> bool {
        &&& self.wf()
        &&& self.pos.bounded(HOME as int)
        &&& self.vel.bounded(TAME_SPEED as int)
        &&& self.hp >= 0
    }

    /// The drone is where a drone can be in the course of a step, and no
    /// faster than anything gets.
    pub open spec fn astray(self) -> bool {
        self.wf() && self.pos.bounded(REACH as int) && self.vel.bounded(TAME_SPEED as int)
    }

    /// The drone has hit points left.
    pub open spec fn intact(self) -> bool {
        self.hp > 0
    }

    /// The drone is intact and on or near the field.
    pub open spec fn alive(self, screen: Vec2) -> bool {
        self.intact() && near_field(self.pos, screen, NEAR_MARGIN as int)
    }

    /// The time a drone of this kind waits before its first shot is due to
    /// be reloaded: two seconds over the difficulty, up to its cap, for a
    /// sniper, three seconds for a bomber, none for a kamikaze.
    pub open spec fn reload_of(kind: DroneType, difficulty: int) -> int {
        match kind {
            DroneType::Sniper => scaled_of(
                2_000_000,
                WHOLE as int,
                smaller(difficulty, DIFFICULTY_CAP as int),
            ),
            DroneType::Bomber => BOMBER_RELOAD as int,
            DroneType::Kamikaze => 0,
        }
    }

    /// The drone of the given kind that enters at `pos` in wave `wave`.
    pub open spec fn of_kind_of(pos: Vec2, difficulty: int, wave: int, kind: DroneType) -> Drone {
        Drone {
            pos,
            vel: vec2_of(0, 0),
            cooldown: Cooldown { time: 0, max: Drone::reload_of(kind, difficulty) as i64 },
            kind,
            hp: (2 + wave / 3) as i32,
            max_hp: (2 + wave / 3) as i32,
        }
    }

    /// The velocity a kamikaze drone has after one step: a tenth of the way
    /// from its old velocity to full speed towards the ship.
    pub open spec fn chase_of(self, ship_pos: Vec2) -> Vec2 {
        let target = with_length_of(diff_of(ship_pos, self.pos), KAMIKAZE_SPEED as int);
        vec2_of(
            self.vel.x + scaled_of(target.x - self.vel.x, 1, 10),
            self.vel.y + scaled_of(target.y - self.vel.y, 1, 10),
        )
    }

    /// The drone after `dt` clock ticks, with the ship at `ship_pos`.
    pub open spec fn stepped(self, dt: int, ship_pos: Vec2) -> Drone {
        let cooldown = self.cooldown.ticked(dt);
        match self.kind {
            DroneType::Kamikaze => Drone {
                cooldown,
                vel: self.chase_of(ship_pos),
                pos: moved_of(self.pos, self.chase_of(ship_pos), dt),
                ..self
            },
            DroneType::Sniper => Drone {
                cooldown,
                pos: vec2_of(self.pos.x as int, self.pos.y + travel_of(SNIPER_SINK as int, dt)),
                ..self
            },
            DroneType::Bomber => Drone {
                cooldown,
                pos: vec2_of(
                    self.pos.x + travel_of(
                        if ship_pos.x >= self.pos.x {
                            BOMBER_SLIDE as int
                        } else {
                            -BOMBER_SLIDE
                        },
                        dt,
                    ),
                    self.pos.y + travel_of(BOMBER_SINK as int, dt),
                ),
                ..self
            },
        }
    }

    /// Whether the drone fires when asked to: its cooldown has run out and
    /// it is no kamikaze.
    pub open spec fn fires(self) -> bool {
        self.cooldown.is_ready() && self.kind != DroneType::Kamikaze
    }

    /// The shot the drone fires at a ship at `ship_pos` moving at `ship_vel`:
    /// a sniper aims where the ship will be three tenths of a second on, a
    /// bomber drops straight down.
    pub open spec fn shot_of(self, ship_pos: Vec2, ship_vel: Vec2) -> Bullet {
        match self.kind {
            DroneType::Sniper => Bullet {
                pos: self.pos,
                vel: with_length_of(
                    diff_of(sum_of(ship_pos, stretch_of(ship_vel, 3, 10)), self.pos),
                    SNIPER_SHOT_SPEED as int,
                ),
                enemy: true,
                size: 4_000,
                life: HOSTILE_SHOT_LIFE,
            },
            _ => Bullet {
                pos: self.pos,
                vel: vec2_of(0, BOMB_SPEED as int),
                enemy: true,
                size: 6_000,
                life: HOSTILE_SHOT_LIFE,
            },
        }
    }

    /// The drone after it has fired: its cooldown is wound up to its reload
    /// time.
    pub open spec fn reloaded(self) -> Drone {
        match self.kind {
            DroneType::Sniper => Drone {
                cooldown: Cooldown { time: SNIPER_RELOAD, max: SNIPER_RELOAD },
                ..self
            },
            DroneType::Bomber => Drone {
                cooldown: Cooldown { time: BOMBER_RELOAD, max: BOMBER_RELOAD },
                ..self
            },
            DroneType::Kamikaze => self,
        }
    }

    /// The drone of the given kind that enters at `pos` in wave `wave`.
    pub fn of_kind(pos: Vec2, difficulty: i64, wave: i32, kind: DroneType) -> (d: Drone)
        requires
            1 <= difficulty,
            0 <= wave,
        ensures
            d == Drone::of_kind_of(pos, difficulty as int, wave as int, kind),
            d.hp == 2 + wave / 3,
            d.intact(),
            pos.bounded(LIMIT as int) && difficulty >= 2 ==> d.wf(),
    {
        let factor: i64 = if difficulty < DIFFICULTY_CAP {
            difficulty
        } else {
            DIFFICULTY_CAP
        };
        let reload: i64 = match kind {
            DroneType::Sniper => {
                proof {
                    lemma_tdiv_bound(
                        2_000_000 * WHOLE,
                        factor as int,
                        if factor >= 2 {
                            1_000_000_000int
                        } else {
                            2_000_000_000int
                        },
                    );
                }
                scaled(2_000_000, WHOLE, factor)
            },
            DroneType::Bomber => BOMBER_RELOAD,
            DroneType::Kamikaze => 0,
        };
        let max_hp: i32 = 2 + wave / 3;
        Drone {
            pos,
            vel: Vec2 { x: 0, y: 0 },
            cooldown: Cooldown::new(reload),
            kind,
            hp: max_hp,
            max_hp,
        }
    }

    /// A new drone of a drawn kind at `pos`.
    pub fn new(pos: Vec2, difficulty: i64, wave: i32) -> (d: Drone)
        requires
            1 <= difficulty,
            0 <= wave,
        ensures
            d == Drone::of_kind_of(pos, difficulty as int, wave as int, d.kind),
            d.intact(),
            pos.bounded(LIMIT as int) && difficulty >= 2 ==> d.wf(),
    {
        let kind: DroneType = DroneType::picked(uniform(0, 3));
        Drone::of_kind(pos, difficulty, wave, kind)
    }

    /// Moves as its kind does for `dt` clock ticks, with the ship at
    /// `ship_pos`.
    pub fn update(&mut self, dt: i64, ship_pos: &Vec2)
        requires
            old(self).wf(),
            ship_pos.bounded(LIMIT as int),
            0 <= dt <= LIMIT,
        ensures
            *final(self) == old(self).stepped(dt as int, *ship_pos),
            final(self).hp == old(self).hp,
            final(self).max_hp == old(self).max_hp,
            final(self).kind == old(self).kind,
            final(self).vel.bounded(SPEED_LIMIT as int),
            final(self).cooldown.wf(),
            dt <= SECOND && old(self).pos.bounded(LIMIT - SPEED_LIMIT) ==> final(self).wf(),
            old(self).vel.bounded(TAME_SPEED as int) ==> final(self).vel.bounded(TAME_SPEED as int),
            dt <= LONGEST_STEP && old(self).pos.bounded(HOME as int) && old(self).vel.bounded(
                TAME_SPEED as int,
            ) ==> final(self).pos.bounded(HOME + STRIDE),
    {
        self.cooldown.tick(dt);
        match self.kind {
            DroneType::Kamikaze => {
                let target: Vec2 = ship_pos.minus(self.pos).with_length(KAMIKAZE_SPEED);
                self.vel = self.vel.lerp(target, 1, 10);
                self.pos = self.pos.moved(self.vel, dt);
            },
            DroneType::Sniper => {
                self.pos.y = self.pos.y + travel(SNIPER_SINK, dt);
            },
            DroneType::Bomber => {
                let slide: i64 = if ship_pos.x >= self.pos.x {
                    BOMBER_SLIDE
                } else {
                    -BOMBER_SLIDE
                };
                self.pos.x = self.pos.x + travel(slide, dt);
                self.pos.y = self.pos.y + travel(BOMBER_SINK, dt);
            },
        }
    }

    /// Fires at the ship where the cooldown allows it.
    pub fn shoot(&mut self, _dt: i64, ship: &Ship) -> (shot: Option<Bullet>)
        requires
            old(self).wf(),
            ship.wf(),
        ensures
            old(self).fires() ==> shot == Some(old(self).shot_of(ship.pos, ship.vel))
                && *final(self) == old(self).reloaded(),
            !old(self).fires() ==> shot.is_none() && *final(self) == *old(self),
            final(self).wf(),
            shot.is_some() ==> shot.unwrap().wf() && shot.unwrap().pos == old(self).pos,
            shot.is_some() ==> shot.unwrap().vel.bounded(TAME_SPEED as int) && shot.unwrap().life
                == HOSTILE_SHOT_LIFE,
            final(self).pos == old(self).pos,
            final(self).vel == old(self).vel,
            final(self).hp == old(self).hp,
    {
        if self.cooldown.ready() {
            match self.kind {
                DroneType::Sniper => {
                    let lead: Vec2 = ship.pos.plus(ship.vel.stretch(3, 10)).minus(self.pos);
                    let aim: Vec2 = lead.with_length(SNIPER_SHOT_SPEED);
                    self.cooldown = Cooldown::full(SNIPER_RELOAD);
                    Some(
                        Bullet {
                            pos: self.pos,
                            vel: aim,
                            enemy: true,
                            size: 4_000,
                            life: HOSTILE_SHOT_LIFE,
                        },
                    )
                },
                DroneType::Bomber => {
                    self.cooldown = Cooldown::full(BOMBER_RELOAD);
                    Some(
                        Bullet {
                            pos: self.pos,
                            vel: Vec2 { x: 0, y: BOMB_SPEED },
                            enemy: true,
                            size: 6_000,
                            life: HOSTILE_SHOT_LIFE,
                        },
                    )
                },
                DroneType::Kamikaze => None,
            }
        } else {
            None
        }
    }

    /// Whether the drone is intact and on or near the field.
    pub fn is_alive(&self, screen: Vec2) -> (r: bool)
        requires
            in_limit(screen.x as int),
            in_limit(screen.y as int),
        ensures
            r == self.alive(screen),
    {
        self.hp > 0 && is_near_field(self.pos, screen, NEAR_MARGIN)
    }

    /// The share of its hit points the drone has left, in thousandths.
    pub fn health_percent(&self) -> (r: i64)
        requires
            self.max_hp > 0,
            in_limit(self.hp as int),
        ensures
            r == scaled_of(self.hp as int, WHOLE as int, self.max_hp as int),
    {
        scaled(self.hp as i64, WHOLE, self.max_hp as i64)
    }
}

impl Bullet {
    /// Every stored quantity is within the limits the arithmetic needs.
    pub open spec fn wf(self) -> bool {
        &&& self.pos.bounded(LIMIT as int)
        &&& self.vel.bounded(SPEED_LIMIT as int)
        &&& in_limit(self.life as int)
    }

    /// The shot is where a shot can be before it moves: on or near the
    /// field, or where a drone that has just moved has fired it. It is no
    /// faster than anything gets, and has time left.
    pub open spec fn settled(self) -> bool {
        &&& self.wf()
        &&& self.pos.bounded(HOME + STRIDE)
        &&& self.vel.bounded(TAME_SPEED as int)
        &&& self.life >= 0
    }

    /// The shot is where a shot can be in the course of a step, and no
    /// faster than anything gets.
    pub open spec fn astray(self) -> bool {
        self.wf() && self.pos.bounded(REACH as int) && self.vel.bounded(TAME_SPEED as int)
    }

    /// The shot has time left and is on or near the field.
    pub open spec fn alive(self, screen: Vec2) -> bool {
        self.life > 0 && near_field(self.pos, screen, NEAR_MARGIN as int)
    }

    /// The shot after `dt` clock ticks.
    pub open spec fn stepped(self, dt: int) -> Bullet {
        Bullet { pos: moved_of(self.pos, self.vel, dt), life: (self.life - dt) as i64, ..self }
    }

    /// Flies for `dt` clock ticks.
    pub fn update(&mut self, dt: i64)
        requires
            old(self).wf(),
            0 <= dt <= LIMIT,
        ensures
            *final(self) == old(self).stepped(dt as int),
            dt <= SECOND && old(self).pos.bounded(LIMIT - SPEED_LIMIT) && old(self).life >= 0
                ==> final(self).wf(),
            dt <= LONGEST_STEP && old(self).settled() ==> final(self).astray(),
    {
        self.pos = self.pos.moved(self.vel, dt);
        self.life = self.life - dt;
    }

    /// Whether the shot has time left and is on or near the field.
    pub fn is_alive(&self, screen: Vec2) -> (r: bool)
        requires
            in_limit(screen.x as int),
            in_limit(screen.y as int),
        ensures
            r == self.alive(screen),
    {
        self.life > 0 && is_near_field(self.pos, screen, NEAR_MARGIN)
    }
}

impl PowerUpType {
    /// The kind that a draw out of four stands for: one draw for each kind,
    /// so that a fair draw picks each kind as often as the others.
    pub open spec fn of_draw(pick: int) -> PowerUpType {
        if pick == 0 {
            PowerUpType::Shield
        } else if pick == 1 {
            PowerUpType::Life
        } else if pick == 2 {
            PowerUpType::SlowTime
        } else {
            PowerUpType::RapidFire
        }
    }

    /// The kind that the draw `pick` out of four stands for.
    pub fn picked(pick: i64) -> (kind: PowerUpType)
        ensures
            kind == PowerUpType::of_draw(pick as int),
    {
        if pick == 0 {
            PowerUpType::Shield
        } else if pick == 1 {
            PowerUpType::Life
        } else if pick == 2 {
            PowerUpType::SlowTime
        } else {
            PowerUpType::RapidFire
        }
    }
}

impl PowerUp {
    /// Every stored quantity is within the limits the arithmetic needs.
    pub open spec fn wf(self) -> bool {
        &&& self.pos.bounded(LIMIT as int)
        &&& self.vel.bounded(SPEED_LIMIT as int)
        &&& in_limit(self.life as int)
    }

    /// The time this power-up has existed.
    pub open spec fn age(self) -> int {
        POWERUP_LIFE - self.life
    }

    /// The power-up is where one can be in the course of a step: it has
    /// drifted and fallen no further than its age allows.
    pub open spec fn astray(self) -> bool {
        &&& self.wf()
        &&& -LONGEST_STEP <= self.life <= POWERUP_LIFE
        &&& -POWERUP_DRIFT <= self.vel.x <= POWERUP_DRIFT
        &&& -POWERUP_DRIFT <= self.vel.y
        &&& self.vel.y * SECOND <= POWERUP_DRIFT * SECOND + POWERUP_GRAVITY * self.age()
        &&& self.pos.x * SECOND <= REACH * SECOND + POWERUP_DRIFT * self.age()
        &&& self.pos.x * SECOND >= -REACH * SECOND - POWERUP_DRIFT * self.age()
        &&& self.pos.y * SECOND >= -REACH * SECOND - POWERUP_DRIFT * self.age()
        &&& self.pos.y <= REACH + STEP_SECONDS * POWERUP_DRIFT
    }

    /// The power-up is where one can be before it moves: it has time left,
    /// and is either on or above the field, or new.
    pub open spec fn settled(self) -> bool {
        &&& self.astray()
        &&& self.life >= 0
        &&& self.pos.y <= HOME || (self.life == POWERUP_LIFE && self.pos.y <= REACH)
    }

    /// The power-up has time left and has not fallen off the field.
    pub open spec fn alive(self, screen: Vec2) -> bool {
        self.life > 0 && self.pos.y < screen.y + NEAR_MARGIN
    }

    /// The power-up after `dt` clock ticks: it moves at its old velocity,
    /// then gravity adds to its fall.
    pub open spec fn stepped(self, dt: int) -> PowerUp {
        PowerUp {
            pos: moved_of(self.pos, self.vel, dt),
            life: (self.life - dt) as i64,
            vel: vec2_of(self.vel.x as int, self.vel.y + travel_of(POWERUP_GRAVITY as int, dt)),
            ..self
        }
    }

    /// The ship after it has picked up a power-up of the given kind.
    pub open spec fn applied_of(kind: PowerUpType, ship: Ship) -> Ship {
        match kind {
            PowerUpType::Shield => Ship { shield_energy: ship.shield_energy.wound(), ..ship },
            PowerUpType::Life => Ship {
                lives: smaller(ship.lives + 1, MAX_LIVES as int) as i32,
                ..ship
            },
            PowerUpType::SlowTime => Ship { slowmo_energy: ship.slowmo_energy.wound(), ..ship },
            PowerUpType::RapidFire => Ship {
                rapid_fire_timer: ship.rapid_fire_timer.wound(),
                ..ship
            },
        }
    }

    /// The colour a power-up of the given kind is shown in.
    pub open spec fn color_of(kind: PowerUpType) -> Color {
        match kind {
            PowerUpType::Shield => Color::SkyBlue,
            PowerUpType::Life => Color::Green,
            PowerUpType::SlowTime => Color::Purple,
            PowerUpType::RapidFire => Color::Orange,
        }
    }

    /// The power-up of the given kind that appears at `pos` with velocity
    /// `vel` and a full life.
    pub fn of_kind(pos: Vec2, kind: PowerUpType, vel: Vec2) -> (p: PowerUp)
        ensures
            p == (PowerUp { pos, vel, kind, life: POWERUP_LIFE }),
    {
        PowerUp { pos, vel, kind, life: POWERUP_LIFE }
    }

    /// A new power-up of a drawn kind at `pos`, with a drawn drift.
    pub fn new(pos: Vec2) -> (p: PowerUp)
        ensures
            p.pos == pos,
            p.life == POWERUP_LIFE,
            -POWERUP_DRIFT <= p.vel.x < POWERUP_DRIFT,
            -POWERUP_DRIFT <= p.vel.y < POWERUP_DRIFT,
            pos.bounded(LIMIT as int) ==> p.wf(),
            pos.bounded(REACH as int) ==> p.settled(),
    {
        let kind: PowerUpType = PowerUpType::picked(uniform(0, 4));
        let vx: i64 = uniform(-POWERUP_DRIFT, POWERUP_DRIFT);
        let vy: i64 = uniform(-POWERUP_DRIFT, POWERUP_DRIFT);
        PowerUp::of_kind(pos, kind, Vec2 { x: vx, y: vy })
    }

    /// Drifts and falls for `dt` clock ticks.
    pub fn update(&mut self, dt: i64)
        requires
            old(self).wf(),
            0 <= dt <= LIMIT,
        ensures
            *final(self) == old(self).stepped(dt as int),
            dt <= LONGEST_STEP && old(self).settled() ==> final(self).astray(),
    {
        proof {
            if self.settled() {
                lemma_product_bound(self.vel.x as int, dt as int, POWERUP_DRIFT as int, dt as int);
                assert(POWERUP_GRAVITY * dt >= 0 && self.vel.y * dt >= -POWERUP_DRIFT * dt)
                    by (nonlinear_arith)
                    requires
                        dt >= 0,
                        self.vel.y >= -POWERUP_DRIFT,
                ;
            }
        }
        self.pos = self.pos.moved(self.vel, dt);
        self.life = self.life - dt;
        self.vel.y = self.vel.y + travel(POWERUP_GRAVITY, dt);
    }

    /// Whether the power-up has time left and has not fallen off the field.
    pub fn is_alive(&self, screen: Vec2) -> (r: bool)
        requires
            in_limit(screen.y as int),
        ensures
            r == self.alive(screen),
    {
        self.life > 0 && self.pos.y < screen.y + NEAR_MARGIN
    }

    /// Gives the ship what this power-up holds: a full shield reserve, one
    /// more life up to the most it can hold, a full slow-time reserve, or a
    /// full rapid-fire timer.
    pub fn apply(&self, ship: &mut Ship, _weapons: &mut WeaponSystem)
        requires
            old(ship).lives < i32::MAX,
        ensures
            *final(ship) == PowerUp::applied_of(self.kind, *old(ship)),
            *final(_weapons) == *old(_weapons),
            old(ship).wf() ==> final(ship).wf(),
    {
        match self.kind {
            PowerUpType::Shield => {
                ship.shield_energy.reset();
            },
            PowerUpType::Life => {
                ship.lives = if ship.lives + 1 < MAX_LIVES {
                    ship.lives + 1
                } else {
                    MAX_LIVES
                };
            },
            PowerUpType::SlowTime => {
                ship.slowmo_energy.reset();
            },
            PowerUpType::RapidFire => {
                ship.rapid_fire_timer.reset();
            },
        }
    }

    /// The colour this power-up is shown in.
    pub fn color(&self) -> (c: Color)
        ensures
            c == PowerUp::color_of(self.kind),
    {
        match self.kind {
            PowerUpType::Shield => Color::SkyBlue,
            PowerUpType::Life => Color::Green,
            PowerUpType::SlowTime => Color::Purple,
            PowerUpType::RapidFire => Color::Orange,
        }
    }
}

} // verus!
