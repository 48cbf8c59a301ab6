//! The ship's weapons: the base gun, homing missiles and the beam.
use crate::collisions::{
    Field, asteroids_astray, asteroids_wf, drone_damaged, drones_astray, drones_wf, drops_taken,
    explosion_of, find_asteroid, find_drone, first_asteroid, first_drone, maybe_drop,
    powerups_astray, powerups_settled, powerups_wf,
};
use crate::consts::{
    ARENA, ASTEROID_MIN_RADIUS, BLAST_MARGIN, BULLET_COLLISION_RADIUS, BULLET_SPEED, FAR_MARGIN,
    HEAVY_DAMAGE, HOME, KILL_SCORE, LASER_COOLDOWN, LASER_DAMAGE, LASER_DURATION,
    LASER_MAX_PENETRATION, LASER_RANGE, MISSILE_AMMO_MAX, MISSILE_ASTEROID_SCORE,
    MISSILE_COOLDOWN_MAX, MISSILE_DAMAGE, MISSILE_DRONE_SCORE, MISSILE_LIFE, MISSILE_REGEN_TIME,
    MISSILE_SPEED, MISSILE_TURN_SPEED, REACH, SHOT_DAMAGE, SPEED_LIMIT, TAME_SPEED,
};
use crate::controls::Controls;
use crate::cooldown::{Cooldown, smaller};
use crate::effects::{
    Blast, Burst, EffectSystem, MISSILE_LAUNCH_COUNT, MUZZLE_FLASH_COUNT, blasts_added, burst_added,
    events_home,
};
use crate::enemies::{Asteroid, Bullet, Drone, is_near_field, near_field};
use crate::events::{Color, Event, EventQueue};
use crate::game::World;
use crate::ship::{Ship, heading, heading_of};
use crate::steering::{
    lemma_behind_is_farther, lemma_swing_tells, lemma_turn_is_nearer, lemma_turn_registers,
};
use crate::units::{
    magnitude,
    LIMIT, LONGEST_STEP, SECOND, UNIT, WHOLE, in_limit, lemma_product_bound, lemma_tdiv_bound,
    lemma_travel_within, scaled, scaled_of, tdiv,
};
use crate::vec2::{
    Vec2, closer_than, cross_of, diff_of, dist_sq, dot_of, moved_of, nearer, norm_sq, stretch_of,
    sum_of, vec2_of, with_length_of,
};
use vstd::prelude::*;

verus! {

/// How far ahead of the ship a shot of the base gun appears.
pub const MUZZLE_OFFSET: i64 = 15_000;

/// How far ahead of the ship the flash of the base gun appears.
pub const FLASH_OFFSET: i64 = 10_000;

/// How far ahead of the ship a missile appears.
pub const MISSILE_OFFSET: i64 = 20_000;

/// Time a shot of the base gun lasts.
pub const SHOT_LIFE: i64 = 2_000_000;

/// Delay between two shots of the base gun.
pub const FIRE_DELAY: i64 = 200_000;

/// Delay between two shots of the base gun under rapid fire.
pub const RAPID_FIRE_DELAY: i64 = 100_000;

/// Speed the base gun takes from the ship with each shot.
pub const GUN_RECOIL: i64 = 30_000;

/// Speed a missile launch takes from the ship.
pub const MISSILE_RECOIL: i64 = 50_000;

/// Speed a shot of the beam takes from the ship.
pub const LASER_RECOIL: i64 = 80_000;

/// Length of the vector along a velocity too large to swing as it is.
pub const HEADING: i64 = 100_000;

/// The swing of half a right angle: a tangent of one, in millionths.
pub const FULL_SWING: i64 = 1_000_000;

/// A missile that steers towards the nearest enemy.
#[derive(Clone, Copy, Debug, PartialEq, Eq, Structural)]
pub struct HomingMissile {
    pub pos: Vec2,
    pub vel: Vec2,
    pub life: i64,
    pub speed: i64,
    /// Set once the missile has struck, so that it strikes only once.
    pub hit: bool,
}

/// The beam. It is on or off, and recharges only while off.
#[derive(Clone, Copy, Debug, PartialEq, Eq, Structural)]
pub struct Laser {
    pub active: bool,
    pub start_pos: Vec2,
    pub direction: Vec2,
    pub timer: Cooldown,
    pub cooldown: Cooldown,
}

/// The state of all three weapons.
pub struct WeaponSystem {
    pub fire_cooldown: Cooldown,
    pub missile_ammo: i32,
    pub missile_cooldown: Cooldown,
    pub missiles: Vec<HomingMissile>,
    /// Time since the last missile was restocked.
    pub ammo_regen_timer: i64,
    pub laser: Laser,
}

/// Whether `w` lies to the left of a missile flying along `u`, which is
/// also the side the missile takes where `w` lies straight ahead or behind.
pub open spec fn lies_left(u: Vec2, w: Vec2) -> bool {
    cross_of(u, w) >= 0
}

/// The vector `u` swung by the angle whose tangent is `swing` millionths, to
/// the left for a positive swing, and a thousand times as long or longer.
pub open spec fn swung_of(u: Vec2, swing: int) -> Vec2 {
    vec2_of(
        u.x * WHOLE - scaled_of(swing, u.y as int, WHOLE as int),
        u.y * WHOLE + scaled_of(swing, u.x as int, WHOLE as int),
    )
}

/// Whether a missile that flew along `u` and now flies along `turned` has
/// turned past the direction of `w`.
pub open spec fn passed(turned: Vec2, u: Vec2, w: Vec2) -> bool {
    if lies_left(u, w) {
        cross_of(turned, w) < 0
    } else {
        cross_of(turned, w) > 0
    }
}

/// The vector `from` swung by the angle whose tangent is `swing`
/// millionths.
fn swung(from: Vec2, swing: i64) -> (r: Vec2)
    requires
        from.bounded(TAME_SPEED as int),
        -FULL_SWING <= swing <= FULL_SWING,
    ensures
        r == swung_of(from, swing as int),
        r.bounded(2 * LIMIT),
{
    proof {
        lemma_product_bound(swing as int, from.y as int, 1_000_000, 1_000_000);
        lemma_product_bound(swing as int, from.x as int, 1_000_000, 1_000_000);
        lemma_tdiv_bound(swing * from.y, WHOLE as int, 1_000_000_000);
        lemma_tdiv_bound(swing * from.x, WHOLE as int, 1_000_000_000);
    }
    let across: i64 = scaled(swing, from.y, WHOLE);
    let along: i64 = scaled(swing, from.x, WHOLE);
    Vec2 { x: from.x * WHOLE - across, y: from.y * WHOLE + along }
}

impl HomingMissile {
    /// Every stored quantity is within the limits the arithmetic needs.
    pub open spec fn wf(self) -> bool {
        &&& self.pos.bounded(LIMIT as int)
        &&& self.vel.bounded(SPEED_LIMIT as int)
        &&& in_limit(self.life as int)
        &&& 0 <= self.speed <= SPEED_LIMIT
    }

    /// The missile is where a missile can be at the end of a step, no faster
    /// than anything gets, and has time left.
    pub open spec fn settled(self) -> bool {
        &&& self.wf()
        &&& self.pos.bounded(HOME as int)
        &&& self.vel.bounded(TAME_SPEED as int)
        &&& self.speed <= TAME_SPEED
        &&& self.life >= 0
    }

    /// The missile is where a missile can be in the course of a step, and no
    /// faster than anything gets.
    pub open spec fn astray(self) -> bool {
        &&& self.wf()
        &&& self.pos.bounded(REACH as int)
        &&& self.vel.bounded(TAME_SPEED as int)
        &&& self.speed <= TAME_SPEED
    }

    /// The missile can still strike: it has time left and has not struck.
    pub open spec fn armed(self) -> bool {
        self.life > 0 && !self.hit
    }

    /// The missile is armed and on or near the field.
    pub open spec fn alive(self, screen: Vec2) -> bool {
        self.armed() && near_field(self.pos, screen, FAR_MARGIN as int)
    }

    /// The missile launched from `pos` along the unit vector `dir`.
    pub open spec fn launched_of(pos: Vec2, dir: Vec2) -> HomingMissile {
        HomingMissile {
            pos,
            vel: stretch_of(dir, MISSILE_SPEED as int, UNIT as int),
            life: MISSILE_LIFE,
            speed: MISSILE_SPEED,
            hit: false,
        }
    }

    /// The missile after `dt` clock ticks of straight flight.
    pub open spec fn stepped(self, dt: int) -> HomingMissile {
        HomingMissile {
            pos: moved_of(self.pos, self.vel, dt),
            life: (self.life - dt) as i64,
            ..self
        }
    }

    /// How far the heading swings in `dt` clock ticks, as the tangent of the
    /// angle in millionths: the turn rate times the time, and no more than a
    /// whole, which is half a right angle.
    pub open spec fn turn_share(dt: int) -> int {
        smaller(scaled_of(MISSILE_TURN_SPEED as int, dt, WHOLE as int), FULL_SWING as int)
    }

    /// The vector that the turn starts from: the velocity itself, or, for a
    /// velocity too large to swing as it is, the vector of length
    /// [`HEADING`] along it.
    pub open spec fn heading(self) -> Vec2 {
        if self.vel.bounded(TAME_SPEED as int) {
            self.vel
        } else {
            with_length_of(self.vel, HEADING as int)
        }
    }

    /// The swing of `dt` clock ticks towards the side on which `w` lies.
    pub open spec fn swing(self, w: Vec2, dt: int) -> int {
        if lies_left(self.vel, w) {
            HomingMissile::turn_share(dt)
        } else {
            -HomingMissile::turn_share(dt)
        }
    }

    /// The velocity after a turn of `dt` clock ticks towards the side on
    /// which `w` lies, at the missile's own speed.
    pub open spec fn turned(self, w: Vec2, dt: int) -> Vec2 {
        with_length_of(swung_of(self.heading(), self.swing(w, dt)), self.speed as int)
    }

    /// The missile after it has steered for `dt` clock ticks towards a
    /// target that lies `w` away. Its heading swings towards the side of the
    /// target, to the left where the target is straight behind; a turn that
    /// would carry it past the target ends on the target. A turn that
    /// rounding would make into none, or into one away from the target, is
    /// not taken. A missile at rest sets off towards the target.
    pub open spec fn steered_by(self, w: Vec2, dt: int) -> HomingMissile {
        let on = with_length_of(w, self.speed as int);
        let turned = self.turned(w, dt);
        if w.x == 0 && w.y == 0 {
            self
        } else if self.vel.x == 0 && self.vel.y == 0 {
            HomingMissile { vel: on, ..self }
        } else if passed(turned, self.vel, w) {
            if nearer(on, self.vel, w) {
                HomingMissile { vel: on, ..self }
            } else {
                self
            }
        } else if nearer(turned, self.vel, w) {
            HomingMissile { vel: turned, ..self }
        } else {
            self
        }
    }

    /// Whether steering for `dt` clock ticks is sure to turn the missile
    /// towards a target that lies `w` away. The target is not where the
    /// missile is; the missile flies, no faster than things do in a running
    /// game; the swing, at the missile's own speed and at the speed it flies
    /// at, is more than rounding takes away; and the target lies abeam,
    /// behind, or anywhere that is more than the rounding of a velocity off
    /// the missile's course. A missile at its four hundred units a second
    /// turns in every step of seven clock ticks or more.
    pub open spec fn turns(self, w: Vec2, dt: int) -> bool {
        &&& w.x != 0 || w.y != 0
        &&& self.vel.x != 0 || self.vel.y != 0
        &&& self.vel.bounded(TAME_SPEED as int)
        &&& self.speed * HomingMissile::turn_share(dt) >= 8 * FULL_SWING
        &&& HomingMissile::turn_share(dt) * (magnitude(self.vel.x as int) + magnitude(
            self.vel.y as int,
        )) >= 4 * WHOLE
        &&& (dot_of(self.vel, w) <= 0 || nearer(with_length_of(w, self.speed as int), self.vel, w))
    }

    /// The missile after it has steered towards `target` for `dt` clock
    /// ticks. A missile on its target keeps its velocity.
    pub open spec fn steered(self, target: Vec2, dt: int) -> HomingMissile {
        self.steered_by(diff_of(target, self.pos), dt)
    }

    /// A missile launched from `pos` along the unit vector `dir`.
    pub fn new(pos: Vec2, dir: Vec2) -> (m: HomingMissile)
        requires
            dir.bounded(UNIT as int),
        ensures
            m == HomingMissile::launched_of(pos, dir),
            m.armed(),
            pos.bounded(LIMIT as int) ==> m.wf(),
            pos.bounded(HOME as int) ==> m.settled(),
    {
        HomingMissile {
            pos,
            vel: dir.stretch(MISSILE_SPEED, UNIT),
            life: MISSILE_LIFE,
            speed: MISSILE_SPEED,
            hit: false,
        }
    }

    /// Flies straight for `dt` clock ticks.
    pub fn update(&mut self, dt: i64)
        requires
            old(self).wf(),
            0 <= dt <= LIMIT,
        ensures
            *final(self) == old(self).stepped(dt as int),
            dt <= SECOND && old(self).pos.bounded(LIMIT - SPEED_LIMIT) && old(self).life >= 0
                ==> final(self).wf(),
            dt <= LONGEST_STEP && old(self).settled() ==> final(self).astray(),
            old(self).wf() && old(self).life >= 0 ==> in_limit(final(self).life as int),
    {
        self.pos = self.pos.moved(self.vel, dt);
        self.life = self.life - dt;
    }

    /// Whether the missile is armed and on or near the field.
    pub fn is_alive(&self, screen: Vec2) -> (r: bool)
        requires
            in_limit(screen.x as int),
            in_limit(screen.y as int),
        ensures
            r == self.alive(screen),
    {
        self.life > 0 && !self.hit && is_near_field(self.pos, screen, FAR_MARGIN)
    }

    /// The swing of `dt` clock ticks to the left, or else to the right.
    fn swing_for(left: bool, dt: i64) -> (swing: i64)
        requires
            0 <= dt <= LIMIT,
        ensures
            swing == if left {
                HomingMissile::turn_share(dt as int)
            } else {
                -HomingMissile::turn_share(dt as int)
            },
            -FULL_SWING <= swing <= FULL_SWING,
    {
        let full: i64 = scaled(MISSILE_TURN_SPEED, dt, WHOLE);
        let share: i64 = if full <= FULL_SWING {
            full
        } else {
            FULL_SWING
        };
        if left {
            share
        } else {
            -share
        }
    }

    /// The vector that the turn starts from.
    fn turn_from(&self) -> (from: Vec2)
        requires
            self.wf(),
        ensures
            from == self.heading(),
            from.bounded(TAME_SPEED as int),
    {
        let tame: bool = -TAME_SPEED <= self.vel.x && self.vel.x <= TAME_SPEED && -TAME_SPEED
            <= self.vel.y && self.vel.y <= TAME_SPEED;
        if tame {
            self.vel
        } else {
            self.vel.with_length(HEADING)
        }
    }

    /// Steers towards `target` for `dt` clock ticks. The missile never flies
    /// faster than its own speed for it, and never turns away from the
    /// target.
    pub fn homing(&mut self, target: Vec2, dt: i64)
        requires
            old(self).wf(),
            target.bounded(LIMIT as int),
            0 <= dt <= LIMIT,
        ensures
            *final(self) == old(self).steered(target, dt as int),
            final(self).wf(),
            old(self).astray() ==> final(self).astray(),
            final(self).vel == old(self).vel || norm_sq(final(self).vel) <= old(self).speed
                * old(self).speed,
            final(self).vel == old(self).vel || (old(self).vel.x == 0 && old(self).vel.y == 0)
                || nearer(final(self).vel, old(self).vel, diff_of(target, old(self).pos)),
            old(self).turns(diff_of(target, old(self).pos), dt as int) ==> nearer(
                final(self).vel,
                old(self).vel,
                diff_of(target, old(self).pos),
            ),
    {
        let w: Vec2 = target.minus(self.pos);
        proof {
            if self.turns(w, dt as int) {
                lemma_product_bound(MISSILE_TURN_SPEED as int, dt as int, 3000, 1_000_000_000);
                lemma_swing_tells(
                    self.speed as int,
                    HomingMissile::turn_share(dt as int),
                    magnitude(self.vel.x as int) + magnitude(self.vel.y as int),
                );
                lemma_turn_registers(self.vel, self.swing(w, dt as int), self.speed as int);
                if !passed(self.turned(w, dt as int), self.vel, w) {
                    lemma_turn_is_nearer(self.vel, self.turned(w, dt as int), w);
                }
                if dot_of(self.vel, w) <= 0 {
                    lemma_behind_is_farther(self.vel, w, self.speed as int);
                }
            }
        }
        if w.x == 0 && w.y == 0 {
            return ;
        }
        let on: Vec2 = w.with_length(self.speed);
        if self.vel.x == 0 && self.vel.y == 0 {
            self.vel = on;
            return ;
        }
        let left: bool = self.vel.cross(w) >= 0;
        let swing: i64 = HomingMissile::swing_for(left, dt);
        let from: Vec2 = self.turn_from();
        let turned: Vec2 = swung(from, swing).with_length(self.speed);
        let across: i64 = turned.cross(w);
        let gone_past: bool = if left {
            across < 0
        } else {
            across > 0
        };
        if gone_past {
            if on.is_nearer(self.vel, w) {
                self.vel = on;
            }
        } else if turned.is_nearer(self.vel, w) {
            self.vel = turned;
        }
    }
}

impl Laser {
    /// Every stored quantity is within the limits the arithmetic needs.
    pub open spec fn wf(self) -> bool {
        &&& self.start_pos.bounded(LIMIT / 2)
        &&& self.direction.bounded(UNIT as int)
        &&& self.timer.wf()
        &&& self.cooldown.wf()
    }

    /// The beam switched on at `ship_pos` along `ship_dir`, with its duration
    /// and its recharge time wound up.
    pub open spec fn fired(self, ship_pos: Vec2, ship_dir: Vec2) -> Laser {
        Laser {
            active: true,
            timer: self.timer.wound(),
            cooldown: self.cooldown.wound(),
            start_pos: ship_pos,
            direction: ship_dir,
        }
    }

    /// The beam after `dt` clock ticks: while on it stays with the ship and
    /// goes off when its duration has run out; while off it recharges.
    pub open spec fn stepped(self, dt: int, ship_pos: Vec2, ship_dir: Vec2) -> Laser {
        if self.active {
            Laser {
                active: !self.timer.ticked(dt).is_ready(),
                timer: self.timer.ticked(dt),
                start_pos: ship_pos,
                direction: ship_dir,
                ..self
            }
        } else {
            Laser { cooldown: self.cooldown.ticked(dt), ..self }
        }
    }

    /// The beam, off and ready.
    pub fn new() -> (l: Laser)
        ensures
            !l.active,
            l.start_pos == (Vec2 { x: 0, y: 0 }),
            l.direction == (Vec2 { x: 0, y: 0 }),
            l.timer == (Cooldown { time: 0, max: LASER_DURATION }),
            l.cooldown == (Cooldown { time: 0, max: LASER_COOLDOWN }),
            l.wf(),
    {
        Laser {
            active: false,
            start_pos: Vec2 { x: 0, y: 0 },
            direction: Vec2 { x: 0, y: 0 },
            timer: Cooldown::new(LASER_DURATION),
            cooldown: Cooldown::new(LASER_COOLDOWN),
        }
    }

    /// Switches the beam on at `ship_pos` along `ship_dir`.
    pub fn fire(&mut self, ship_pos: Vec2, ship_dir: Vec2)
        ensures
            *final(self) == old(self).fired(ship_pos, ship_dir),
            final(self).active,
    {
        self.active = true;
        self.timer.reset();
        self.cooldown.reset();
        self.start_pos = ship_pos;
        self.direction = ship_dir;
    }

    /// Lets `dt` clock ticks pass with the ship at `ship_pos`, heading along
    /// `ship_dir`.
    pub fn update(&mut self, dt: i64, ship_pos: Vec2, ship_dir: Vec2)
        requires
            old(self).timer.wf(),
            old(self).cooldown.wf(),
            0 <= dt,
        ensures
            *final(self) == old(self).stepped(dt as int, ship_pos, ship_dir),
            final(self).timer.wf(),
            final(self).cooldown.wf(),
            !old(self).active ==> !final(self).active && final(self).timer == old(self).timer,
            old(self).active ==> final(self).cooldown == old(self).cooldown,
    {
        if self.active {
            self.timer.tick(dt);
            self.start_pos = ship_pos;
            self.direction = ship_dir;
            if self.timer.ready() {
                self.active = false;
            }
        } else {
            self.cooldown.tick(dt);
        }
    }
}

/// Particles in the blast of a missile.
pub const MISSILE_BLAST_COUNT: usize = 12;

/// The intact drone, among the first `n`, that is nearest to `from`; of
/// several equally near, the first.
pub open spec fn nearest_drone(from: Vec2, drones: Seq<Drone>, n: int) -> Option<int>
    decreases n,
{
    if n <= 0 {
        None
    } else {
        let best = nearest_drone(from, drones, n - 1);
        let d = drones[n - 1];
        if d.intact() && (best.is_none() || dist_sq(from, d.pos) < dist_sq(
            from,
            drones[best.unwrap()].pos,
        )) {
            Some(n - 1)
        } else {
            best
        }
    }
}

/// The intact asteroid, among the first `n`, that is nearest to `from`; of
/// several equally near, the first.
pub open spec fn nearest_asteroid(from: Vec2, asteroids: Seq<Asteroid>, n: int) -> Option<int>
    decreases n,
{
    if n <= 0 {
        None
    } else {
        let best = nearest_asteroid(from, asteroids, n - 1);
        let a = asteroids[n - 1];
        if a.intact() && (best.is_none() || dist_sq(from, a.pos) < dist_sq(
            from,
            asteroids[best.unwrap()].pos,
        )) {
            Some(n - 1)
        } else {
            best
        }
    }
}

/// What `nearest_drone` finds is intact, and no intact drone is nearer.
pub proof fn lemma_nearest_drone(from: Vec2, drones: Seq<Drone>, n: int)
    requires
        0 <= n <= drones.len(),
    ensures
        match nearest_drone(from, drones, n) {
            Some(i) => 0 <= i < n && drones[i].intact() && forall|j: int|
                0 <= j < n && drones[j].intact() ==> dist_sq(from, drones[i].pos) <= dist_sq(
                    from,
                    #[trigger] drones[j].pos,
                ),
            None => forall|j: int| 0 <= j < n ==> !(#[trigger] drones[j]).intact(),
        },
    decreases n,
{
    if n > 0 {
        lemma_nearest_drone(from, drones, n - 1);
    }
}

/// What `nearest_asteroid` finds is intact, and no intact asteroid is nearer.
pub proof fn lemma_nearest_asteroid(from: Vec2, asteroids: Seq<Asteroid>, n: int)
    requires
        0 <= n <= asteroids.len(),
    ensures
        match nearest_asteroid(from, asteroids, n) {
            Some(i) => 0 <= i < n && asteroids[i].intact() && forall|j: int|
                0 <= j < n && asteroids[j].intact() ==> dist_sq(from, asteroids[i].pos) <= dist_sq(
                    from,
                    #[trigger] asteroids[j].pos,
                ),
            None => forall|j: int| 0 <= j < n ==> !(#[trigger] asteroids[j]).intact(),
        },
    decreases n,
{
    if n > 0 {
        lemma_nearest_asteroid(from, asteroids, n - 1);
    }
}

/// Where a missile at `from` steers to: the nearest intact drone, or, where
/// there is none, the nearest intact asteroid.
pub open spec fn target_of(from: Vec2, drones: Seq<Drone>, asteroids: Seq<Asteroid>) -> Option<Vec2> {
    match nearest_drone(from, drones, drones.len() as int) {
        Some(i) => Some(drones[i].pos),
        None => match nearest_asteroid(from, asteroids, asteroids.len() as int) {
            Some(j) => Some(asteroids[j].pos),
            None => None,
        },
    }
}

/// The missile `m` after `dt` clock ticks: it flies on, then steers towards
/// its target if it has one.
pub open spec fn guided_of(
    m: HomingMissile,
    drones: Seq<Drone>,
    asteroids: Seq<Asteroid>,
    dt: int,
) -> HomingMissile {
    let flown = m.stepped(dt);
    match target_of(flown.pos, drones, asteroids) {
        Some(t) => flown.steered(t, dt),
        None => flown,
    }
}

/// The field after a missile at `at` has hit the drone at index `j`: the
/// drone loses two hit points, the score and the combo grow; a drone left
/// without hit points counts as a kill, scores again and may leave a
/// power-up.
pub open spec fn drone_blasted(f: Field, j: int, at: Vec2) -> Field {
    let d = f.drones[j];
    let hit = drone_damaged(d, MISSILE_DAMAGE as int);
    let blast = f.blasts.push(explosion_of(at, Color::Orange, MISSILE_BLAST_COUNT as int));
    if hit.intact() {
        Field {
            drones: f.drones.update(j, hit),
            score: f.score + MISSILE_DRONE_SCORE,
            combo: f.combo + 1,
            combo_timer: f.combo_timer.wound(),
            blasts: blast,
            ..f
        }
    } else {
        Field {
            drones: f.drones.update(j, hit),
            score: f.score + MISSILE_DRONE_SCORE + KILL_SCORE,
            combo: f.combo + 1,
            combo_timer: f.combo_timer.wound(),
            kills: f.kills + 1,
            blasts: blast,
            drops: f.drops.push(d.pos),
            ..f
        }
    }
}

/// The field after a missile at `at` has hit the asteroid at index `i`: the
/// asteroid takes heavy damage, the score and the combo grow; a destroyed
/// asteroid may leave a power-up.
pub open spec fn asteroid_blasted(f: Field, i: int, at: Vec2) -> Field {
    let a = f.asteroids[i];
    let hit = a.damaged(HEAVY_DAMAGE as int);
    Field {
        asteroids: f.asteroids.update(i, hit),
        score: f.score + MISSILE_ASTEROID_SCORE,
        combo: f.combo + 1,
        combo_timer: f.combo_timer.wound(),
        blasts: f.blasts.push(explosion_of(at, Color::Orange, MISSILE_BLAST_COUNT as int)),
        drops: if hit.intact() {
            f.drops
        } else {
            f.drops.push(a.pos)
        },
        ..f
    }
}

/// The field after the missile `m` was tested against it, or nothing if the
/// missile hit nothing: drones are tried first, then asteroids.
pub open spec fn missile_landed(m: HomingMissile, f: Field) -> Option<Field> {
    match first_drone(f.drones, m.pos, BULLET_COLLISION_RADIUS as int, 0) {
        Some(j) => Some(drone_blasted(f, j, m.pos)),
        None => match first_asteroid(f.asteroids, m.pos, BLAST_MARGIN as int, 0) {
            Some(i) => Some(asteroid_blasted(f, i, m.pos)),
            None => None,
        },
    }
}

/// The missiles that are left, and the field, after the first `n` missiles
/// were resolved one after the other.
pub open spec fn missiles_resolved(missiles: Seq<HomingMissile>, n: int, f: Field) -> (
    Seq<HomingMissile>,
    Field,
)
    decreases n,
{
    if n <= 0 {
        (Seq::<HomingMissile>::empty(), f)
    } else {
        let (kept, g) = missiles_resolved(missiles, n - 1, f);
        let m = missiles[n - 1];
        if m.hit {
            (kept.push(m), g)
        } else {
            match missile_landed(m, g) {
                Some(h) => (kept, h),
                None => (kept.push(m), g),
            }
        }
    }
}

/// Every missile is where a missile can be at the end of a step.
pub open spec fn missiles_all_settled(missiles: Seq<HomingMissile>) -> bool {
    forall|i: int| 0 <= i < missiles.len() ==> (#[trigger] missiles[i]).settled()
}

/// Every missile is where a missile can be in the course of a step.
pub open spec fn missiles_astray(missiles: Seq<HomingMissile>) -> bool {
    forall|i: int| 0 <= i < missiles.len() ==> (#[trigger] missiles[i]).astray()
}

/// Every missile is within the limits and stays within them when it flies
/// on for `dt`.
pub open spec fn missiles_fit(missiles: Seq<HomingMissile>, dt: int) -> bool {
    forall|i: int|
        0 <= i < missiles.len() ==> (#[trigger] missiles[i]).wf() && in_limit(
            missiles[i].life - dt,
        ) && missiles[i].stepped(dt).pos.bounded(LIMIT as int)
}

/// Missiles where they can be at the end of a step stay within the limits for
/// a step no longer than the longest.
pub proof fn lemma_settled_missiles_fit(missiles: Seq<HomingMissile>, dt: int)
    requires
        missiles_all_settled(missiles),
        0 <= dt <= LONGEST_STEP,
    ensures
        missiles_fit(missiles, dt),
{
    assert forall|i: int| 0 <= i < missiles.len() implies (#[trigger] missiles[i]).wf()
        && in_limit(missiles[i].life - dt) && missiles[i].stepped(dt).pos.bounded(
        LIMIT as int,
    ) by {
        lemma_travel_within(missiles[i].vel.x as int, dt);
        lemma_travel_within(missiles[i].vel.y as int, dt);
    }
}

/// Where a missile at `from` steers to.
pub fn find_target(
    from: Vec2,
    drones: &Vec<Drone>,
    asteroids: &Vec<Asteroid>,
) -> (target: Option<Vec2>)
    requires
        from.bounded(LIMIT as int),
        drones_wf(drones@),
        asteroids_wf(asteroids@),
    ensures
        target == target_of(from, drones@, asteroids@),
        target.is_some() ==> target.unwrap().bounded(LIMIT as int),
{
    let mut best: Option<usize> = None;
    let mut best_dist: i64 = 0;
    let mut i: usize = 0;
    while i < drones.len()
        invariant
            0 <= i <= drones@.len(),
            from.bounded(LIMIT as int),
            drones_wf(drones@),
            match best {
                Some(b) => nearest_drone(from, drones@, i as int) == Some(b as int) && b < i
                    && best_dist == dist_sq(from, drones@[b as int].pos),
                None => nearest_drone(from, drones@, i as int).is_none(),
            },
        decreases drones@.len() - i,
    {
        let d: Drone = drones[i];
        if d.hp > 0 {
            let dist: i64 = from.distance_squared(d.pos);
            if best.is_none() || dist < best_dist {
                best = Some(i);
                best_dist = dist;
            }
        }
        i = i + 1;
    }
    match best {
        Some(b) => {
            return Some(drones[b].pos);
        },
        None => {},
    }
    let mut k: usize = 0;
    while k < asteroids.len()
        invariant
            0 <= k <= asteroids@.len(),
            from.bounded(LIMIT as int),
            asteroids_wf(asteroids@),
            nearest_drone(from, drones@, drones@.len() as int).is_none(),
            match best {
                Some(b) => nearest_asteroid(from, asteroids@, k as int) == Some(b as int) && b < k
                    && best_dist == dist_sq(from, asteroids@[b as int].pos),
                None => nearest_asteroid(from, asteroids@, k as int).is_none(),
            },
        decreases asteroids@.len() - k,
    {
        let a: Asteroid = asteroids[k];
        if a.radius > ASTEROID_MIN_RADIUS {
            let dist: i64 = from.distance_squared(a.pos);
            if best.is_none() || dist < best_dist {
                best = Some(k);
                best_dist = dist;
            }
        }
        k = k + 1;
    }
    match best {
        Some(b) => Some(asteroids[b].pos),
        None => None,
    }
}

/// Particles where the beam burns an enemy.
pub const LASER_BURN_COUNT: usize = 6;

/// What the beam reads and changes as it sweeps over the enemies.
pub struct Sweep {
    pub drones: Seq<Drone>,
    pub asteroids: Seq<Asteroid>,
    /// Enemies the beam has damaged so far in this step.
    pub hits: int,
    pub score: int,
    pub kills: int,
    /// The bursts set off so far.
    pub blasts: Seq<Blast>,
    /// Where enemies were destroyed so far: each such place may get a
    /// power-up.
    pub drops: Seq<Vec2>,
}

/// How far along a beam from `start` along the unit vector `dir` the point
/// `p` lies.
pub open spec fn along_beam(start: Vec2, dir: Vec2, p: Vec2) -> int {
    tdiv(dot_of(diff_of(p, start), dir), UNIT as int)
}

/// The beam from `start` along the unit vector `dir` passes the point `p`
/// closer than `reach`: the foot of `p` on the beam lies within the beam's
/// range, and `p` is closer to that foot than `reach`.
pub open spec fn beam_reaches(start: Vec2, dir: Vec2, p: Vec2, reach: int) -> bool {
    let along = along_beam(start, dir, p);
    0 <= along <= LASER_RANGE && closer_than(
        sum_of(start, stretch_of(dir, along, UNIT as int)),
        p,
        reach,
    )
}

/// Whether the beam passes the point `p` closer than `reach`.
pub fn beam_hits(start: Vec2, dir: Vec2, p: Vec2, reach: i64) -> (hit: bool)
    requires
        start.bounded(LIMIT / 2),
        dir.bounded(UNIT as int),
        p.bounded(LIMIT as int),
    ensures
        hit == beam_reaches(start, dir, p, reach as int),
{
    let to: Vec2 = p.minus(start);
    let dot: i64 = to.dot(dir);
    let along: i64 = if dot >= 0 {
        dot / UNIT
    } else {
        -((-dot) / UNIT)
    };
    if along < 0 || along > LASER_RANGE {
        return false;
    }
    let foot: Vec2 = start.plus(dir.stretch(along, UNIT));
    foot.is_closer_than(p, reach)
}

/// The sweep after the beam was tried on the drone at index `k`: an intact
/// drone on the beam loses hit points and burns; a drone left without hit
/// points scores, counts as a kill and may leave a power-up.
pub open spec fn drone_swept(s: Sweep, k: int, start: Vec2, dir: Vec2) -> Sweep {
    let d = s.drones[k];
    if d.intact() && beam_reaches(start, dir, d.pos, BULLET_COLLISION_RADIUS as int) {
        let hit = drone_damaged(d, LASER_DAMAGE as int);
        let burnt = Sweep {
            drones: s.drones.update(k, hit),
            hits: s.hits + 1,
            blasts: s.blasts.push(explosion_of(d.pos, Color::Red, LASER_BURN_COUNT as int)),
            ..s
        };
        if hit.intact() {
            burnt
        } else {
            Sweep {
                score: s.score + KILL_SCORE,
                kills: s.kills + 1,
                drops: s.drops.push(d.pos),
                ..burnt
            }
        }
    } else {
        s
    }
}

/// The sweep after the beam was tried on the asteroid at index `k`: an intact
/// asteroid on the beam loses radius and burns; a destroyed asteroid may
/// leave a power-up.
pub open spec fn asteroid_swept(s: Sweep, k: int, start: Vec2, dir: Vec2) -> Sweep {
    let a = s.asteroids[k];
    if a.intact() && beam_reaches(start, dir, a.pos, a.radius + BLAST_MARGIN) {
        let hit = a.damaged(SHOT_DAMAGE as int);
        Sweep {
            asteroids: s.asteroids.update(k, hit),
            hits: s.hits + 1,
            blasts: s.blasts.push(explosion_of(a.pos, Color::Red, LASER_BURN_COUNT as int)),
            drops: if hit.intact() {
                s.drops
            } else {
                s.drops.push(a.pos)
            },
            ..s
        }
    } else {
        s
    }
}

/// The sweep after the beam was tried on the first `n` drones in turn, up to
/// the most enemies it can damage in a step.
pub open spec fn drones_swept(s: Sweep, n: int, start: Vec2, dir: Vec2) -> Sweep
    decreases n,
{
    if n <= 0 {
        s
    } else {
        let t = drones_swept(s, n - 1, start, dir);
        if t.hits >= LASER_MAX_PENETRATION {
            t
        } else {
            drone_swept(t, n - 1, start, dir)
        }
    }
}

/// The sweep after the beam was tried on the first `n` asteroids in turn, up
/// to the most enemies it can damage in a step.
pub open spec fn asteroids_swept(s: Sweep, n: int, start: Vec2, dir: Vec2) -> Sweep
    decreases n,
{
    if n <= 0 {
        s
    } else {
        let t = asteroids_swept(s, n - 1, start, dir);
        if t.hits >= LASER_MAX_PENETRATION {
            t
        } else {
            asteroid_swept(t, n - 1, start, dir)
        }
    }
}

/// The sweep of a beam over the field: nothing while the beam is off;
/// otherwise the drones in turn, then the asteroids.
pub open spec fn laser_swept(laser: Laser, s: Sweep) -> Sweep {
    if !laser.active {
        s
    } else {
        let over_drones = drones_swept(s, s.drones.len() as int, laser.start_pos, laser.direction);
        asteroids_swept(
            over_drones,
            over_drones.asteroids.len() as int,
            laser.start_pos,
            laser.direction,
        )
    }
}

/// Once the beam has damaged as many enemies as it can, the drones after
/// them are left alone.
pub proof fn lemma_drones_past_cap(s: Sweep, i: int, n: int, start: Vec2, dir: Vec2)
    requires
        0 <= i <= n,
        drones_swept(s, i, start, dir).hits >= LASER_MAX_PENETRATION,
    ensures
        drones_swept(s, n, start, dir) == drones_swept(s, i, start, dir),
    decreases n - i,
{
    if i < n {
        lemma_drones_past_cap(s, i, n - 1, start, dir);
    }
}

/// Once the beam has damaged as many enemies as it can, the asteroids after
/// them are left alone.
pub proof fn lemma_asteroids_past_cap(s: Sweep, i: int, n: int, start: Vec2, dir: Vec2)
    requires
        0 <= i <= n,
        asteroids_swept(s, i, start, dir).hits >= LASER_MAX_PENETRATION,
    ensures
        asteroids_swept(s, n, start, dir) == asteroids_swept(s, i, start, dir),
    decreases n - i,
{
    if i < n {
        lemma_asteroids_past_cap(s, i, n - 1, start, dir);
    }
}

/// Every missile is within the limits the arithmetic needs.
pub open spec fn missiles_wf(missiles: Seq<HomingMissile>) -> bool {
    forall|i: int| 0 <= i < missiles.len() ==> (#[trigger] missiles[i]).wf()
}

/// The ship with `kick` taken off its velocity along the unit vector `dir`.
pub open spec fn recoiled(ship: Ship, dir: Vec2, kick: int) -> Ship {
    Ship { vel: diff_of(ship.vel, stretch_of(dir, kick, UNIT as int)), ..ship }
}

/// `after` is `before` with the flash of the base gun appended if it fired,
/// and then the plume of a missile if one was launched.
pub open spec fn weapons_flashed(
    before: EffectSystem,
    after: EffectSystem,
    fired: bool,
    launched: bool,
    ship: Ship,
    dir: Vec2,
) -> bool {
    let mid = if fired {
        after.particles@.take(before.particles@.len() + MUZZLE_FLASH_COUNT)
    } else {
        before.particles@
    };
    &&& after.trail@ == before.trail@
    &&& fired ==> burst_added(
        before.particles@,
        mid,
        MUZZLE_FLASH_COUNT as int,
        WeaponSystem::muzzle_flash_of(ship, dir),
    )
    &&& launched ==> burst_added(
        mid,
        after.particles@,
        MISSILE_LAUNCH_COUNT as int,
        WeaponSystem::launch_plume_of(ship, dir),
    )
    &&& !launched ==> after.particles@ == mid
}

/// The ship loses `kick` of speed along the unit vector `dir`.
fn recoil(ship: &mut Ship, dir: Vec2, kick: i64)
    requires
        old(ship).vel.bounded(SPEED_LIMIT - kick),
        dir.bounded(UNIT as int),
        0 <= kick <= 200_000,
    ensures
        *final(ship) == recoiled(*old(ship), dir, kick as int),
        forall|m: int|
            #![trigger old(ship).vel.bounded(m)]
            old(ship).vel.bounded(m) ==> final(ship).vel.bounded(m + kick),
{
    let push: Vec2 = dir.stretch(kick, UNIT);
    ship.vel = ship.vel.minus(push);
}

impl WeaponSystem {
    /// Every stored quantity is within the limits the arithmetic needs, and
    /// the cooldown of the base gun is long enough to hold its delay.
    pub open spec fn wf(self) -> bool {
        &&& self.fire_cooldown.wf()
        &&& self.fire_cooldown.max >= FIRE_DELAY
        &&& self.missile_cooldown.wf()
        &&& self.laser.wf()
        &&& 0 <= self.ammo_regen_timer <= LIMIT
        &&& in_limit(self.missile_ammo as int)
        &&& missiles_wf(self.missiles@)
    }

    /// Whether the base gun fires: its control is active, the shield is down
    /// and its cooldown has run out.
    pub open spec fn gun_fires(self, ship: Ship, c: Controls) -> bool {
        c.shoot && !ship.shield_active && self.fire_cooldown.is_ready()
    }

    /// The delay to the next shot of the base gun: halved under rapid fire.
    pub open spec fn fire_delay_of(ship: Ship) -> int {
        if ship.rapid_fire_timer.time > 0 {
            RAPID_FIRE_DELAY as int
        } else {
            FIRE_DELAY as int
        }
    }

    /// The shot the base gun fires from a ship heading along `dir`.
    pub open spec fn gun_shot_of(ship: Ship, dir: Vec2) -> Bullet {
        Bullet {
            pos: sum_of(ship.pos, stretch_of(dir, MUZZLE_OFFSET as int, UNIT as int)),
            vel: stretch_of(dir, BULLET_SPEED as int, UNIT as int),
            enemy: false,
            size: if ship.rapid_fire_timer.time > 0 {
                2_000
            } else {
                3_000
            },
            life: SHOT_LIFE,
        }
    }

    /// Whether a missile is launched: its control was pressed, the shield is
    /// down, there is one in stock and the launcher's cooldown has run out.
    pub open spec fn missile_launches(self, ship: Ship, c: Controls) -> bool {
        c.missile && !ship.shield_active && self.missile_ammo > 0
            && self.missile_cooldown.is_ready()
    }

    /// The missile launched from a ship heading along `dir`.
    pub open spec fn missile_of(ship: Ship, dir: Vec2) -> HomingMissile {
        HomingMissile::launched_of(
            sum_of(ship.pos, stretch_of(dir, MISSILE_OFFSET as int, UNIT as int)),
            dir,
        )
    }

    /// Whether the beam is switched on: its control was pressed, the shield
    /// is down, it is recharged and not already on.
    pub open spec fn laser_fires(self, ship: Ship, c: Controls) -> bool {
        c.laser && !ship.shield_active && self.laser.cooldown.is_ready() && !self.laser.active
    }

    /// The stock of missiles after `dt` clock ticks: below its maximum, one
    /// missile is restocked each time a full second has been counted.
    pub open spec fn ammo_after(self, dt: int) -> int {
        if self.missile_ammo < MISSILE_AMMO_MAX && self.ammo_regen_timer + dt >= MISSILE_REGEN_TIME {
            self.missile_ammo + 1
        } else {
            self.missile_ammo as int
        }
    }

    /// The time counted towards the next missile after `dt` clock ticks.
    pub open spec fn regen_timer_after(self, dt: int) -> int {
        if self.missile_ammo < MISSILE_AMMO_MAX {
            if self.ammo_regen_timer + dt >= MISSILE_REGEN_TIME {
                0
            } else {
                self.ammo_regen_timer + dt
            }
        } else {
            self.ammo_regen_timer as int
        }
    }

    /// The weapons after the base gun has fired: its cooldown is set to the
    /// delay that holds now.
    pub open spec fn gun_fired(self, ship: Ship) -> WeaponSystem {
        WeaponSystem {
            fire_cooldown: Cooldown {
                time: WeaponSystem::fire_delay_of(ship) as i64,
                max: self.fire_cooldown.max,
            },
            ..self
        }
    }

    /// The flash of the base gun of a ship heading along `dir`.
    pub open spec fn muzzle_flash_of(ship: Ship, dir: Vec2) -> Burst {
        Burst::MuzzleFlash {
            pos: sum_of(ship.pos, stretch_of(dir, FLASH_OFFSET as int, UNIT as int)),
            dir,
        }
    }

    /// The plume of a missile launched from a ship heading along `dir`.
    pub open spec fn launch_plume_of(ship: Ship, dir: Vec2) -> Burst {
        Burst::MissileLaunch {
            pos: sum_of(ship.pos, stretch_of(dir, MISSILE_OFFSET as int, UNIT as int)),
            dir,
        }
    }

    /// The weapons after a missile was launched, but for the missiles in
    /// flight: one fewer in stock, and the launcher's cooldown wound up.
    pub open spec fn missile_launched(self) -> WeaponSystem {
        WeaponSystem {
            missile_ammo: (self.missile_ammo - 1) as i32,
            missile_cooldown: self.missile_cooldown.wound(),
            ..self
        }
    }

    /// The weapons after `dt` clock ticks were counted towards the next
    /// missile.
    pub open spec fn restocked(self, dt: int) -> WeaponSystem {
        WeaponSystem {
            missile_ammo: self.ammo_after(dt) as i32,
            ammo_regen_timer: self.regen_timer_after(dt) as i64,
            ..self
        }
    }

    /// The weapons after the beam was switched on at `pos` along `dir`.
    pub open spec fn laser_lit(self, pos: Vec2, dir: Vec2) -> WeaponSystem {
        WeaponSystem { laser: self.laser.fired(pos, dir), ..self }
    }

    /// The weapons of `self`, with the missiles of `other`.
    pub open spec fn with_missiles_of(self, other: WeaponSystem) -> WeaponSystem {
        WeaponSystem { missiles: other.missiles, ..self }
    }

    /// The weapons after their cooldowns have run down by `dt`.
    pub open spec fn cooled(self, dt: int) -> WeaponSystem {
        WeaponSystem {
            fire_cooldown: self.fire_cooldown.ticked(dt),
            missile_cooldown: self.missile_cooldown.ticked(dt),
            ..self
        }
    }

    /// The weapons after a step, but for the missiles in flight: cooldowns
    /// run down, then the gun, the launcher and the beam act in turn on the
    /// controls, the stock of missiles is topped up, and the beam advances.
    pub open spec fn updated(self, dt: int, ship: Ship, c: Controls) -> WeaponSystem {
        let dir = heading_of(ship.rot as int);
        let cooled = self.cooled(dt);
        let shot = if cooled.gun_fires(ship, c) {
            cooled.gun_fired(ship)
        } else {
            cooled
        };
        let launched = if shot.missile_launches(ship, c) {
            shot.missile_launched()
        } else {
            shot
        };
        let stocked = launched.restocked(dt);
        let lit = if stocked.laser_fires(ship, c) {
            stocked.laser_lit(ship.pos, dir)
        } else {
            stocked
        };
        WeaponSystem { laser: lit.laser.stepped(dt, ship.pos, dir), ..lit }
    }

    /// The ship after the weapons that fired in a step have each taken their
    /// recoil from it.
    pub open spec fn ship_after(self, dt: int, ship: Ship, c: Controls) -> Ship {
        let dir = heading_of(ship.rot as int);
        let cooled = self.cooled(dt);
        let first = if cooled.gun_fires(ship, c) {
            recoiled(ship, dir, GUN_RECOIL as int)
        } else {
            ship
        };
        let second = if cooled.missile_launches(ship, c) {
            recoiled(first, dir, MISSILE_RECOIL as int)
        } else {
            first
        };
        if cooled.laser_fires(ship, c) {
            recoiled(second, dir, LASER_RECOIL as int)
        } else {
            second
        }
    }

    /// Weapons at rest: a full stock of missiles, nothing in flight, the beam
    /// off, every cooldown run out.
    pub fn new() -> (w: WeaponSystem)
        ensures
            w.wf(),
            w.fire_cooldown == (Cooldown { time: 0, max: FIRE_DELAY }),
            w.missile_ammo == MISSILE_AMMO_MAX,
            w.missile_cooldown == (Cooldown { time: 0, max: MISSILE_COOLDOWN_MAX }),
            w.missiles@.len() == 0,
            w.ammo_regen_timer == 0,
            !w.laser.active,
            w.laser.timer == (Cooldown { time: 0, max: LASER_DURATION }),
            w.laser.cooldown == (Cooldown { time: 0, max: LASER_COOLDOWN }),
    {
        WeaponSystem {
            fire_cooldown: Cooldown::new(FIRE_DELAY),
            missile_ammo: MISSILE_AMMO_MAX,
            missile_cooldown: Cooldown::new(MISSILE_COOLDOWN_MAX),
            missiles: Vec::new(),
            laser: Laser::new(),
            ammo_regen_timer: 0,
        }
    }

    /// Fires the base gun if it is due: a shot appears ahead of the ship, the
    /// ship recoils, and the cooldown is set to the delay that holds now.
    pub fn handle_shooting(
        &mut self,
        ship: &mut Ship,
        ship_dir: Vec2,
        world: &mut World,
        effects: &mut EffectSystem,
        controls: &Controls,
    ) -> (fired: bool)
        requires
            old(ship).pos.bounded(LIMIT / 2),
            old(ship).vel.bounded(SPEED_LIMIT - GUN_RECOIL),
            ship_dir.bounded(UNIT as int),
        ensures
            fired == old(self).gun_fires(*old(ship), *controls),
            fired ==> *final(self) == old(self).gun_fired(*old(ship)),
            fired ==> *final(ship) == recoiled(*old(ship), ship_dir, GUN_RECOIL as int),
            fired ==> final(world).bullets@ == old(world).bullets@.push(
                WeaponSystem::gun_shot_of(*old(ship), ship_dir),
            ),
            fired ==> final(effects).grew(
                *old(effects),
                MUZZLE_FLASH_COUNT as int,
                WeaponSystem::muzzle_flash_of(*old(ship), ship_dir),
            ),
            !fired ==> *final(self) == *old(self),
            !fired ==> *final(ship) == *old(ship),
            !fired ==> final(world).bullets@ == old(world).bullets@,
            !fired ==> *final(effects) == *old(effects),
            final(world).same_but_bullets(*old(world)),
            WeaponSystem::gun_shot_of(*old(ship), ship_dir).wf(),
            old(effects).wf() ==> final(effects).wf(),
            old(effects).tame() && old(ship).pos.bounded(ARENA as int) ==> final(effects).tame(),
    {
        let rapid: bool = ship.rapid_fire_timer.time > 0;
        let fire_rate: i64 = if rapid {
            RAPID_FIRE_DELAY
        } else {
            FIRE_DELAY
        };
        let muzzle: Vec2 = ship.pos.plus(ship_dir.stretch(MUZZLE_OFFSET, UNIT));
        let speed: Vec2 = ship_dir.stretch(BULLET_SPEED, UNIT);
        if controls.shoot && !ship.shield_active && self.fire_cooldown.ready() {
            let bullet_size: i64 = if rapid {
                2_000
            } else {
                3_000
            };
            world.bullets.push(
                Bullet { pos: muzzle, vel: speed, enemy: false, size: bullet_size, life: SHOT_LIFE },
            );
            let flash: Vec2 = ship.pos.plus(ship_dir.stretch(FLASH_OFFSET, UNIT));
            recoil(ship, ship_dir, GUN_RECOIL);
            self.fire_cooldown.time = fire_rate;
            effects.create_muzzle_flash(flash, ship_dir);
            true
        } else {
            false
        }
    }

    /// Launches a missile if one is due: it appears ahead of the ship, the
    /// stock shrinks by one, the launcher's cooldown is wound up and the ship
    /// recoils.
    pub fn handle_missile_launch(
        &mut self,
        ship: &mut Ship,
        ship_dir: Vec2,
        effects: &mut EffectSystem,
        controls: &Controls,
    ) -> (launched: bool)
        requires
            old(ship).pos.bounded(LIMIT / 2),
            old(ship).vel.bounded(SPEED_LIMIT - MISSILE_RECOIL),
            ship_dir.bounded(UNIT as int),
        ensures
            launched == old(self).missile_launches(*old(ship), *controls),
            launched ==> *final(self) == old(self).missile_launched().with_missiles_of(*final(self)),
            launched ==> final(self).missiles@ == old(self).missiles@.push(
                WeaponSystem::missile_of(*old(ship), ship_dir),
            ),
            launched ==> *final(ship) == recoiled(*old(ship), ship_dir, MISSILE_RECOIL as int),
            launched ==> final(effects).grew(
                *old(effects),
                MISSILE_LAUNCH_COUNT as int,
                WeaponSystem::launch_plume_of(*old(ship), ship_dir),
            ),
            !launched ==> *final(self) == *old(self),
            !launched ==> *final(ship) == *old(ship),
            !launched ==> *final(effects) == *old(effects),
            old(self).wf() ==> final(self).wf(),
            old(effects).wf() ==> final(effects).wf(),
            old(effects).tame() && old(ship).pos.bounded(ARENA as int) ==> final(effects).tame(),
    {
        if controls.missile && !ship.shield_active && self.missile_ammo > 0
            && self.missile_cooldown.ready() {
            let from: Vec2 = ship.pos.plus(ship_dir.stretch(MISSILE_OFFSET, UNIT));
            self.missiles.push(HomingMissile::new(from, ship_dir));
            self.missile_ammo = self.missile_ammo - 1;
            self.missile_cooldown.reset();
            recoil(ship, ship_dir, MISSILE_RECOIL);
            effects.create_missile_launch(from, ship_dir);
            true
        } else {
            false
        }
    }

    /// Counts `dt` clock ticks towards the next missile and restocks one when
    /// a second is full.
    pub fn regen_missile_ammo(&mut self, dt: i64)
        requires
            0 <= old(self).ammo_regen_timer <= LIMIT,
            0 <= dt,
        ensures
            *final(self) == old(self).restocked(dt as int),
            old(self).missile_ammo <= final(self).missile_ammo <= old(self).missile_ammo + 1,
            old(self).missile_ammo <= MISSILE_AMMO_MAX ==> final(self).missile_ammo
                <= MISSILE_AMMO_MAX,
            0 <= final(self).ammo_regen_timer <= LIMIT,
    {
        if self.missile_ammo < MISSILE_AMMO_MAX {
            if dt >= MISSILE_REGEN_TIME - self.ammo_regen_timer {
                self.missile_ammo = self.missile_ammo + 1;
                self.ammo_regen_timer = 0;
            } else {
                self.ammo_regen_timer = self.ammo_regen_timer + dt;
            }
        }
    }

    /// Switches the beam on if it is due: the ship recoils and the shot is
    /// announced.
    pub fn handle_laser(
        &mut self,
        ship: &mut Ship,
        ship_dir: Vec2,
        event_queue: &mut EventQueue,
        controls: &Controls,
    ) -> (lit: bool)
        requires
            old(ship).vel.bounded(SPEED_LIMIT - LASER_RECOIL),
            ship_dir.bounded(UNIT as int),
        ensures
            lit == old(self).laser_fires(*old(ship), *controls),
            lit ==> *final(self) == old(self).laser_lit(old(ship).pos, ship_dir),
            lit ==> *final(ship) == recoiled(*old(ship), ship_dir, LASER_RECOIL as int),
            lit ==> final(event_queue)@ == old(event_queue)@.push(
                Event::LaserFired { pos: old(ship).pos, dir: ship_dir },
            ),
            !lit ==> *final(self) == *old(self),
            !lit ==> *final(ship) == *old(ship),
            !lit ==> final(event_queue)@ == old(event_queue)@,
            events_home(old(event_queue)@) && old(ship).pos.bounded(ARENA as int) ==> events_home(
                final(event_queue)@,
            ),
    {
        if controls.laser && !ship.shield_active && self.laser.cooldown.ready()
            && !self.laser.active {
            self.laser.fire(ship.pos, ship_dir);
            recoil(ship, ship_dir, LASER_RECOIL);
            event_queue.push(Event::LaserFired { pos: ship.pos, dir: ship_dir });
            true
        } else {
            false
        }
    }

    /// Fires the base gun and launches a missile, each where it is due.
    fn fire_and_launch(
        &mut self,
        ship: &mut Ship,
        ship_dir: Vec2,
        world: &mut World,
        effects: &mut EffectSystem,
        controls: &Controls,
    ) -> (done: (bool, bool))
        requires
            old(self).wf(),
            old(ship).wf(),
            old(ship).cruising(),
            ship_dir.bounded(UNIT as int),
        ensures
            done.0 == old(self).gun_fires(*old(ship), *controls),
            done.1 == old(self).missile_launches(*old(ship), *controls),
            *final(self) == (if done.1 {
                (if done.0 {
                    old(self).gun_fired(*old(ship))
                } else {
                    *old(self)
                }).missile_launched()
            } else if done.0 {
                old(self).gun_fired(*old(ship))
            } else {
                *old(self)
            }).with_missiles_of(*final(self)),
            final(self).missiles@ == if done.1 {
                old(self).missiles@.push(WeaponSystem::missile_of(*old(ship), ship_dir))
            } else {
                old(self).missiles@
            },
            *final(ship) == (Ship { vel: final(ship).vel, ..*old(ship) }),
            final(ship).vel == (if done.1 {
                recoiled(
                    if done.0 {
                        recoiled(*old(ship), ship_dir, GUN_RECOIL as int)
                    } else {
                        *old(ship)
                    },
                    ship_dir,
                    MISSILE_RECOIL as int,
                )
            } else if done.0 {
                recoiled(*old(ship), ship_dir, GUN_RECOIL as int)
            } else {
                *old(ship)
            }).vel,
            final(ship).vel.bounded(SPEED_LIMIT - LASER_RECOIL),
            final(world).bullets@ == if done.0 {
                old(world).bullets@.push(WeaponSystem::gun_shot_of(*old(ship), ship_dir))
            } else {
                old(world).bullets@
            },
            final(world).same_but_bullets(*old(world)),
            weapons_flashed(*old(effects), *final(effects), done.0, done.1, *old(ship), ship_dir),
            final(self).wf(),
            WeaponSystem::gun_shot_of(*old(ship), ship_dir).wf(),
            old(effects).wf() ==> final(effects).wf(),
            old(effects).tame() && old(ship).pos.bounded(ARENA as int) ==> final(effects).tame(),
    {
        let ghost before = effects.particles@;
        let fired: bool = self.handle_shooting(ship, ship_dir, world, effects, controls);
        let ghost mid = effects.particles@;
        let launched: bool = self.handle_missile_launch(ship, ship_dir, effects, controls);
        proof {
            if fired {
                assert(effects.particles@.take(before.len() + MUZZLE_FLASH_COUNT) =~= mid);
            }
        }
        (fired, launched)
    }

    /// Advances the weapons by `dt` clock ticks under the given controls:
    /// cooldowns run down, the gun, the launcher and the beam fire where they
    /// are due, the stock of missiles is topped up and the beam advances.
    pub fn update(
        &mut self,
        dt: i64,
        ship: &mut Ship,
        world: &mut World,
        effects: &mut EffectSystem,
        event_queue: &mut EventQueue,
        controls: &Controls,
    )
        requires
            old(self).wf(),
            old(ship).wf(),
            old(ship).cruising(),
            0 <= dt,
        ensures
            *final(self) == old(self).updated(dt as int, *old(ship), *controls).with_missiles_of(
                *final(self),
            ),
            final(self).missiles@ == if old(self).cooled(dt as int).missile_launches(
                *old(ship),
                *controls,
            ) {
                old(self).missiles@.push(
                    WeaponSystem::missile_of(*old(ship), heading_of(old(ship).rot as int)),
                )
            } else {
                old(self).missiles@
            },
            *final(ship) == old(self).ship_after(dt as int, *old(ship), *controls),
            final(world).bullets@ == if old(self).cooled(dt as int).gun_fires(*old(ship), *controls) {
                old(world).bullets@.push(
                    WeaponSystem::gun_shot_of(*old(ship), heading_of(old(ship).rot as int)),
                )
            } else {
                old(world).bullets@
            },
            final(world).same_but_bullets(*old(world)),
            final(event_queue)@ == if old(self).cooled(dt as int).laser_fires(*old(ship), *controls) {
                old(event_queue)@.push(
                    Event::LaserFired { pos: old(ship).pos, dir: heading_of(old(ship).rot as int) },
                )
            } else {
                old(event_queue)@
            },
            weapons_flashed(
                *old(effects),
                *final(effects),
                old(self).cooled(dt as int).gun_fires(*old(ship), *controls),
                old(self).cooled(dt as int).missile_launches(*old(ship), *controls),
                *old(ship),
                heading_of(old(ship).rot as int),
            ),
            final(self).wf(),
            final(ship).wf(),
            WeaponSystem::gun_shot_of(*old(ship), heading_of(old(ship).rot as int)).wf(),
            old(effects).wf() ==> final(effects).wf(),
            old(ship).pos.bounded(ARENA as int) ==> WeaponSystem::gun_shot_of(
                *old(ship),
                heading_of(old(ship).rot as int),
            ).settled(),
            old(ship).pos.bounded(ARENA as int) && missiles_all_settled(old(self).missiles@)
                ==> missiles_all_settled(final(self).missiles@),
            final(self).missiles@.len() <= old(self).missiles@.len() + 1,
            final(world).bullets@.len() <= old(world).bullets@.len() + 1,
            events_home(old(event_queue)@) && old(ship).pos.bounded(ARENA as int) ==> events_home(
                final(event_queue)@,
            ),
            old(effects).tame() && old(ship).pos.bounded(ARENA as int) ==> final(effects).tame(),
    {
        self.fire_cooldown.tick(dt);
        self.missile_cooldown.tick(dt);
        let ship_dir: Vec2 = heading(ship.rot);
        let _fired = self.fire_and_launch(ship, ship_dir, world, effects, controls);
        self.regen_missile_ammo(dt);
        let _lit: bool = self.handle_laser(ship, ship_dir, event_queue, controls);
        self.laser.update(dt, ship.pos, ship_dir);
    }

    /// Advances the missiles in flight by `dt` clock ticks. Each flies on and
    /// steers towards the nearest intact drone or, where there is none, the
    /// nearest intact asteroid. Then each armed missile is tried against the
    /// drones and the asteroids; the first enemy it hits is damaged and the
    /// missile is used up.
    pub fn update_missiles(
        &mut self,
        dt: i64,
        world: &mut World,
        effects: &mut EffectSystem,
        score: &mut i32,
        combo: &mut i32,
        combo_timer: &mut Cooldown,
        enemies_killed: &mut i32,
        _event_queue: &mut EventQueue,
    )
        requires
            missiles_fit(old(self).missiles@, dt as int),
            drones_wf(old(world).drones@),
            asteroids_wf(old(world).asteroids@),
            0 <= dt <= LIMIT,
            *old(score) + (MISSILE_DRONE_SCORE + KILL_SCORE) * old(self).missiles@.len() <= i32::MAX,
            *old(combo) + old(self).missiles@.len() <= i32::MAX,
            *old(enemies_killed) + old(self).missiles@.len() <= i32::MAX,
        ensures
            ({
                let before = Field {
                    asteroids: old(world).asteroids@,
                    drones: old(world).drones@,
                    score: *old(score) as int,
                    combo: *old(combo) as int,
                    combo_timer: *old(combo_timer),
                    kills: *old(enemies_killed) as int,
                    blasts: Seq::<Blast>::empty(),
                    drops: Seq::<Vec2>::empty(),
                };
                let flown = old(self).missiles@.map_values(
                    |m: HomingMissile|
                        guided_of(m, old(world).drones@, old(world).asteroids@, dt as int),
                );
                let (kept, after) = missiles_resolved(flown, flown.len() as int, before);
                &&& final(self).missiles@ == kept
                &&& final(world).asteroids@ == after.asteroids
                &&& final(world).drones@ == after.drones
                &&& *final(score) == after.score
                &&& *final(combo) == after.combo
                &&& *final(combo_timer) == after.combo_timer
                &&& *final(enemies_killed) == after.kills
                &&& blasts_added(old(effects).particles@, final(effects).particles@, after.blasts)
                &&& drops_taken(old(world).powerups@, final(world).powerups@, after.drops)
            }),
            *final(self) == old(self).with_missiles_of(*final(self)),
            final(world).bullets@ == old(world).bullets@,
            missiles_wf(final(self).missiles@),
            final(self).missiles@.len() <= old(self).missiles@.len(),
            drones_wf(final(world).drones@),
            asteroids_wf(final(world).asteroids@),
            final(world).drones@.len() == old(world).drones@.len(),
            final(world).asteroids@.len() == old(world).asteroids@.len(),
            final(world).powerups@.len() <= old(world).powerups@.len() + old(self).missiles@.len(),
            powerups_wf(old(world).powerups@) ==> powerups_wf(final(world).powerups@),
            dt <= LONGEST_STEP && missiles_all_settled(old(self).missiles@) ==> missiles_astray(final(self).missiles@),
            asteroids_astray(old(world).asteroids@) ==> asteroids_astray(final(world).asteroids@),
            drones_astray(old(world).drones@) ==> drones_astray(final(world).drones@),
            powerups_astray(old(world).powerups@) && asteroids_astray(old(world).asteroids@)
                && drones_astray(old(world).drones@) ==> powerups_astray(final(world).powerups@),
            powerups_settled(old(world).powerups@) && asteroids_astray(old(world).asteroids@)
                && drones_astray(old(world).drones@) ==> powerups_settled(final(world).powerups@),
            *old(score) <= *final(score) <= *old(score) + 70 * old(self).missiles@.len(),
            *old(enemies_killed) <= *final(enemies_killed),
            *final(enemies_killed) <= *old(enemies_killed) + old(self).missiles@.len(),
            *final(combo) <= *old(combo) + old(self).missiles@.len(),
            old(combo_timer).wf() ==> final(combo_timer).wf(),
            old(effects).tame() && dt <= LONGEST_STEP && missiles_all_settled(old(self).missiles@)
                ==> final(effects).tame(),
            old(effects).wf() ==> final(effects).wf(),
            final(effects).trail@ == old(effects).trail@,
            final(_event_queue)@ == old(_event_queue)@,
            forall|j: int|
                0 <= j < final(world).drones@.len() ==> (#[trigger] final(world).drones@[j]).hp
                    >= smaller(old(world).drones@[j].hp as int, 1) - MISSILE_DAMAGE,
    {
        let n: usize = self.missiles.len();
        let ghost flown = self.missiles@.map_values(
            |m: HomingMissile| guided_of(m, world.drones@, world.asteroids@, dt as int),
        );
        let mut i: usize = 0;
        while i < n
            invariant
                0 <= i <= n,
                n == self.missiles@.len(),
                n == old(self).missiles@.len(),
                n == flown.len(),
                0 <= dt <= LIMIT,
                *self == old(self).with_missiles_of(*self),
                *world == *old(world),
                drones_wf(world.drones@),
                asteroids_wf(world.asteroids@),
                forall|j: int| 0 <= j < i ==> self.missiles@[j] == flown[j],
                forall|j: int| 0 <= j < i ==> (#[trigger] self.missiles@[j]).wf(),
                dt <= LONGEST_STEP && missiles_all_settled(old(self).missiles@) ==> forall|j: int|
                    0 <= j < i ==> (#[trigger] self.missiles@[j]).astray(),
                forall|j: int| i <= j < n ==> self.missiles@[j] == old(self).missiles@[j],
                missiles_fit(old(self).missiles@, dt as int),
                forall|j: int|
                    0 <= j < n ==> flown[j] == guided_of(
                        #[trigger] old(self).missiles@[j],
                        world.drones@,
                        world.asteroids@,
                        dt as int,
                    ),
            decreases n - i,
        {
            let mut m: HomingMissile = self.missiles[i];
            m.update(dt);
            match find_target(m.pos, &world.drones, &world.asteroids) {
                Some(target) => {
                    m.homing(target, dt);
                },
                None => {},
            }
            self.missiles[i] = m;
            i = i + 1;
        }

        let ghost start = Field {
            asteroids: world.asteroids@,
            drones: world.drones@,
            score: *score as int,
            combo: *combo as int,
            combo_timer: *combo_timer,
            kills: *enemies_killed as int,
            blasts: Seq::<Blast>::empty(),
            drops: Seq::<Vec2>::empty(),
        };
        let ghost mut f = start;
        let ghost lit = effects.particles@;
        let mut kept: Vec<HomingMissile> = Vec::new();
        let mut k: usize = 0;
        while k < n
            invariant
                0 <= k <= n,
                n == self.missiles@.len(),
                self.missiles@ == flown,
                *self == old(self).with_missiles_of(*self),
                world.bullets@ == old(world).bullets@,
                missiles_wf(self.missiles@),
                missiles_wf(kept@),
                kept@.len() <= k,
                drones_wf(world.drones@),
                asteroids_wf(world.asteroids@),
                world.drones@.len() == old(world).drones@.len(),
                world.asteroids@.len() == old(world).asteroids@.len(),
                powerups_wf(old(world).powerups@) ==> powerups_wf(world.powerups@),
                world.powerups@.len() <= old(world).powerups@.len() + k,
                dt <= LONGEST_STEP && missiles_all_settled(old(self).missiles@) ==> missiles_astray(self.missiles@),
                dt <= LONGEST_STEP && missiles_all_settled(old(self).missiles@) ==> missiles_astray(kept@),
                asteroids_astray(old(world).asteroids@) ==> asteroids_astray(world.asteroids@),
                drones_astray(old(world).drones@) ==> drones_astray(world.drones@),
                powerups_astray(old(world).powerups@) && asteroids_astray(old(world).asteroids@)
                    && drones_astray(old(world).drones@) ==> powerups_astray(world.powerups@),
                powerups_settled(old(world).powerups@) && asteroids_astray(old(world).asteroids@)
                    && drones_astray(old(world).drones@) ==> powerups_settled(world.powerups@),
                *old(score) <= *score,
                *old(enemies_killed) <= *enemies_killed,
                old(combo_timer).wf() ==> combo_timer.wf(),
                old(effects).tame() && dt <= LONGEST_STEP && missiles_all_settled(old(self).missiles@)
                    ==> effects.tame(),
                forall|j: int|
                    0 <= j < world.drones@.len() ==> (#[trigger] world.drones@[j]).hp >= smaller(
                        old(world).drones@[j].hp as int,
                        1,
                    ) - MISSILE_DAMAGE,
                missiles_resolved(flown, k as int, start) == (kept@, f),
                f.asteroids == world.asteroids@,
                f.drones == world.drones@,
                f.score == *score,
                f.combo == *combo,
                f.combo_timer == *combo_timer,
                f.kills == *enemies_killed,
                blasts_added(lit, effects.particles@, f.blasts),
                lit == old(effects).particles@,
                effects.trail@ == old(effects).trail@,
                old(effects).wf() ==> effects.wf(),
                drops_taken(old(world).powerups@, world.powerups@, f.drops),
                *score <= *old(score) + 70 * k,
                *combo <= *old(combo) + k,
                *enemies_killed <= *old(enemies_killed) + k,
                *old(score) + 70 * n <= i32::MAX,
                *old(combo) + n <= i32::MAX,
                *old(enemies_killed) + n <= i32::MAX,
            decreases n - k,
        {
            let m: HomingMissile = self.missiles[k];
            let mut used: bool = false;
            if !m.hit {
                match find_drone(&world.drones, m.pos, BULLET_COLLISION_RADIUS) {
                    Some(di) => {
                        let d: Drone = world.drones[di];
                        let mut hit: Drone = d;
                        hit.hp = hit.hp - MISSILE_DAMAGE;
                        world.drones[di] = hit;
                        *score = *score + MISSILE_DRONE_SCORE;
                        *combo = *combo + 1;
                        combo_timer.reset();
                        effects.explode(
                            m.pos,
                            Color::Orange,
                            MISSILE_BLAST_COUNT,
                            Ghost(lit),
                            Ghost(f.blasts),
                        );
                        let ghost sites = f.drops;
                        proof {
                            f = drone_blasted(f, di as int, m.pos);
                        }
                        if hit.hp <= 0 {
                            *enemies_killed = *enemies_killed + 1;
                            *score = *score + KILL_SCORE;
                            maybe_drop(
                                &mut world.powerups,
                                d.pos,
                                Ghost(old(world).powerups@),
                                Ghost(sites),
                            );
                        }
                        used = true;
                    },
                    None => {
                        match find_asteroid(&world.asteroids, m.pos, BLAST_MARGIN) {
                            Some(ai) => {
                                let a: Asteroid = world.asteroids[ai];
                                let mut hit: Asteroid = a;
                                let destroyed: bool = hit.take_damage(HEAVY_DAMAGE);
                                world.asteroids[ai] = hit;
                                *score = *score + MISSILE_ASTEROID_SCORE;
                                *combo = *combo + 1;
                                combo_timer.reset();
                                effects.explode(
                                    m.pos,
                                    Color::Orange,
                                    MISSILE_BLAST_COUNT,
                                    Ghost(lit),
                                    Ghost(f.blasts),
                                );
                                let ghost sites = f.drops;
                                proof {
                                    f = asteroid_blasted(f, ai as int, m.pos);
                                }
                                if destroyed {
                                    maybe_drop(
                                        &mut world.powerups,
                                        a.pos,
                                        Ghost(old(world).powerups@),
                                        Ghost(sites),
                                    );
                                }
                                used = true;
                            },
                            None => {},
                        }
                    },
                }
            }
            if !used {
                kept.push(m);
            }
            k = k + 1;
        }
        self.missiles = kept;
    }

    /// Lets the beam, while it is on, burn the enemies it passes: the intact
    /// drones in turn, then the intact asteroids, and no more of them in one
    /// step than the beam can pierce.
    pub fn update_laser(
        &mut self,
        _dt: i64,
        _ship: &Ship,
        world: &mut World,
        effects: &mut EffectSystem,
        score: &mut i32,
        enemies_killed: &mut i32,
        _event_queue: &mut EventQueue,
    )
        requires
            old(self).laser.wf(),
            drones_wf(old(world).drones@),
            asteroids_wf(old(world).asteroids@),
            *old(score) + KILL_SCORE * LASER_MAX_PENETRATION <= i32::MAX,
            *old(enemies_killed) + LASER_MAX_PENETRATION <= i32::MAX,
        ensures
            ({
                let before = Sweep {
                    drones: old(world).drones@,
                    asteroids: old(world).asteroids@,
                    hits: 0,
                    score: *old(score) as int,
                    kills: *old(enemies_killed) as int,
                    blasts: Seq::<Blast>::empty(),
                    drops: Seq::<Vec2>::empty(),
                };
                let after = laser_swept(old(self).laser, before);
                &&& final(world).drones@ == after.drones
                &&& final(world).asteroids@ == after.asteroids
                &&& *final(score) == after.score
                &&& *final(enemies_killed) == after.kills
                &&& blasts_added(old(effects).particles@, final(effects).particles@, after.blasts)
                &&& drops_taken(old(world).powerups@, final(world).powerups@, after.drops)
                &&& after.hits <= LASER_MAX_PENETRATION
            }),
            *final(self) == *old(self),
            final(world).bullets@ == old(world).bullets@,
            drones_wf(final(world).drones@),
            asteroids_wf(final(world).asteroids@),
            final(world).drones@.len() == old(world).drones@.len(),
            final(world).asteroids@.len() == old(world).asteroids@.len(),
            final(world).powerups@.len() <= old(world).powerups@.len() + LASER_MAX_PENETRATION,
            powerups_wf(old(world).powerups@) ==> powerups_wf(final(world).powerups@),
            asteroids_astray(old(world).asteroids@) ==> asteroids_astray(final(world).asteroids@),
            drones_astray(old(world).drones@) ==> drones_astray(final(world).drones@),
            powerups_astray(old(world).powerups@) && asteroids_astray(old(world).asteroids@)
                && drones_astray(old(world).drones@) ==> powerups_astray(final(world).powerups@),
            powerups_settled(old(world).powerups@) && asteroids_astray(old(world).asteroids@)
                && drones_astray(old(world).drones@) ==> powerups_settled(final(world).powerups@),
            *old(score) <= *final(score) <= *old(score) + KILL_SCORE * LASER_MAX_PENETRATION,
            *old(enemies_killed) <= *final(enemies_killed) <= *old(enemies_killed)
                + LASER_MAX_PENETRATION,
            old(effects).tame() && asteroids_astray(old(world).asteroids@) && drones_astray(
                old(world).drones@,
            ) ==> final(effects).tame(),
            old(effects).wf() ==> final(effects).wf(),
            final(effects).trail@ == old(effects).trail@,
            final(_event_queue)@ == old(_event_queue)@,
            forall|j: int|
                0 <= j < final(world).drones@.len() ==> (#[trigger] final(world).drones@[j]).hp
                    >= smaller(old(world).drones@[j].hp as int, 1) - LASER_DAMAGE,
    {
        if !self.laser.active {
            return;
        }
        let beam_start: Vec2 = self.laser.start_pos;
        let beam_dir: Vec2 = self.laser.direction;
        let mut hit_count: i32 = 0;
        let ghost start = Sweep {
            drones: world.drones@,
            asteroids: world.asteroids@,
            hits: 0,
            score: *score as int,
            kills: *enemies_killed as int,
            blasts: Seq::<Blast>::empty(),
            drops: Seq::<Vec2>::empty(),
        };
        let ghost mut s = start;
        let ghost lit = effects.particles@;
        let n: usize = world.drones.len();
        let mut i: usize = 0;
        while i < n && hit_count < LASER_MAX_PENETRATION
            invariant
                0 <= i <= n,
                n == world.drones@.len(),
                n == old(world).drones@.len(),
                world.asteroids@ == old(world).asteroids@,
                world.bullets@ == old(world).bullets@,
                beam_start.bounded(LIMIT / 2),
                beam_dir.bounded(UNIT as int),
                drones_wf(world.drones@),
                powerups_wf(old(world).powerups@) ==> powerups_wf(world.powerups@),
                world.powerups@.len() <= old(world).powerups@.len() + hit_count,
                drones_astray(old(world).drones@) ==> drones_astray(world.drones@),
                powerups_astray(old(world).powerups@) && asteroids_astray(old(world).asteroids@)
                    && drones_astray(old(world).drones@) ==> powerups_astray(world.powerups@),
                powerups_settled(old(world).powerups@) && asteroids_astray(old(world).asteroids@)
                    && drones_astray(old(world).drones@) ==> powerups_settled(world.powerups@),
                *old(score) <= *score,
                *old(enemies_killed) <= *enemies_killed,
                old(effects).tame() && asteroids_astray(old(world).asteroids@) && drones_astray(
                    old(world).drones@,
                ) ==> effects.tame(),
                forall|j: int|
                    0 <= j < world.drones@.len() ==> (#[trigger] world.drones@[j]).hp >= smaller(
                        old(world).drones@[j].hp as int,
                        1,
                    ) - LASER_DAMAGE,
                drones_swept(start, i as int, beam_start, beam_dir) == s,
                s.drones == world.drones@,
                s.asteroids == world.asteroids@,
                s.hits == hit_count,
                s.score == *score,
                s.kills == *enemies_killed,
                blasts_added(lit, effects.particles@, s.blasts),
                lit == old(effects).particles@,
                effects.trail@ == old(effects).trail@,
                old(effects).wf() ==> effects.wf(),
                drops_taken(old(world).powerups@, world.powerups@, s.drops),
                0 <= hit_count <= LASER_MAX_PENETRATION,
                *score <= *old(score) + KILL_SCORE * hit_count,
                *enemies_killed <= *old(enemies_killed) + hit_count,
                *old(score) + KILL_SCORE * LASER_MAX_PENETRATION <= i32::MAX,
                *old(enemies_killed) + LASER_MAX_PENETRATION <= i32::MAX,
            decreases n - i,
        {
            let d: Drone = world.drones[i];
            if d.hp > 0 && beam_hits(beam_start, beam_dir, d.pos, BULLET_COLLISION_RADIUS) {
                let mut hit: Drone = d;
                hit.hp = hit.hp - LASER_DAMAGE;
                world.drones[i] = hit;
                hit_count = hit_count + 1;
                effects.explode(d.pos, Color::Red, LASER_BURN_COUNT, Ghost(lit), Ghost(s.blasts));
                let ghost sites = s.drops;
                proof {
                    s = drone_swept(s, i as int, beam_start, beam_dir);
                }
                if hit.hp <= 0 {
                    *score = *score + KILL_SCORE;
                    *enemies_killed = *enemies_killed + 1;
                    maybe_drop(&mut world.powerups, d.pos, Ghost(old(world).powerups@), Ghost(sites));
                }
            }
            i = i + 1;
        }
        proof {
            if i < n {
                lemma_drones_past_cap(start, i as int, n as int, beam_start, beam_dir);
            }
        }
        let ghost middle = s;
        let m: usize = world.asteroids.len();
        let mut k: usize = 0;
        while k < m && hit_count < LASER_MAX_PENETRATION
            invariant
                0 <= k <= m,
                m == world.asteroids@.len(),
                m == old(world).asteroids@.len(),
                m == middle.asteroids.len(),
                world.drones@ == middle.drones,
                world.bullets@ == old(world).bullets@,
                beam_start.bounded(LIMIT / 2),
                beam_dir.bounded(UNIT as int),
                asteroids_wf(world.asteroids@),
                powerups_wf(old(world).powerups@) ==> powerups_wf(world.powerups@),
                world.powerups@.len() <= old(world).powerups@.len() + hit_count,
                drones_astray(old(world).drones@) ==> drones_astray(world.drones@),
                asteroids_astray(old(world).asteroids@) ==> asteroids_astray(world.asteroids@),
                powerups_astray(old(world).powerups@) && asteroids_astray(old(world).asteroids@)
                    && drones_astray(old(world).drones@) ==> powerups_astray(world.powerups@),
                powerups_settled(old(world).powerups@) && asteroids_astray(old(world).asteroids@)
                    && drones_astray(old(world).drones@) ==> powerups_settled(world.powerups@),
                *old(score) <= *score <= *old(score) + KILL_SCORE * LASER_MAX_PENETRATION,
                *old(enemies_killed) <= *enemies_killed <= *old(enemies_killed)
                    + LASER_MAX_PENETRATION,
                old(effects).tame() && asteroids_astray(old(world).asteroids@) && drones_astray(
                    old(world).drones@,
                ) ==> effects.tame(),
                forall|j: int|
                    0 <= j < world.drones@.len() ==> (#[trigger] world.drones@[j]).hp >= smaller(
                        old(world).drones@[j].hp as int,
                        1,
                    ) - LASER_DAMAGE,
                asteroids_swept(middle, k as int, beam_start, beam_dir) == s,
                s.drones == world.drones@,
                s.asteroids == world.asteroids@,
                s.hits == hit_count,
                s.score == *score,
                s.kills == *enemies_killed,
                blasts_added(lit, effects.particles@, s.blasts),
                lit == old(effects).particles@,
                effects.trail@ == old(effects).trail@,
                old(effects).wf() ==> effects.wf(),
                drops_taken(old(world).powerups@, world.powerups@, s.drops),
                0 <= hit_count <= LASER_MAX_PENETRATION,
            decreases m - k,
        {
            let a: Asteroid = world.asteroids[k];
            if a.radius > ASTEROID_MIN_RADIUS && beam_hits(
                beam_start,
                beam_dir,
                a.pos,
                a.radius + BLAST_MARGIN,
            ) {
                let mut hit: Asteroid = a;
                let destroyed: bool = hit.take_damage(SHOT_DAMAGE);
                world.asteroids[k] = hit;
                hit_count = hit_count + 1;
                effects.explode(a.pos, Color::Red, LASER_BURN_COUNT, Ghost(lit), Ghost(s.blasts));
                let ghost sites = s.drops;
                proof {
                    s = asteroid_swept(s, k as int, beam_start, beam_dir);
                }
                if destroyed {
                    maybe_drop(&mut world.powerups, a.pos, Ghost(old(world).powerups@), Ghost(sites));
                }
            }
            k = k + 1;
        }
        proof {
            if k < m {
                lemma_asteroids_past_cap(middle, k as int, m as int, beam_start, beam_dir);
            }
        }
    }
}

} // verus!
