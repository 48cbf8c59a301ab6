//! The simulation as a whole: everything on the field, the score and the
//! waves, and the order in which one step advances them.
use crate::collisions::{
    Clash, Field, HEAVY_SHAKE, Hull, Stock, asteroids_astray, asteroids_met, asteroids_settled,
    bullets_astray, bullets_settled, drones_astray, drones_floor, drones_met, drones_settled,
    drops_taken, explosion_of, handle_enemy_bullet_collisions, handle_friendly_bullet_collisions,
    handle_powerup_collisions, handle_ship_asteroid_collisions, handle_ship_drone_collisions,
    hostile_shots_resolved, powerups_astray, powerups_collected, powerups_settled, shake_steady,
    shots_resolved,
};
use crate::consts::{ARENA, BOUNCE_SCORE, COLLATERAL_SCORE, LASER_MAX_PENETRATION, MISSILE_AMMO_MAX};
use crate::controls::Controls;
use crate::cooldown::{Cooldown, larger};
use crate::effects::{
    Blast, EffectSystem, Particle, blasts_added, events_home, lemma_blasts_concat, particles_after,
    trail_dimmed,
};
use crate::enemies::{Asteroid, Bullet, Drone, PowerUp};
use crate::events::{Color, Event, EventQueue};
use crate::rng::{comes_up, draw, uniform};
use crate::seqs::{lemma_filter_step, lemma_take_all};
use crate::ship::{Ship, heading_of, trail_after, valid_screen};
use crate::units::{LIMIT, LONGEST_STEP, in_limit, lemma_product_bound, scaled, scaled_of};
use crate::vec2::{Vec2, vec2_of};
use crate::weapons::{
    HomingMissile, Sweep, WeaponSystem, guided_of, laser_swept, lemma_settled_missiles_fit,
    missiles_all_settled, missiles_astray, missiles_resolved, weapons_flashed,
};
use vstd::prelude::*;

verus! {

/// Which screen the game is on.
#[derive(Clone, Copy, Debug, PartialEq, Eq, Structural)]
pub enum GameState {
    Menu,
    Playing,
    Paused,
    GameOver,
}

/// Everything on the field but the ship and its missiles.
pub struct World {
    pub asteroids: Vec<Asteroid>,
    pub drones: Vec<Drone>,
    pub bullets: Vec<Bullet>,
    pub powerups: Vec<PowerUp>,
}

/// The shaking of the screen after an impact.
#[derive(Clone, Copy, Debug, PartialEq, Eq, Structural)]
pub struct ScreenShake {
    /// How far the picture is thrown, in length steps.
    pub amount: i64,
    /// Time the shaking still lasts.
    pub timer: i64,
}

/// The whole simulation.
pub struct Game {
    pub state: GameState,
    pub score: i32,
    pub high_score: i32,
    /// Time played in this session.
    pub timer: i64,
    pub combo: i32,
    pub combo_timer: Cooldown,
    pub wave: i32,
    pub enemies_to_spawn: i32,
    pub enemies_killed: i32,
    /// Width and height of the playing field.
    pub screen: Vec2,
    pub ship: Ship,
    pub world: World,
    pub weapons: WeaponSystem,
    pub effects: EffectSystem,
    pub shake: ScreenShake,
    pub event_queue: EventQueue,
}

impl World {
    /// An empty field.
    pub fn new() -> (w: World)
        ensures
            w.asteroids@.len() == 0,
            w.drones@.len() == 0,
            w.bullets@.len() == 0,
            w.powerups@.len() == 0,
    {
        World {
            asteroids: Vec::new(),
            drones: Vec::new(),
            bullets: Vec::new(),
            powerups: Vec::new(),
        }
    }

    /// This field holds the asteroids, drones and power-ups of `other`.
    pub open spec fn same_but_bullets(self, other: World) -> bool {
        &&& self.asteroids@ == other.asteroids@
        &&& self.drones@ == other.drones@
        &&& self.powerups@ == other.powerups@
    }
}

impl ScreenShake {
    /// The shake set off with the given duration.
    pub open spec fn triggered(self, intensity: int) -> ScreenShake {
        ScreenShake { timer: intensity as i64, ..self }
    }

    /// The shake after `dt` clock ticks: while it lasts, the throw is ten
    /// length units per second left; after that the throw dies away by a
    /// tenth each step.
    pub open spec fn decayed(self, dt: int) -> ScreenShake {
        if self.timer > 0 {
            ScreenShake {
                amount: scaled_of(self.timer as int, 1, 100) as i64,
                timer: (self.timer - dt) as i64,
            }
        } else {
            ScreenShake { amount: scaled_of(self.amount as int, 9, 10) as i64, timer: self.timer }
        }
    }

    /// No shaking.
    pub fn new() -> (s: ScreenShake)
        ensures
            s.amount == 0,
            s.timer == 0,
    {
        ScreenShake { amount: 0, timer: 0 }
    }

    /// Lets `dt` clock ticks pass and draws how far the picture is thrown
    /// this step: less than the throw each way, and not at all once the
    /// throw has died away.
    pub fn update(&mut self, dt: i64) -> (offset: Vec2)
        requires
            in_limit(old(self).amount as int),
            in_limit(old(self).timer as int),
            in_limit(dt as int),
        ensures
            *final(self) == old(self).decayed(dt as int),
            final(self).amount > 0 ==> -final(self).amount <= offset.x < final(self).amount
                && -final(self).amount <= offset.y < final(self).amount,
            final(self).amount <= 0 ==> offset.x == 0 && offset.y == 0,
            in_limit(final(self).amount as int),
            shake_steady(*old(self)) && 0 <= dt <= LONGEST_STEP ==> shake_steady(*final(self)),
    {
        if self.timer > 0 {
            self.amount = scaled(self.timer, 1, 100);
            self.timer = self.timer - dt;
        } else {
            self.amount = scaled(self.amount, 9, 10);
        }
        if self.amount > 0 {
            let x: i64 = uniform(-self.amount, self.amount);
            let y: i64 = uniform(-self.amount, self.amount);
            Vec2 { x, y }
        } else {
            Vec2 { x: 0, y: 0 }
        }
    }

    /// Sets the shaking off for the given duration.
    pub fn trigger(&mut self, intensity: i64)
        ensures
            *final(self) == old(self).triggered(intensity as int),
            final(self).timer == intensity,
            final(self).amount == old(self).amount,
    {
        self.timer = intensity;
    }
}

/// Time without a hit after which the combo is lost.
pub const COMBO_TIME: i64 = 2_000_000;

/// Kills that clear the first wave.
pub const FIRST_WAVE_SIZE: i32 = 5;

/// Kills by which each wave is longer than the one before.
pub const WAVE_GROWTH: i32 = 3;

/// Score for each wave cleared, times the number of the wave that begins.
pub const WAVE_SCORE: i32 = 100;

/// Particles in the burst that marks a cleared wave.
pub const WAVE_BURST_COUNT: usize = 50;

/// Difficulty of wave zero, in thousandths.
pub const BASE_DIFFICULTY: i64 = 1500;

/// Difficulty added by each wave, in thousandths.
pub const WAVE_DIFFICULTY: i64 = 750;

/// One asteroid appears about every so many steps, divided by the
/// difficulty.
pub const ASTEROID_RARITY: i64 = 80_000;

/// One drone appears about every so many steps, divided by the difficulty.
pub const DRONE_RARITY: i64 = 200_000;

/// Drones there can be on the field, before those that the wave adds.
pub const DRONE_CAP: i32 = 5;

/// How far above the field an asteroid appears.
pub const ASTEROID_ENTRY: i64 = 50_000;

/// How far above the field a drone appears.
pub const DRONE_ENTRY: i64 = 20_000;

/// More entities than any pool can hold with room for a step: each could
/// cost more lives or points than an `i32` holds.
pub const FULL_POOL: usize = 4_294_967_295;

/// Most that a shot of the ship can score: a hit on a drone and its kill.
pub const SHOT_SCORE: i32 = 100;

/// Most that a missile can score: a hit on a drone and its kill.
pub const MISSILE_SCORE: i32 = 70;

/// Most that the beam can score in a step: a kill for each enemy it can
/// pierce.
pub const BEAM_SCORE: i32 = 250;

/// `n` times the score `each`.
fn times(each: i32, n: i128) -> (r: i128)
    requires
        0 <= each <= 1000,
        0 <= n <= 100_000_000_000_000_000_000,
    ensures
        r == each * n,
        r >= 0,
{
    proof {
        lemma_product_bound(each as int, n as int, 1000, 100_000_000_000_000_000_000);
        assert(each * n >= 0) by (nonlinear_arith)
            requires
                each >= 0,
                n >= 0,
        ;
    }
    (each as i128) * n
}

/// The number of steps of which about one lets an asteroid enter: eighty
/// over the difficulty.
pub fn asteroid_rarity(difficulty: i64) -> (n: i32)
    requires
        difficulty >= 1,
    ensures
        n == (ASTEROID_RARITY as int) / (difficulty as int),
        0 <= n <= ASTEROID_RARITY,
{
    proof {
        lemma_div_bounds(ASTEROID_RARITY as int, difficulty as int);
    }
    (ASTEROID_RARITY / difficulty) as i32
}

/// The number of steps of which about one lets a drone enter: two hundred
/// over the difficulty.
pub fn drone_rarity(difficulty: i64) -> (n: i32)
    requires
        difficulty >= 1,
    ensures
        n == (DRONE_RARITY as int) / (difficulty as int),
        0 <= n <= DRONE_RARITY,
{
    proof {
        lemma_div_bounds(DRONE_RARITY as int, difficulty as int);
    }
    (DRONE_RARITY / difficulty) as i32
}

/// Whether an asteroid enters in a step, given a draw out of the rarity of
/// asteroids at this difficulty: it does when the draw is zero, and always
/// where the difficulty is so high that the rarity is nothing.
pub fn asteroid_enters(drawn: i32, difficulty: i64) -> (r: bool)
    requires
        difficulty >= 1,
    ensures
        r == ((ASTEROID_RARITY as int) / (difficulty as int) <= 0 || drawn == 0),
{
    comes_up(drawn, asteroid_rarity(difficulty))
}

/// Whether a drone enters in a step, given a draw out of the rarity of
/// drones at this difficulty and the number of live drones: it does when
/// the draw is zero and there are fewer live drones than five and the
/// number of the wave.
pub fn drone_enters(drawn: i32, difficulty: i64, live: usize, wave: i32) -> (r: bool)
    requires
        difficulty >= 1,
        0 <= wave <= i32::MAX - DRONE_CAP,
    ensures
        r == (((DRONE_RARITY as int) / (difficulty as int) <= 0 || drawn == 0) && live < DRONE_CAP
            + wave),
{
    comes_up(drawn, drone_rarity(difficulty)) && live < (DRONE_CAP + wave) as usize
}

/// A draw out of `n`, or zero where `n` is not positive.
fn draw_out_of(n: i32) -> (r: i32)
    ensures
        n > 0 ==> 0 <= r < n,
        n <= 0 ==> r == 0,
{
    if n > 0 {
        draw(n)
    } else {
        0
    }
}

/// A quotient of a number that is not negative by a positive one lies between
/// zero and that number.
pub proof fn lemma_div_bounds(x: int, d: int)
    requires
        x >= 0,
        d >= 1,
    ensures
        0 <= x / d <= x,
{
    assert(0 <= x / d <= x) by (nonlinear_arith)
        requires
            x >= 0,
            d >= 1,
    ;
}

/// The difficulty of a wave, in thousandths: one and a half, and three
/// quarters more for each wave.
pub open spec fn difficulty_of(wave: int) -> int {
    BASE_DIFFICULTY + WAVE_DIFFICULTY * wave
}

/// The kills that clear a wave.
pub open spec fn wave_size_of(wave: int) -> int {
    FIRST_WAVE_SIZE + wave * WAVE_GROWTH
}

/// The asteroids of `pool` that are alive on a field of the given size.
pub open spec fn live_asteroids(pool: Seq<Asteroid>, screen: Vec2) -> Seq<Asteroid> {
    pool.filter(|e: Asteroid| e.alive(screen))
}

/// Drops the asteroids that are not alive.
fn sweep_asteroids(pool: &mut Vec<Asteroid>, screen: Vec2)
    requires
        valid_screen(screen),
    ensures
        final(pool)@ == live_asteroids(old(pool)@, screen),
        final(pool)@.len() <= old(pool)@.len(),
        asteroids_astray(old(pool)@) ==> asteroids_settled(final(pool)@),
{
    let ghost keep = |e: Asteroid| e.alive(screen);
    let mut kept: Vec<Asteroid> = Vec::new();
    let n: usize = pool.len();
    let mut i: usize = 0;
    while i < n
        invariant
            0 <= i <= n,
            n == pool@.len(),
            pool@ == old(pool)@,
            valid_screen(screen),
            keep == |e: Asteroid| e.alive(screen),
            kept@ == pool@.take(i as int).filter(keep),
            kept@.len() <= i,
            asteroids_astray(pool@) ==> asteroids_settled(kept@),
        decreases n - i,
    {
        let e: Asteroid = pool[i];
        proof {
            lemma_filter_step(pool@, keep, i as int);
        }
        if e.is_alive(screen) {
            kept.push(e);
        }
        i = i + 1;
    }
    proof {
        lemma_take_all(pool@);
    }
    *pool = kept;
}

/// The drones of `pool` that are alive on a field of the given size.
pub open spec fn live_drones(pool: Seq<Drone>, screen: Vec2) -> Seq<Drone> {
    pool.filter(|e: Drone| e.alive(screen))
}

/// Drops the drones that are not alive.
fn sweep_drones(pool: &mut Vec<Drone>, screen: Vec2)
    requires
        valid_screen(screen),
    ensures
        final(pool)@ == live_drones(old(pool)@, screen),
        final(pool)@.len() <= old(pool)@.len(),
        drones_astray(old(pool)@) ==> drones_settled(final(pool)@),
{
    let ghost keep = |e: Drone| e.alive(screen);
    let mut kept: Vec<Drone> = Vec::new();
    let n: usize = pool.len();
    let mut i: usize = 0;
    while i < n
        invariant
            0 <= i <= n,
            n == pool@.len(),
            pool@ == old(pool)@,
            valid_screen(screen),
            keep == |e: Drone| e.alive(screen),
            kept@ == pool@.take(i as int).filter(keep),
            kept@.len() <= i,
            drones_astray(pool@) ==> drones_settled(kept@),
        decreases n - i,
    {
        let e: Drone = pool[i];
        proof {
            lemma_filter_step(pool@, keep, i as int);
        }
        if e.is_alive(screen) {
            kept.push(e);
        }
        i = i + 1;
    }
    proof {
        lemma_take_all(pool@);
    }
    *pool = kept;
}

/// The shots of `pool` that are alive on a field of the given size.
pub open spec fn live_bullets(pool: Seq<Bullet>, screen: Vec2) -> Seq<Bullet> {
    pool.filter(|e: Bullet| e.alive(screen))
}

/// Drops the shots that are not alive.
fn sweep_bullets(pool: &mut Vec<Bullet>, screen: Vec2)
    requires
        valid_screen(screen),
    ensures
        final(pool)@ == live_bullets(old(pool)@, screen),
        final(pool)@.len() <= old(pool)@.len(),
        bullets_astray(old(pool)@) ==> bullets_settled(final(pool)@),
{
    let ghost keep = |e: Bullet| e.alive(screen);
    let mut kept: Vec<Bullet> = Vec::new();
    let n: usize = pool.len();
    let mut i: usize = 0;
    while i < n
        invariant
            0 <= i <= n,
            n == pool@.len(),
            pool@ == old(pool)@,
            valid_screen(screen),
            keep == |e: Bullet| e.alive(screen),
            kept@ == pool@.take(i as int).filter(keep),
            kept@.len() <= i,
            bullets_astray(pool@) ==> bullets_settled(kept@),
        decreases n - i,
    {
        let e: Bullet = pool[i];
        proof {
            lemma_filter_step(pool@, keep, i as int);
        }
        if e.is_alive(screen) {
            kept.push(e);
        }
        i = i + 1;
    }
    proof {
        lemma_take_all(pool@);
    }
    *pool = kept;
}

/// The power-ups of `pool` that are alive on a field of the given size.
pub open spec fn live_powerups(pool: Seq<PowerUp>, screen: Vec2) -> Seq<PowerUp> {
    pool.filter(|e: PowerUp| e.alive(screen))
}

/// Drops the power-ups that are not alive.
fn sweep_powerups(pool: &mut Vec<PowerUp>, screen: Vec2)
    requires
        valid_screen(screen),
    ensures
        final(pool)@ == live_powerups(old(pool)@, screen),
        final(pool)@.len() <= old(pool)@.len(),
        powerups_astray(old(pool)@) ==> powerups_settled(final(pool)@),
{
    let ghost keep = |e: PowerUp| e.alive(screen);
    let mut kept: Vec<PowerUp> = Vec::new();
    let n: usize = pool.len();
    let mut i: usize = 0;
    while i < n
        invariant
            0 <= i <= n,
            n == pool@.len(),
            pool@ == old(pool)@,
            valid_screen(screen),
            keep == |e: PowerUp| e.alive(screen),
            kept@ == pool@.take(i as int).filter(keep),
            kept@.len() <= i,
            powerups_astray(pool@) ==> powerups_settled(kept@),
        decreases n - i,
    {
        let e: PowerUp = pool[i];
        proof {
            lemma_filter_step(pool@, keep, i as int);
        }
        if e.is_alive(screen) {
            kept.push(e);
        }
        i = i + 1;
    }
    proof {
        lemma_take_all(pool@);
    }
    *pool = kept;
}

/// The missiles of `pool` that are alive on a field of the given size.
pub open spec fn live_missiles(pool: Seq<HomingMissile>, screen: Vec2) -> Seq<HomingMissile> {
    pool.filter(|e: HomingMissile| e.alive(screen))
}

/// Drops the missiles that are not alive.
fn sweep_missiles(pool: &mut Vec<HomingMissile>, screen: Vec2)
    requires
        valid_screen(screen),
    ensures
        final(pool)@ == live_missiles(old(pool)@, screen),
        final(pool)@.len() <= old(pool)@.len(),
        missiles_astray(old(pool)@) ==> missiles_all_settled(final(pool)@),
{
    let ghost keep = |e: HomingMissile| e.alive(screen);
    let mut kept: Vec<HomingMissile> = Vec::new();
    let n: usize = pool.len();
    let mut i: usize = 0;
    while i < n
        invariant
            0 <= i <= n,
            n == pool@.len(),
            pool@ == old(pool)@,
            valid_screen(screen),
            keep == |e: HomingMissile| e.alive(screen),
            kept@ == pool@.take(i as int).filter(keep),
            kept@.len() <= i,
            missiles_astray(pool@) ==> missiles_all_settled(kept@),
        decreases n - i,
    {
        let e: HomingMissile = pool[i];
        proof {
            lemma_filter_step(pool@, keep, i as int);
        }
        if e.is_alive(screen) {
            kept.push(e);
        }
        i = i + 1;
    }
    proof {
        lemma_take_all(pool@);
    }
    *pool = kept;
}

/// The drone `d` after its turn in a step: it moves, then fires if it can.
pub open spec fn drone_turn(d: Drone, dt: int, ship: Ship) -> Drone {
    let moved = d.stepped(dt, ship.pos);
    if moved.fires() {
        moved.reloaded()
    } else {
        moved
    }
}

/// The shots that the first `n` drones fire in their turns, in the order of
/// the drones.
pub open spec fn drone_shots(drones: Seq<Drone>, n: int, dt: int, ship: Ship) -> Seq<Bullet>
    decreases n,
{
    if n <= 0 {
        Seq::<Bullet>::empty()
    } else {
        let rest = drone_shots(drones, n - 1, dt, ship);
        let moved = drones[n - 1].stepped(dt, ship.pos);
        if moved.fires() {
            rest.push(moved.shot_of(ship.pos, ship.vel))
        } else {
            rest
        }
    }
}

/// The asteroids after each has drifted for `dt`.
pub open spec fn asteroids_stepped(pool: Seq<Asteroid>, dt: int) -> Seq<Asteroid> {
    pool.map_values(|a: Asteroid| a.stepped(dt))
}

/// The drones after each has had its turn.
pub open spec fn drones_stepped(pool: Seq<Drone>, dt: int, ship: Ship) -> Seq<Drone> {
    pool.map_values(|d: Drone| drone_turn(d, dt, ship))
}

/// The shots after each has flown for `dt`.
pub open spec fn bullets_stepped(pool: Seq<Bullet>, dt: int) -> Seq<Bullet> {
    pool.map_values(|b: Bullet| b.stepped(dt))
}

/// The power-ups after each has fallen for `dt`.
pub open spec fn powerups_stepped(pool: Seq<PowerUp>, dt: int) -> Seq<PowerUp> {
    pool.map_values(|p: PowerUp| p.stepped(dt))
}

/// Lets every asteroid drift for `dt`.
fn step_asteroids(pool: &mut Vec<Asteroid>, dt: i64)
    requires
        asteroids_settled(old(pool)@),
        0 <= dt <= LONGEST_STEP,
    ensures
        final(pool)@ == asteroids_stepped(old(pool)@, dt as int),
        asteroids_astray(final(pool)@),
{
    let n: usize = pool.len();
    let mut i: usize = 0;
    while i < n
        invariant
            0 <= i <= n,
            n == pool@.len(),
            n == old(pool)@.len(),
            0 <= dt <= LONGEST_STEP,
            asteroids_settled(old(pool)@),
            forall|j: int| 0 <= j < i ==> pool@[j] == (#[trigger] old(pool)@[j]).stepped(dt as int),
            forall|j: int| 0 <= j < i ==> (#[trigger] pool@[j]).astray(),
            forall|j: int| i <= j < n ==> pool@[j] == old(pool)@[j],
        decreases n - i,
    {
        let mut a: Asteroid = pool[i];
        a.update(dt);
        pool[i] = a;
        i = i + 1;
    }
}

/// Lets every drone have its turn, and collects the shots they fire.
fn step_drones(pool: &mut Vec<Drone>, bullets: &mut Vec<Bullet>, dt: i64, ship: &Ship)
    requires
        drones_settled(old(pool)@),
        bullets_settled(old(bullets)@),
        ship.wf(),
        0 <= dt <= LONGEST_STEP,
    ensures
        final(pool)@ == drones_stepped(old(pool)@, dt as int, *ship),
        final(bullets)@ == old(bullets)@ + drone_shots(
            old(pool)@,
            old(pool)@.len() as int,
            dt as int,
            *ship,
        ),
        drones_astray(final(pool)@),
        drones_floor(final(pool)@, 0),
        bullets_settled(final(bullets)@),
        final(bullets)@.len() <= old(bullets)@.len() + old(pool)@.len(),
{
    let n: usize = pool.len();
    let mut i: usize = 0;
    while i < n
        invariant
            0 <= i <= n,
            n == pool@.len(),
            n == old(pool)@.len(),
            0 <= dt <= LONGEST_STEP,
            ship.wf(),
            drones_settled(old(pool)@),
            bullets_settled(bullets@),
            bullets@ == old(bullets)@ + drone_shots(old(pool)@, i as int, dt as int, *ship),
            bullets@.len() <= old(bullets)@.len() + i,
            forall|j: int|
                0 <= j < i ==> pool@[j] == drone_turn(#[trigger] old(pool)@[j], dt as int, *ship),
            forall|j: int| 0 <= j < i ==> (#[trigger] pool@[j]).astray(),
            forall|j: int| 0 <= j < i ==> (#[trigger] pool@[j]).hp >= 0,
            forall|j: int| i <= j < n ==> pool@[j] == old(pool)@[j],
        decreases n - i,
    {
        let mut d: Drone = pool[i];
        d.update(dt, &ship.pos);
        let ghost moved = d;
        match d.shoot(dt, ship) {
            Some(bullet) => {
                bullets.push(bullet);
            },
            None => {},
        }
        pool[i] = d;
        i = i + 1;
    }
}

/// Lets every shot fly for `dt`.
fn step_bullets(pool: &mut Vec<Bullet>, dt: i64)
    requires
        bullets_settled(old(pool)@),
        0 <= dt <= LONGEST_STEP,
    ensures
        final(pool)@ == bullets_stepped(old(pool)@, dt as int),
        bullets_astray(final(pool)@),
{
    let n: usize = pool.len();
    let mut i: usize = 0;
    while i < n
        invariant
            0 <= i <= n,
            n == pool@.len(),
            n == old(pool)@.len(),
            0 <= dt <= LONGEST_STEP,
            bullets_settled(old(pool)@),
            forall|j: int| 0 <= j < i ==> pool@[j] == (#[trigger] old(pool)@[j]).stepped(dt as int),
            forall|j: int| 0 <= j < i ==> (#[trigger] pool@[j]).astray(),
            forall|j: int| i <= j < n ==> pool@[j] == old(pool)@[j],
        decreases n - i,
    {
        let mut b: Bullet = pool[i];
        b.update(dt);
        pool[i] = b;
        i = i + 1;
    }
}

/// Lets every power-up fall for `dt`.
fn step_powerups(pool: &mut Vec<PowerUp>, dt: i64)
    requires
        powerups_settled(old(pool)@),
        0 <= dt <= LONGEST_STEP,
    ensures
        final(pool)@ == powerups_stepped(old(pool)@, dt as int),
        powerups_astray(final(pool)@),
{
    let n: usize = pool.len();
    let mut i: usize = 0;
    while i < n
        invariant
            0 <= i <= n,
            n == pool@.len(),
            n == old(pool)@.len(),
            0 <= dt <= LONGEST_STEP,
            powerups_settled(old(pool)@),
            forall|j: int| 0 <= j < i ==> pool@[j] == (#[trigger] old(pool)@[j]).stepped(dt as int),
            forall|j: int| 0 <= j < i ==> (#[trigger] pool@[j]).astray(),
            forall|j: int| i <= j < n ==> pool@[j] == old(pool)@[j],
        decreases n - i,
    {
        let mut p: PowerUp = pool[i];
        p.update(dt);
        pool[i] = p;
        i = i + 1;
    }
}

/// The asteroid `a` has just entered a field of the given size: it sits a
/// little above the field, and is what `Asteroid::new` makes there.
pub open spec fn entering_asteroid(a: Asteroid, screen: Vec2, difficulty: int) -> bool {
    &&& a.pos.y == -ASTEROID_ENTRY
    &&& 0 <= a.pos.x < screen.x
    &&& exists|drift: int, fall: int, radius: int, spin: int|
        Asteroid::launch_ranges(drift, fall, radius, spin) && a == #[trigger] Asteroid::launched_of(
            a.pos,
            difficulty,
            drift,
            fall,
            radius,
            spin,
        )
}

/// The drone `d` has just entered a field of the given size: it sits a
/// little above the field, and is what `Drone::new` makes there.
pub open spec fn entering_drone(d: Drone, screen: Vec2, difficulty: int, wave: int) -> bool {
    &&& d.pos.y == -DRONE_ENTRY
    &&& 0 <= d.pos.x < screen.x
    &&& d == Drone::of_kind_of(d.pos, difficulty, wave, d.kind)
}

/// Between `before` and `after`, at most one asteroid has entered.
pub open spec fn asteroid_entered(
    before: Seq<Asteroid>,
    after: Seq<Asteroid>,
    screen: Vec2,
    difficulty: int,
) -> bool {
    after == before || (after.len() == before.len() + 1 && after.drop_last() == before
        && entering_asteroid(after.last(), screen, difficulty))
}

/// The number of drones among the first `n` that have hit points left.
pub open spec fn intact_drones(drones: Seq<Drone>, n: int) -> int
    decreases n,
{
    if n <= 0 {
        0
    } else {
        intact_drones(drones, n - 1) + if drones[n - 1].intact() {
            1int
        } else {
            0int
        }
    }
}

/// The number of drones that have hit points left.
pub fn count_intact_drones(drones: &Vec<Drone>) -> (count: usize)
    ensures
        count == intact_drones(drones@, drones@.len() as int),
        count <= drones@.len(),
{
    let mut count: usize = 0;
    let mut i: usize = 0;
    while i < drones.len()
        invariant
            0 <= i <= drones@.len(),
            count == intact_drones(drones@, i as int),
            count <= i,
        decreases drones@.len() - i,
    {
        if drones[i].hp > 0 {
            count = count + 1;
        }
        i = i + 1;
    }
    count
}

/// Between `before` and `after`, at most one drone has entered, and none if
/// the field already held as many live drones as the wave allows.
pub open spec fn drone_entered(
    before: Seq<Drone>,
    after: Seq<Drone>,
    screen: Vec2,
    difficulty: int,
    wave: int,
) -> bool {
    after == before || (intact_drones(before, before.len() as int) < DRONE_CAP + wave && after.len()
        == before.len() + 1
        && after.drop_last() == before && entering_drone(after.last(), screen, difficulty, wave))
}

impl World {
    /// Everything is where it can be at the end of a step.
    pub open spec fn settled(self) -> bool {
        &&& asteroids_settled(self.asteroids@)
        &&& drones_settled(self.drones@)
        &&& bullets_settled(self.bullets@)
        &&& powerups_settled(self.powerups@)
    }

    /// Everything is where it can be in the course of a step.
    pub open spec fn astray(self) -> bool {
        &&& asteroids_astray(self.asteroids@)
        &&& drones_astray(self.drones@)
        &&& bullets_astray(self.bullets@)
        &&& powerups_astray(self.powerups@)
    }
}

impl Game {
    /// This game is `other` but for its effects.
    pub open spec fn same_but_effects(self, other: Game) -> bool {
        self == (Game { effects: self.effects, ..other })
    }

    /// What holds of everything but the entities between two steps and in
    /// the course of one: the field has a size, the ship is on it, and every
    /// timer is within its limits.
    pub open spec fn steady(self) -> bool {
        &&& valid_screen(self.screen)
        &&& self.ship.wf()
        &&& self.ship.pos.bounded(ARENA as int)
        &&& self.weapons.wf()
        &&& self.effects.tame()
        &&& shake_steady(self.shake)
        &&& self.combo_timer.wf()
        &&& events_home(self.event_queue@)
    }

    /// What holds between two steps: the game is steady, and everything is
    /// where it can be at the end of a step.
    pub open spec fn wf(self) -> bool {
        &&& self.steady()
        &&& self.world.settled()
        &&& missiles_all_settled(self.weapons.missiles@)
    }

    /// What holds in the course of a step, once everything has moved.
    pub open spec fn midway(self) -> bool {
        &&& self.steady()
        &&& self.world.astray()
        &&& missiles_astray(self.weapons.missiles@)
    }

    /// The counters can take what the missiles and the beam may add in one
    /// step: each missile in flight may strike and kill, and the beam may
    /// kill as many enemies as it can pierce.
    pub open spec fn entities_room(self) -> bool {
        let m = self.weapons.missiles@.len();
        &&& self.score + MISSILE_SCORE * m + BEAM_SCORE <= i32::MAX
        &&& self.combo + m <= i32::MAX
        &&& self.enemies_killed + m + LASER_MAX_PENETRATION <= i32::MAX
    }

    /// The counters can take what the collisions of one step may do to them:
    /// each shot may hit and kill, each asteroid may be thrown off the shield,
    /// each drone may crash into each asteroid, and each hostile shot, each
    /// asteroid and each drone may cost a life or a hit point.
    pub open spec fn collisions_room(self) -> bool {
        let b = self.world.bullets@.len();
        let a = self.world.asteroids@.len();
        let d = self.world.drones@.len();
        &&& self.score + SHOT_SCORE * b + BOUNCE_SCORE * a + COLLATERAL_SCORE * (d * a) <= i32::MAX
        &&& self.combo + b <= i32::MAX
        &&& self.enemies_killed + b + d * a <= i32::MAX
        &&& self.ship.lives - b - a - d >= i32::MIN
        &&& drones_floor(self.world.drones@, i32::MIN + b + 1)
    }

    /// The counters can take the next wave and its bonus.
    pub open spec fn waves_room(self) -> bool {
        &&& 0 <= self.wave < i32::MAX - DRONE_CAP
        &&& FIRST_WAVE_SIZE + (self.wave + 1) * WAVE_GROWTH <= i32::MAX
        &&& (self.wave + 1) * WAVE_SCORE <= i32::MAX
        &&& self.score + (self.wave + 1) * WAVE_SCORE <= i32::MAX
    }

    /// What holds between two steps holds in the course of one as well.
    pub proof fn settled_is_midway(self)
        requires
            self.wf(),
        ensures
            self.midway(),
            drones_floor(self.world.drones@, 0),
    {
    }

    /// There is room for one more step: whatever the step may add to the
    /// clock and the counters, and take from the lives, they stay within what
    /// their types hold. The ship may fire a shot and a missile and each
    /// drone a shot before the collisions are resolved.
    pub open spec fn has_room(self) -> bool {
        let m = self.weapons.missiles@.len() + 1;
        let a = self.world.asteroids@.len();
        let d = self.world.drones@.len();
        let b = self.world.bullets@.len() + 1 + d;
        &&& self.timer <= i64::MAX - LONGEST_STEP
        &&& 0 <= self.wave < i32::MAX - DRONE_CAP
        &&& (self.wave + 1) * WAVE_SCORE <= i32::MAX
        &&& self.score + MISSILE_SCORE * m + BEAM_SCORE + SHOT_SCORE * b + BOUNCE_SCORE * a
            + COLLATERAL_SCORE * (d * a) + (self.wave + 1) * WAVE_SCORE <= i32::MAX
        &&& larger(self.combo as int, 0) + m + b <= i32::MAX
        &&& self.enemies_killed + m + LASER_MAX_PENETRATION + b + d * a <= i32::MAX
        &&& self.ship.lives - b - a - d >= i32::MIN
        &&& FIRST_WAVE_SIZE + (self.wave + 1) * WAVE_GROWTH <= i32::MAX
    }

    /// A game as it is when a session starts, in the given state: no score,
    /// wave one with five kills to go, a new ship, an empty field, weapons at
    /// rest and nothing to show.
    pub open spec fn is_fresh(self, state: GameState) -> bool {
        &&& self.state == state
        &&& self.score == 0
        &&& self.timer == 0
        &&& self.combo == 0
        &&& self.combo_timer == Cooldown { time: 0, max: COMBO_TIME }
        &&& self.wave == 1
        &&& self.enemies_to_spawn == FIRST_WAVE_SIZE
        &&& self.enemies_killed == 0
        &&& self.ship.is_fresh(self.screen)
        &&& self.world.asteroids@.len() == 0
        &&& self.world.drones@.len() == 0
        &&& self.world.bullets@.len() == 0
        &&& self.world.powerups@.len() == 0
        &&& self.weapons.missiles@.len() == 0
        &&& self.weapons.missile_ammo == MISSILE_AMMO_MAX
        &&& !self.weapons.laser.active
        &&& self.effects.particles@.len() == 0
        &&& self.effects.trail@.len() == 0
        &&& self.shake == ScreenShake { amount: 0, timer: 0 }
        &&& self.event_queue@.len() == 0
    }

    /// A game on the title screen, on a field of the given size.
    pub fn new(screen: Vec2) -> (g: Game)
        requires
            valid_screen(screen),
        ensures
            g.is_fresh(GameState::Menu),
            g.screen == screen,
            g.high_score == 0,
            g.wf(),
            g.has_room(),
    {
        Game {
            state: GameState::Menu,
            score: 0,
            high_score: 0,
            timer: 0,
            combo: 0,
            combo_timer: Cooldown::new(COMBO_TIME),
            wave: 1,
            enemies_to_spawn: FIRST_WAVE_SIZE,
            enemies_killed: 0,
            screen,
            ship: Ship::new(screen),
            world: World::new(),
            weapons: WeaponSystem::new(),
            effects: EffectSystem::new(),
            shake: ScreenShake::new(),
            event_queue: EventQueue::new(),
        }
    }

    /// Starts a session over: everything goes back to its starting value but
    /// the high score and the size of the field, and the game is on.
    pub fn reset(&mut self)
        requires
            valid_screen(old(self).screen),
        ensures
            final(self).is_fresh(GameState::Playing),
            final(self).screen == old(self).screen,
            final(self).high_score == old(self).high_score,
            final(self).wf(),
            final(self).has_room(),
    {
        self.score = 0;
        self.timer = 0;
        self.combo = 0;
        self.combo_timer = Cooldown::new(COMBO_TIME);
        self.wave = 1;
        self.enemies_to_spawn = FIRST_WAVE_SIZE;
        self.enemies_killed = 0;
        self.state = GameState::Playing;
        self.ship = Ship::new(self.screen);
        self.world = World::new();
        self.weapons = WeaponSystem::new();
        self.effects.clear();
        self.shake = ScreenShake::new();
        self.event_queue = EventQueue::new();
        proof {
            let d = self.world.drones@.len();
            let a = self.world.asteroids@.len();
            assert(d * a == 0) by (nonlinear_arith)
                requires
                    d == 0,
                    a == 0,
            ;
        }
    }

    /// Gives the field a new size. Nothing on it moves: what is now off the
    /// field is swept away, or wrapped round, by the next step.
    pub fn resize(&mut self, screen: Vec2)
        requires
            valid_screen(screen),
        ensures
            *final(self) == (Game { screen, ..*old(self) }),
            old(self).wf() ==> final(self).wf(),
            old(self).has_room() ==> final(self).has_room(),
    {
        self.screen = screen;
    }

    /// Whether there is room for one more step.
    pub fn can_update(&self) -> (r: bool)
        ensures
            r == self.has_room(),
    {
        let missiles: usize = self.weapons.missiles.len();
        let asteroids: usize = self.world.asteroids.len();
        let drones: usize = self.world.drones.len();
        let bullets: usize = self.world.bullets.len();
        if self.timer > i64::MAX - LONGEST_STEP || self.wave < 0 || self.wave >= i32::MAX
            - DRONE_CAP {
            return false;
        }
        // So many that the lives alone could not take them.
        if missiles > FULL_POOL || asteroids > FULL_POOL || drones > FULL_POOL || bullets
            > FULL_POOL {
            return false;
        }
        let m: i128 = missiles as i128 + 1;
        let a: i128 = asteroids as i128;
        let d: i128 = drones as i128;
        let b: i128 = bullets as i128 + 1 + d;
        proof {
            lemma_product_bound(d as int, a as int, 4_294_967_295, 4_294_967_295);
        }
        let crashes: i128 = d * a;
        let wave: i128 = self.wave as i128 + 1;
        let top: i128 = i32::MAX as i128;
        let combo: i128 = if self.combo >= 0 {
            self.combo as i128
        } else {
            0
        };
        let gain: i128 = times(MISSILE_SCORE, m) + BEAM_SCORE as i128 + times(SHOT_SCORE, b)
            + times(BOUNCE_SCORE, a) + times(COLLATERAL_SCORE, crashes) + times(WAVE_SCORE, wave);
        times(WAVE_SCORE, wave) <= top && self.score as i128 + gain <= top && combo + m + b <= top
            && self.enemies_killed as i128
            + m + LASER_MAX_PENETRATION as i128 + b + crashes <= top && self.ship.lives as i128
            - b - a - d >= i32::MIN as i128 && FIRST_WAVE_SIZE as i128 + times(WAVE_GROWTH, wave)
            <= top
    }

    /// `post` is `pre` after the sweep that ends a step: whatever is not
    /// alive is gone, and nothing else has changed.
    pub open spec fn cleaned(pre: Game, post: Game) -> bool {
        &&& post.world.bullets@ == live_bullets(pre.world.bullets@, pre.screen)
        &&& post.world.drones@ == live_drones(pre.world.drones@, pre.screen)
        &&& post.world.asteroids@ == live_asteroids(pre.world.asteroids@, pre.screen)
        &&& post.world.powerups@ == live_powerups(pre.world.powerups@, pre.screen)
        &&& post.weapons.missiles@ == live_missiles(pre.weapons.missiles@, pre.screen)
        &&& post.weapons == pre.weapons.with_missiles_of(post.weapons)
        &&& post == (Game { world: post.world, weapons: post.weapons, ..pre })
    }

    /// Removes whatever is not alive: shots and power-ups whose time has
    /// run out, destroyed asteroids and drones, spent missiles, and whatever
    /// has strayed too far off the field.
    pub fn cleanup(&mut self)
        requires
            valid_screen(old(self).screen),
        ensures
            Game::cleaned(*old(self), *final(self)),
            old(self).midway() ==> final(self).wf(),
    {
        sweep_bullets(&mut self.world.bullets, self.screen);
        sweep_drones(&mut self.world.drones, self.screen);
        sweep_asteroids(&mut self.world.asteroids, self.screen);
        sweep_powerups(&mut self.world.powerups, self.screen);
        sweep_missiles(&mut self.weapons.missiles, self.screen);
    }

    /// Whether the wave is cleared: as many enemies were killed as it asks
    /// for.
    pub open spec fn wave_cleared(self) -> bool {
        self.enemies_killed >= self.enemies_to_spawn
    }

    /// The wave that is on once the director has looked at the kills.
    pub open spec fn next_wave(self) -> int {
        if self.wave_cleared() {
            self.wave + 1
        } else {
            self.wave as int
        }
    }

    /// The burst that marks a cleared wave, in the middle of the field.
    pub open spec fn wave_burst(self) -> Blast {
        explosion_of(
            vec2_of(self.screen.x / 2, self.screen.y / 2),
            Color::Gold,
            WAVE_BURST_COUNT as int,
        )
    }

    /// `post` is `pre` after the wave director has acted. A cleared wave
    /// gives way to the next: the kills start again from zero, the next wave
    /// asks for three more kills than the one before, its number times a
    /// hundred is scored, the screen shakes and a burst marks the moment.
    /// Then at most one asteroid and at most one drone enter.
    pub open spec fn waves_handled(pre: Game, post: Game) -> bool {
        let wave = pre.next_wave();
        &&& post.wave == wave
        &&& post.enemies_killed == if pre.wave_cleared() {
            0
        } else {
            pre.enemies_killed
        }
        &&& post.enemies_to_spawn == if pre.wave_cleared() {
            wave_size_of(wave)
        } else {
            pre.enemies_to_spawn as int
        }
        &&& post.score == if pre.wave_cleared() {
            pre.score + wave * WAVE_SCORE
        } else {
            pre.score as int
        }
        &&& post.shake == if pre.wave_cleared() {
            pre.shake.triggered(HEAVY_SHAKE as int)
        } else {
            pre.shake
        }
        &&& blasts_added(
            pre.effects.particles@,
            post.effects.particles@,
            if pre.wave_cleared() {
                seq![pre.wave_burst()]
            } else {
                Seq::<Blast>::empty()
            },
        )
        &&& post.effects.trail@ == pre.effects.trail@
        &&& asteroid_entered(
            pre.world.asteroids@,
            post.world.asteroids@,
            pre.screen,
            difficulty_of(wave),
        )
        &&& drone_entered(
            pre.world.drones@,
            post.world.drones@,
            pre.screen,
            difficulty_of(wave),
            wave,
        )
        &&& post.world.bullets@ == pre.world.bullets@
        &&& post.world.powerups@ == pre.world.powerups@
        &&& post == (Game {
            wave: post.wave,
            enemies_killed: post.enemies_killed,
            enemies_to_spawn: post.enemies_to_spawn,
            score: post.score,
            shake: post.shake,
            effects: post.effects,
            world: post.world,
            ..pre
        })
    }

    /// Lets the wave director act: a cleared wave gives way to the next, and
    /// new enemies may enter from above, the more often the higher the
    /// wave.
    pub fn handle_waves(&mut self, _dt: i64)
        requires
            valid_screen(old(self).screen),
            old(self).effects.wf(),
            old(self).waves_room(),
        ensures
            Game::waves_handled(*old(self), *final(self)),
            old(self).wave_cleared() ==> final(self).wave == old(self).wave + 1,
            old(self).wave_cleared() ==> final(self).enemies_killed == 0,
            old(self).wave_cleared() ==> final(self).enemies_to_spawn == wave_size_of(
                old(self).wave + 1,
            ),
            !old(self).wave_cleared() ==> final(self).wave == old(self).wave,
            old(self).midway() ==> final(self).midway(),
    {
        let ghost lit = self.effects.particles@;
        if self.enemies_killed >= self.enemies_to_spawn {
            self.wave = self.wave + 1;
            self.enemies_killed = 0;
            self.enemies_to_spawn = FIRST_WAVE_SIZE + self.wave * WAVE_GROWTH;
            self.score = self.score + self.wave * WAVE_SCORE;
            self.shake.trigger(HEAVY_SHAKE);
            self.effects.explode(
                Vec2 { x: self.screen.x / 2, y: self.screen.y / 2 },
                Color::Gold,
                WAVE_BURST_COUNT,
                Ghost(lit),
                Ghost(Seq::<Blast>::empty()),
            );
            assert(Seq::<Blast>::empty().push(old(self).wave_burst()) =~= seq![
                old(self).wave_burst(),
            ]);
        }
        let total_difficulty: i64 = BASE_DIFFICULTY + WAVE_DIFFICULTY * (self.wave as i64);
        let width: i64 = self.screen.x;

        if asteroid_enters(draw_out_of(asteroid_rarity(total_difficulty)), total_difficulty) {
            let x: i64 = uniform(0, width);
            let a: Asteroid = Asteroid::new(Vec2 { x, y: -ASTEROID_ENTRY }, total_difficulty);
            self.world.asteroids.push(a);
            assert(self.world.asteroids@.drop_last() =~= old(self).world.asteroids@);
        }
        if drone_enters(
            draw_out_of(drone_rarity(total_difficulty)),
            total_difficulty,
            count_intact_drones(&self.world.drones),
            self.wave,
        ) {
            let x: i64 = uniform(0, width);
            let d: Drone = Drone::new(Vec2 { x, y: -DRONE_ENTRY }, total_difficulty, self.wave);
            self.world.drones.push(d);
            assert(self.world.drones@.drop_last() =~= old(self).world.drones@);
        }
    }

    /// `post` is `pre` after everything on the field has moved for `dt`.
    /// Asteroids drift; drones move and fire; the missiles fly, steer and
    /// strike; the beam burns what it passes; then the shots fly, those just
    /// fired among them, and the power-ups fall, those just dropped among
    /// them.
    pub open spec fn entities_updated(pre: Game, post: Game, dt: int) -> bool {
        let rocks = asteroids_stepped(pre.world.asteroids@, dt);
        let drones = drones_stepped(pre.world.drones@, dt, pre.ship);
        let shots = pre.world.bullets@ + drone_shots(
            pre.world.drones@,
            pre.world.drones@.len() as int,
            dt,
            pre.ship,
        );
        let flown = pre.weapons.missiles@.map_values(
            |m: HomingMissile| guided_of(m, drones, rocks, dt),
        );
        let (kept, f) = missiles_resolved(
            flown,
            flown.len() as int,
            Field {
                asteroids: rocks,
                drones,
                score: pre.score as int,
                combo: pre.combo as int,
                combo_timer: pre.combo_timer,
                kills: pre.enemies_killed as int,
                blasts: Seq::<Blast>::empty(),
                drops: Seq::<Vec2>::empty(),
            },
        );
        let s = laser_swept(
            pre.weapons.laser,
            Sweep {
                drones: f.drones,
                asteroids: f.asteroids,
                hits: 0,
                score: f.score,
                kills: f.kills,
                blasts: Seq::<Blast>::empty(),
                drops: Seq::<Vec2>::empty(),
            },
        );
        &&& post.weapons.missiles@ == kept
        &&& post.world.asteroids@ == s.asteroids
        &&& post.world.drones@ == s.drones
        &&& post.score == s.score
        &&& post.combo == f.combo
        &&& post.combo_timer == f.combo_timer
        &&& post.enemies_killed == s.kills
        &&& blasts_added(pre.effects.particles@, post.effects.particles@, f.blasts + s.blasts)
        &&& post.effects.trail@ == pre.effects.trail@
        &&& post.world.bullets@ == bullets_stepped(shots, dt)
        &&& exists|first: Seq<PowerUp>, second: Seq<PowerUp>|
            {
                &&& #[trigger] drops_taken(pre.world.powerups@, first, f.drops)
                &&& #[trigger] drops_taken(first, second, s.drops)
                &&& post.world.powerups@ == powerups_stepped(second, dt)
            }
        &&& post.weapons == pre.weapons.with_missiles_of(post.weapons)
        &&& post.event_queue@ == pre.event_queue@
        &&& post == (Game {
            world: post.world,
            weapons: post.weapons,
            effects: post.effects,
            event_queue: post.event_queue,
            score: post.score,
            combo: post.combo,
            combo_timer: post.combo_timer,
            enemies_killed: post.enemies_killed,
            ..pre
        })
    }

    /// Moves everything on the field for a step of `dt` clock ticks.
    pub fn update_entities(&mut self, dt: i64)
        requires
            old(self).wf(),
            old(self).entities_room(),
            0 <= dt <= LONGEST_STEP,
        ensures
            Game::entities_updated(*old(self), *final(self), dt as int),
            final(self).midway(),
            drones_floor(final(self).world.drones@, -(LIMIT as int)),
            old(self).score <= final(self).score <= old(self).score + MISSILE_SCORE * old(
                self,
            ).weapons.missiles@.len() + BEAM_SCORE,
            final(self).combo <= larger(old(self).combo as int, 0) + old(self).weapons.missiles@.len(),
            final(self).enemies_killed <= old(self).enemies_killed + old(
                self,
            ).weapons.missiles@.len() + LASER_MAX_PENETRATION,
            final(self).world.asteroids@.len() == old(self).world.asteroids@.len(),
            final(self).world.drones@.len() == old(self).world.drones@.len(),
            final(self).world.bullets@.len() <= old(self).world.bullets@.len() + old(
                self,
            ).world.drones@.len(),
            final(self).ship == old(self).ship,
            final(self).wave == old(self).wave,
    {
        step_asteroids(&mut self.world.asteroids, dt);
        step_drones(&mut self.world.drones, &mut self.world.bullets, dt, &self.ship);
        proof {
            lemma_settled_missiles_fit(self.weapons.missiles@, dt as int);
        }
        let ghost lit = self.effects.particles@;
        let ghost before = *self;
        self.weapons.update_missiles(
            dt,
            &mut self.world,
            &mut self.effects,
            &mut self.score,
            &mut self.combo,
            &mut self.combo_timer,
            &mut self.enemies_killed,
            &mut self.event_queue,
        );
        let ghost mid = self.effects.particles@;
        let ghost between = *self;
        self.weapons.update_laser(
            dt,
            &self.ship,
            &mut self.world,
            &mut self.effects,
            &mut self.score,
            &mut self.enemies_killed,
            &mut self.event_queue,
        );
        proof {
            let rocks = asteroids_stepped(old(self).world.asteroids@, dt as int);
            let drones = drones_stepped(old(self).world.drones@, dt as int, old(self).ship);
            let flown = old(self).weapons.missiles@.map_values(
                |m: HomingMissile| guided_of(m, drones, rocks, dt as int),
            );
            let f = missiles_resolved(
                flown,
                flown.len() as int,
                Field {
                    asteroids: rocks,
                    drones,
                    score: old(self).score as int,
                    combo: old(self).combo as int,
                    combo_timer: old(self).combo_timer,
                    kills: old(self).enemies_killed as int,
                    blasts: Seq::<Blast>::empty(),
                    drops: Seq::<Vec2>::empty(),
                },
            ).1;
            let s = laser_swept(
                old(self).weapons.laser,
                Sweep {
                    drones: f.drones,
                    asteroids: f.asteroids,
                    hits: 0,
                    score: f.score,
                    kills: f.kills,
                    blasts: Seq::<Blast>::empty(),
                    drops: Seq::<Vec2>::empty(),
                },
            );
            lemma_blasts_concat(lit, mid, self.effects.particles@, f.blasts, s.blasts);
        }
        step_bullets(&mut self.world.bullets, dt);
        step_powerups(&mut self.world.powerups, dt);
    }

    /// `post` is `pre` after the five collision passes, in their order: the
    /// ship's shots against the enemies, hostile shots against the ship, the
    /// ship against the asteroids, the ship and the asteroids against the
    /// drones, and the ship against the power-ups, those that the first pass
    /// dropped among them.
    pub open spec fn collided(pre: Game, post: Game) -> bool {
        let at = pre.ship.pos;
        let window = pre.ship.invincible_timer.time as int;
        let shield = pre.ship.shield_active;
        let (shots, f) = shots_resolved(
            pre.world.bullets@,
            pre.world.bullets@.len() as int,
            Field {
                asteroids: pre.world.asteroids@,
                drones: pre.world.drones@,
                score: pre.score as int,
                combo: pre.combo as int,
                combo_timer: pre.combo_timer,
                kills: pre.enemies_killed as int,
                blasts: Seq::<Blast>::empty(),
                drops: Seq::<Vec2>::empty(),
            },
        );
        let (left, grazed) = hostile_shots_resolved(
            shots,
            shots.len() as int,
            at,
            window,
            shield,
            Hull {
                lives: pre.ship.lives as int,
                invincible: pre.ship.invincible_timer,
                shake: pre.shake,
                state: pre.state,
                events: pre.event_queue@,
                blasts: Seq::<Blast>::empty(),
            },
        );
        let (rocks, rammed, score) = asteroids_met(
            f.asteroids,
            f.asteroids.len() as int,
            at,
            window,
            shield,
            Hull { blasts: Seq::<Blast>::empty(), ..grazed },
            f.score,
        );
        let c = drones_met(
            Clash {
                drones: f.drones,
                asteroids: rocks,
                hull: Hull { blasts: Seq::<Blast>::empty(), ..rammed },
                score,
                kills: f.kills,
            },
            f.drones.len() as int,
            at,
            window,
            shield,
        );
        &&& post.world.bullets@ == left
        &&& post.world.asteroids@ == c.asteroids
        &&& post.world.drones@ == c.drones
        &&& post.score == c.score
        &&& post.enemies_killed == c.kills
        &&& post.combo == f.combo
        &&& post.combo_timer == f.combo_timer
        &&& post.ship.invincible_timer == c.hull.invincible
        &&& post.state == c.hull.state
        &&& exists|dropped: Seq<PowerUp>|
            {
                &&& #[trigger] drops_taken(pre.world.powerups@, dropped, f.drops)
                &&& Game::collected(
                    pre,
                    post,
                    dropped,
                    c.hull,
                    f.blasts + grazed.blasts + rammed.blasts + c.hull.blasts,
                )
            }
        &&& post.effects.trail@ == pre.effects.trail@
        &&& post.ship == (Ship {
            lives: post.ship.lives,
            invincible_timer: post.ship.invincible_timer,
            shield_energy: post.ship.shield_energy,
            slowmo_energy: post.ship.slowmo_energy,
            rapid_fire_timer: post.ship.rapid_fire_timer,
            ..pre.ship
        })
        &&& post == (Game {
            world: post.world,
            ship: post.ship,
            effects: post.effects,
            score: post.score,
            enemies_killed: post.enemies_killed,
            combo: post.combo,
            combo_timer: post.combo_timer,
            state: post.state,
            shake: post.shake,
            event_queue: post.event_queue,
            ..pre
        })
    }

    /// `post` holds what the last collision pass leaves: the ship of `pre`
    /// has gone over the power-ups `dropped`, with the hull `hull` that the
    /// passes before have left and the bursts `blasts` that they have set
    /// off.
    pub open spec fn collected(
        pre: Game,
        post: Game,
        dropped: Seq<PowerUp>,
        hull: Hull,
        blasts: Seq<Blast>,
    ) -> bool {
        let (left, stock) = powerups_collected(
            dropped,
            dropped.len() as int,
            pre.ship.pos,
            Stock {
                shield_energy: pre.ship.shield_energy,
                lives: hull.lives,
                slowmo_energy: pre.ship.slowmo_energy,
                rapid_fire_timer: pre.ship.rapid_fire_timer,
                shake: hull.shake,
                events: hull.events,
                blasts: Seq::<Blast>::empty(),
            },
        );
        &&& post.world.powerups@ == left
        &&& post.ship.shield_energy == stock.shield_energy
        &&& post.ship.lives == stock.lives
        &&& post.ship.slowmo_energy == stock.slowmo_energy
        &&& post.ship.rapid_fire_timer == stock.rapid_fire_timer
        &&& post.shake == stock.shake
        &&& post.event_queue@ == stock.events
        &&& blasts_added(pre.effects.particles@, post.effects.particles@, blasts + stock.blasts)
    }

    /// Resolves every collision of the step, pass after pass.
    pub fn handle_collisions(&mut self)
        requires
            old(self).midway(),
            old(self).collisions_room(),
        ensures
            Game::collided(*old(self), *final(self)),
            final(self).midway(),
            old(self).score <= final(self).score <= old(self).score + SHOT_SCORE * old(
                self,
            ).world.bullets@.len() + BOUNCE_SCORE * old(self).world.asteroids@.len()
                + COLLATERAL_SCORE * (old(self).world.drones@.len() * old(
                self,
            ).world.asteroids@.len()),
            final(self).wave == old(self).wave,
    {
        let ship_pos: Vec2 = self.ship.pos;
        let ship_invincible: i64 = self.ship.invincible_timer.time;
        let ship_shield_active: bool = self.ship.shield_active;
        proof {
            let d = self.world.drones@.len();
            let a = self.world.asteroids@.len();
            assert(d * a >= 0) by (nonlinear_arith)
                requires
                    0 <= d,
                    0 <= a,
            ;
        }
        let ghost shots = self.world.bullets@.len();
        handle_friendly_bullet_collisions(
            &mut self.world.bullets,
            &mut self.world.asteroids,
            &mut self.world.drones,
            &mut self.score,
            &mut self.combo,
            &mut self.combo_timer,
            &mut self.enemies_killed,
            &mut self.effects,
            &mut self.world.powerups,
            &mut self.event_queue,
        );
        let ghost lit_shots = self.effects.particles@;
        let ghost dropped = self.world.powerups@;
        assert(drones_floor(self.world.drones@, (i32::MIN + shots + 1) - shots));
        handle_enemy_bullet_collisions(
            &mut self.world.bullets,
            &ship_pos,
            ship_invincible,
            ship_shield_active,
            &mut self.ship.lives,
            &mut self.ship.invincible_timer,
            &mut self.shake,
            &mut self.effects,
            &mut self.state,
            &mut self.event_queue,
        );
        let ghost lit_hits = self.effects.particles@;
        handle_ship_asteroid_collisions(
            &mut self.world.asteroids,
            &ship_pos,
            ship_invincible,
            ship_shield_active,
            &mut self.ship.lives,
            &mut self.ship.invincible_timer,
            &mut self.shake,
            &mut self.score,
            &mut self.effects,
            &mut self.state,
            &mut self.event_queue,
        );
        let ghost lit_rocks = self.effects.particles@;
        handle_ship_drone_collisions(
            &mut self.world.drones,
            &mut self.world.asteroids,
            &ship_pos,
            ship_invincible,
            ship_shield_active,
            &mut self.ship.lives,
            &mut self.ship.invincible_timer,
            &mut self.shake,
            &mut self.effects,
            &mut self.state,
            &mut self.score,
            &mut self.enemies_killed,
            &mut self.event_queue,
        );
        let ghost lit_drones = self.effects.particles@;
        let ghost hull = Hull {
            lives: self.ship.lives as int,
            invincible: self.ship.invincible_timer,
            shake: self.shake,
            state: self.state,
            events: self.event_queue@,
            blasts: Seq::<Blast>::empty(),
        };
        handle_powerup_collisions(
            &mut self.world.powerups,
            &ship_pos,
            &mut self.ship.shield_energy,
            &mut self.ship.lives,
            &mut self.ship.slowmo_energy,
            &mut self.ship.rapid_fire_timer,
            &mut self.shake,
            &mut self.effects,
            &mut self.event_queue,
        );
        proof {
            Game::lemma_collided(
                *old(self),
                *self,
                dropped,
                lit_shots,
                lit_hits,
                lit_rocks,
                lit_drones,
            );
        }
    }

    /// The five passes, each holding its own log of bursts, together make up
    /// the collisions of a step.
    proof fn lemma_collided(
        pre: Game,
        post: Game,
        dropped: Seq<PowerUp>,
        lit_shots: Seq<Particle>,
        lit_hits: Seq<Particle>,
        lit_rocks: Seq<Particle>,
        lit_drones: Seq<Particle>,
    )
        requires
            ({
                let at = pre.ship.pos;
                let window = pre.ship.invincible_timer.time as int;
                let shield = pre.ship.shield_active;
                let (shots, f) = shots_resolved(
                    pre.world.bullets@,
                    pre.world.bullets@.len() as int,
                    Field {
                        asteroids: pre.world.asteroids@,
                        drones: pre.world.drones@,
                        score: pre.score as int,
                        combo: pre.combo as int,
                        combo_timer: pre.combo_timer,
                        kills: pre.enemies_killed as int,
                        blasts: Seq::<Blast>::empty(),
                        drops: Seq::<Vec2>::empty(),
                    },
                );
                let (left, grazed) = hostile_shots_resolved(
                    shots,
                    shots.len() as int,
                    at,
                    window,
                    shield,
                    Hull {
                        lives: pre.ship.lives as int,
                        invincible: pre.ship.invincible_timer,
                        shake: pre.shake,
                        state: pre.state,
                        events: pre.event_queue@,
                        blasts: Seq::<Blast>::empty(),
                    },
                );
                let (rocks, rammed, score) = asteroids_met(
                    f.asteroids,
                    f.asteroids.len() as int,
                    at,
                    window,
                    shield,
                    Hull { blasts: Seq::<Blast>::empty(), ..grazed },
                    f.score,
                );
                let c = drones_met(
                    Clash {
                        drones: f.drones,
                        asteroids: rocks,
                        hull: Hull { blasts: Seq::<Blast>::empty(), ..rammed },
                        score,
                        kills: f.kills,
                    },
                    f.drones.len() as int,
                    at,
                    window,
                    shield,
                );
                let (kept, stock) = powerups_collected(
                    dropped,
                    dropped.len() as int,
                    at,
                    Stock {
                        shield_energy: pre.ship.shield_energy,
                        lives: c.hull.lives,
                        slowmo_energy: pre.ship.slowmo_energy,
                        rapid_fire_timer: pre.ship.rapid_fire_timer,
                        shake: c.hull.shake,
                        events: c.hull.events,
                        blasts: Seq::<Blast>::empty(),
                    },
                );
                &&& post.world.bullets@ == left
                &&& post.world.asteroids@ == c.asteroids
                &&& post.world.drones@ == c.drones
                &&& post.score == c.score
                &&& post.enemies_killed == c.kills
                &&& post.combo == f.combo
                &&& post.combo_timer == f.combo_timer
                &&& post.ship.invincible_timer == c.hull.invincible
                &&& post.state == c.hull.state
                &&& drops_taken(pre.world.powerups@, dropped, f.drops)
                &&& post.world.powerups@ == kept
                &&& post.ship.shield_energy == stock.shield_energy
                &&& post.ship.lives == stock.lives
                &&& post.ship.slowmo_energy == stock.slowmo_energy
                &&& post.ship.rapid_fire_timer == stock.rapid_fire_timer
                &&& post.shake == stock.shake
                &&& post.event_queue@ == stock.events
                &&& blasts_added(pre.effects.particles@, lit_shots, f.blasts)
                &&& blasts_added(lit_shots, lit_hits, grazed.blasts)
                &&& blasts_added(lit_hits, lit_rocks, rammed.blasts)
                &&& blasts_added(lit_rocks, lit_drones, c.hull.blasts)
                &&& blasts_added(lit_drones, post.effects.particles@, stock.blasts)
            }),
            post.effects.trail@ == pre.effects.trail@,
            post.ship == (Ship {
                lives: post.ship.lives,
                invincible_timer: post.ship.invincible_timer,
                shield_energy: post.ship.shield_energy,
                slowmo_energy: post.ship.slowmo_energy,
                rapid_fire_timer: post.ship.rapid_fire_timer,
                ..pre.ship
            }),
            post == (Game {
                world: post.world,
                ship: post.ship,
                effects: post.effects,
                score: post.score,
                enemies_killed: post.enemies_killed,
                combo: post.combo,
                combo_timer: post.combo_timer,
                state: post.state,
                shake: post.shake,
                event_queue: post.event_queue,
                ..pre
            }),
        ensures
            Game::collided(pre, post),
    {
        let at = pre.ship.pos;
        let window = pre.ship.invincible_timer.time as int;
        let shield = pre.ship.shield_active;
        let (shots, f) = shots_resolved(
            pre.world.bullets@,
            pre.world.bullets@.len() as int,
            Field {
                asteroids: pre.world.asteroids@,
                drones: pre.world.drones@,
                score: pre.score as int,
                combo: pre.combo as int,
                combo_timer: pre.combo_timer,
                kills: pre.enemies_killed as int,
                blasts: Seq::<Blast>::empty(),
                drops: Seq::<Vec2>::empty(),
            },
        );
        let grazed = hostile_shots_resolved(
            shots,
            shots.len() as int,
            at,
            window,
            shield,
            Hull {
                lives: pre.ship.lives as int,
                invincible: pre.ship.invincible_timer,
                shake: pre.shake,
                state: pre.state,
                events: pre.event_queue@,
                blasts: Seq::<Blast>::empty(),
            },
        ).1;
        let (rocks, rammed, score) = asteroids_met(
            f.asteroids,
            f.asteroids.len() as int,
            at,
            window,
            shield,
            Hull { blasts: Seq::<Blast>::empty(), ..grazed },
            f.score,
        );
        let c = drones_met(
            Clash {
                drones: f.drones,
                asteroids: rocks,
                hull: Hull { blasts: Seq::<Blast>::empty(), ..rammed },
                score,
                kills: f.kills,
            },
            f.drones.len() as int,
            at,
            window,
            shield,
        );
        let stock = powerups_collected(
            dropped,
            dropped.len() as int,
            at,
            Stock {
                shield_energy: pre.ship.shield_energy,
                lives: c.hull.lives,
                slowmo_energy: pre.ship.slowmo_energy,
                rapid_fire_timer: pre.ship.rapid_fire_timer,
                shake: c.hull.shake,
                events: c.hull.events,
                blasts: Seq::<Blast>::empty(),
            },
        ).1;
        lemma_blasts_concat(pre.effects.particles@, lit_shots, lit_hits, f.blasts, grazed.blasts);
        lemma_blasts_concat(
            pre.effects.particles@,
            lit_hits,
            lit_rocks,
            f.blasts + grazed.blasts,
            rammed.blasts,
        );
        lemma_blasts_concat(
            pre.effects.particles@,
            lit_rocks,
            lit_drones,
            f.blasts + grazed.blasts + rammed.blasts,
            c.hull.blasts,
        );
        lemma_blasts_concat(
            pre.effects.particles@,
            lit_drones,
            post.effects.particles@,
            f.blasts + grazed.blasts + rammed.blasts + c.hull.blasts,
            stock.blasts,
        );
        assert(Game::collected(
            pre,
            post,
            dropped,
            c.hull,
            f.blasts + grazed.blasts + rammed.blasts + c.hull.blasts,
        ));
    }

    /// `post` is `pre` after the clocks have run for `dt`: the session is
    /// that much older, the combo timer has run down, and a combo whose timer
    /// has run out is lost.
    pub open spec fn clock_advanced(pre: Game, post: Game, dt: int) -> bool {
        post == (Game {
            timer: (pre.timer + dt) as i64,
            combo_timer: pre.combo_timer.ticked(dt),
            combo: if pre.combo_timer.ticked(dt).is_ready() {
                0
            } else {
                pre.combo
            },
            ..pre
        })
    }

    /// `post` is `pre` after the ship has been advanced by `dt` under the
    /// controls `c`.
    pub open spec fn ship_updated(pre: Game, post: Game, dt: int, c: Controls) -> bool {
        &&& post.ship == pre.ship.energized(dt, c).steered(dt, c, pre.screen).with_trail_of(
            post.ship,
        )
        &&& post.ship.trail@ == trail_after(pre.ship.trail@, post.ship.pos, dt)
        &&& post == (Game { ship: post.ship, ..pre })
    }

    /// `post` is `pre` after the weapons have been advanced by `dt` under the
    /// controls `c`: what is due has fired, with its shot, its missile, its
    /// recoil and its flash.
    pub open spec fn weapons_updated(pre: Game, post: Game, dt: int, c: Controls) -> bool {
        let dir = heading_of(pre.ship.rot as int);
        let cooled = pre.weapons.cooled(dt);
        &&& post.weapons == pre.weapons.updated(dt, pre.ship, c).with_missiles_of(post.weapons)
        &&& post.weapons.missiles@ == if cooled.missile_launches(pre.ship, c) {
            pre.weapons.missiles@.push(WeaponSystem::missile_of(pre.ship, dir))
        } else {
            pre.weapons.missiles@
        }
        &&& post.ship == pre.weapons.ship_after(dt, pre.ship, c)
        &&& post.world.bullets@ == if cooled.gun_fires(pre.ship, c) {
            pre.world.bullets@.push(WeaponSystem::gun_shot_of(pre.ship, dir))
        } else {
            pre.world.bullets@
        }
        &&& post.world.same_but_bullets(pre.world)
        &&& post.event_queue@ == if cooled.laser_fires(pre.ship, c) {
            pre.event_queue@.push(Event::LaserFired { pos: pre.ship.pos, dir })
        } else {
            pre.event_queue@
        }
        &&& weapons_flashed(
            pre.effects,
            post.effects,
            cooled.gun_fires(pre.ship, c),
            cooled.missile_launches(pre.ship, c),
            pre.ship,
            dir,
        )
        &&& post == (Game {
            weapons: post.weapons,
            ship: post.ship,
            world: post.world,
            event_queue: post.event_queue,
            effects: post.effects,
            ..pre
        })
    }

    /// `post` is `pre` after the particles and the trail have been advanced
    /// by `dt`.
    pub open spec fn effects_updated(pre: Game, post: Game, dt: int) -> bool {
        &&& post.effects.particles@ == particles_after(pre.effects.particles@, dt)
        &&& post.effects.trail@ == trail_dimmed(pre.effects.trail@, dt)
        &&& post == (Game { effects: post.effects, ..pre })
    }

    /// `post` is `pre` after the shaking of the screen has been advanced by
    /// `dt`.
    pub open spec fn shake_updated(pre: Game, post: Game, dt: int) -> bool {
        post == (Game { shake: pre.shake.decayed(dt), ..pre })
    }

    /// `post` is `pre` after one step of `dt` clock ticks under the controls
    /// `c`: the clocks run, then the ship, the weapons and everything on the
    /// field are advanced, collisions are resolved, the wave director acts,
    /// what is no longer alive is swept away, and the effects and the shake
    /// are advanced, each for all of `dt` and in the state that the one
    /// before has left.
    pub open spec fn stepped(pre: Game, post: Game, dt: int, c: Controls) -> bool {
        exists|
            g1: Game,
            g2: Game,
            g3: Game,
            g4: Game,
            g5: Game,
            g6: Game,
            g7: Game,
            g8: Game,
        |
            #![trigger
                Game::clock_advanced(pre, g1, dt),
                Game::ship_updated(g1, g2, dt, c),
                Game::weapons_updated(g2, g3, dt, c),
                Game::entities_updated(g3, g4, dt),
                Game::collided(g4, g5),
                Game::waves_handled(g5, g6),
                Game::cleaned(g6, g7),
                Game::effects_updated(g7, g8, dt),
            ]
            {
                &&& Game::clock_advanced(pre, g1, dt)
                &&& Game::ship_updated(g1, g2, dt, c)
                &&& Game::weapons_updated(g2, g3, dt, c)
                &&& Game::entities_updated(g3, g4, dt)
                &&& Game::collided(g4, g5)
                &&& Game::waves_handled(g5, g6)
                &&& Game::cleaned(g6, g7)
                &&& Game::effects_updated(g7, g8, dt)
                &&& Game::shake_updated(g8, post, dt)
            }
    }

    /// Runs the clocks, then advances the ship and the weapons.
    fn begin_step(&mut self, dt: i64, controls: &Controls) -> (mid: Ghost<(Game, Game)>)
        requires
            old(self).wf(),
            old(self).has_room(),
            0 <= dt <= LONGEST_STEP,
        ensures
            Game::clock_advanced(*old(self), mid@.0, dt as int),
            Game::ship_updated(mid@.0, mid@.1, dt as int, *controls),
            Game::weapons_updated(mid@.1, *final(self), dt as int, *controls),
            final(self).wf(),
            final(self).timer == old(self).timer + dt,
            final(self).score == old(self).score,
            final(self).combo == old(self).combo || final(self).combo == 0,
            final(self).enemies_killed == old(self).enemies_killed,
            final(self).wave == old(self).wave,
            final(self).ship.lives == old(self).ship.lives,
            final(self).weapons.missiles@.len() <= old(self).weapons.missiles@.len() + 1,
            final(self).world.bullets@.len() <= old(self).world.bullets@.len() + 1,
            final(self).world.asteroids@.len() == old(self).world.asteroids@.len(),
            final(self).world.drones@.len() == old(self).world.drones@.len(),
    {
        self.timer = self.timer + dt;
        self.combo_timer.tick(dt);
        if self.combo_timer.ready() {
            self.combo = 0;
        }
        let ghost g1 = *self;
        let _ship_dir: Vec2 = self.ship.update(dt, controls, self.screen);
        let ghost g2 = *self;
        self.weapons.update(
            dt,
            &mut self.ship,
            &mut self.world,
            &mut self.effects,
            &mut self.event_queue,
            controls,
        );
        Ghost((g1, g2))
    }

    /// Advances the effects and the shake.
    fn end_step(&mut self, dt: i64) -> (mid: Ghost<Game>)
        requires
            old(self).wf(),
            0 <= dt <= LONGEST_STEP,
        ensures
            Game::effects_updated(*old(self), mid@, dt as int),
            Game::shake_updated(mid@, *final(self), dt as int),
            final(self).wf(),
    {
        self.effects.update(dt);
        let ghost g8 = *self;
        let _offset: Vec2 = self.shake.update(dt);
        Ghost(g8)
    }

    /// Advances the whole simulation by one step of `dt` clock ticks under
    /// the given controls.
    pub fn update(&mut self, dt: i64, controls: &Controls)
        requires
            old(self).wf(),
            old(self).has_room(),
            0 <= dt <= LONGEST_STEP,
        ensures
            Game::stepped(*old(self), *final(self), dt as int, *controls),
            final(self).wf(),
    {
        let _early = self.begin_step(dt, controls);
        self.update_entities(dt);
        self.handle_collisions();
        self.handle_waves(dt);
        self.cleanup();
        let _late = self.end_step(dt);
    }
}

} // verus!
