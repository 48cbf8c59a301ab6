//! The five collision passes of a step: the ship's shots against enemies,
//! hostile shots against the ship, the ship against asteroids, the ship and
//! asteroids against drones, and the ship against power-ups.
//!
//! Every test is a plain distance test between two positions. An asteroid
//! destroyed earlier in the step takes no further part, nor does a shot of
//! the ship whose time has run out; hostile shots, drones and power-ups are
//! tested wherever they are in reach, whatever they have left. What explodes
//! is shown at once, as particles; the queue of events holds only what the
//! host is told: the end of the game and each pick-up.
use crate::consts::{
    ASTEROID_BOUNCE_SPEED, ASTEROID_HIT_SCORE, ASTEROID_MIN_RADIUS, BOUNCE_SCORE,
    BULLET_COLLISION_RADIUS, COLLATERAL_SCORE, DRONE_BOUNCE_SPEED, DRONE_COLLISION_RADIUS,
    DRONE_HIT_SCORE, HEAVY_DAMAGE, KILL_SCORE, MAX_LIVES, POWERUP_COLLISION_RADIUS,
    POWERUP_SPAWN_CHANCE, REACH, SHIP_ASTEROID_MARGIN, SHIP_HIT_RADIUS, SHOT_DAMAGE,
};
use crate::cooldown::{Cooldown, smaller};
use crate::effects::{
    Blast, Burst, EVENT_REACH, EffectSystem, Particle, TEXT_EFFECT_COUNT, blasts_added, events_home,
};
use crate::enemies::{Asteroid, Bullet, Drone, POWERUP_DRIFT, POWERUP_LIFE, PowerUp, PowerUpType};
use crate::events::{Color, Event, EventQueue};
use crate::game::{GameState, ScreenShake};
use crate::rng::{draw, wins};
use crate::units::{LIMIT, LONGEST_STEP, SECOND, in_limit};
use crate::vec2::{Vec2, closer_than, diff_of, norm_sq, with_length_of};
use vstd::prelude::*;

verus! {

/// What the passes that damage enemies read and change.
pub struct Field {
    pub asteroids: Seq<Asteroid>,
    pub drones: Seq<Drone>,
    pub score: int,
    pub combo: int,
    pub combo_timer: Cooldown,
    pub kills: int,
    /// The bursts set off so far.
    pub blasts: Seq<Blast>,
    /// Where enemies were destroyed so far: each such place may get a
    /// power-up.
    pub drops: Seq<Vec2>,
}

/// Every drone has at least `floor` hit points.
pub open spec fn drones_floor(drones: Seq<Drone>, floor: int) -> bool {
    forall|i: int| 0 <= i < drones.len() ==> (#[trigger] drones[i]).hp >= floor
}

/// An explosion of `count` particles of one colour at `pos`.
pub open spec fn explosion_of(pos: Vec2, color: Color, count: int) -> Blast {
    Blast { burst: Burst::Explosion { pos, color }, count }
}

/// The first drone, from index `from` on, that is closer to `p` than `reach`,
/// whatever hit points it has.
pub open spec fn first_touched(drones: Seq<Drone>, p: Vec2, reach: int, from: int) -> Option<int>
    decreases drones.len() - from,
{
    if from < 0 || from >= drones.len() {
        None
    } else if closer_than(p, drones[from].pos, reach) {
        Some(from)
    } else {
        first_touched(drones, p, reach, from + 1)
    }
}

/// The first drone closer to `p` than `reach`, whatever hit points it has.
pub fn find_touched_drone(drones: &Vec<Drone>, p: Vec2, reach: i64) -> (found: Option<usize>)
    requires
        drones_wf(drones@),
        p.bounded(LIMIT as int),
    ensures
        match found {
            Some(i) => first_touched(drones@, p, reach as int, 0) == Some(i as int) && i
                < drones@.len() && closer_than(p, drones@[i as int].pos, reach as int),
            None => first_touched(drones@, p, reach as int, 0).is_none(),
        },
{
    let mut i: usize = 0;
    while i < drones.len()
        invariant
            0 <= i <= drones@.len(),
            drones_wf(drones@),
            p.bounded(LIMIT as int),
            first_touched(drones@, p, reach as int, 0) == first_touched(
                drones@,
                p,
                reach as int,
                i as int,
            ),
        decreases drones@.len() - i,
    {
        if p.is_closer_than(drones[i].pos, reach) {
            return Some(i);
        }
        i = i + 1;
    }
    None
}

/// Every asteroid is within the limits the arithmetic needs.
pub open spec fn asteroids_wf(asteroids: Seq<Asteroid>) -> bool {
    forall|i: int| 0 <= i < asteroids.len() ==> (#[trigger] asteroids[i]).wf()
}

/// Every drone is within the limits the arithmetic needs.
pub open spec fn drones_wf(drones: Seq<Drone>) -> bool {
    forall|i: int| 0 <= i < drones.len() ==> (#[trigger] drones[i]).wf()
}

/// Every shot is within the limits the arithmetic needs.
pub open spec fn bullets_wf(bullets: Seq<Bullet>) -> bool {
    forall|i: int| 0 <= i < bullets.len() ==> (#[trigger] bullets[i]).wf()
}

/// Every power-up is within the limits the arithmetic needs.
pub open spec fn powerups_wf(powerups: Seq<PowerUp>) -> bool {
    forall|i: int| 0 <= i < powerups.len() ==> (#[trigger] powerups[i]).wf()
}

/// Every asteroid is where an asteroid can be in the course of a step.
pub open spec fn asteroids_astray(asteroids: Seq<Asteroid>) -> bool {
    forall|i: int| 0 <= i < asteroids.len() ==> (#[trigger] asteroids[i]).astray()
}

/// Every drone is where a drone can be in the course of a step.
pub open spec fn drones_astray(drones: Seq<Drone>) -> bool {
    forall|i: int| 0 <= i < drones.len() ==> (#[trigger] drones[i]).astray()
}

/// Every shot is where a shot can be in the course of a step.
pub open spec fn bullets_astray(bullets: Seq<Bullet>) -> bool {
    forall|i: int| 0 <= i < bullets.len() ==> (#[trigger] bullets[i]).astray()
}

/// Every power-up is where a power-up can be in the course of a step.
pub open spec fn powerups_astray(powerups: Seq<PowerUp>) -> bool {
    forall|i: int| 0 <= i < powerups.len() ==> (#[trigger] powerups[i]).astray()
}

/// Every power-up is where a power-up can be before it moves.
pub open spec fn powerups_settled(powerups: Seq<PowerUp>) -> bool {
    forall|i: int| 0 <= i < powerups.len() ==> (#[trigger] powerups[i]).settled()
}

/// Every asteroid is where an asteroid can be at the end of a step.
pub open spec fn asteroids_settled(asteroids: Seq<Asteroid>) -> bool {
    forall|i: int| 0 <= i < asteroids.len() ==> (#[trigger] asteroids[i]).settled()
}

/// Every drone is where a drone can be at the end of a step.
pub open spec fn drones_settled(drones: Seq<Drone>) -> bool {
    forall|i: int| 0 <= i < drones.len() ==> (#[trigger] drones[i]).settled()
}

/// Every shot is where a shot can be before it moves.
pub open spec fn bullets_settled(bullets: Seq<Bullet>) -> bool {
    forall|i: int| 0 <= i < bullets.len() ==> (#[trigger] bullets[i]).settled()
}

/// The intact asteroid `a` is within `margin` of reaching the point `p`.
pub open spec fn asteroid_reached(a: Asteroid, p: Vec2, margin: int) -> bool {
    a.intact() && closer_than(p, a.pos, a.radius + margin)
}

/// The intact drone `d` is closer to the point `p` than `reach`.
pub open spec fn drone_reached(d: Drone, p: Vec2, reach: int) -> bool {
    d.intact() && closer_than(p, d.pos, reach)
}

/// The first asteroid, from index `from` on, that is reached from `p`.
pub open spec fn first_asteroid(
    asteroids: Seq<Asteroid>,
    p: Vec2,
    margin: int,
    from: int,
) -> Option<int>
    decreases asteroids.len() - from,
{
    if from < 0 || from >= asteroids.len() {
        None
    } else if asteroid_reached(asteroids[from], p, margin) {
        Some(from)
    } else {
        first_asteroid(asteroids, p, margin, from + 1)
    }
}

/// The first drone, from index `from` on, that is reached from `p`.
pub open spec fn first_drone(drones: Seq<Drone>, p: Vec2, reach: int, from: int) -> Option<int>
    decreases drones.len() - from,
{
    if from < 0 || from >= drones.len() {
        None
    } else if drone_reached(drones[from], p, reach) {
        Some(from)
    } else {
        first_drone(drones, p, reach, from + 1)
    }
}

/// What `first_asteroid` finds is reached, and nothing before it is.
pub proof fn lemma_first_asteroid(asteroids: Seq<Asteroid>, p: Vec2, margin: int, from: int)
    requires
        0 <= from,
    ensures
        match first_asteroid(asteroids, p, margin, from) {
            Some(i) => from <= i < asteroids.len() && asteroid_reached(asteroids[i], p, margin)
                && forall|j: int| from <= j < i ==> !asteroid_reached(asteroids[j], p, margin),
            None => forall|j: int|
                from <= j < asteroids.len() ==> !asteroid_reached(asteroids[j], p, margin),
        },
    decreases asteroids.len() - from,
{
    if from < asteroids.len() && !asteroid_reached(asteroids[from], p, margin) {
        lemma_first_asteroid(asteroids, p, margin, from + 1);
    }
}

/// What `first_drone` finds is reached, and nothing before it is.
pub proof fn lemma_first_drone(drones: Seq<Drone>, p: Vec2, reach: int, from: int)
    requires
        0 <= from,
    ensures
        match first_drone(drones, p, reach, from) {
            Some(i) => from <= i < drones.len() && drone_reached(drones[i], p, reach)
                && forall|j: int| from <= j < i ==> !drone_reached(drones[j], p, reach),
            None => forall|j: int| from <= j < drones.len() ==> !drone_reached(drones[j], p, reach),
        },
    decreases drones.len() - from,
{
    if from < drones.len() && !drone_reached(drones[from], p, reach) {
        lemma_first_drone(drones, p, reach, from + 1);
    }
}

/// The first intact asteroid within `margin` of reaching `p`.
pub fn find_asteroid(asteroids: &Vec<Asteroid>, p: Vec2, margin: i64) -> (found: Option<usize>)
    requires
        asteroids_wf(asteroids@),
        p.bounded(LIMIT as int),
        in_limit(margin as int),
    ensures
        match found {
            Some(i) => first_asteroid(asteroids@, p, margin as int, 0) == Some(i as int)
                && i < asteroids@.len() && asteroid_reached(asteroids@[i as int], p, margin as int),
            None => first_asteroid(asteroids@, p, margin as int, 0).is_none(),
        },
{
    let mut i: usize = 0;
    while i < asteroids.len()
        invariant
            0 <= i <= asteroids@.len(),
            asteroids_wf(asteroids@),
            p.bounded(LIMIT as int),
            in_limit(margin as int),
            first_asteroid(asteroids@, p, margin as int, 0) == first_asteroid(
                asteroids@,
                p,
                margin as int,
                i as int,
            ),
        decreases asteroids@.len() - i,
    {
        let a: Asteroid = asteroids[i];
        if a.radius > ASTEROID_MIN_RADIUS && p.is_closer_than(a.pos, a.radius + margin) {
            return Some(i);
        }
        i = i + 1;
    }
    None
}

/// The first intact drone closer to `p` than `reach`.
pub fn find_drone(drones: &Vec<Drone>, p: Vec2, reach: i64) -> (found: Option<usize>)
    requires
        drones_wf(drones@),
        p.bounded(LIMIT as int),
    ensures
        match found {
            Some(i) => first_drone(drones@, p, reach as int, 0) == Some(i as int) && i
                < drones@.len() && drone_reached(drones@[i as int], p, reach as int),
            None => first_drone(drones@, p, reach as int, 0).is_none(),
        },
{
    let mut i: usize = 0;
    while i < drones.len()
        invariant
            0 <= i <= drones@.len(),
            drones_wf(drones@),
            p.bounded(LIMIT as int),
            first_drone(drones@, p, reach as int, 0) == first_drone(drones@, p, reach as int, i as int),
        decreases drones@.len() - i,
    {
        let d: Drone = drones[i];
        if d.hp > 0 && p.is_closer_than(d.pos, reach) {
            return Some(i);
        }
        i = i + 1;
    }
    None
}

/// The power-up `p` is as new, at `site`.
pub open spec fn fresh_at(p: PowerUp, site: Vec2) -> bool {
    &&& p.pos == site
    &&& p.life == POWERUP_LIFE
    &&& -POWERUP_DRIFT <= p.vel.x < POWERUP_DRIFT
    &&& -POWERUP_DRIFT <= p.vel.y < POWERUP_DRIFT
}

/// `after` is `before` with new power-ups appended at some of the `sites`, in
/// the order of the sites and at most one for each.
pub open spec fn drops_taken(before: Seq<PowerUp>, after: Seq<PowerUp>, sites: Seq<Vec2>) -> bool
    decreases sites.len(),
{
    if sites.len() == 0 {
        after == before
    } else {
        ||| drops_taken(before, after, sites.drop_last())
        ||| (after.len() > 0 && fresh_at(after.last(), sites.last()) && drops_taken(
            before,
            after.drop_last(),
            sites.drop_last(),
        ))
    }
}

/// Whether a destroyed enemy leaves a power-up, given a draw out of a
/// thousand: it does three times in ten, when the draw is below three
/// hundred.
pub fn drops_power_up(drawn: i32) -> (r: bool)
    ensures
        r == (drawn < POWERUP_SPAWN_CHANCE),
{
    wins(drawn, POWERUP_SPAWN_CHANCE)
}

/// Draws whether the enemy destroyed at `site` leaves a power-up, and
/// appends it if so.
pub(crate) fn maybe_drop(
    powerups: &mut Vec<PowerUp>,
    site: Vec2,
    Ghost(before): Ghost<Seq<PowerUp>>,
    Ghost(sites): Ghost<Seq<Vec2>>,
)
    requires
        drops_taken(before, old(powerups)@, sites),
    ensures
        drops_taken(before, final(powerups)@, sites.push(site)),
        powerups_wf(old(powerups)@) && site.bounded(LIMIT as int) ==> powerups_wf(final(powerups)@),
        powerups_astray(old(powerups)@) && site.bounded(REACH as int) ==> powerups_astray(
            final(powerups)@,
        ),
        powerups_settled(old(powerups)@) && site.bounded(REACH as int) ==> powerups_settled(
            final(powerups)@,
        ),
        final(powerups)@.len() <= old(powerups)@.len() + 1,
{
    assert(sites.push(site).drop_last() =~= sites);
    if drops_power_up(draw(1000)) {
        let p: PowerUp = PowerUp::new(site);
        powerups.push(p);
        assert(powerups@.drop_last() =~= old(powerups)@);
    }
}

/// The field after a shot of the ship has hit the asteroid at index `i`: the
/// asteroid loses radius, the score and the combo grow, and an explosion is
/// set off; a destroyed asteroid may leave a power-up.
pub open spec fn asteroid_shot(f: Field, i: int) -> Field {
    let a = f.asteroids[i];
    let hit = a.damaged(SHOT_DAMAGE as int);
    Field {
        asteroids: f.asteroids.update(i, hit),
        score: f.score + ASTEROID_HIT_SCORE,
        combo: f.combo + 1,
        combo_timer: f.combo_timer.wound(),
        blasts: f.blasts.push(explosion_of(a.pos, Color::White, 10)),
        drops: if hit.intact() {
            f.drops
        } else {
            f.drops.push(a.pos)
        },
        ..f
    }
}

/// The drone `d` with `damage` hit points fewer.
pub open spec fn drone_damaged(d: Drone, damage: int) -> Drone {
    Drone { hp: (d.hp - damage) as i32, ..d }
}

/// The field after a shot of the ship has hit the drone at index `j`: the
/// drone loses a hit point, the score and the combo grow; a drone left
/// without hit points counts as a kill, scores again and may leave a
/// power-up.
pub open spec fn drone_shot(f: Field, j: int) -> Field {
    let d = f.drones[j];
    let hit = drone_damaged(d, 1);
    let struck = f.blasts.push(explosion_of(d.pos, Color::Red, 8));
    if hit.intact() {
        Field {
            drones: f.drones.update(j, hit),
            score: f.score + DRONE_HIT_SCORE,
            combo: f.combo + 1,
            combo_timer: f.combo_timer.wound(),
            blasts: struck,
            ..f
        }
    } else {
        Field {
            drones: f.drones.update(j, hit),
            score: f.score + DRONE_HIT_SCORE + KILL_SCORE,
            combo: f.combo + 1,
            combo_timer: f.combo_timer.wound(),
            kills: f.kills + 1,
            blasts: struck.push(explosion_of(d.pos, Color::Orange, 15)),
            drops: f.drops.push(d.pos),
            ..f
        }
    }
}

/// Whether a shot takes part in the pass against enemies: it is the ship's
/// and has time left.
pub open spec fn friendly_shot(b: Bullet) -> bool {
    !b.enemy && b.life > 0
}

/// The field after the shot `b` was tested against it, or nothing if the
/// shot hit nothing: the intact asteroids are tried first, then the drones.
pub open spec fn shot_landed(b: Bullet, f: Field) -> Option<Field> {
    match first_asteroid(f.asteroids, b.pos, 0, 0) {
        Some(i) => Some(asteroid_shot(f, i)),
        None => match first_touched(f.drones, b.pos, BULLET_COLLISION_RADIUS as int, 0) {
            Some(j) => Some(drone_shot(f, j)),
            None => None,
        },
    }
}

/// The shots that are left, and the field, after the first `n` shots were
/// resolved one after the other.
pub open spec fn shots_resolved(bullets: Seq<Bullet>, n: int, f: Field) -> (Seq<Bullet>, Field)
    decreases n,
{
    if n <= 0 {
        (Seq::<Bullet>::empty(), f)
    } else {
        let (kept, g) = shots_resolved(bullets, n - 1, f);
        let b = bullets[n - 1];
        if !friendly_shot(b) {
            (kept.push(b), g)
        } else {
            match shot_landed(b, g) {
                Some(h) => (kept, h),
                None => (kept.push(b), g),
            }
        }
    }
}

/// The ship's shots against the enemies. Each shot that has time left is
/// tried against the intact asteroids, then against the drones; the first
/// enemy it hits is damaged and the shot is used up. Nothing is queued.
pub fn handle_friendly_bullet_collisions(
    bullets: &mut Vec<Bullet>,
    asteroids: &mut Vec<Asteroid>,
    drones: &mut Vec<Drone>,
    score: &mut i32,
    combo: &mut i32,
    combo_timer: &mut Cooldown,
    enemies_killed: &mut i32,
    effects: &mut EffectSystem,
    powerups: &mut Vec<PowerUp>,
    _event_queue: &mut EventQueue,
)
    requires
        bullets_wf(old(bullets)@),
        asteroids_wf(old(asteroids)@),
        drones_wf(old(drones)@),
        drones_floor(old(drones)@, i32::MIN + old(bullets)@.len()),
        *old(score) + 100 * old(bullets)@.len() <= i32::MAX,
        *old(combo) + old(bullets)@.len() <= i32::MAX,
        *old(enemies_killed) + old(bullets)@.len() <= i32::MAX,
    ensures
        ({
            let before = Field {
                asteroids: old(asteroids)@,
                drones: old(drones)@,
                score: *old(score) as int,
                combo: *old(combo) as int,
                combo_timer: *old(combo_timer),
                kills: *old(enemies_killed) as int,
                blasts: Seq::<Blast>::empty(),
                drops: Seq::<Vec2>::empty(),
            };
            let (kept, after) = shots_resolved(old(bullets)@, old(bullets)@.len() as int, before);
            &&& final(bullets)@ == kept
            &&& final(asteroids)@ == after.asteroids
            &&& final(drones)@ == after.drones
            &&& *final(score) == after.score
            &&& *final(combo) == after.combo
            &&& *final(combo_timer) == after.combo_timer
            &&& *final(enemies_killed) == after.kills
            &&& blasts_added(old(effects).particles@, final(effects).particles@, after.blasts)
            &&& drops_taken(old(powerups)@, final(powerups)@, after.drops)
        }),
        final(_event_queue)@ == old(_event_queue)@,
        final(effects).trail@ == old(effects).trail@,
        bullets_wf(final(bullets)@),
        asteroids_wf(final(asteroids)@),
        drones_wf(final(drones)@),
        final(asteroids)@.len() == old(asteroids)@.len(),
        final(drones)@.len() == old(drones)@.len(),
        final(bullets)@.len() <= old(bullets)@.len(),
        final(powerups)@.len() <= old(powerups)@.len() + old(bullets)@.len(),
        powerups_wf(old(powerups)@) ==> powerups_wf(final(powerups)@),
        bullets_astray(old(bullets)@) ==> bullets_astray(final(bullets)@),
        asteroids_astray(old(asteroids)@) ==> asteroids_astray(final(asteroids)@),
        drones_astray(old(drones)@) ==> drones_astray(final(drones)@),
        powerups_astray(old(powerups)@) && asteroids_astray(old(asteroids)@) && drones_astray(
            old(drones)@,
        ) ==> powerups_astray(final(powerups)@),
        old(effects).tame() && asteroids_astray(old(asteroids)@) && drones_astray(old(drones)@)
            ==> final(effects).tame(),
        old(effects).wf() ==> final(effects).wf(),
        forall|floor: int|
            drones_floor(old(drones)@, floor) ==> #[trigger] drones_floor(
                final(drones)@,
                floor - old(bullets)@.len(),
            ),
        *old(score) <= *final(score) <= *old(score) + 100 * old(bullets)@.len(),
        *old(enemies_killed) <= *final(enemies_killed),
        *final(enemies_killed) <= *old(enemies_killed) + old(bullets)@.len(),
        *final(combo) <= *old(combo) + old(bullets)@.len(),
        old(combo_timer).wf() ==> final(combo_timer).wf(),
{
    let ghost start = Field {
        asteroids: asteroids@,
        drones: drones@,
        score: *score as int,
        combo: *combo as int,
        combo_timer: *combo_timer,
        kills: *enemies_killed as int,
        blasts: Seq::<Blast>::empty(),
        drops: Seq::<Vec2>::empty(),
    };
    let ghost mut f = start;
    let ghost lit = effects.particles@;
    let mut kept: Vec<Bullet> = Vec::new();
    let n: usize = bullets.len();
    let mut i: usize = 0;
    while i < n
        invariant
            0 <= i <= n,
            n == bullets@.len(),
            bullets@ == old(bullets)@,
            lit == old(effects).particles@,
            bullets_wf(bullets@),
            bullets_wf(kept@),
            asteroids_wf(asteroids@),
            drones_wf(drones@),
            asteroids@.len() == old(asteroids)@.len(),
            drones@.len() == old(drones)@.len(),
            powerups_wf(old(powerups)@) ==> powerups_wf(powerups@),
            kept@.len() <= i,
            powerups@.len() <= old(powerups)@.len() + i,
            bullets_astray(old(bullets)@) ==> bullets_astray(kept@),
            asteroids_astray(old(asteroids)@) ==> asteroids_astray(asteroids@),
            drones_astray(old(drones)@) ==> drones_astray(drones@),
            powerups_astray(old(powerups)@) && asteroids_astray(old(asteroids)@) && drones_astray(
                old(drones)@,
            ) ==> powerups_astray(powerups@),
            old(effects).tame() && asteroids_astray(old(asteroids)@) && drones_astray(
                old(drones)@,
            ) ==> effects.tame(),
            old(effects).wf() ==> effects.wf(),
            effects.trail@ == old(effects).trail@,
            forall|j: int|
                0 <= j < drones@.len() ==> (#[trigger] drones@[j]).hp >= old(drones)@[j].hp - i,
            drones_floor(old(drones)@, i32::MIN + n),
            *old(score) <= *score,
            *old(enemies_killed) <= *enemies_killed,
            old(combo_timer).wf() ==> combo_timer.wf(),
            shots_resolved(bullets@, i as int, start) == (kept@, f),
            f.asteroids == asteroids@,
            f.drones == drones@,
            f.score == *score,
            f.combo == *combo,
            f.combo_timer == *combo_timer,
            f.kills == *enemies_killed,
            blasts_added(lit, effects.particles@, f.blasts),
            drops_taken(old(powerups)@, powerups@, f.drops),
            *score <= *old(score) + 100 * i,
            *combo <= *old(combo) + i,
            *enemies_killed <= *old(enemies_killed) + i,
            *old(score) + 100 * n <= i32::MAX,
            *old(combo) + n <= i32::MAX,
            *old(enemies_killed) + n <= i32::MAX,
        decreases n - i,
    {
        let b: Bullet = bullets[i];
        let mut used: bool = false;
        if !b.enemy && b.life > 0 {
            match find_asteroid(asteroids, b.pos, 0) {
                Some(ai) => {
                    let a: Asteroid = asteroids[ai];
                    let mut hit: Asteroid = a;
                    let destroyed: bool = hit.take_damage(SHOT_DAMAGE);
                    asteroids[ai] = hit;
                    *score = *score + ASTEROID_HIT_SCORE;
                    *combo = *combo + 1;
                    combo_timer.reset();
                    effects.explode(a.pos, Color::White, 10, Ghost(lit), Ghost(f.blasts));
                    let ghost sites = f.drops;
                    proof {
                        f = asteroid_shot(f, ai as int);
                    }
                    if destroyed {
                        maybe_drop(powerups, a.pos, Ghost(old(powerups)@), Ghost(sites));
                    }
                    used = true;
                },
                None => {
                    match find_touched_drone(drones, b.pos, BULLET_COLLISION_RADIUS) {
                        Some(di) => {
                            let d: Drone = drones[di];
                            let mut hit: Drone = d;
                            hit.hp = hit.hp - 1;
                            drones[di] = hit;
                            *score = *score + DRONE_HIT_SCORE;
                            *combo = *combo + 1;
                            combo_timer.reset();
                            effects.explode(d.pos, Color::Red, 8, Ghost(lit), Ghost(f.blasts));
                            let ghost struck = f.blasts.push(explosion_of(d.pos, Color::Red, 8));
                            let ghost sites = f.drops;
                            proof {
                                f = drone_shot(f, di as int);
                            }
                            if hit.hp <= 0 {
                                *enemies_killed = *enemies_killed + 1;
                                *score = *score + KILL_SCORE;
                                effects.explode(d.pos, Color::Orange, 15, Ghost(lit), Ghost(struck));
                                maybe_drop(powerups, d.pos, Ghost(old(powerups)@), Ghost(sites));
                            }
                            used = true;
                        },
                        None => {},
                    }
                },
            }
        }
        if !used {
            kept.push(b);
        }
        i = i + 1;
    }
    *bullets = kept;
}

/// Shake after the ship or its shield was grazed.
pub const LIGHT_SHAKE: i64 = 300_000;

/// Shake after the ship was rammed, or a wave was cleared.
pub const HEAVY_SHAKE: i64 = 500_000;

/// Shake after a pick-up, or after a drone hit an asteroid.
pub const FAINT_SHAKE: i64 = 200_000;

/// The shake is within the limits the arithmetic needs: it lasts no longer
/// than a second, has not run out by more than a step, and throws no further
/// than that allows.
pub open spec fn shake_steady(s: ScreenShake) -> bool {
    -LONGEST_STEP <= s.timer <= SECOND && 0 <= s.amount <= 10_000
}

/// What the passes that can damage the ship read and change.
pub struct Hull {
    pub lives: int,
    /// The invincibility window of the ship.
    pub invincible: Cooldown,
    pub shake: ScreenShake,
    pub state: GameState,
    /// The events queued so far.
    pub events: Seq<Event>,
    /// The bursts set off so far.
    pub blasts: Seq<Blast>,
}

/// The hull after a damaging hit, shown as `blast`: a life is lost, the
/// invincibility window opens and the screen shakes for `shake`; with the
/// last life the game is over, and says so once.
pub open spec fn ship_hurt(h: Hull, blast: Blast, shake: int) -> Hull {
    Hull {
        lives: h.lives - 1,
        invincible: h.invincible.wound(),
        shake: h.shake.triggered(shake),
        state: if h.lives - 1 <= 0 {
            GameState::GameOver
        } else {
            h.state
        },
        events: if h.lives - 1 <= 0 {
            h.events.push(Event::GameOver)
        } else {
            h.events
        },
        blasts: h.blasts.push(blast),
    }
}

/// Takes a life from the ship, as `ship_hurt` says.
fn hurt_ship(
    lives: &mut i32,
    ship_invincible: &mut Cooldown,
    shake: &mut ScreenShake,
    effects: &mut EffectSystem,
    state: &mut GameState,
    event_queue: &mut EventQueue,
    at: Vec2,
    color: Color,
    count: usize,
    intensity: i64,
    Ghost(lit): Ghost<Seq<Particle>>,
    Ghost(log): Ghost<Seq<Blast>>,
)
    requires
        *old(lives) > i32::MIN,
        blasts_added(lit, old(effects).particles@, log),
    ensures
        ({
            let before = Hull {
                lives: *old(lives) as int,
                invincible: *old(ship_invincible),
                shake: *old(shake),
                state: *old(state),
                events: old(event_queue)@,
                blasts: log,
            };
            let after = ship_hurt(before, explosion_of(at, color, count as int), intensity as int);
            &&& *final(lives) == after.lives
            &&& *final(ship_invincible) == after.invincible
            &&& *final(shake) == after.shake
            &&& *final(state) == after.state
            &&& final(event_queue)@ == after.events
            &&& blasts_added(lit, final(effects).particles@, after.blasts)
        }),
        final(effects).trail@ == old(effects).trail@,
        old(effects).wf() && at.bounded(LIMIT as int) ==> final(effects).wf(),
        old(effects).tame() && at.bounded(EVENT_REACH as int) ==> final(effects).tame(),
        events_home(old(event_queue)@) ==> events_home(final(event_queue)@),
        shake_steady(*old(shake)) && 0 <= intensity <= SECOND ==> shake_steady(*final(shake)),
{
    *lives = *lives - 1;
    ship_invincible.reset();
    shake.trigger(intensity);
    effects.explode(at, color, count, Ghost(lit), Ghost(log));
    if *lives <= 0 {
        *state = GameState::GameOver;
        event_queue.push(Event::GameOver);
    }
}

/// Whether the shot `b` hits a ship at `ship_pos`: an enemy fired it, it is
/// close enough, and the invincibility window was closed when the pass began
/// and has not been opened since.
pub open spec fn shot_hits_ship(b: Bullet, ship_pos: Vec2, invincible_time: int, h: Hull) -> bool {
    b.enemy && closer_than(b.pos, ship_pos, SHIP_HIT_RADIUS as int) && invincible_time <= 0
        && h.invincible.is_ready()
}

/// The hull after a hostile shot has hit: behind the shield only the shot is
/// lost, without it the ship is hurt.
pub open spec fn shot_taken(b: Bullet, ship_pos: Vec2, shield_active: bool, h: Hull) -> Hull {
    if shield_active {
        Hull { blasts: h.blasts.push(explosion_of(b.pos, Color::SkyBlue, 6)), ..h }
    } else {
        ship_hurt(h, explosion_of(ship_pos, Color::Red, 10), LIGHT_SHAKE as int)
    }
}

/// The shots that are left, and the hull, after the first `n` shots were
/// tested against the ship one after the other.
pub open spec fn hostile_shots_resolved(
    bullets: Seq<Bullet>,
    n: int,
    ship_pos: Vec2,
    invincible_time: int,
    shield_active: bool,
    h: Hull,
) -> (Seq<Bullet>, Hull)
    decreases n,
{
    if n <= 0 {
        (Seq::<Bullet>::empty(), h)
    } else {
        let (kept, g) = hostile_shots_resolved(
            bullets,
            n - 1,
            ship_pos,
            invincible_time,
            shield_active,
            h,
        );
        let b = bullets[n - 1];
        if shot_hits_ship(b, ship_pos, invincible_time, g) {
            (kept, shot_taken(b, ship_pos, shield_active, g))
        } else {
            (kept.push(b), g)
        }
    }
}

/// Hostile shots against the ship. A shot hits when it is close enough and
/// the invincibility window is closed; it is then used up, and hurts the ship
/// unless the shield is up. Only the end of the game is queued.
pub fn handle_enemy_bullet_collisions(
    bullets: &mut Vec<Bullet>,
    ship_pos: &Vec2,
    invincible_time: i64,
    shield_active: bool,
    lives: &mut i32,
    ship_invincible: &mut Cooldown,
    shake: &mut ScreenShake,
    effects: &mut EffectSystem,
    state: &mut GameState,
    event_queue: &mut EventQueue,
)
    requires
        bullets_wf(old(bullets)@),
        ship_pos.bounded(LIMIT as int),
        *old(lives) - old(bullets)@.len() >= i32::MIN,
    ensures
        ({
            let before = Hull {
                lives: *old(lives) as int,
                invincible: *old(ship_invincible),
                shake: *old(shake),
                state: *old(state),
                events: old(event_queue)@,
                blasts: Seq::<Blast>::empty(),
            };
            let (kept, after) = hostile_shots_resolved(
                old(bullets)@,
                old(bullets)@.len() as int,
                *ship_pos,
                invincible_time as int,
                shield_active,
                before,
            );
            &&& final(bullets)@ == kept
            &&& *final(lives) == after.lives
            &&& *final(ship_invincible) == after.invincible
            &&& *final(shake) == after.shake
            &&& *final(state) == after.state
            &&& final(event_queue)@ == after.events
            &&& blasts_added(old(effects).particles@, final(effects).particles@, after.blasts)
        }),
        final(effects).trail@ == old(effects).trail@,
        bullets_wf(final(bullets)@),
        final(bullets)@.len() <= old(bullets)@.len(),
        *old(lives) - old(bullets)@.len() <= *final(lives) <= *old(lives),
        old(ship_invincible).wf() ==> final(ship_invincible).wf(),
        bullets_astray(old(bullets)@) ==> bullets_astray(final(bullets)@),
        shake_steady(*old(shake)) ==> shake_steady(*final(shake)),
        events_home(old(event_queue)@) ==> events_home(final(event_queue)@),
        old(effects).wf() ==> final(effects).wf(),
        old(effects).tame() && bullets_astray(old(bullets)@) && ship_pos.bounded(REACH as int)
            ==> final(effects).tame(),
{
    let ghost start = Hull {
        lives: *lives as int,
        invincible: *ship_invincible,
        shake: *shake,
        state: *state,
        events: event_queue@,
        blasts: Seq::<Blast>::empty(),
    };
    let ghost mut h = start;
    let ghost lit = effects.particles@;
    let mut kept: Vec<Bullet> = Vec::new();
    let n: usize = bullets.len();
    let mut i: usize = 0;
    while i < n
        invariant
            0 <= i <= n,
            n == bullets@.len(),
            bullets@ == old(bullets)@,
            lit == old(effects).particles@,
            bullets_wf(bullets@),
            bullets_wf(kept@),
            kept@.len() <= i,
            ship_pos.bounded(LIMIT as int),
            bullets_astray(old(bullets)@) ==> bullets_astray(kept@),
            shake_steady(*old(shake)) ==> shake_steady(*shake),
            events_home(old(event_queue)@) ==> events_home(event_queue@),
            old(effects).wf() ==> effects.wf(),
            old(effects).tame() && bullets_astray(old(bullets)@) && ship_pos.bounded(REACH as int)
                ==> effects.tame(),
            effects.trail@ == old(effects).trail@,
            hostile_shots_resolved(
                bullets@,
                i as int,
                *ship_pos,
                invincible_time as int,
                shield_active,
                start,
            ) == (kept@, h),
            h.lives == *lives,
            h.invincible == *ship_invincible,
            h.shake == *shake,
            h.state == *state,
            h.events == event_queue@,
            blasts_added(lit, effects.particles@, h.blasts),
            *old(lives) - i <= *lives <= *old(lives),
            *old(lives) - n >= i32::MIN,
            old(ship_invincible).wf() ==> ship_invincible.wf(),
        decreases n - i,
    {
        let b: Bullet = bullets[i];
        if b.enemy && b.pos.is_closer_than(*ship_pos, SHIP_HIT_RADIUS) && invincible_time <= 0
            && ship_invincible.ready() {
            if !shield_active {
                hurt_ship(
                    lives,
                    ship_invincible,
                    shake,
                    effects,
                    state,
                    event_queue,
                    *ship_pos,
                    Color::Red,
                    10,
                    LIGHT_SHAKE,
                    Ghost(lit),
                    Ghost(h.blasts),
                );
            } else {
                effects.explode(b.pos, Color::SkyBlue, 6, Ghost(lit), Ghost(h.blasts));
            }
            proof {
                h = shot_taken(b, *ship_pos, shield_active, h);
            }
        } else {
            kept.push(b);
        }
        i = i + 1;
    }
    *bullets = kept;
}

/// The asteroid `a` thrown off the shield of a ship at `ship_pos`: it leaves
/// straight away from the ship at the bounce speed.
pub open spec fn asteroid_bounced(a: Asteroid, ship_pos: Vec2) -> Asteroid {
    Asteroid { vel: with_length_of(diff_of(a.pos, ship_pos), ASTEROID_BOUNCE_SPEED as int), ..a }
}

/// The asteroid `now` is the asteroid `then`, or is it thrown off the shield:
/// in its place, with its radius, and no faster than the bounce speed.
pub open spec fn same_or_bounced(now: Asteroid, then: Asteroid) -> bool {
    &&& now.pos == then.pos
    &&& now.radius == then.radius
    &&& now.rotation == then.rotation
    &&& now.rotation_speed == then.rotation_speed
    &&& (now.vel == then.vel || norm_sq(now.vel) <= ASTEROID_BOUNCE_SPEED * ASTEROID_BOUNCE_SPEED)
}

/// Whether the asteroid `a` touches a ship at `ship_pos`: it is intact and
/// close enough, and the invincibility window was closed when the pass began
/// and has not been opened since.
pub open spec fn asteroid_touches(a: Asteroid, ship_pos: Vec2, invincible_time: int, h: Hull) -> bool {
    asteroid_reached(a, ship_pos, SHIP_ASTEROID_MARGIN as int) && invincible_time <= 0
        && h.invincible.is_ready()
}

/// The asteroids, the hull and the score after the first `n` asteroids were
/// tested against the ship one after the other.
pub open spec fn asteroids_met(
    asteroids: Seq<Asteroid>,
    n: int,
    ship_pos: Vec2,
    invincible_time: int,
    shield_active: bool,
    h: Hull,
    score: int,
) -> (Seq<Asteroid>, Hull, int)
    decreases n,
{
    if n <= 0 {
        (asteroids, h, score)
    } else {
        let (rocks, g, s) = asteroids_met(
            asteroids,
            n - 1,
            ship_pos,
            invincible_time,
            shield_active,
            h,
            score,
        );
        let a = asteroids[n - 1];
        if asteroid_touches(a, ship_pos, invincible_time, g) {
            if shield_active {
                (
                    rocks.update(n - 1, asteroid_bounced(a, ship_pos)),
                    Hull { shake: g.shake.triggered(LIGHT_SHAKE as int), ..g },
                    s + BOUNCE_SCORE,
                )
            } else {
                (rocks, ship_hurt(g, explosion_of(a.pos, Color::White, 12), HEAVY_SHAKE as int), s)
            }
        } else {
            (rocks, g, s)
        }
    }
}

/// The ship against the asteroids. An intact asteroid touches the ship when
/// it is close enough and the invincibility window is closed; behind the
/// shield it is thrown off and scores, without it the ship is hurt. Only the
/// end of the game is queued.
pub fn handle_ship_asteroid_collisions(
    asteroids: &mut Vec<Asteroid>,
    ship_pos: &Vec2,
    invincible_time: i64,
    shield_active: bool,
    lives: &mut i32,
    ship_invincible: &mut Cooldown,
    shake: &mut ScreenShake,
    score: &mut i32,
    effects: &mut EffectSystem,
    state: &mut GameState,
    event_queue: &mut EventQueue,
)
    requires
        asteroids_wf(old(asteroids)@),
        ship_pos.bounded(LIMIT as int),
        *old(lives) - old(asteroids)@.len() >= i32::MIN,
        *old(score) + BOUNCE_SCORE * old(asteroids)@.len() <= i32::MAX,
    ensures
        ({
            let before = Hull {
                lives: *old(lives) as int,
                invincible: *old(ship_invincible),
                shake: *old(shake),
                state: *old(state),
                events: old(event_queue)@,
                blasts: Seq::<Blast>::empty(),
            };
            let (rocks, after, s) = asteroids_met(
                old(asteroids)@,
                old(asteroids)@.len() as int,
                *ship_pos,
                invincible_time as int,
                shield_active,
                before,
                *old(score) as int,
            );
            &&& final(asteroids)@ == rocks
            &&& *final(score) == s
            &&& *final(lives) == after.lives
            &&& *final(ship_invincible) == after.invincible
            &&& *final(shake) == after.shake
            &&& *final(state) == after.state
            &&& final(event_queue)@ == after.events
            &&& blasts_added(old(effects).particles@, final(effects).particles@, after.blasts)
        }),
        final(effects).trail@ == old(effects).trail@,
        asteroids_wf(final(asteroids)@),
        final(asteroids)@.len() == old(asteroids)@.len(),
        shield_active ==> *final(lives) == *old(lives) && *final(state) == *old(state)
            && *final(ship_invincible) == *old(ship_invincible) && final(event_queue)@ == old(
            event_queue,
        )@ && final(effects).particles@ == old(effects).particles@,
        *old(lives) - old(asteroids)@.len() <= *final(lives) <= *old(lives),
        *final(score) <= *old(score) + BOUNCE_SCORE * old(asteroids)@.len(),
        forall|i: int|
            0 <= i < final(asteroids)@.len() ==> same_or_bounced(
                #[trigger] final(asteroids)@[i],
                old(asteroids)@[i],
            ),
        old(ship_invincible).wf() ==> final(ship_invincible).wf(),
        asteroids_astray(old(asteroids)@) ==> asteroids_astray(final(asteroids)@),
        shake_steady(*old(shake)) ==> shake_steady(*final(shake)),
        *old(score) <= *final(score),
        events_home(old(event_queue)@) ==> events_home(final(event_queue)@),
        old(effects).wf() ==> final(effects).wf(),
        old(effects).tame() && asteroids_astray(old(asteroids)@) ==> final(effects).tame(),
{
    let ghost start = Hull {
        lives: *lives as int,
        invincible: *ship_invincible,
        shake: *shake,
        state: *state,
        events: event_queue@,
        blasts: Seq::<Blast>::empty(),
    };
    let ghost mut h = start;
    let ghost lit = effects.particles@;
    let n: usize = asteroids.len();
    let mut i: usize = 0;
    while i < n
        invariant
            0 <= i <= n,
            n == asteroids@.len(),
            n == old(asteroids)@.len(),
            lit == old(effects).particles@,
            asteroids_wf(asteroids@),
            ship_pos.bounded(LIMIT as int),
            asteroids_met(
                old(asteroids)@,
                i as int,
                *ship_pos,
                invincible_time as int,
                shield_active,
                start,
                *old(score) as int,
            ) == (asteroids@, h, *score as int),
            forall|j: int| i <= j < n ==> asteroids@[j] == old(asteroids)@[j],
            forall|j: int|
                0 <= j < n ==> same_or_bounced(#[trigger] asteroids@[j], old(asteroids)@[j]),
            asteroids_astray(old(asteroids)@) ==> asteroids_astray(asteroids@),
            shake_steady(*old(shake)) ==> shake_steady(*shake),
            events_home(old(event_queue)@) ==> events_home(event_queue@),
            old(effects).wf() ==> effects.wf(),
            old(effects).tame() && asteroids_astray(old(asteroids)@) ==> effects.tame(),
            effects.trail@ == old(effects).trail@,
            h.lives == *lives,
            h.invincible == *ship_invincible,
            h.shake == *shake,
            h.state == *state,
            h.events == event_queue@,
            blasts_added(lit, effects.particles@, h.blasts),
            *old(lives) - i <= *lives <= *old(lives),
            shield_active ==> *lives == *old(lives) && *state == *old(state) && *ship_invincible
                == *old(ship_invincible) && event_queue@ == old(event_queue)@
                && effects.particles@ == lit && h.blasts == start.blasts,
            *old(score) <= *score <= *old(score) + BOUNCE_SCORE * i,
            *old(lives) - n >= i32::MIN,
            *old(score) + BOUNCE_SCORE * n <= i32::MAX,
            old(ship_invincible).wf() ==> ship_invincible.wf(),
        decreases n - i,
    {
        let a: Asteroid = asteroids[i];
        if a.radius > ASTEROID_MIN_RADIUS && ship_pos.is_closer_than(
            a.pos,
            a.radius + SHIP_ASTEROID_MARGIN,
        ) && invincible_time <= 0 && ship_invincible.ready() {
            if shield_active {
                let mut thrown: Asteroid = a;
                thrown.vel = a.pos.minus(*ship_pos).with_length(ASTEROID_BOUNCE_SPEED);
                asteroids[i] = thrown;
                shake.trigger(LIGHT_SHAKE);
                *score = *score + BOUNCE_SCORE;
                proof {
                    h = Hull { shake: h.shake.triggered(LIGHT_SHAKE as int), ..h };
                }
            } else {
                hurt_ship(
                    lives,
                    ship_invincible,
                    shake,
                    effects,
                    state,
                    event_queue,
                    a.pos,
                    Color::White,
                    12,
                    HEAVY_SHAKE,
                    Ghost(lit),
                    Ghost(h.blasts),
                );
                proof {
                    h = ship_hurt(h, explosion_of(a.pos, Color::White, 12), HEAVY_SHAKE as int);
                }
            }
        }
        i = i + 1;
    }
}

/// What the pass of the ship and the asteroids against the drones reads and
/// changes.
pub struct Clash {
    pub drones: Seq<Drone>,
    pub asteroids: Seq<Asteroid>,
    pub hull: Hull,
    pub score: int,
    pub kills: int,
}

/// The drone `d` without hit points.
pub open spec fn drone_destroyed(d: Drone) -> Drone {
    Drone { hp: 0, ..d }
}

/// The drone `d` thrown off the shield of a ship at `ship_pos`: it leaves
/// straight away from the ship at the bounce speed, one hit point down.
pub open spec fn drone_bounced(d: Drone, ship_pos: Vec2) -> Drone {
    Drone {
        vel: with_length_of(diff_of(d.pos, ship_pos), DRONE_BOUNCE_SPEED as int),
        hp: (d.hp - 1) as i32,
        ..d
    }
}

/// The state after the drone at index `k` was tested against the first `n`
/// asteroids in turn. Each intact asteroid that it overlaps destroys it and
/// takes heavy damage itself; each such crash is a kill and scores.
pub open spec fn drone_rammed(c: Clash, k: int, n: int) -> Clash
    decreases n,
{
    if n <= 0 {
        c
    } else {
        let b = drone_rammed(c, k, n - 1);
        let a = b.asteroids[n - 1];
        let d = b.drones[k];
        if asteroid_reached(a, d.pos, DRONE_COLLISION_RADIUS as int) {
            let hit = a.damaged(HEAVY_DAMAGE as int);
            let boom = b.hull.blasts.push(explosion_of(d.pos, Color::Orange, 15));
            Clash {
                drones: b.drones.update(k, drone_destroyed(d)),
                asteroids: b.asteroids.update(n - 1, hit),
                hull: Hull {
                    shake: b.hull.shake.triggered(FAINT_SHAKE as int),
                    blasts: if hit.intact() {
                        boom
                    } else {
                        boom.push(explosion_of(a.pos, Color::White, 12))
                    },
                    ..b.hull
                },
                score: b.score + COLLATERAL_SCORE,
                kills: b.kills + 1,
            }
        } else {
            b
        }
    }
}

/// Whether the drone `d` touches a ship at `ship_pos`: it is close enough,
/// and the invincibility window was closed when the pass began and has not
/// been opened since.
pub open spec fn drone_touches(d: Drone, ship_pos: Vec2, invincible_time: int, h: Hull) -> bool {
    closer_than(ship_pos, d.pos, DRONE_COLLISION_RADIUS as int) && invincible_time <= 0
        && h.invincible.is_ready()
}

/// The state after the drone at index `k` was tested: first against every
/// asteroid, then against the ship. A drone that touches the ship is thrown
/// off the shield, or else destroyed at the price of a life.
pub open spec fn drone_met(
    c: Clash,
    k: int,
    ship_pos: Vec2,
    invincible_time: int,
    shield_active: bool,
) -> Clash {
    let r = drone_rammed(c, k, c.asteroids.len() as int);
    let d = r.drones[k];
    if drone_touches(d, ship_pos, invincible_time, r.hull) {
        if shield_active {
            Clash {
                drones: r.drones.update(k, drone_bounced(d, ship_pos)),
                hull: Hull {
                    blasts: r.hull.blasts.push(explosion_of(d.pos, Color::SkyBlue, 8)),
                    ..r.hull
                },
                ..r
            }
        } else {
            Clash {
                drones: r.drones.update(k, drone_destroyed(d)),
                hull: ship_hurt(r.hull, explosion_of(d.pos, Color::Red, 15), HEAVY_SHAKE as int),
                ..r
            }
        }
    } else {
        r
    }
}

/// The state after the first `n` drones were tested one after the other.
pub open spec fn drones_met(
    c: Clash,
    n: int,
    ship_pos: Vec2,
    invincible_time: int,
    shield_active: bool,
) -> Clash
    decreases n,
{
    if n <= 0 {
        c
    } else {
        drone_met(
            drones_met(c, n - 1, ship_pos, invincible_time, shield_active),
            n - 1,
            ship_pos,
            invincible_time,
            shield_active,
        )
    }
}

/// The drone `now` is the drone `then` after the pass: in its place, of its
/// kind, no faster than it was or than the bounce speed, and at most one hit
/// point down unless it was destroyed.
pub open spec fn drone_after_pass(now: Drone, then: Drone) -> bool {
    &&& now.pos == then.pos
    &&& now.kind == then.kind
    &&& now.cooldown == then.cooldown
    &&& now.max_hp == then.max_hp
    &&& (now.vel == then.vel || now.vel.bounded(DRONE_BOUNCE_SPEED as int))
    &&& (now.hp == 0 || now.hp == -1 || now.hp >= then.hp - 1)
}

/// The asteroid `now` is the asteroid `then` with some radius lost.
pub open spec fn asteroid_worn(now: Asteroid, then: Asteroid) -> bool {
    now == (Asteroid { radius: now.radius, ..then }) && -HEAVY_DAMAGE <= now.radius
        <= then.radius || now == then
}

/// The ship and the asteroids against the drones. Each drone is tested
/// against every intact asteroid, then against the ship. Only the end of
/// the game is queued.
pub fn handle_ship_drone_collisions(
    drones: &mut Vec<Drone>,
    asteroids: &mut Vec<Asteroid>,
    ship_pos: &Vec2,
    invincible_time: i64,
    shield_active: bool,
    lives: &mut i32,
    ship_invincible: &mut Cooldown,
    shake: &mut ScreenShake,
    effects: &mut EffectSystem,
    state: &mut GameState,
    score: &mut i32,
    enemies_killed: &mut i32,
    event_queue: &mut EventQueue,
)
    requires
        drones_wf(old(drones)@),
        asteroids_wf(old(asteroids)@),
        ship_pos.bounded(LIMIT as int),
        drones_floor(old(drones)@, i32::MIN + 1),
        *old(lives) - old(drones)@.len() >= i32::MIN,
        *old(score) + COLLATERAL_SCORE * (old(drones)@.len() * old(asteroids)@.len()) <= i32::MAX,
        *old(enemies_killed) + old(drones)@.len() * old(asteroids)@.len() <= i32::MAX,
    ensures
        ({
            let before = Clash {
                drones: old(drones)@,
                asteroids: old(asteroids)@,
                hull: Hull {
                    lives: *old(lives) as int,
                    invincible: *old(ship_invincible),
                    shake: *old(shake),
                    state: *old(state),
                    events: old(event_queue)@,
                    blasts: Seq::<Blast>::empty(),
                },
                score: *old(score) as int,
                kills: *old(enemies_killed) as int,
            };
            let after = drones_met(
                before,
                old(drones)@.len() as int,
                *ship_pos,
                invincible_time as int,
                shield_active,
            );
            &&& final(drones)@ == after.drones
            &&& final(asteroids)@ == after.asteroids
            &&& *final(score) == after.score
            &&& *final(enemies_killed) == after.kills
            &&& *final(lives) == after.hull.lives
            &&& *final(ship_invincible) == after.hull.invincible
            &&& *final(shake) == after.hull.shake
            &&& *final(state) == after.hull.state
            &&& final(event_queue)@ == after.hull.events
            &&& blasts_added(old(effects).particles@, final(effects).particles@, after.hull.blasts)
        }),
        final(effects).trail@ == old(effects).trail@,
        drones_wf(final(drones)@),
        asteroids_wf(final(asteroids)@),
        final(drones)@.len() == old(drones)@.len(),
        final(asteroids)@.len() == old(asteroids)@.len(),
        shield_active ==> *final(lives) == *old(lives),
        *old(lives) - old(drones)@.len() <= *final(lives) <= *old(lives),
        *final(score) <= *old(score) + COLLATERAL_SCORE * (old(drones)@.len() * old(
            asteroids,
        )@.len()),
        *final(enemies_killed) <= *old(enemies_killed) + old(drones)@.len() * old(asteroids)@.len(),
        forall|i: int|
            0 <= i < final(drones)@.len() ==> drone_after_pass(
                #[trigger] final(drones)@[i],
                old(drones)@[i],
            ),
        forall|i: int|
            0 <= i < final(asteroids)@.len() ==> asteroid_worn(
                #[trigger] final(asteroids)@[i],
                old(asteroids)@[i],
            ),
        old(ship_invincible).wf() ==> final(ship_invincible).wf(),
        asteroids_astray(old(asteroids)@) ==> asteroids_astray(final(asteroids)@),
        drones_astray(old(drones)@) ==> drones_astray(final(drones)@),
        shake_steady(*old(shake)) ==> shake_steady(*final(shake)),
        *old(score) <= *final(score),
        *old(enemies_killed) <= *final(enemies_killed),
        events_home(old(event_queue)@) ==> events_home(final(event_queue)@),
        old(effects).wf() ==> final(effects).wf(),
        old(effects).tame() && asteroids_astray(old(asteroids)@) && drones_astray(old(drones)@)
            ==> final(effects).tame(),
{
    let ghost start = Clash {
        drones: drones@,
        asteroids: asteroids@,
        hull: Hull {
            lives: *lives as int,
            invincible: *ship_invincible,
            shake: *shake,
            state: *state,
            events: event_queue@,
            blasts: Seq::<Blast>::empty(),
        },
        score: *score as int,
        kills: *enemies_killed as int,
    };
    let ghost mut c = start;
    let ghost lit = effects.particles@;
    let n: usize = drones.len();
    let m: usize = asteroids.len();
    let mut k: usize = 0;
    while k < n
        invariant
            0 <= k <= n,
            n == drones@.len(),
            n == old(drones)@.len(),
            m == asteroids@.len(),
            m == old(asteroids)@.len(),
            lit == old(effects).particles@,
            drones_wf(drones@),
            asteroids_wf(asteroids@),
            ship_pos.bounded(LIMIT as int),
            drones_met(start, k as int, *ship_pos, invincible_time as int, shield_active) == c,
            c.drones == drones@,
            c.asteroids == asteroids@,
            c.score == *score,
            c.kills == *enemies_killed,
            c.hull.lives == *lives,
            c.hull.invincible == *ship_invincible,
            c.hull.shake == *shake,
            c.hull.state == *state,
            c.hull.events == event_queue@,
            blasts_added(lit, effects.particles@, c.hull.blasts),
            effects.trail@ == old(effects).trail@,
            forall|i: int| k <= i < n ==> drones@[i] == old(drones)@[i],
            forall|i: int|
                0 <= i < n ==> drone_after_pass(#[trigger] drones@[i], old(drones)@[i]),
            forall|i: int| 0 <= i < m ==> asteroid_worn(#[trigger] asteroids@[i], old(asteroids)@[i]),
            drones_floor(old(drones)@, i32::MIN + 1),
            *old(lives) - k <= *lives <= *old(lives),
            shield_active ==> *lives == *old(lives),
            asteroids_astray(old(asteroids)@) ==> asteroids_astray(asteroids@),
            drones_astray(old(drones)@) ==> drones_astray(drones@),
            shake_steady(*old(shake)) ==> shake_steady(*shake),
            events_home(old(event_queue)@) ==> events_home(event_queue@),
            old(effects).wf() ==> effects.wf(),
            old(effects).tame() && asteroids_astray(old(asteroids)@) && drones_astray(
                old(drones)@,
            ) ==> effects.tame(),
            *old(score) <= *score <= *old(score) + COLLATERAL_SCORE * (k * m),
            *old(enemies_killed) <= *enemies_killed <= *old(enemies_killed) + k * m,
            *old(lives) - n >= i32::MIN,
            *old(score) + COLLATERAL_SCORE * (n * m) <= i32::MAX,
            *old(enemies_killed) + n * m <= i32::MAX,
            old(ship_invincible).wf() ==> ship_invincible.wf(),
        decreases n - k,
    {
        let ghost entry = c;
        let at: Vec2 = drones[k].pos;
        let mut i: usize = 0;
        while i < m
            invariant
                0 <= i <= m,
                0 <= k < n,
                n == drones@.len(),
                n == old(drones)@.len(),
                m == asteroids@.len(),
                m == old(asteroids)@.len(),
                m == entry.asteroids.len(),
                lit == old(effects).particles@,
                drones_wf(drones@),
                asteroids_wf(asteroids@),
                at == drones@[k as int].pos,
                at == old(drones)@[k as int].pos,
                drone_rammed(entry, k as int, i as int) == c,
                c.drones == drones@,
                c.asteroids == asteroids@,
                c.score == *score,
                c.kills == *enemies_killed,
                c.hull.lives == *lives,
                c.hull.invincible == *ship_invincible,
                c.hull.invincible == entry.hull.invincible,
                c.hull.shake == *shake,
                c.hull.state == *state,
                c.hull.events == event_queue@,
                blasts_added(lit, effects.particles@, c.hull.blasts),
                effects.trail@ == old(effects).trail@,
                forall|j: int| k < j < n ==> drones@[j] == old(drones)@[j],
                drones@[k as int].hp == 0 || drones@[k as int] == old(drones)@[k as int],
                forall|j: int|
                    0 <= j < n ==> drone_after_pass(#[trigger] drones@[j], old(drones)@[j]),
                forall|j: int|
                    0 <= j < m ==> asteroid_worn(#[trigger] asteroids@[j], old(asteroids)@[j]),
                forall|j: int| i <= j < m ==> asteroids@[j] == entry.asteroids[j],
                asteroids_astray(old(asteroids)@) ==> asteroids_astray(asteroids@),
                drones_astray(old(drones)@) ==> drones_astray(drones@),
                shake_steady(*old(shake)) ==> shake_steady(*shake),
                old(effects).wf() ==> effects.wf(),
                old(effects).tame() && asteroids_astray(old(asteroids)@) && drones_astray(
                    old(drones)@,
                ) ==> effects.tame(),
                *old(score) <= *score <= *old(score) + COLLATERAL_SCORE * (k * m + i),
                *old(enemies_killed) <= *enemies_killed <= *old(enemies_killed) + k * m + i,
                *old(score) + COLLATERAL_SCORE * (n * m) <= i32::MAX,
                *old(enemies_killed) + n * m <= i32::MAX,
            decreases m - i,
        {
            let a: Asteroid = asteroids[i];
            proof {
                assert(k * m + i + 1 <= n * m) by (nonlinear_arith)
                    requires
                        0 <= k < n,
                        0 <= i < m,
                ;
            }
            if a.radius > ASTEROID_MIN_RADIUS && at.is_closer_than(
                a.pos,
                a.radius + DRONE_COLLISION_RADIUS,
            ) {
                let mut wreck: Drone = drones[k];
                wreck.hp = 0;
                drones[k] = wreck;
                let mut hit: Asteroid = a;
                let destroyed: bool = hit.take_damage(HEAVY_DAMAGE);
                asteroids[i] = hit;
                effects.explode(at, Color::Orange, 15, Ghost(lit), Ghost(c.hull.blasts));
                let ghost boom = c.hull.blasts.push(explosion_of(at, Color::Orange, 15));
                shake.trigger(FAINT_SHAKE);
                if destroyed {
                    effects.explode(a.pos, Color::White, 12, Ghost(lit), Ghost(boom));
                }
                *enemies_killed = *enemies_killed + 1;
                *score = *score + COLLATERAL_SCORE;
            }
            proof {
                c = drone_rammed(entry, k as int, i + 1);
            }
            i = i + 1;
        }
        proof {
            assert(k * m + m == (k + 1) * m) by (nonlinear_arith);
        }
        let d: Drone = drones[k];
        if ship_pos.is_closer_than(d.pos, DRONE_COLLISION_RADIUS) && invincible_time <= 0
            && ship_invincible.ready() {
            if !shield_active {
                let mut wreck: Drone = d;
                wreck.hp = 0;
                drones[k] = wreck;
                hurt_ship(
                    lives,
                    ship_invincible,
                    shake,
                    effects,
                    state,
                    event_queue,
                    d.pos,
                    Color::Red,
                    15,
                    HEAVY_SHAKE,
                    Ghost(lit),
                    Ghost(c.hull.blasts),
                );
            } else {
                let mut thrown: Drone = d;
                thrown.vel = d.pos.minus(*ship_pos).with_length(DRONE_BOUNCE_SPEED);
                thrown.hp = d.hp - 1;
                drones[k] = thrown;
                effects.explode(d.pos, Color::SkyBlue, 8, Ghost(lit), Ghost(c.hull.blasts));
            }
        }
        proof {
            c = drone_met(entry, k as int, *ship_pos, invincible_time as int, shield_active);
        }
        k = k + 1;
    }
}

/// What the pass of the ship against the power-ups reads and changes.
pub struct Stock {
    pub shield_energy: Cooldown,
    pub lives: int,
    pub slowmo_energy: Cooldown,
    pub rapid_fire_timer: Cooldown,
    pub shake: ScreenShake,
    /// The events queued so far.
    pub events: Seq<Event>,
    /// The bursts set off so far.
    pub blasts: Seq<Blast>,
}

/// Whether a ship at `ship_pos` picks up the power-up `p`: it is close
/// enough.
pub open spec fn picked_up(p: PowerUp, ship_pos: Vec2) -> bool {
    closer_than(ship_pos, p.pos, POWERUP_COLLISION_RADIUS as int)
}

/// The fountain over a picked-up power-up, in the colour of its kind.
pub open spec fn fountain_of(p: PowerUp) -> Blast {
    Blast {
        burst: Burst::TextEffect { pos: p.pos, color: PowerUp::color_of(p.kind) },
        count: TEXT_EFFECT_COUNT as int,
    }
}

/// The stock after the power-up `p` was picked up: a full shield reserve, one
/// more life up to the most the ship can hold, a full slow-time reserve or
/// a full rapid-fire timer; a fountain in the colour of its kind goes up, the
/// screen shakes and the pick-up is queued.
pub open spec fn stocked(p: PowerUp, s: Stock) -> Stock {
    let noted = Stock {
        shake: s.shake.triggered(FAINT_SHAKE as int),
        events: s.events.push(Event::PowerUpSpawn { pos: p.pos }),
        blasts: s.blasts.push(fountain_of(p)),
        ..s
    };
    match p.kind {
        PowerUpType::Shield => Stock { shield_energy: s.shield_energy.wound(), ..noted },
        PowerUpType::Life => Stock { lives: smaller(s.lives + 1, MAX_LIVES as int), ..noted },
        PowerUpType::SlowTime => Stock { slowmo_energy: s.slowmo_energy.wound(), ..noted },
        PowerUpType::RapidFire => Stock { rapid_fire_timer: s.rapid_fire_timer.wound(), ..noted },
    }
}

/// The power-ups that are left, and the stock, after the first `n` power-ups
/// were tested against the ship one after the other.
pub open spec fn powerups_collected(powerups: Seq<PowerUp>, n: int, ship_pos: Vec2, s: Stock) -> (
    Seq<PowerUp>,
    Stock,
)
    decreases n,
{
    if n <= 0 {
        (Seq::<PowerUp>::empty(), s)
    } else {
        let (kept, t) = powerups_collected(powerups, n - 1, ship_pos, s);
        let p = powerups[n - 1];
        if picked_up(p, ship_pos) {
            (kept, stocked(p, t))
        } else {
            (kept.push(p), t)
        }
    }
}

/// The ship against the power-ups: each one within reach is picked up and
/// used at once.
pub fn handle_powerup_collisions(
    powerups: &mut Vec<PowerUp>,
    ship_pos: &Vec2,
    shield_energy: &mut Cooldown,
    lives: &mut i32,
    slowmo_energy: &mut Cooldown,
    rapid_fire_timer: &mut Cooldown,
    shake: &mut ScreenShake,
    effects: &mut EffectSystem,
    event_queue: &mut EventQueue,
)
    requires
        powerups_wf(old(powerups)@),
        ship_pos.bounded(LIMIT as int),
    ensures
        ({
            let before = Stock {
                shield_energy: *old(shield_energy),
                lives: *old(lives) as int,
                slowmo_energy: *old(slowmo_energy),
                rapid_fire_timer: *old(rapid_fire_timer),
                shake: *old(shake),
                events: old(event_queue)@,
                blasts: Seq::<Blast>::empty(),
            };
            let (kept, after) = powerups_collected(
                old(powerups)@,
                old(powerups)@.len() as int,
                *ship_pos,
                before,
            );
            &&& final(powerups)@ == kept
            &&& *final(shield_energy) == after.shield_energy
            &&& *final(lives) == after.lives
            &&& *final(slowmo_energy) == after.slowmo_energy
            &&& *final(rapid_fire_timer) == after.rapid_fire_timer
            &&& *final(shake) == after.shake
            &&& final(event_queue)@ == after.events
            &&& blasts_added(old(effects).particles@, final(effects).particles@, after.blasts)
        }),
        final(effects).trail@ == old(effects).trail@,
        powerups_wf(final(powerups)@),
        final(powerups)@.len() <= old(powerups)@.len(),
        old(shield_energy).wf() ==> final(shield_energy).wf(),
        old(slowmo_energy).wf() ==> final(slowmo_energy).wf(),
        old(rapid_fire_timer).wf() ==> final(rapid_fire_timer).wf(),
        *old(lives) <= MAX_LIVES ==> *old(lives) <= *final(lives) <= MAX_LIVES,
        *old(lives) > MAX_LIVES ==> MAX_LIVES <= *final(lives) <= *old(lives),
        powerups_astray(old(powerups)@) ==> powerups_astray(final(powerups)@),
        shake_steady(*old(shake)) ==> shake_steady(*final(shake)),
        events_home(old(event_queue)@) && powerups_astray(old(powerups)@) ==> events_home(
            final(event_queue)@,
        ),
        old(effects).wf() ==> final(effects).wf(),
        old(effects).tame() && powerups_astray(old(powerups)@) ==> final(effects).tame(),
{
    let ghost start = Stock {
        shield_energy: *shield_energy,
        lives: *lives as int,
        slowmo_energy: *slowmo_energy,
        rapid_fire_timer: *rapid_fire_timer,
        shake: *shake,
        events: event_queue@,
        blasts: Seq::<Blast>::empty(),
    };
    let ghost mut s = start;
    let ghost lit = effects.particles@;
    let mut kept: Vec<PowerUp> = Vec::new();
    let n: usize = powerups.len();
    let mut i: usize = 0;
    while i < n
        invariant
            0 <= i <= n,
            n == powerups@.len(),
            powerups@ == old(powerups)@,
            lit == old(effects).particles@,
            powerups_wf(powerups@),
            powerups_wf(kept@),
            kept@.len() <= i,
            ship_pos.bounded(LIMIT as int),
            powerups_collected(powerups@, i as int, *ship_pos, start) == (kept@, s),
            s.shield_energy == *shield_energy,
            s.lives == *lives,
            s.slowmo_energy == *slowmo_energy,
            s.rapid_fire_timer == *rapid_fire_timer,
            s.shake == *shake,
            s.events == event_queue@,
            blasts_added(lit, effects.particles@, s.blasts),
            effects.trail@ == old(effects).trail@,
            old(shield_energy).wf() ==> shield_energy.wf(),
            old(slowmo_energy).wf() ==> slowmo_energy.wf(),
            old(rapid_fire_timer).wf() ==> rapid_fire_timer.wf(),
            *old(lives) <= MAX_LIVES ==> *old(lives) <= *lives <= MAX_LIVES,
            *old(lives) > MAX_LIVES ==> MAX_LIVES <= *lives <= *old(lives),
            powerups_astray(old(powerups)@) ==> powerups_astray(kept@),
            shake_steady(*old(shake)) ==> shake_steady(*shake),
            events_home(old(event_queue)@) && powerups_astray(old(powerups)@) ==> events_home(
                event_queue@,
            ),
            old(effects).wf() ==> effects.wf(),
            old(effects).tame() && powerups_astray(old(powerups)@) ==> effects.tame(),
        decreases n - i,
    {
        let p: PowerUp = powerups[i];
        if ship_pos.is_closer_than(p.pos, POWERUP_COLLISION_RADIUS) {
            match p.kind {
                PowerUpType::Shield => {
                    shield_energy.reset();
                },
                PowerUpType::Life => {
                    *lives = if *lives < MAX_LIVES - 1 {
                        *lives + 1
                    } else {
                        MAX_LIVES
                    };
                },
                PowerUpType::SlowTime => {
                    slowmo_energy.reset();
                },
                PowerUpType::RapidFire => {
                    rapid_fire_timer.reset();
                },
            }
            effects.sparkle(p.pos, p.color(), Ghost(lit), Ghost(s.blasts));
            shake.trigger(FAINT_SHAKE);
            event_queue.push(Event::PowerUpSpawn { pos: p.pos });
            proof {
                s = stocked(p, s);
            }
        } else {
            kept.push(p);
        }
        i = i + 1;
    }
    *powerups = kept;
}

} // verus!
