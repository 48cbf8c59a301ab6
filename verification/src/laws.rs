//! What follows from the rules of the simulation, stated once and proved.
use crate::collisions::{
    Clash, Field, HEAVY_SHAKE, Hull, LIGHT_SHAKE, Stock, asteroid_bounced, asteroid_reached,
    asteroid_shot, asteroid_touches, asteroids_met, drone_rammed, drone_reached, drone_touches,
    drones_met, drops_taken, explosion_of, first_asteroid, first_drone, hostile_shots_resolved,
    lemma_first_asteroid, lemma_first_drone, picked_up, powerups_collected, ship_hurt,
    shot_hits_ship, shots_resolved,
};
use crate::consts::{ASTEROID_BOUNCE_SPEED, MAX_LIVES, MISSILE_TURN_SPEED, TAME_SPEED};
use crate::controls::Controls;
use crate::cooldown::{Cooldown, smaller};
use crate::effects::Blast;
use crate::enemies::{Asteroid, Bullet, Drone, PowerUp};
use crate::events::{Color, Event};
use crate::game::{Game, GameState, live_asteroids, live_drones};
use crate::ship::heading_of;
use crate::steering::{
    lemma_behind_is_farther, lemma_swing_tells, lemma_tdiv_rest, lemma_turn_is_nearer,
    lemma_turn_registers,
};
use crate::units::{
    LIMIT, WHOLE, in_limit, lemma_product_bound, lemma_tdiv_bound, lemma_tdiv_floor, magnitude,
    tdiv,
};
use crate::vec2::{
    Vec2, cross_of, diff_of, dot_of, lemma_coordinate_within_length, lemma_with_length_floor,
    lemma_with_length_norm, length_of, nearer, norm_sq, with_length_of,
};
use crate::weapons::{
    FULL_SWING, HEADING, HomingMissile, Sweep, asteroid_blasted, asteroid_swept, drone_swept,
    lemma_nearest_asteroid, lemma_nearest_drone, lies_left, nearest_asteroid, nearest_drone, passed,
    swung_of,
};
use vstd::prelude::*;

verus! {

/// The number of times the end of the game is announced in `events`.
pub open spec fn game_overs(events: Seq<Event>) -> nat
    decreases events.len(),
{
    if events.len() == 0 {
        0
    } else {
        game_overs(events.drop_last()) + if events.last() == Event::GameOver {
            1nat
        } else {
            0nat
        }
    }
}

/// No countdown ever goes below zero by running down, nor above its maximum
/// by being topped up or wound up.
pub proof fn countdown_stays_within_bounds(c: Cooldown, dt: int, amount: int)
    requires
        c.time - dt <= i64::MAX,
        c.time + amount >= i64::MIN,
    ensures
        c.ticked(dt).time >= 0,
        c.increased(amount).time <= c.max,
        c.wound().time <= c.max,
        c.wf() && dt >= 0 ==> c.ticked(dt).wf(),
        c.wf() && amount >= 0 ==> c.increased(amount).wf(),
        c.wf() ==> c.wound().wf(),
{
}

/// A destroyed asteroid takes no further part in the step: nothing collides
/// with it, no missile steers to it, the beam passes it by, and the sweep at
/// the end of the step removes it.
pub proof fn destroyed_asteroid_takes_no_part(
    asteroids: Seq<Asteroid>,
    i: int,
    p: Vec2,
    margin: int,
    screen: Vec2,
    s: Sweep,
    start: Vec2,
    dir: Vec2,
)
    requires
        0 <= i < asteroids.len(),
        !asteroids[i].intact(),
        s.asteroids == asteroids,
    ensures
        !asteroid_reached(asteroids[i], p, margin),
        first_asteroid(asteroids, p, margin, 0) != Some(i),
        nearest_asteroid(p, asteroids, asteroids.len() as int) != Some(i),
        asteroid_swept(s, i, start, dir) == s,
        forall|j: int|
            0 <= j < live_asteroids(asteroids, screen).len() ==> (#[trigger] live_asteroids(
                asteroids,
                screen,
            )[j]).intact(),
{
    lemma_first_asteroid(asteroids, p, margin, 0);
    lemma_nearest_asteroid(p, asteroids, asteroids.len() as int);
}

/// A drone without hit points is left alone by the missiles and the beam: no
/// missile steers to it or strikes it, the beam passes it by, and the sweep
/// at the end of the step removes it.
pub proof fn destroyed_drone_is_left_alone(
    drones: Seq<Drone>,
    i: int,
    p: Vec2,
    reach: int,
    screen: Vec2,
    s: Sweep,
    start: Vec2,
    dir: Vec2,
)
    requires
        0 <= i < drones.len(),
        !drones[i].intact(),
        s.drones == drones,
    ensures
        !drone_reached(drones[i], p, reach),
        first_drone(drones, p, reach, 0) != Some(i),
        nearest_drone(p, drones, drones.len() as int) != Some(i),
        drone_swept(s, i, start, dir) == s,
        forall|j: int|
            0 <= j < live_drones(drones, screen).len() ==> (#[trigger] live_drones(
                drones,
                screen,
            )[j]).intact(),
{
    lemma_first_drone(drones, p, reach, 0);
    lemma_nearest_drone(p, drones, drones.len() as int);
}

/// No hit adds to an asteroid's radius: whatever strikes the asteroid at
/// index `i`, every asteroid is left with at most the radius it had.
pub proof fn no_hit_grows_an_asteroid(f: Field, s: Sweep, i: int, at: Vec2, start: Vec2, dir: Vec2)
    requires
        0 <= i < f.asteroids.len(),
        s.asteroids == f.asteroids,
        in_limit(f.asteroids[i].radius as int),
    ensures
        forall|j: int|
            0 <= j < f.asteroids.len() ==> (#[trigger] asteroid_shot(f, i).asteroids[j]).radius
                <= f.asteroids[j].radius,
        forall|j: int|
            0 <= j < f.asteroids.len() ==> (#[trigger] asteroid_blasted(f, i, at).asteroids[j]).radius
                <= f.asteroids[j].radius,
        forall|j: int|
            0 <= j < f.asteroids.len() ==> (#[trigger] asteroid_swept(
                s,
                i,
                start,
                dir,
            ).asteroids[j]).radius <= f.asteroids[j].radius,
        asteroid_bounced(f.asteroids[i], at).radius == f.asteroids[i].radius,
{
}

/// An asteroid thrown off the shield leaves no faster than the bounce speed.
pub proof fn bounce_is_no_faster_than_bounce_speed(a: Asteroid, ship_pos: Vec2)
    requires
        a.pos.bounded(LIMIT as int),
        ship_pos.bounded(LIMIT as int),
    ensures
        norm_sq(asteroid_bounced(a, ship_pos).vel) <= ASTEROID_BOUNCE_SPEED * ASTEROID_BOUNCE_SPEED,
{
    lemma_with_length_norm(diff_of(a.pos, ship_pos), ASTEROID_BOUNCE_SPEED as int);
}

/// An asteroid thrown off the shield leaves as fast as the rounding of its
/// velocity allows: with each coordinate of the velocity made one step
/// longer, it is faster than the bounce speed times `(n - 1) / n`, where `n`
/// is its distance from the ship in steps.
pub proof fn bounce_is_as_fast_as_rounding_allows(a: Asteroid, ship_pos: Vec2)
    requires
        a.pos.bounded(LIMIT as int),
        ship_pos.bounded(LIMIT as int),
        a.pos != ship_pos,
    ensures
        ({
            let v = asteroid_bounced(a, ship_pos).vel;
            let n = length_of(diff_of(a.pos, ship_pos));
            &&& n > 0
            &&& ((magnitude(v.x as int) + 1) * (magnitude(v.x as int) + 1) + (magnitude(v.y as int)
                + 1) * (magnitude(v.y as int) + 1)) * (n * n) > ((n - 1) * ASTEROID_BOUNCE_SPEED) * ((n
                - 1) * ASTEROID_BOUNCE_SPEED)
        }),
{
    lemma_coordinate_within_length(diff_of(a.pos, ship_pos));
    lemma_with_length_floor(diff_of(a.pos, ship_pos), ASTEROID_BOUNCE_SPEED as int);
}

/// Behind the shield no hostile shot costs a life, and nothing is queued.
pub proof fn shield_stops_shots(bullets: Seq<Bullet>, n: int, ship_pos: Vec2, window: int, h: Hull)
    requires
        0 <= n <= bullets.len(),
    ensures
        hostile_shots_resolved(bullets, n, ship_pos, window, true, h).1.lives == h.lives,
        hostile_shots_resolved(bullets, n, ship_pos, window, true, h).1.state == h.state,
        hostile_shots_resolved(bullets, n, ship_pos, window, true, h).1.events == h.events,
        hostile_shots_resolved(bullets, n, ship_pos, window, true, h).1.invincible == h.invincible,
    decreases n,
{
    if n > 0 {
        shield_stops_shots(bullets, n - 1, ship_pos, window, h);
    }
}

/// Behind the shield a pass of the ship against the asteroids leaves the
/// lives, the state of the game, the invincibility window and the queue as
/// they were, sets off no explosion, and leaves every asteroid in its place
/// with the radius it had; the score does not fall.
pub proof fn shield_stops_asteroids(
    asteroids: Seq<Asteroid>,
    n: int,
    ship_pos: Vec2,
    window: int,
    h: Hull,
    score: int,
)
    requires
        0 <= n <= asteroids.len(),
    ensures
        asteroids_met(asteroids, n, ship_pos, window, true, h, score).1.lives == h.lives,
        asteroids_met(asteroids, n, ship_pos, window, true, h, score).1.state == h.state,
        asteroids_met(asteroids, n, ship_pos, window, true, h, score).1.events == h.events,
        asteroids_met(asteroids, n, ship_pos, window, true, h, score).1.invincible == h.invincible,
        asteroids_met(asteroids, n, ship_pos, window, true, h, score).1.blasts == h.blasts,
        asteroids_met(asteroids, n, ship_pos, window, true, h, score).2 >= score,
        asteroids_met(asteroids, n, ship_pos, window, true, h, score).0.len() == asteroids.len(),
        forall|i: int|
            0 <= i < asteroids.len() ==> (#[trigger] asteroids_met(
                asteroids,
                n,
                ship_pos,
                window,
                true,
                h,
                score,
            ).0[i]).radius == asteroids[i].radius && asteroids_met(
                asteroids,
                n,
                ship_pos,
                window,
                true,
                h,
                score,
            ).0[i].pos == asteroids[i].pos,
    decreases n,
{
    if n > 0 {
        shield_stops_asteroids(asteroids, n - 1, ship_pos, window, h, score);
    }
}

/// A drone that runs into asteroids does nothing to the ship's lives, its
/// invincibility window, the state of the game or the queue.
pub proof fn crashes_spare_the_ship(c: Clash, k: int, n: int)
    ensures
        drone_rammed(c, k, n).hull.lives == c.hull.lives,
        drone_rammed(c, k, n).hull.invincible == c.hull.invincible,
        drone_rammed(c, k, n).hull.state == c.hull.state,
        drone_rammed(c, k, n).hull.events == c.hull.events,
    decreases n,
{
    if n > 0 {
        crashes_spare_the_ship(c, k, n - 1);
    }
}

/// Behind the shield no drone costs a life, and nothing is queued.
pub proof fn shield_stops_drones(c: Clash, n: int, ship_pos: Vec2, window: int)
    requires
        0 <= n <= c.drones.len(),
    ensures
        drones_met(c, n, ship_pos, window, true).hull.lives == c.hull.lives,
        drones_met(c, n, ship_pos, window, true).hull.state == c.hull.state,
        drones_met(c, n, ship_pos, window, true).hull.events == c.hull.events,
    decreases n,
{
    if n > 0 {
        shield_stops_drones(c, n - 1, ship_pos, window);
        let before = drones_met(c, n - 1, ship_pos, window, true);
        crashes_spare_the_ship(before, n - 1, before.asteroids.len() as int);
    }
}

/// A damaging hit on the last life ends the game, and queues exactly that.
pub proof fn last_life_ends_the_game(h: Hull, blast: Blast, shake: int)
    requires
        h.lives == 1,
    ensures
        ship_hurt(h, blast, shake).lives == 0,
        ship_hurt(h, blast, shake).state == GameState::GameOver,
        ship_hurt(h, blast, shake).events == h.events.push(Event::GameOver),
        game_overs(ship_hurt(h, blast, shake).events) == game_overs(h.events) + 1,
        h.invincible.max > 0 ==> !ship_hurt(h, blast, shake).invincible.is_ready(),
{
    let after = ship_hurt(h, blast, shake);
    assert(after.events.drop_last() =~= h.events);
}

/// A damaging hit that is not the last queues nothing and leaves the game
/// in the state it was in.
pub proof fn other_lives_queue_nothing(h: Hull, blast: Blast, shake: int)
    requires
        h.lives > 1,
    ensures
        ship_hurt(h, blast, shake).lives == h.lives - 1,
        ship_hurt(h, blast, shake).state == h.state,
        ship_hurt(h, blast, shake).events == h.events,
{
}

/// While the invincibility window is open, hostile shots do nothing to the
/// ship: every shot stays, and the hull is as it was.
pub proof fn open_window_stops_shots(
    bullets: Seq<Bullet>,
    n: int,
    ship_pos: Vec2,
    window: int,
    shield_active: bool,
    h: Hull,
)
    requires
        0 <= n <= bullets.len(),
        window > 0 || !h.invincible.is_ready(),
    ensures
        hostile_shots_resolved(bullets, n, ship_pos, window, shield_active, h).1 == h,
        hostile_shots_resolved(bullets, n, ship_pos, window, shield_active, h).0 == bullets.take(n),
    decreases n,
{
    if n > 0 {
        open_window_stops_shots(bullets, n - 1, ship_pos, window, shield_active, h);
    }
}

/// With one life left, no shield and a closed invincibility window that
/// opens for some time, a pass of hostile shots of which one hits ends the
/// game and says so exactly once, however many more shots are in reach.
pub proof fn one_pass_ends_the_game_once(
    bullets: Seq<Bullet>,
    n: int,
    ship_pos: Vec2,
    window: int,
    h: Hull,
)
    requires
        0 <= n <= bullets.len(),
        h.lives == 1,
        h.invincible.is_ready(),
        h.invincible.max > 0,
        exists|i: int| 0 <= i < n && shot_hits_ship(bullets[i], ship_pos, window, h),
    ensures
        hostile_shots_resolved(bullets, n, ship_pos, window, false, h).1.lives == 0,
        hostile_shots_resolved(bullets, n, ship_pos, window, false, h).1.state
            == GameState::GameOver,
        hostile_shots_resolved(bullets, n, ship_pos, window, false, h).1.events == h.events.push(
            Event::GameOver,
        ),
        game_overs(hostile_shots_resolved(bullets, n, ship_pos, window, false, h).1.events)
            == game_overs(h.events) + 1,
    decreases n,
{
    if exists|i: int| 0 <= i < n - 1 && shot_hits_ship(bullets[i], ship_pos, window, h) {
        one_pass_ends_the_game_once(bullets, n - 1, ship_pos, window, h);
        one_hit_opens_the_window(bullets, n - 1, ship_pos, window, h);
    } else {
        no_hit_changes_nothing(bullets, n - 1, ship_pos, window, h);
        last_life_ends_the_game(h, explosion_of(ship_pos, Color::Red, 10), LIGHT_SHAKE as int);
    }
}

/// A pass of hostile shots of which none hits leaves the hull as it was.
pub proof fn no_hit_changes_nothing(
    bullets: Seq<Bullet>,
    n: int,
    ship_pos: Vec2,
    window: int,
    h: Hull,
)
    requires
        0 <= n <= bullets.len(),
        forall|i: int| 0 <= i < n ==> !shot_hits_ship(bullets[i], ship_pos, window, h),
    ensures
        hostile_shots_resolved(bullets, n, ship_pos, window, false, h).1 == h,
    decreases n,
{
    if n > 0 {
        no_hit_changes_nothing(bullets, n - 1, ship_pos, window, h);
    }
}

/// Once a hostile shot has hurt the ship, the invincibility window is open
/// for the rest of the pass.
pub proof fn one_hit_opens_the_window(
    bullets: Seq<Bullet>,
    n: int,
    ship_pos: Vec2,
    window: int,
    h: Hull,
)
    requires
        0 <= n <= bullets.len(),
        h.invincible.is_ready(),
        h.invincible.max > 0,
        exists|i: int| 0 <= i < n && shot_hits_ship(bullets[i], ship_pos, window, h),
    ensures
        !hostile_shots_resolved(bullets, n, ship_pos, window, false, h).1.invincible.is_ready(),
    decreases n,
{
    if exists|i: int| 0 <= i < n - 1 && shot_hits_ship(bullets[i], ship_pos, window, h) {
        one_hit_opens_the_window(bullets, n - 1, ship_pos, window, h);
    } else {
        no_hit_changes_nothing(bullets, n - 1, ship_pos, window, h);
    }
}

/// A missile that steers never flies faster than its own speed for it.
pub proof fn steering_keeps_within_speed(m: HomingMissile, target: Vec2, dt: int)
    requires
        m.wf(),
        target.bounded(LIMIT as int),
        0 <= dt <= LIMIT,
    ensures
        m.steered(target, dt).vel == m.vel || norm_sq(m.steered(target, dt).vel) <= m.speed
            * m.speed,
        m.steered(target, dt).speed == m.speed,
        m.steered(target, dt).pos == m.pos,
{
    let w = diff_of(target, m.pos);
    lemma_with_length_norm(w, m.speed as int);
    lemma_with_length_norm(m.vel, HEADING as int);
    let from = m.heading();
    let swing = m.swing(w, dt);
    lemma_product_bound(MISSILE_TURN_SPEED as int, dt, 3000, 1_000_000_000);
    lemma_product_bound(swing, from.y as int, 1_000_000, 1_000_000);
    lemma_product_bound(swing, from.x as int, 1_000_000, 1_000_000);
    lemma_tdiv_bound(swing * from.x, 1000, 1_000_000_000);
    lemma_tdiv_bound(swing * from.y, 1000, 1_000_000_000);
    lemma_with_length_norm(swung_of(from, swing), m.speed as int);
}

/// A turn is as wide as the turn rate allows and no wider: the swing, the
/// tangent of the turn in millionths, is the turn rate times the time, and
/// no more than a whole. The vector that the heading is swung to stands off
/// the heading by that tangent, less what rounding takes, and to the left
/// for a target on the left.
pub proof fn a_turn_is_as_wide_as_the_turn_rate_allows(m: HomingMissile, w: Vec2, dt: int)
    requires
        m.wf(),
        0 <= dt <= LIMIT,
    ensures
        HomingMissile::turn_share(dt) == smaller(MISSILE_TURN_SPEED * dt / 1000, FULL_SWING as int),
        0 <= HomingMissile::turn_share(dt) <= FULL_SWING,
        m.swing(w, dt) == if lies_left(m.vel, w) {
            HomingMissile::turn_share(dt)
        } else {
            -HomingMissile::turn_share(dt)
        },
        lies_left(m.vel, w) ==> 0 <= cross_of(m.heading(), swung_of(m.heading(), m.swing(w, dt)))
            * WHOLE <= HomingMissile::turn_share(dt) * norm_sq(m.heading()),
        !lies_left(m.vel, w) ==> 0 >= cross_of(m.heading(), swung_of(m.heading(), m.swing(w, dt)))
            * WHOLE >= -(HomingMissile::turn_share(dt) * norm_sq(m.heading())),
{
    let u = m.heading();
    lemma_with_length_norm(m.vel, HEADING as int);
    let s = m.swing(w, dt);
    lemma_product_bound(MISSILE_TURN_SPEED as int, dt, 3000, 1_000_000_000);
    lemma_product_bound(s, u.y as int, 1_000_000, 1_000_000);
    lemma_product_bound(s, u.x as int, 1_000_000, 1_000_000);
    lemma_tdiv_bound(s * u.x, 1000, 1_000_000_000);
    lemma_tdiv_bound(s * u.y, 1000, 1_000_000_000);
    lemma_tdiv_rest(s * u.x, 1000);
    lemma_tdiv_rest(s * u.y, 1000);
    lemma_tdiv_floor(s * u.x, 1000);
    lemma_tdiv_floor(s * u.y, 1000);
    let ex = tdiv(s * u.x, 1000);
    let ey = tdiv(s * u.y, 1000);
    let mx = u.x * 1000 - ey;
    let my = u.y * 1000 + ex;
    let n = norm_sq(u);
    let k = u.x * my - u.y * mx;
    let px = s * u.x - ex * 1000;
    let py = s * u.y - ey * 1000;
    let taken = u.x * px + u.y * py;
    assert(1000 * k == s * n - taken) by (nonlinear_arith)
        requires
            k == u.x * my - u.y * mx,
            mx == u.x * 1000 - ey,
            my == u.y * 1000 + ex,
            px == s * u.x - ex * 1000,
            py == s * u.y - ey * 1000,
            taken == u.x * px + u.y * py,
            n == u.x * u.x + u.y * u.y,
    ;
    assert(k == u.x * ex + u.y * ey) by (nonlinear_arith)
        requires
            k == u.x * my - u.y * mx,
            mx == u.x * 1000 - ey,
            my == u.y * 1000 + ex,
    ;
    // Each rest has the sign of its coordinate, and so has each part that
    // the swing adds.
    assert(s >= 0 ==> (u.x >= 0 ==> s * u.x >= 0) && (u.x <= 0 ==> s * u.x <= 0) && (u.y >= 0
        ==> s * u.y >= 0) && (u.y <= 0 ==> s * u.y <= 0)) by (nonlinear_arith);
    assert(s <= 0 ==> (u.x >= 0 ==> s * u.x <= 0) && (u.x <= 0 ==> s * u.x >= 0) && (u.y >= 0
        ==> s * u.y <= 0) && (u.y <= 0 ==> s * u.y >= 0)) by (nonlinear_arith);
    if s >= 0 {
        assert(u.x * px >= 0 && u.x * ex >= 0) by (nonlinear_arith)
            requires
                (u.x >= 0 && px >= 0 && ex >= 0) || (u.x <= 0 && px <= 0 && ex <= 0),
        ;
        assert(u.y * py >= 0 && u.y * ey >= 0) by (nonlinear_arith)
            requires
                (u.y >= 0 && py >= 0 && ey >= 0) || (u.y <= 0 && py <= 0 && ey <= 0),
        ;
    } else {
        assert(u.x * px <= 0 && u.x * ex <= 0) by (nonlinear_arith)
            requires
                (u.x >= 0 && px <= 0 && ex <= 0) || (u.x <= 0 && px >= 0 && ex >= 0),
        ;
        assert(u.y * py <= 0 && u.y * ey <= 0) by (nonlinear_arith)
            requires
                (u.y >= 0 && py <= 0 && ey <= 0) || (u.y <= 0 && py >= 0 && ey >= 0),
        ;
    }
    let share = HomingMissile::turn_share(dt);
    assert(s * n == if lies_left(m.vel, w) {
        share * n
    } else {
        -(share * n)
    }) by (nonlinear_arith)
        requires
            lies_left(m.vel, w) ==> s == share,
            !lies_left(m.vel, w) ==> s == -share,
    ;
}

/// A missile that steers never turns away from its target: its velocity
/// stays as it is or points nearer to where the target lies. (A missile at
/// rest points nowhere; it sets off towards the target.)
pub proof fn steering_never_turns_away(m: HomingMissile, target: Vec2, dt: int)
    requires
        m.vel.x != 0 || m.vel.y != 0,
    ensures
        m.steered(target, dt).vel == m.vel || nearer(
            m.steered(target, dt).vel,
            m.vel,
            diff_of(target, m.pos),
        ),
{
}

/// A missile turns towards its target: after it has steered, its velocity
/// points strictly nearer to where the target lies, wherever the target is
/// more than the rounding of a velocity off its course. This holds of a
/// missile that flies at no more than the speed that things have in a
/// running game, and of a swing that is more than rounding takes away, both
/// at the missile's own speed and at the speed it flies at. A missile at
/// four hundred units a second turns in every step of seven clock ticks or
/// more.
pub proof fn steering_turns_towards_the_target(m: HomingMissile, target: Vec2, dt: int)
    requires
        m.wf(),
        target.bounded(LIMIT as int),
        target != m.pos,
        0 <= dt <= LIMIT,
        m.vel.bounded(TAME_SPEED as int),
        m.speed * HomingMissile::turn_share(dt) >= 8 * FULL_SWING,
        HomingMissile::turn_share(dt) * (magnitude(m.vel.x as int) + magnitude(m.vel.y as int)) >= 4
            * WHOLE,
        nearer(with_length_of(diff_of(target, m.pos), m.speed as int), m.vel, diff_of(target, m.pos)),
    ensures
        m.turns(diff_of(target, m.pos), dt),
        nearer(m.steered(target, dt).vel, m.vel, diff_of(target, m.pos)),
{
    let w = diff_of(target, m.pos);
    let swing = m.swing(w, dt);
    let turned = m.turned(w, dt);
    lemma_product_bound(MISSILE_TURN_SPEED as int, dt, 3000, 1_000_000_000);
    lemma_swing_tells(
        m.speed as int,
        HomingMissile::turn_share(dt),
        magnitude(m.vel.x as int) + magnitude(m.vel.y as int),
    );
    lemma_turn_registers(m.vel, swing, m.speed as int);
    if !passed(turned, m.vel, w) {
        lemma_turn_is_nearer(m.vel, turned, w);
    }
}

/// A missile whose target lies abeam or behind it, straight behind too,
/// turns towards it: after it has steered, its velocity points strictly
/// nearer to where the target lies.
pub proof fn steering_turns_to_a_target_behind(m: HomingMissile, target: Vec2, dt: int)
    requires
        m.wf(),
        target.bounded(LIMIT as int),
        target != m.pos,
        0 <= dt <= LIMIT,
        m.vel.bounded(TAME_SPEED as int),
        m.speed * HomingMissile::turn_share(dt) >= 8 * FULL_SWING,
        HomingMissile::turn_share(dt) * (magnitude(m.vel.x as int) + magnitude(m.vel.y as int)) >= 4
            * WHOLE,
        dot_of(m.vel, diff_of(target, m.pos)) <= 0,
    ensures
        m.turns(diff_of(target, m.pos), dt),
        nearer(m.steered(target, dt).vel, m.vel, diff_of(target, m.pos)),
{
    lemma_product_bound(MISSILE_TURN_SPEED as int, dt, 3000, 1_000_000_000);
    lemma_swing_tells(
        m.speed as int,
        HomingMissile::turn_share(dt),
        magnitude(m.vel.x as int) + magnitude(m.vel.y as int),
    );
    lemma_behind_is_farther(m.vel, diff_of(target, m.pos), m.speed as int);
    steering_turns_towards_the_target(m, target, dt);
}

/// Showing something other than the end of the game does not announce it.
pub proof fn showing_is_not_announcing(events: Seq<Event>, e: Event)
    requires
        e != Event::GameOver,
    ensures
        game_overs(events.push(e)) == game_overs(events),
{
    assert(events.push(e).drop_last() =~= events);
}

/// What a hull `g` can be after some passes over a hull `h`: untouched in
/// its lives and its queue, or hurt exactly once, with the invincibility
/// window open, and with the end of the game queued once, and nothing else,
/// if that was the last life.
pub open spec fn hurt_at_most_once(h: Hull, g: Hull) -> bool {
    &&& g.invincible.max == h.invincible.max
    &&& {
        ||| {
            &&& g.lives == h.lives
            &&& g.invincible == h.invincible
            &&& g.state == h.state
            &&& g.events == h.events
        }
        ||| {
            &&& g.lives == h.lives - 1
            &&& !g.invincible.is_ready()
            &&& g.lives > 0 ==> g.state == h.state && g.events == h.events
            &&& g.lives <= 0 ==> g.state == GameState::GameOver && g.events == h.events.push(
                Event::GameOver,
            )
        }
    }
}

/// A damaging hit on a ship whose invincibility window is closed, and opens
/// for some time, is the only one it can take until the window has closed
/// again.
pub proof fn one_hit_at_a_time(h: Hull, g: Hull, blast: Blast, shake: int)
    requires
        hurt_at_most_once(h, g),
        g.invincible.is_ready(),
        h.invincible.max > 0,
    ensures
        hurt_at_most_once(h, ship_hurt(g, blast, shake)),
{
}

/// A pass of hostile shots hurts the ship at most once.
pub proof fn shots_hurt_at_most_once(
    bullets: Seq<Bullet>,
    n: int,
    ship_pos: Vec2,
    window: int,
    shield_active: bool,
    start: Hull,
    h: Hull,
)
    requires
        0 <= n <= bullets.len(),
        hurt_at_most_once(start, h),
        start.invincible.max > 0,
    ensures
        hurt_at_most_once(
            start,
            hostile_shots_resolved(bullets, n, ship_pos, window, shield_active, h).1,
        ),
    decreases n,
{
    if n > 0 {
        shots_hurt_at_most_once(bullets, n - 1, ship_pos, window, shield_active, start, h);
        let g = hostile_shots_resolved(bullets, n - 1, ship_pos, window, shield_active, h).1;
        let b = bullets[n - 1];
        if shot_hits_ship(b, ship_pos, window, g) && !shield_active {
            one_hit_at_a_time(start, g, explosion_of(ship_pos, Color::Red, 10), LIGHT_SHAKE as int);
        }
    }
}

/// A pass of the ship against the asteroids hurts the ship at most once.
pub proof fn asteroids_hurt_at_most_once(
    asteroids: Seq<Asteroid>,
    n: int,
    ship_pos: Vec2,
    window: int,
    shield_active: bool,
    start: Hull,
    h: Hull,
    score: int,
)
    requires
        0 <= n <= asteroids.len(),
        hurt_at_most_once(start, h),
        start.invincible.max > 0,
    ensures
        hurt_at_most_once(
            start,
            asteroids_met(asteroids, n, ship_pos, window, shield_active, h, score).1,
        ),
    decreases n,
{
    if n > 0 {
        asteroids_hurt_at_most_once(
            asteroids,
            n - 1,
            ship_pos,
            window,
            shield_active,
            start,
            h,
            score,
        );
        let g = asteroids_met(asteroids, n - 1, ship_pos, window, shield_active, h, score).1;
        let a = asteroids[n - 1];
        if asteroid_touches(a, ship_pos, window, g) && !shield_active {
            one_hit_at_a_time(start, g, explosion_of(a.pos, Color::White, 12), HEAVY_SHAKE as int);
        }
    }
}

/// A pass of the ship and the asteroids against the drones hurts the ship at
/// most once.
pub proof fn drones_hurt_at_most_once(
    c: Clash,
    n: int,
    ship_pos: Vec2,
    window: int,
    shield_active: bool,
    start: Hull,
)
    requires
        0 <= n <= c.drones.len(),
        hurt_at_most_once(start, c.hull),
        start.invincible.max > 0,
    ensures
        hurt_at_most_once(start, drones_met(c, n, ship_pos, window, shield_active).hull),
    decreases n,
{
    if n > 0 {
        drones_hurt_at_most_once(c, n - 1, ship_pos, window, shield_active, start);
        let before = drones_met(c, n - 1, ship_pos, window, shield_active);
        crashes_spare_the_ship(before, n - 1, before.asteroids.len() as int);
        let r = drone_rammed(before, n - 1, before.asteroids.len() as int);
        let d = r.drones[n - 1];
        if drone_touches(d, ship_pos, window, r.hull) && !shield_active {
            one_hit_at_a_time(
                start,
                r.hull,
                explosion_of(d.pos, Color::Red, 15),
                HEAVY_SHAKE as int,
            );
        }
    }
}

/// Picking up power-ups never announces the end of the game.
pub proof fn pick_ups_announce_nothing(powerups: Seq<PowerUp>, n: int, ship_pos: Vec2, s: Stock)
    requires
        0 <= n <= powerups.len(),
    ensures
        game_overs(powerups_collected(powerups, n, ship_pos, s).1.events) == game_overs(s.events),
    decreases n,
{
    if n > 0 {
        pick_ups_announce_nothing(powerups, n - 1, ship_pos, s);
        let t = powerups_collected(powerups, n - 1, ship_pos, s).1;
        let p = powerups[n - 1];
        if picked_up(p, ship_pos) {
            showing_is_not_announcing(t.events, Event::PowerUpSpawn { pos: p.pos });
        }
    }
}

/// All the collisions of a step together cost a ship, with no more lives
/// than it can hold, at most one life, and announce the end of the game at
/// most once, provided the invincibility window opens for some time; they
/// announce it exactly once if they take the last life.
pub proof fn a_step_ends_the_game_at_most_once(pre: Game, post: Game)
    requires
        Game::collided(pre, post),
        pre.ship.invincible_timer.max > 0,
        pre.ship.lives <= MAX_LIVES,
    ensures
        game_overs(post.event_queue@) <= game_overs(pre.event_queue@) + 1,
        post.ship.lives >= pre.ship.lives - 1,
        pre.ship.lives == 1 && post.ship.lives <= 0 ==> post.state == GameState::GameOver
            && game_overs(post.event_queue@) == game_overs(pre.event_queue@) + 1,
{
    let at = pre.ship.pos;
    let window = pre.ship.invincible_timer.time as int;
    let shield = pre.ship.shield_active;
    let before = Field {
        asteroids: pre.world.asteroids@,
        drones: pre.world.drones@,
        score: pre.score as int,
        combo: pre.combo as int,
        combo_timer: pre.combo_timer,
        kills: pre.enemies_killed as int,
        blasts: Seq::<Blast>::empty(),
        drops: Seq::<Vec2>::empty(),
    };
    let (shots, f) = shots_resolved(pre.world.bullets@, pre.world.bullets@.len() as int, before);
    let start = Hull {
        lives: pre.ship.lives as int,
        invincible: pre.ship.invincible_timer,
        shake: pre.shake,
        state: pre.state,
        events: pre.event_queue@,
        blasts: Seq::<Blast>::empty(),
    };
    shots_hurt_at_most_once(shots, shots.len() as int, at, window, shield, start, start);
    let grazed = hostile_shots_resolved(shots, shots.len() as int, at, window, shield, start).1;
    let second = Hull { blasts: Seq::<Blast>::empty(), ..grazed };
    asteroids_hurt_at_most_once(
        f.asteroids,
        f.asteroids.len() as int,
        at,
        window,
        shield,
        start,
        second,
        f.score,
    );
    let (rocks, rammed, score) = asteroids_met(
        f.asteroids,
        f.asteroids.len() as int,
        at,
        window,
        shield,
        second,
        f.score,
    );
    let clash = Clash {
        drones: f.drones,
        asteroids: rocks,
        hull: Hull { blasts: Seq::<Blast>::empty(), ..rammed },
        score,
        kills: f.kills,
    };
    drones_hurt_at_most_once(clash, f.drones.len() as int, at, window, shield, start);
    let c = drones_met(clash, f.drones.len() as int, at, window, shield);
    let blasts = f.blasts + grazed.blasts + rammed.blasts + c.hull.blasts;
    let dropped = choose|dropped: Seq<PowerUp>|
        #[trigger] drops_taken(pre.world.powerups@, dropped, f.drops) && Game::collected(
            pre,
            post,
            dropped,
            c.hull,
            blasts,
        );
    let stock = Stock {
        shield_energy: pre.ship.shield_energy,
        lives: c.hull.lives,
        slowmo_energy: pre.ship.slowmo_energy,
        rapid_fire_timer: pre.ship.rapid_fire_timer,
        shake: c.hull.shake,
        events: c.hull.events,
        blasts: Seq::<Blast>::empty(),
    };
    pick_ups_announce_nothing(dropped, dropped.len() as int, at, stock);
    pick_ups_take_no_life(dropped, dropped.len() as int, at, stock);
    assert(pre.event_queue@.push(Event::GameOver).drop_last() =~= pre.event_queue@);
}

/// Picking up power-ups never costs a life.
pub proof fn pick_ups_take_no_life(powerups: Seq<PowerUp>, n: int, ship_pos: Vec2, s: Stock)
    requires
        0 <= n <= powerups.len(),
    ensures
        s.lives <= MAX_LIVES ==> powerups_collected(powerups, n, ship_pos, s).1.lives >= s.lives,
    decreases n,
{
    if n > 0 {
        pick_ups_take_no_life(powerups, n - 1, ship_pos, s);
    }
}

/// A whole step costs a ship, with no more lives than it can hold, at most
/// one life, and announces the end of the game at most once, provided the
/// invincibility window opens for some time; it announces it exactly once if
/// it takes the last life.
pub proof fn a_whole_step_ends_the_game_at_most_once(pre: Game, post: Game, dt: int, c: Controls)
    requires
        Game::stepped(pre, post, dt, c),
        pre.ship.invincible_timer.max > 0,
        pre.ship.lives <= MAX_LIVES,
    ensures
        game_overs(post.event_queue@) <= game_overs(pre.event_queue@) + 1,
        post.ship.lives >= pre.ship.lives - 1,
        pre.ship.lives == 1 && post.ship.lives <= 0 ==> post.state == GameState::GameOver
            && game_overs(post.event_queue@) == game_overs(pre.event_queue@) + 1,
{
    let (g1, g2, g3, g4, g5, g6, g7, g8) = choose|
        g1: Game,
        g2: Game,
        g3: Game,
        g4: Game,
        g5: Game,
        g6: Game,
        g7: Game,
        g8: Game,
    |
        #![trigger
            Game::clock_advanced(pre, g1, dt),
            Game::ship_updated(g1, g2, dt, c),
            Game::weapons_updated(g2, g3, dt, c),
            Game::entities_updated(g3, g4, dt),
            Game::collided(g4, g5),
            Game::waves_handled(g5, g6),
            Game::cleaned(g6, g7),
            Game::effects_updated(g7, g8, dt),
        ]
        {
            &&& Game::clock_advanced(pre, g1, dt)
            &&& Game::ship_updated(g1, g2, dt, c)
            &&& Game::weapons_updated(g2, g3, dt, c)
            &&& Game::entities_updated(g3, g4, dt)
            &&& Game::collided(g4, g5)
            &&& Game::waves_handled(g5, g6)
            &&& Game::cleaned(g6, g7)
            &&& Game::effects_updated(g7, g8, dt)
            &&& Game::shake_updated(g8, post, dt)
        };
    // The weapons may announce a shot of the beam, nothing else.
    showing_is_not_announcing(
        g2.event_queue@,
        Event::LaserFired { pos: g2.ship.pos, dir: heading_of(g2.ship.rot as int) },
    );
    a_step_ends_the_game_at_most_once(g4, g5);
}

/// After a step, whatever is on the field is alive: nothing destroyed, spent
/// or strayed is left for the next step to find.
pub proof fn a_step_leaves_only_the_living(pre: Game, post: Game, dt: int, c: Controls)
    requires
        Game::stepped(pre, post, dt, c),
    ensures
        post.screen == pre.screen,
        forall|i: int|
            0 <= i < post.world.asteroids@.len() ==> (#[trigger] post.world.asteroids@[i]).alive(
                post.screen,
            ),
        forall|i: int|
            0 <= i < post.world.drones@.len() ==> (#[trigger] post.world.drones@[i]).alive(
                post.screen,
            ),
        forall|i: int|
            0 <= i < post.world.bullets@.len() ==> (#[trigger] post.world.bullets@[i]).alive(
                post.screen,
            ),
        forall|i: int|
            0 <= i < post.world.powerups@.len() ==> (#[trigger] post.world.powerups@[i]).alive(
                post.screen,
            ),
        forall|i: int|
            0 <= i < post.weapons.missiles@.len() ==> (#[trigger] post.weapons.missiles@[i]).alive(
                post.screen,
            ),
{
    let (g1, g2, g3, g4, g5, g6, g7, g8) = choose|
        g1: Game,
        g2: Game,
        g3: Game,
        g4: Game,
        g5: Game,
        g6: Game,
        g7: Game,
        g8: Game,
    |
        #![trigger
            Game::clock_advanced(pre, g1, dt),
            Game::ship_updated(g1, g2, dt, c),
            Game::weapons_updated(g2, g3, dt, c),
            Game::entities_updated(g3, g4, dt),
            Game::collided(g4, g5),
            Game::waves_handled(g5, g6),
            Game::cleaned(g6, g7),
            Game::effects_updated(g7, g8, dt),
        ]
        {
            &&& Game::clock_advanced(pre, g1, dt)
            &&& Game::ship_updated(g1, g2, dt, c)
            &&& Game::weapons_updated(g2, g3, dt, c)
            &&& Game::entities_updated(g3, g4, dt)
            &&& Game::collided(g4, g5)
            &&& Game::waves_handled(g5, g6)
            &&& Game::cleaned(g6, g7)
            &&& Game::effects_updated(g7, g8, dt)
            &&& Game::shake_updated(g8, post, dt)
        };
}

} // verus!
