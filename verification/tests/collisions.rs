use void_survivor::{
    handle_enemy_bullet_collisions, handle_friendly_bullet_collisions, handle_powerup_collisions,
    handle_ship_asteroid_collisions, handle_ship_drone_collisions, Asteroid, Bullet, Color,
    Cooldown, Drone, DroneType, EffectSystem, Event, EventQueue, GameState, PowerUp, PowerUpType,
    ScreenShake, Vec2,
};

fn rock(x: i64, y: i64, radius: i64) -> Asteroid {
    Asteroid { pos: Vec2 { x, y }, vel: Vec2 { x: 0, y: 50_000 }, radius, rotation: 0, rotation_speed: 0 }
}

fn drone(x: i64, y: i64, hp: i32) -> Drone {
    Drone {
        pos: Vec2 { x, y },
        vel: Vec2 { x: 0, y: 0 },
        cooldown: Cooldown { time: 0, max: 0 },
        kind: DroneType::Kamikaze,
        hp,
        max_hp: 3,
    }
}

fn shot(x: i64, y: i64, enemy: bool) -> Bullet {
    Bullet { pos: Vec2 { x, y }, vel: Vec2 { x: 0, y: 0 }, enemy, size: 3_000, life: 1_000_000 }
}

/// The bursts that the particles make up: place, colour and number of each
/// run of particles of one place and colour.
fn bursts(e: &EffectSystem) -> Vec<(Vec2, Color, usize)> {
    let mut out: Vec<(Vec2, Color, usize)> = Vec::new();
    for p in e.particles.iter() {
        match out.last_mut() {
            Some(last) if last.0 == p.pos && last.1 == p.color => last.2 += 1,
            _ => out.push((p.pos, p.color, 1)),
        }
    }
    out
}

fn drain(q: &mut EventQueue) -> Vec<Event> {
    let mut all: Vec<Event> = Vec::new();
    while let Some(e) = q.pop() {
        all.push(e);
    }
    all
}

struct Tally {
    score: i32,
    combo: i32,
    combo_timer: Cooldown,
    kills: i32,
    powerups: Vec<PowerUp>,
    effects: EffectSystem,
    events: EventQueue,
}

fn tally() -> Tally {
    Tally {
        score: 0,
        combo: 0,
        combo_timer: Cooldown::new(2_000_000),
        kills: 0,
        powerups: Vec::new(),
        effects: EffectSystem::new(),
        events: EventQueue::new(),
    }
}

fn friendly_pass(bullets: &mut Vec<Bullet>, asteroids: &mut Vec<Asteroid>, drones: &mut Vec<Drone>, t: &mut Tally) {
    handle_friendly_bullet_collisions(
        bullets,
        asteroids,
        drones,
        &mut t.score,
        &mut t.combo,
        &mut t.combo_timer,
        &mut t.kills,
        &mut t.effects,
        &mut t.powerups,
        &mut t.events,
    );
}

#[test]
fn shot_takes_ten_off_an_asteroid_and_is_used_up() {
    let mut bullets = vec![shot(100_000, 100_000, false)];
    let mut asteroids = vec![rock(100_000, 100_000, 35_000)];
    let mut drones: Vec<Drone> = Vec::new();
    let mut t = tally();
    friendly_pass(&mut bullets, &mut asteroids, &mut drones, &mut t);
    assert_eq!(asteroids.len(), 1);
    assert_eq!(asteroids[0].radius, 25_000);
    assert_eq!(t.score, 10);
    assert_eq!(t.combo, 1);
    assert_eq!(t.combo_timer.time, 2_000_000);
    assert_eq!(bullets.len(), 0);
    assert_eq!(t.kills, 0);
    assert!(t.powerups.is_empty());
    assert!(t.events.is_empty());
    assert_eq!(bursts(&t.effects), vec![(Vec2 { x: 100_000, y: 100_000 }, Color::White, 10)]);
    for p in t.effects.particles.iter() {
        assert!(-200_000 <= p.vel.x && p.vel.x < 200_000);
        assert!(-200_000 <= p.vel.y && p.vel.y < 200_000);
        assert!(300_000 <= p.life && p.life < 600_000);
        assert!(2_000 <= p.size && p.size < 5_000);
    }
    assert!(t.effects.trail.is_empty());
}

#[test]
fn shot_hits_only_inside_the_radius() {
    let mut bullets = vec![shot(135_000, 100_000, false), shot(134_999, 100_000, false)];
    let mut asteroids = vec![rock(100_000, 100_000, 35_000)];
    let mut drones: Vec<Drone> = Vec::new();
    let mut t = tally();
    friendly_pass(&mut bullets, &mut asteroids, &mut drones, &mut t);
    // The first is exactly on the rim and misses; the second is inside.
    assert_eq!(bullets, vec![shot(135_000, 100_000, false)]);
    assert_eq!(asteroids[0].radius, 25_000);
    assert_eq!(t.score, 10);
}

#[test]
fn destroyed_asteroid_is_not_hit_again_in_the_same_pass() {
    let mut bullets = vec![
        shot(100_000, 100_000, false),
        shot(100_000, 100_000, false),
        shot(100_000, 100_000, false),
    ];
    let mut asteroids = vec![rock(100_000, 100_000, 20_000)];
    let mut drones: Vec<Drone> = Vec::new();
    let mut t = tally();
    friendly_pass(&mut bullets, &mut asteroids, &mut drones, &mut t);
    // One shot drives the radius to ten; the other two fly on.
    assert_eq!(asteroids[0].radius, 10_000);
    assert_eq!(t.score, 10);
    assert_eq!(t.combo, 1);
    assert_eq!(bullets.len(), 2);
    assert!(t.powerups.len() <= 1);
    for p in t.powerups.iter() {
        assert_eq!(p.pos, Vec2 { x: 100_000, y: 100_000 });
    }
}

#[test]
fn destroyed_asteroid_is_left_alone_by_the_ship_passes() {
    let mut fx = EffectSystem::new();
    let ship = Vec2 { x: 100_000, y: 100_000 };
    let mut asteroids = vec![rock(100_000, 105_000, 10_000)];
    let mut drones = vec![drone(100_000, 120_000, 2)];
    let (mut lives, mut inv, mut shake, mut score, mut state, mut q, mut kills) = hull();
    handle_ship_asteroid_collisions(&mut asteroids, &ship, 0, false, &mut lives, &mut inv, &mut shake, &mut score, &mut fx, &mut state, &mut q);
    assert_eq!(lives, 3);
    handle_ship_drone_collisions(&mut drones, &mut asteroids, &Vec2 { x: 0, y: 0 }, 0, false, &mut lives, &mut inv, &mut shake, &mut fx, &mut state, &mut score, &mut kills, &mut q);
    assert_eq!(drones[0].hp, 2);
    assert_eq!(asteroids[0].radius, 10_000);
    assert_eq!(kills, 0);
    assert_eq!(score, 0);
    assert!(q.is_empty());
}

#[test]
fn shot_kills_a_drone_with_one_hit_point() {
    let mut bullets = vec![shot(200_000, 200_000, false)];
    let mut asteroids: Vec<Asteroid> = Vec::new();
    let mut drones = vec![drone(200_000, 210_000, 1)];
    let mut t = tally();
    friendly_pass(&mut bullets, &mut asteroids, &mut drones, &mut t);
    assert_eq!(drones.len(), 1);
    assert_eq!(drones[0].hp, 0);
    assert_eq!(t.kills, 1);
    assert_eq!(t.score, 100);
    assert_eq!(t.combo, 1);
    assert!(bullets.is_empty());
    assert!(t.events.is_empty());
    assert_eq!(
        bursts(&t.effects),
        vec![
            (Vec2 { x: 200_000, y: 210_000 }, Color::Red, 8),
            (Vec2 { x: 200_000, y: 210_000 }, Color::Orange, 15),
        ]
    );
}

#[test]
fn shot_wounds_a_drone_with_more_hit_points() {
    let mut bullets = vec![shot(200_000, 200_000, false), shot(200_000, 200_000, true)];
    let mut asteroids: Vec<Asteroid> = Vec::new();
    let mut drones = vec![drone(500_000, 0, 3), drone(200_000, 214_999, 3)];
    let mut t = tally();
    friendly_pass(&mut bullets, &mut asteroids, &mut drones, &mut t);
    assert_eq!(drones[0].hp, 3);
    assert_eq!(drones[1].hp, 2);
    assert_eq!(t.kills, 0);
    assert_eq!(t.score, 50);
    // The hostile shot is none of this pass's business.
    assert_eq!(bullets, vec![shot(200_000, 200_000, true)]);
    assert!(t.powerups.is_empty());
}

#[test]
fn shot_hits_a_drone_only_within_fifteen_units() {
    let mut bullets = vec![shot(200_000, 200_000, false)];
    let mut asteroids: Vec<Asteroid> = Vec::new();
    let mut drones = vec![drone(200_000, 215_000, 3), drone(215_000, 200_000, 3)];
    let mut t = tally();
    friendly_pass(&mut bullets, &mut asteroids, &mut drones, &mut t);
    assert_eq!(bullets.len(), 1);
    assert_eq!(drones[0].hp, 3);
    assert_eq!(drones[1].hp, 3);
    assert_eq!(t.score, 0);
    assert_eq!(t.combo, 0);
    assert!(t.combo_timer.ready());
    assert!(t.events.is_empty());
    assert!(t.effects.particles.is_empty());
}

#[test]
fn drone_just_clear_of_an_asteroid_flies_on() {
    let mut fx = EffectSystem::new();
    let ship = Vec2 { x: 0, y: 0 };
    let mut drones = vec![drone(400_000, 300_000, 3)];
    let mut asteroids = vec![rock(400_000, 340_000, 20_000)];
    let (mut lives, mut inv, mut shake, mut score, mut state, mut q, mut kills) = hull();
    handle_ship_drone_collisions(&mut drones, &mut asteroids, &ship, 0, false, &mut lives, &mut inv, &mut shake, &mut fx, &mut state, &mut score, &mut kills, &mut q);
    assert_eq!(drones[0].hp, 3);
    assert_eq!(asteroids[0].radius, 20_000);
    assert_eq!(kills, 0);
    assert!(q.is_empty());
}

#[test]
fn drone_just_out_of_reach_leaves_the_ship_alone() {
    let mut fx = EffectSystem::new();
    let ship = Vec2 { x: 400_000, y: 300_000 };
    let mut drones = vec![drone(400_000, 320_000, 3)];
    let mut asteroids: Vec<Asteroid> = Vec::new();
    let (mut lives, mut inv, mut shake, mut score, mut state, mut q, mut kills) = hull();
    handle_ship_drone_collisions(&mut drones, &mut asteroids, &ship, 0, false, &mut lives, &mut inv, &mut shake, &mut fx, &mut state, &mut score, &mut kills, &mut q);
    assert_eq!(lives, 3);
    assert_eq!(drones[0].hp, 3);
}

#[test]
fn asteroids_are_tried_before_drones_and_drones_whatever_their_hit_points() {
    let mut bullets = vec![shot(0, 0, false), shot(0, 0, false)];
    let mut asteroids = vec![rock(0, 5_000, 11_000)];
    let mut drones = vec![drone(0, 0, 0), drone(0, 1_000, 1)];
    let mut t = tally();
    friendly_pass(&mut bullets, &mut asteroids, &mut drones, &mut t);
    // First shot: the asteroid. Second shot: the asteroid is gone, and the
    // first drone in reach is hit, though it had no hit points left.
    assert_eq!(asteroids[0].radius, 1_000);
    assert_eq!(drones[0].hp, -1);
    assert_eq!(drones[1].hp, 1);
    assert_eq!(t.score, 110);
    assert_eq!(t.combo, 2);
    assert_eq!(t.kills, 1);
    assert!(bullets.is_empty());
    assert_eq!(
        bursts(&t.effects),
        vec![
            (Vec2 { x: 0, y: 5_000 }, Color::White, 10),
            (Vec2 { x: 0, y: 0 }, Color::Red, 8),
            (Vec2 { x: 0, y: 0 }, Color::Orange, 15),
        ]
    );
}

#[test]
fn spent_shots_hit_nothing() {
    let mut spent = shot(100_000, 100_000, false);
    spent.life = 0;
    let mut bullets = vec![spent];
    let mut asteroids = vec![rock(100_000, 100_000, 35_000)];
    let mut drones: Vec<Drone> = Vec::new();
    let mut t = tally();
    friendly_pass(&mut bullets, &mut asteroids, &mut drones, &mut t);
    assert_eq!(bullets.len(), 1);
    assert_eq!(asteroids[0].radius, 35_000);
    assert_eq!(t.score, 0);
}

#[test]
fn destroyed_enemies_sometimes_leave_a_power_up() {
    let mut dropped: usize = 0;
    let mut round: i32 = 0;
    while round < 300 {
        let mut bullets = vec![shot(0, 0, false)];
        let mut asteroids: Vec<Asteroid> = Vec::new();
        let mut drones = vec![drone(0, 0, 1)];
        let mut t = tally();
        friendly_pass(&mut bullets, &mut asteroids, &mut drones, &mut t);
        assert!(t.powerups.len() <= 1);
        for p in t.powerups.iter() {
            assert_eq!(p.pos, Vec2 { x: 0, y: 0 });
            assert_eq!(p.life, 10_000_000);
        }
        dropped += t.powerups.len();
        round += 1;
    }
    // About three in ten.
    assert!(30 < dropped && dropped < 170);
}

fn hull() -> (i32, Cooldown, ScreenShake, i32, GameState, EventQueue, i32) {
    (3, Cooldown::new(2_000_000), ScreenShake::new(), 0, GameState::Playing, EventQueue::new(), 0)
}

#[test]
fn hostile_shot_costs_a_life_and_opens_the_window() {
    let mut fx = EffectSystem::new();
    let ship = Vec2 { x: 400_000, y: 300_000 };
    let mut bullets = vec![
        shot(400_000, 311_999, true),
        shot(400_000, 300_000, true),
        shot(400_000, 312_000, true),
        shot(400_000, 300_000, false),
    ];
    let (mut lives, mut inv, mut shake, _s, mut state, mut q, _k) = hull();
    handle_enemy_bullet_collisions(&mut bullets, &ship, 0, false, &mut lives, &mut inv, &mut shake, &mut fx, &mut state, &mut q);
    // The first shot hurts; after that the ship is invincible, and the
    // second passes through. The third is out of reach, the fourth friendly.
    assert_eq!(lives, 2);
    assert_eq!(inv.time, 2_000_000);
    assert_eq!(shake.timer, 300_000);
    assert_eq!(state, GameState::Playing);
    assert_eq!(bullets.len(), 3);
    assert_eq!(bullets[0], shot(400_000, 300_000, true));
    assert!(q.is_empty());
    assert_eq!(bursts(&fx), vec![(ship, Color::Red, 10)]);
}

#[test]
fn shield_swallows_hostile_shots() {
    let mut fx = EffectSystem::new();
    let ship = Vec2 { x: 400_000, y: 300_000 };
    let mut bullets = vec![shot(400_000, 305_000, true), shot(405_000, 300_000, true)];
    let (mut lives, mut inv, mut shake, _s, mut state, mut q, _k) = hull();
    handle_enemy_bullet_collisions(&mut bullets, &ship, 0, true, &mut lives, &mut inv, &mut shake, &mut fx, &mut state, &mut q);
    assert_eq!(lives, 3);
    assert!(inv.ready());
    assert!(bullets.is_empty());
    assert_eq!(shake.timer, 0);
    assert!(q.is_empty());
    assert_eq!(
        bursts(&fx),
        vec![
            (Vec2 { x: 400_000, y: 305_000 }, Color::SkyBlue, 6),
            (Vec2 { x: 405_000, y: 300_000 }, Color::SkyBlue, 6),
        ]
    );
}

#[test]
fn invincible_ship_lets_shots_pass() {
    let mut fx = EffectSystem::new();
    let ship = Vec2 { x: 400_000, y: 300_000 };
    let mut bullets = vec![shot(400_000, 300_000, true)];
    let (mut lives, _i, mut shake, _s, mut state, mut q, _k) = hull();
    let mut inv = Cooldown::full(2_000_000);
    handle_enemy_bullet_collisions(&mut bullets, &ship, 0, false, &mut lives, &mut inv, &mut shake, &mut fx, &mut state, &mut q);
    assert_eq!(lives, 3);
    assert_eq!(bullets.len(), 1);
    assert!(q.is_empty());
    assert!(fx.particles.is_empty());
}

#[test]
fn window_open_when_the_pass_began_lets_everything_pass() {
    let mut fx = EffectSystem::new();
    let ship = Vec2 { x: 400_000, y: 300_000 };
    let (mut lives, mut inv, mut shake, mut score, mut state, mut q, mut kills) = hull();
    let mut bullets = vec![shot(400_000, 300_000, true)];
    handle_enemy_bullet_collisions(&mut bullets, &ship, 1, true, &mut lives, &mut inv, &mut shake, &mut fx, &mut state, &mut q);
    assert_eq!(bullets.len(), 1);
    let mut asteroids = vec![rock(400_000, 310_000, 20_000)];
    handle_ship_asteroid_collisions(&mut asteroids, &ship, 1, false, &mut lives, &mut inv, &mut shake, &mut score, &mut fx, &mut state, &mut q);
    assert_eq!(asteroids[0], rock(400_000, 310_000, 20_000));
    let mut drones = vec![drone(400_000, 310_000, 2)];
    let mut none: Vec<Asteroid> = Vec::new();
    handle_ship_drone_collisions(&mut drones, &mut none, &ship, 1, false, &mut lives, &mut inv, &mut shake, &mut fx, &mut state, &mut score, &mut kills, &mut q);
    assert_eq!(drones[0], drone(400_000, 310_000, 2));
    assert_eq!(lives, 3);
    assert!(inv.ready());
    assert_eq!(score, 0);
    assert!(q.is_empty());
    assert!(fx.particles.is_empty());
}

#[test]
fn hostile_shots_hit_whatever_time_they_have_left() {
    let mut fx = EffectSystem::new();
    let ship = Vec2 { x: 400_000, y: 300_000 };
    let mut spent = shot(400_000, 300_000, true);
    spent.life = 0;
    let mut bullets = vec![spent];
    let (mut lives, mut inv, mut shake, _s, mut state, mut q, _k) = hull();
    handle_enemy_bullet_collisions(&mut bullets, &ship, 0, false, &mut lives, &mut inv, &mut shake, &mut fx, &mut state, &mut q);
    assert_eq!(lives, 2);
    assert!(bullets.is_empty());
}

#[test]
fn last_life_ends_the_game_with_one_announcement() {
    let mut fx = EffectSystem::new();
    let ship = Vec2 { x: 400_000, y: 300_000 };
    let mut bullets = vec![shot(400_000, 300_000, true), shot(400_001, 300_000, true), shot(400_002, 300_000, true)];
    let (_l, mut inv, mut shake, _s, mut state, mut q, _k) = hull();
    let mut lives: i32 = 1;
    handle_enemy_bullet_collisions(&mut bullets, &ship, 0, false, &mut lives, &mut inv, &mut shake, &mut fx, &mut state, &mut q);
    assert_eq!(lives, 0);
    assert_eq!(state, GameState::GameOver);
    let events = drain(&mut q);
    assert_eq!(events, vec![Event::GameOver]);
    assert_eq!(bursts(&fx), vec![(ship, Color::Red, 10)]);
}

#[test]
fn last_life_lost_to_an_asteroid_or_a_drone_ends_the_game_once() {
    let mut fx = EffectSystem::new();
    let ship = Vec2 { x: 400_000, y: 300_000 };
    let mut asteroids = vec![rock(400_000, 320_000, 20_000), rock(400_000, 320_000, 30_000)];
    let (_l, mut inv, mut shake, mut score, mut state, mut q, mut kills) = hull();
    let mut lives: i32 = 1;
    handle_ship_asteroid_collisions(&mut asteroids, &ship, 0, false, &mut lives, &mut inv, &mut shake, &mut score, &mut fx, &mut state, &mut q);
    assert_eq!(lives, 0);
    assert_eq!(state, GameState::GameOver);
    assert_eq!(shake.timer, 500_000);
    assert_eq!(drain(&mut q), vec![Event::GameOver]);
    assert_eq!(bursts(&fx), vec![(Vec2 { x: 400_000, y: 320_000 }, Color::White, 12)]);
    fx.clear();

    let mut drones = vec![drone(400_000, 310_000, 2), drone(400_000, 310_000, 2)];
    let mut none: Vec<Asteroid> = Vec::new();
    let mut inv2 = Cooldown::new(2_000_000);
    let mut state2 = GameState::Playing;
    let mut lives2: i32 = 1;
    handle_ship_drone_collisions(&mut drones, &mut none, &ship, 0, false, &mut lives2, &mut inv2, &mut shake, &mut fx, &mut state2, &mut score, &mut kills, &mut q);
    assert_eq!(lives2, 0);
    assert_eq!(state2, GameState::GameOver);
    assert_eq!(drones[0].hp, 0);
    assert_eq!(drones[1].hp, 2);
    assert_eq!(kills, 0);
    assert_eq!(drain(&mut q), vec![Event::GameOver]);
    assert_eq!(bursts(&fx), vec![(Vec2 { x: 400_000, y: 310_000 }, Color::Red, 15)]);
}

#[test]
fn shield_throws_asteroids_off_at_bounce_speed() {
    let mut fx = EffectSystem::new();
    let ship = Vec2 { x: 400_000, y: 300_000 };
    let mut asteroids = vec![
        rock(400_000, 327_999, 20_000),
        rock(400_000, 328_000, 20_000),
        rock(370_000, 340_000, 45_000),
    ];
    let (mut lives, mut inv, mut shake, mut score, mut state, mut q, _k) = hull();
    handle_ship_asteroid_collisions(&mut asteroids, &ship, 0, true, &mut lives, &mut inv, &mut shake, &mut score, &mut fx, &mut state, &mut q);
    assert_eq!(lives, 3);
    assert!(inv.ready());
    assert_eq!(state, GameState::Playing);
    assert_eq!(asteroids[0].vel, Vec2 { x: 0, y: 400_000 });
    // Exactly at radius plus eight units: no contact.
    assert_eq!(asteroids[1].vel, Vec2 { x: 0, y: 50_000 });
    // A 3-4-5 triangle away: thrown off along it, at 400 units per second.
    assert_eq!(asteroids[2].vel, Vec2 { x: -240_000, y: 320_000 });
    assert_eq!(asteroids[2].vel.x * asteroids[2].vel.x + asteroids[2].vel.y * asteroids[2].vel.y, 400_000i64 * 400_000);
    assert_eq!(score, 10);
    assert_eq!(shake.timer, 300_000);
    assert!(q.is_empty());
    assert!(fx.particles.is_empty());
    assert_eq!(asteroids[0].radius, 20_000);
}

#[test]
fn bounce_speed_is_four_hundred_up_to_rounding() {
    let mut fx = EffectSystem::new();
    let ship = Vec2 { x: 400_000, y: 300_000 };
    let mut dx: i64 = -30_000;
    while dx <= 30_000 {
        let mut dy: i64 = -30_000;
        while dy <= 30_000 {
            // From a unit away on, rounding costs less than a thousandth.
            if dx.abs() >= 1_000 || dy.abs() >= 1_000 {
                let mut asteroids = vec![rock(400_000 + dx, 300_000 + dy, 40_000)];
                let (mut lives, mut inv, mut shake, mut score, mut state, mut q, _k) = hull();
                handle_ship_asteroid_collisions(&mut asteroids, &ship, 0, true, &mut lives, &mut inv, &mut shake, &mut score, &mut fx, &mut state, &mut q);
                let v = asteroids[0].vel;
                let speed2: i64 = v.x * v.x + v.y * v.y;
                assert!(speed2 <= 400_000i64 * 400_000);
                assert!(speed2 >= 399_600i64 * 399_600);
                assert_eq!(lives, 3);
            }
            dy += 3_333;
        }
        dx += 3_333;
    }
}

#[test]
fn drone_that_rams_asteroids_is_destroyed_by_each_in_reach() {
    let mut fx = EffectSystem::new();
    let ship = Vec2 { x: 0, y: 0 };
    let mut drones = vec![drone(400_000, 300_000, 3)];
    let mut asteroids = vec![
        rock(400_000, 400_000, 20_000),
        rock(400_000, 339_999, 20_000),
        rock(400_000, 300_000, 30_000),
        rock(400_000, 300_000, 10_000),
    ];
    let (mut lives, mut inv, mut shake, mut score, mut state, mut q, mut kills) = hull();
    handle_ship_drone_collisions(&mut drones, &mut asteroids, &ship, 0, false, &mut lives, &mut inv, &mut shake, &mut fx, &mut state, &mut score, &mut kills, &mut q);
    // The first asteroid is out of reach and the last is destroyed already;
    // each of the other two takes the crash, and each crash is a kill.
    assert_eq!(drones[0].hp, 0);
    assert_eq!(asteroids[0].radius, 20_000);
    assert_eq!(asteroids[1].radius, 5_000);
    assert_eq!(asteroids[2].radius, 15_000);
    assert_eq!(asteroids[3].radius, 10_000);
    assert_eq!(kills, 2);
    assert_eq!(score, 100);
    assert_eq!(lives, 3);
    assert_eq!(shake.timer, 200_000);
    assert!(q.is_empty());
    assert_eq!(
        bursts(&fx),
        vec![
            (Vec2 { x: 400_000, y: 300_000 }, Color::Orange, 15),
            (Vec2 { x: 400_000, y: 339_999 }, Color::White, 12),
            (Vec2 { x: 400_000, y: 300_000 }, Color::Orange, 15),
        ]
    );
}

#[test]
fn drone_that_rams_two_asteroids_still_rams_the_ship() {
    let mut fx = EffectSystem::new();
    let ship = Vec2 { x: 400_000, y: 310_000 };
    let mut drones = vec![drone(400_000, 300_000, 3), drone(0, 0, 0)];
    let mut asteroids = vec![rock(400_000, 250_000, 40_000), rock(400_000, 350_000, 40_000)];
    let (mut lives, mut inv, mut shake, mut score, mut state, mut q, mut kills) = hull();
    handle_ship_drone_collisions(&mut drones, &mut asteroids, &ship, 0, false, &mut lives, &mut inv, &mut shake, &mut fx, &mut state, &mut score, &mut kills, &mut q);
    assert_eq!(drones[0].hp, 0);
    assert_eq!(drones[1].hp, 0);
    assert_eq!(asteroids[0].radius, 25_000);
    assert_eq!(asteroids[1].radius, 25_000);
    assert_eq!(kills, 2);
    assert_eq!(score, 100);
    assert_eq!(lives, 2);
    assert_eq!(inv.time, 2_000_000);
    assert_eq!(shake.timer, 500_000);
    assert_eq!(state, GameState::Playing);
    assert!(q.is_empty());
    assert_eq!(
        bursts(&fx),
        vec![
            (Vec2 { x: 400_000, y: 300_000 }, Color::Orange, 30),
            (Vec2 { x: 400_000, y: 300_000 }, Color::Red, 15),
        ]
    );
}

#[test]
fn drone_without_hit_points_still_meets_the_ship() {
    let mut fx = EffectSystem::new();
    let ship = Vec2 { x: 400_000, y: 300_000 };
    let mut drones = vec![drone(400_000, 310_000, 0)];
    let mut asteroids: Vec<Asteroid> = Vec::new();
    let (mut lives, mut inv, mut shake, mut score, mut state, mut q, mut kills) = hull();
    handle_ship_drone_collisions(&mut drones, &mut asteroids, &ship, 0, true, &mut lives, &mut inv, &mut shake, &mut fx, &mut state, &mut score, &mut kills, &mut q);
    assert_eq!(drones[0].hp, -1);
    assert_eq!(drones[0].vel, Vec2 { x: 0, y: 300_000 });
    assert_eq!(lives, 3);
    assert_eq!(bursts(&fx), vec![(Vec2 { x: 400_000, y: 310_000 }, Color::SkyBlue, 8)]);
}

#[test]
fn shield_throws_drones_off_and_wounds_them() {
    let mut fx = EffectSystem::new();
    let ship = Vec2 { x: 400_000, y: 300_000 };
    let mut drones = vec![drone(400_000, 319_999, 3), drone(400_000, 320_000, 3)];
    let mut asteroids: Vec<Asteroid> = Vec::new();
    let (mut lives, mut inv, mut shake, mut score, mut state, mut q, mut kills) = hull();
    handle_ship_drone_collisions(&mut drones, &mut asteroids, &ship, 0, true, &mut lives, &mut inv, &mut shake, &mut fx, &mut state, &mut score, &mut kills, &mut q);
    assert_eq!(lives, 3);
    assert_eq!(drones[0].hp, 2);
    assert_eq!(drones[0].vel, Vec2 { x: 0, y: 300_000 });
    assert_eq!(drones[1].hp, 3);
    assert_eq!(drones[1].vel, Vec2 { x: 0, y: 0 });
    assert_eq!(kills, 0);
    assert_eq!(score, 0);
    assert!(q.is_empty());
    assert_eq!(bursts(&fx), vec![(Vec2 { x: 400_000, y: 319_999 }, Color::SkyBlue, 8)]);
}

#[test]
fn unshielded_ship_destroys_the_drone_at_the_price_of_a_life() {
    let mut fx = EffectSystem::new();
    let ship = Vec2 { x: 400_000, y: 300_000 };
    let mut drones = vec![drone(410_000, 300_000, 3)];
    let mut asteroids: Vec<Asteroid> = Vec::new();
    let (mut lives, mut inv, mut shake, mut score, mut state, mut q, mut kills) = hull();
    handle_ship_drone_collisions(&mut drones, &mut asteroids, &ship, 0, false, &mut lives, &mut inv, &mut shake, &mut fx, &mut state, &mut score, &mut kills, &mut q);
    assert_eq!(lives, 2);
    assert_eq!(drones[0].hp, 0);
    assert_eq!(inv.time, 2_000_000);
    assert_eq!(shake.timer, 500_000);
    assert_eq!(state, GameState::Playing);
    assert_eq!(kills, 0);
    assert!(q.is_empty());
    assert_eq!(bursts(&fx), vec![(Vec2 { x: 410_000, y: 300_000 }, Color::Red, 15)]);
}

#[test]
fn power_ups_in_reach_are_picked_up() {
    let mut fx = EffectSystem::new();
    let ship = Vec2 { x: 400_000, y: 300_000 };
    let still = Vec2 { x: 0, y: 0 };
    let far = PowerUp::of_kind(Vec2 { x: 400_000, y: 320_000 }, PowerUpType::Life, still);
    let mut powerups = vec![
        PowerUp::of_kind(Vec2 { x: 400_000, y: 319_999 }, PowerUpType::Life, still),
        far,
        PowerUp::of_kind(Vec2 { x: 390_000, y: 300_000 }, PowerUpType::Shield, still),
        PowerUp::of_kind(Vec2 { x: 400_000, y: 300_000 }, PowerUpType::SlowTime, still),
        PowerUp::of_kind(Vec2 { x: 400_000, y: 290_000 }, PowerUpType::RapidFire, still),
    ];
    let mut shield = Cooldown::new(5_000_000);
    let mut slowmo = Cooldown::new(3_000_000);
    let mut rapid = Cooldown::new(7_000_000);
    let mut lives: i32 = 4;
    let mut shake = ScreenShake::new();
    let mut q = EventQueue::new();
    handle_powerup_collisions(&mut powerups, &ship, &mut shield, &mut lives, &mut slowmo, &mut rapid, &mut shake, &mut fx, &mut q);
    assert_eq!(powerups, vec![far]);
    assert_eq!(lives, 5);
    assert_eq!(shield.time, 5_000_000);
    assert_eq!(slowmo.time, 3_000_000);
    assert_eq!(rapid.time, 7_000_000);
    assert_eq!(shake.timer, 200_000);
    assert_eq!(
        drain(&mut q),
        vec![
            Event::PowerUpSpawn { pos: Vec2 { x: 400_000, y: 319_999 } },
            Event::PowerUpSpawn { pos: Vec2 { x: 390_000, y: 300_000 } },
            Event::PowerUpSpawn { pos: Vec2 { x: 400_000, y: 300_000 } },
            Event::PowerUpSpawn { pos: Vec2 { x: 400_000, y: 290_000 } },
        ]
    );
    // Each pick-up sends up a fountain in the colour of its kind.
    assert_eq!(
        bursts(&fx),
        vec![
            (Vec2 { x: 400_000, y: 319_999 }, Color::Green, 20),
            (Vec2 { x: 390_000, y: 300_000 }, Color::SkyBlue, 20),
            (Vec2 { x: 400_000, y: 300_000 }, Color::Purple, 20),
            (Vec2 { x: 400_000, y: 290_000 }, Color::Orange, 20),
        ]
    );
    for p in fx.particles.iter() {
        assert!(-50_000 <= p.vel.x && p.vel.x < 50_000);
        assert!(-100_000 <= p.vel.y && p.vel.y < -50_000);
        assert_eq!(p.life, 1_000_000);
        assert_eq!(p.size, 3_000);
    }
}

#[test]
fn power_ups_are_picked_up_whatever_time_they_have_left() {
    let mut fx = EffectSystem::new();
    let ship = Vec2 { x: 400_000, y: 300_000 };
    let mut old = PowerUp::of_kind(ship, PowerUpType::Shield, Vec2 { x: 0, y: 0 });
    old.life = 0;
    let mut powerups = vec![old];
    let mut shield = Cooldown::new(5_000_000);
    let mut slowmo = Cooldown::new(3_000_000);
    let mut rapid = Cooldown::new(7_000_000);
    let mut lives: i32 = 3;
    let mut shake = ScreenShake::new();
    let mut q = EventQueue::new();
    handle_powerup_collisions(&mut powerups, &ship, &mut shield, &mut lives, &mut slowmo, &mut rapid, &mut shake, &mut fx, &mut q);
    assert!(powerups.is_empty());
    assert_eq!(shield.time, 5_000_000);
    assert_eq!(q.len(), 1);
}

#[test]
fn lives_are_capped_at_five() {
    let mut fx = EffectSystem::new();
    let ship = Vec2 { x: 0, y: 0 };
    let still = Vec2 { x: 0, y: 0 };
    let mut powerups = vec![
        PowerUp::of_kind(ship, PowerUpType::Life, still),
        PowerUp::of_kind(ship, PowerUpType::Life, still),
        PowerUp::of_kind(ship, PowerUpType::Life, still),
    ];
    let mut shield = Cooldown::new(5_000_000);
    let mut slowmo = Cooldown::new(3_000_000);
    let mut rapid = Cooldown::new(7_000_000);
    let mut lives: i32 = 3;
    let mut shake = ScreenShake::new();
    let mut q = EventQueue::new();
    handle_powerup_collisions(&mut powerups, &ship, &mut shield, &mut lives, &mut slowmo, &mut rapid, &mut shake, &mut fx, &mut q);
    assert_eq!(lives, 5);
    assert!(powerups.is_empty());
    assert_eq!(q.len(), 3);
}
