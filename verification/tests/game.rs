use void_survivor::game::{
    asteroid_enters, asteroid_rarity, count_intact_drones, drone_enters, drone_rarity,
};
use void_survivor::{
    Asteroid, Bullet, Color, Controls, Cooldown, Drone, DroneType, Event, Game,
    GameOverScene, GameScene, GameState, HomingMissile, MenuScene, PauseScene, PowerUp,
    PowerUpType, Scene, SceneKeys, ScreenShake, Vec2,
};

fn screen() -> Vec2 {
    Vec2 { x: 800_000, y: 600_000 }
}

fn rock(x: i64, y: i64, radius: i64) -> Asteroid {
    Asteroid { pos: Vec2 { x, y }, vel: Vec2 { x: 0, y: 0 }, radius, rotation: 0, rotation_speed: 0 }
}

fn drone(x: i64, y: i64, hp: i32) -> Drone {
    Drone {
        pos: Vec2 { x, y },
        vel: Vec2 { x: 0, y: 0 },
        cooldown: Cooldown { time: 1_000_000, max: 3_000_000 },
        kind: DroneType::Bomber,
        hp,
        max_hp: 3,
    }
}

fn shot(x: i64, y: i64, enemy: bool, life: i64) -> Bullet {
    Bullet { pos: Vec2 { x, y }, vel: Vec2 { x: 0, y: 0 }, enemy, size: 3_000, life }
}

fn no_keys() -> SceneKeys {
    SceneKeys { start: false, pause: false, menu: false }
}

#[test]
fn new_game_starts_on_the_title_screen() {
    let g = Game::new(screen());
    assert_eq!(g.state, GameState::Menu);
    assert_eq!(g.score, 0);
    assert_eq!(g.high_score, 0);
    assert_eq!(g.timer, 0);
    assert_eq!(g.combo, 0);
    assert_eq!(g.combo_timer, Cooldown { time: 0, max: 2_000_000 });
    assert_eq!(g.wave, 1);
    assert_eq!(g.enemies_to_spawn, 5);
    assert_eq!(g.enemies_killed, 0);
    assert_eq!(g.ship.lives, 3);
    assert_eq!(g.ship.shield_energy.time, 5_000_000);
    assert_eq!(g.ship.slowmo_energy.time, 3_000_000);
    assert!(g.world.asteroids.is_empty());
    assert!(g.world.drones.is_empty());
    assert!(g.world.bullets.is_empty());
    assert!(g.world.powerups.is_empty());
    assert!(g.weapons.missiles.is_empty());
    assert!(g.event_queue.is_empty());
    assert!(g.can_update());
}

#[test]
fn resize_changes_only_the_field() {
    let mut g = Game::new(screen());
    g.resize(Vec2 { x: 1_024_000, y: 768_000 });
    assert_eq!(g.screen, Vec2 { x: 1_024_000, y: 768_000 });
    assert_eq!(g.ship.pos, Vec2 { x: 400_000, y: 300_000 });
    assert!(void_survivor::ship::is_valid_screen(g.screen));
    assert!(!void_survivor::ship::is_valid_screen(Vec2 { x: 0, y: 768_000 }));
    assert!(!void_survivor::ship::is_valid_screen(Vec2 { x: 1, y: 400_000_001 }));
    assert!(void_survivor::ship::is_valid_screen(Vec2 { x: 1, y: 400_000_000 }));
}

#[test]
fn a_game_has_room_while_a_step_cannot_overflow_its_counters() {
    let mut g = Game::new(screen());
    assert!(g.can_update());
    // A new game may gain 70 and 250 by a missile and the beam, 100 by a
    // shot, and 200 by the next wave.
    g.score = i32::MAX - 620;
    assert!(g.can_update());
    g.score = i32::MAX - 619;
    assert!(!g.can_update());
    g.score = 0;
    g.wave = -1;
    assert!(!g.can_update());
    g.wave = 1;
    g.timer = i64::MAX - 20_000_000;
    assert!(g.can_update());
    g.timer = i64::MAX - 19_999_999;
    assert!(!g.can_update());
    g.timer = 0;
    g.combo = i32::MAX - 2;
    assert!(g.can_update());
    g.combo = i32::MAX - 1;
    assert!(!g.can_update());
    g.combo = -5;
    g.enemies_killed = i32::MAX - 7;
    assert!(g.can_update());
    g.enemies_killed = i32::MAX - 6;
    assert!(!g.can_update());
    g.enemies_killed = 0;
    g.ship.lives = i32::MIN + 1;
    assert!(g.can_update());
    g.ship.lives = i32::MIN;
    assert!(!g.can_update());
    g.ship.lives = 3;
    assert!(g.can_update());
}

#[test]
fn a_crowded_field_leaves_no_room() {
    let mut g = Game::new(screen());
    let mut i: i32 = 0;
    while i < 6000 {
        g.world.asteroids.push(rock(0, 0, 20_000));
        g.world.drones.push(drone(0, 0, 1));
        i += 1;
    }
    // Each drone may crash into each asteroid, for fifty points a crash.
    assert!(g.can_update());
    while i < 7000 {
        g.world.asteroids.push(rock(0, 0, 20_000));
        g.world.drones.push(drone(0, 0, 1));
        i += 1;
    }
    assert!(!g.can_update());
    g.world.asteroids.clear();
    assert!(g.can_update());
}

#[test]
fn reset_keeps_only_the_high_score() {
    let mut g = Game::new(screen());
    g.high_score = 4200;
    g.score = 77;
    g.wave = 9;
    g.enemies_to_spawn = 32;
    g.enemies_killed = 3;
    g.combo = 4;
    g.timer = 55;
    g.ship.lives = 0;
    g.state = GameState::GameOver;
    g.world.asteroids.push(rock(0, 0, 20_000));
    g.world.bullets.push(shot(0, 0, true, 5));
    g.weapons.missile_ammo = 0;
    g.effects.create_explosion(Vec2 { x: 0, y: 0 }, Color::Red, 3);
    g.event_queue.push(Event::GameOver);
    g.shake.trigger(500_000);
    g.reset();
    assert_eq!(g.state, GameState::Playing);
    assert_eq!(g.high_score, 4200);
    assert_eq!(g.score, 0);
    assert_eq!(g.wave, 1);
    assert_eq!(g.enemies_to_spawn, 5);
    assert_eq!(g.enemies_killed, 0);
    assert_eq!(g.combo, 0);
    assert_eq!(g.timer, 0);
    assert_eq!(g.ship.lives, 3);
    assert_eq!(g.weapons.missile_ammo, 5);
    assert!(g.world.asteroids.is_empty());
    assert!(g.world.bullets.is_empty());
    assert!(g.effects.particles.is_empty());
    assert!(g.event_queue.is_empty());
    assert_eq!(g.shake, ScreenShake { amount: 0, timer: 0 });
    assert_eq!(g.screen, screen());
}

#[test]
fn cleared_wave_gives_way_to_the_next() {
    let mut g = Game::new(screen());
    g.enemies_killed = 5;
    g.score = 40;
    g.handle_waves(16_667);
    assert_eq!(g.wave, 2);
    assert_eq!(g.enemies_killed, 0);
    assert_eq!(g.enemies_to_spawn, 11);
    assert_eq!(g.score, 240);
    assert_eq!(g.shake.timer, 500_000);
    // The burst that marks it goes up at once, in the middle of the field.
    assert!(g.event_queue.is_empty());
    assert_eq!(g.effects.particles.len(), 50);
    for p in g.effects.particles.iter() {
        assert_eq!(p.pos, Vec2 { x: 400_000, y: 300_000 });
        assert_eq!(p.color, Color::Gold);
    }
    g.enemies_killed = 12;
    g.handle_waves(16_667);
    assert_eq!(g.wave, 3);
    assert_eq!(g.enemies_to_spawn, 14);
    assert_eq!(g.score, 540);
}

#[test]
fn unfinished_wave_stays() {
    let mut g = Game::new(screen());
    g.enemies_killed = 4;
    g.handle_waves(16_667);
    assert_eq!(g.wave, 1);
    assert_eq!(g.enemies_killed, 4);
    assert_eq!(g.enemies_to_spawn, 5);
    assert_eq!(g.score, 0);
    assert!(g.event_queue.is_empty());
    assert!(g.effects.particles.is_empty());
    assert_eq!(g.shake.timer, 0);
}

#[test]
fn an_asteroid_enters_once_in_eighty_over_the_difficulty() {
    assert_eq!(asteroid_rarity(1_000), 80);
    assert_eq!(asteroid_rarity(1_500), 53);
    assert_eq!(asteroid_rarity(2_300), 34);
    assert_eq!(asteroid_rarity(80_000), 1);
    assert_eq!(asteroid_rarity(80_001), 0);
    assert!(asteroid_enters(0, 2_300));
    assert!(!asteroid_enters(1, 2_300));
    assert!(!asteroid_enters(33, 2_300));
    // Past all rarity, one enters in every step.
    assert!(asteroid_enters(0, 80_001));
    assert!(asteroid_enters(7, 80_001));
}

#[test]
fn a_drone_enters_once_in_two_hundred_over_the_difficulty_below_the_cap() {
    assert_eq!(drone_rarity(1_000), 200);
    assert_eq!(drone_rarity(2_300), 86);
    assert_eq!(drone_rarity(200_001), 0);
    assert!(drone_enters(0, 2_300, 0, 1));
    assert!(drone_enters(0, 2_300, 5, 1));
    assert!(!drone_enters(0, 2_300, 6, 1));
    assert!(drone_enters(0, 2_300, 6, 2));
    assert!(!drone_enters(1, 2_300, 0, 1));
    assert!(!drone_enters(85, 2_300, 0, 9));
    assert!(drone_enters(3, 200_001, 0, 1));
    assert!(!drone_enters(3, 200_001, 6, 1));
}

#[test]
fn enemies_enter_from_above_at_a_rate_that_fits_the_difficulty() {
    let mut g = Game::new(screen());
    let mut i: i32 = 0;
    while i < 3500 {
        let rocks: usize = g.world.asteroids.len();
        let drones: usize = g.world.drones.len();
        g.handle_waves(16_667);
        assert!(g.world.asteroids.len() <= rocks + 1);
        assert!(g.world.drones.len() <= drones + 1);
        assert!(g.world.drones.len() <= 6);
        i += 1;
    }
    // In wave one an asteroid enters about every 35th step.
    assert!(50 < g.world.asteroids.len() && g.world.asteroids.len() < 160);
    assert_eq!(g.world.drones.len(), 6);
    for a in g.world.asteroids.iter() {
        assert_eq!(a.pos.y, -50_000);
        assert!(0 <= a.pos.x && a.pos.x < 800_000);
        assert!(15_000 <= a.radius && a.radius < 35_000);
        assert!(112_500 <= a.vel.y && a.vel.y < 337_500);
    }
    for d in g.world.drones.iter() {
        assert_eq!(d.pos.y, -20_000);
        assert!(0 <= d.pos.x && d.pos.x < 800_000);
        assert_eq!(d.hp, 2);
        assert_eq!(d.max_hp, 2);
    }
}

#[test]
fn drone_cap_counts_live_drones_and_grows_with_the_wave() {
    let mut g = Game::new(screen());
    g.wave = 3;
    g.enemies_to_spawn = 1000;
    let mut i: i32 = 0;
    while i < 8 {
        g.world.drones.push(drone(100_000, 100_000, 0));
        i += 1;
    }
    assert_eq!(count_intact_drones(&g.world.drones), 0);
    let mut step: i32 = 0;
    while step < 5000 {
        g.handle_waves(16_667);
        step += 1;
    }
    assert_eq!(count_intact_drones(&g.world.drones), 8);
    assert_eq!(g.world.drones.len(), 16);
}

#[test]
fn cleanup_removes_what_is_not_alive() {
    let mut g = Game::new(screen());
    g.world.asteroids.push(rock(100_000, 100_000, 10_000));
    g.world.asteroids.push(rock(100_000, 100_000, 10_001));
    g.world.asteroids.push(rock(100_000, 700_000, 30_000));
    g.world.drones.push(drone(100_000, 100_000, 0));
    g.world.drones.push(drone(100_000, 100_000, 1));
    g.world.drones.push(drone(-50_000, 100_000, 1));
    g.world.bullets.push(shot(0, 0, true, 0));
    g.world.bullets.push(shot(0, 0, false, 1));
    g.world.powerups.push(PowerUp::of_kind(Vec2 { x: 0, y: 650_000 }, PowerUpType::Life, Vec2 { x: 0, y: 0 }));
    g.world.powerups.push(PowerUp::of_kind(Vec2 { x: -9_000_000, y: 0 }, PowerUpType::Life, Vec2 { x: 0, y: 0 }));
    let mut hit = HomingMissile::new(Vec2 { x: 0, y: 0 }, Vec2 { x: 1000, y: 0 });
    hit.hit = true;
    g.weapons.missiles.push(hit);
    g.weapons.missiles.push(HomingMissile::new(Vec2 { x: 1, y: 1 }, Vec2 { x: 1000, y: 0 }));
    g.cleanup();
    assert_eq!(g.world.asteroids, vec![rock(100_000, 100_000, 10_001)]);
    assert_eq!(g.world.drones, vec![drone(100_000, 100_000, 1)]);
    assert_eq!(g.world.bullets, vec![shot(0, 0, false, 1)]);
    assert_eq!(g.world.powerups.len(), 1);
    assert_eq!(g.world.powerups[0].pos.x, -9_000_000);
    assert_eq!(g.weapons.missiles.len(), 1);
    assert_eq!(g.weapons.missiles[0].pos, Vec2 { x: 1, y: 1 });
}

#[test]
fn destroyed_asteroid_is_gone_after_the_step_and_scores_once() {
    let mut g = Game::new(screen());
    g.reset();
    // Far from the ship; three shots sit on an asteroid that one shot destroys.
    g.world.asteroids.push(rock(100_000, 100_000, 20_000));
    g.world.bullets.push(shot(100_000, 100_000, false, 2_000_000));
    g.world.bullets.push(shot(100_000, 100_000, false, 2_000_000));
    g.world.bullets.push(shot(100_000, 100_000, false, 2_000_000));
    g.handle_collisions();
    assert_eq!(g.score, 10);
    assert_eq!(g.world.asteroids[0].radius, 10_000);
    assert_eq!(g.world.bullets.len(), 2);
    g.cleanup();
    assert!(g.world.asteroids.is_empty());
    assert_eq!(g.world.bullets.len(), 2);
}

#[test]
fn a_step_runs_the_clock_and_loses_a_stale_combo() {
    let mut g = Game::new(screen());
    g.reset();
    g.combo = 5;
    g.combo_timer.reset();
    g.update(1_000_000, &Controls::idle());
    assert_eq!(g.timer, 1_000_000);
    assert_eq!(g.combo, 5);
    assert_eq!(g.combo_timer.time, 1_000_000);
    g.update(1_000_000, &Controls::idle());
    assert_eq!(g.timer, 2_000_000);
    assert_eq!(g.combo, 0);
}

#[test]
fn a_step_moves_then_collides_then_sweeps() {
    let mut g = Game::new(screen());
    g.reset();
    // A shot that reaches the asteroid only by moving in this step.
    g.world.asteroids.push(rock(100_000, 100_000, 20_000));
    g.world.bullets.push(Bullet {
        pos: Vec2 { x: 60_000, y: 100_000 },
        vel: Vec2 { x: 600_000, y: 0 },
        enemy: false,
        size: 3_000,
        life: 2_000_000,
    });
    g.update(50_000, &Controls::idle());
    assert!(g.world.bullets.is_empty());
    assert!(g.score >= 10);
    let hit: Vec<&Asteroid> = g.world.asteroids.iter().filter(|a| a.pos.x == 100_000 && a.pos.y == 100_000).collect();
    assert!(hit.is_empty());
    assert_eq!(g.combo, 1);
}

#[test]
fn drones_move_then_fire_and_their_shots_fly_in_the_same_step() {
    let mut g = Game::new(screen());
    g.reset();
    let mut d = drone(100_000, 50_000, 2);
    d.cooldown = Cooldown { time: 0, max: 3_000_000 };
    g.world.drones.push(d);
    g.update_entities(500_000);
    // The bomber slides towards the ship and sinks, then drops its bomb
    // from where it has come to; the bomb falls for the rest of the step.
    assert_eq!(g.world.drones[0].pos, Vec2 { x: 140_000, y: 65_000 });
    assert_eq!(g.world.drones[0].cooldown.time, 3_000_000);
    assert_eq!(
        g.world.bullets,
        vec![Bullet {
            pos: Vec2 { x: 140_000, y: 140_000 },
            vel: Vec2 { x: 0, y: 150_000 },
            enemy: true,
            size: 6_000,
            life: 2_500_000,
        }]
    );
}

#[test]
fn missiles_in_flight_steer_to_what_has_just_moved() {
    let mut g = Game::new(screen());
    g.reset();
    g.weapons.missiles.push(HomingMissile::new(Vec2 { x: 100_000, y: 300_000 }, Vec2 { x: 1000, y: 0 }));
    let mut a = rock(300_000, 100_000, 30_000);
    a.vel = Vec2 { x: 0, y: 400_000 };
    g.world.asteroids.push(a);
    g.update_entities(500_000);
    // The asteroid has come level with the missile before the missile
    // looks for it, so the missile keeps flying straight at it.
    assert_eq!(g.world.asteroids[0].pos, Vec2 { x: 300_000, y: 300_000 });
    assert_eq!(g.weapons.missiles.len(), 0);
    assert_eq!(g.world.asteroids[0].radius, 15_000);
    assert_eq!(g.score, 15);
}

#[test]
fn a_fast_shot_can_jump_over_a_thin_target() {
    let mut g = Game::new(screen());
    g.reset();
    g.world.asteroids.push(rock(300_000, 100_000, 20_000));
    g.world.bullets.push(Bullet {
        pos: Vec2 { x: 60_000, y: 100_000 },
        vel: Vec2 { x: 600_000, y: 0 },
        enemy: false,
        size: 3_000,
        life: 2_000_000,
    });
    // Collisions are tested where things are after the step, not along
    // the way: in one long step the shot is past the asteroid.
    g.update_entities(800_000);
    g.handle_collisions();
    assert_eq!(g.world.bullets.len(), 1);
    assert_eq!(g.world.bullets[0].pos, Vec2 { x: 540_000, y: 100_000 });
    assert_eq!(g.world.asteroids[0].radius, 20_000);
    assert_eq!(g.score, 0);
}

#[test]
fn many_steps_keep_everything_near_the_field() {
    let mut g = Game::new(screen());
    g.reset();
    let mut c = Controls::idle();
    c.shoot = true;
    c.up = true;
    c.right = true;
    let mut i: i32 = 0;
    while i < 3000 && g.state == GameState::Playing {
        c.missile = i % 40 == 0;
        c.laser = i % 300 == 0;
        c.shield = i % 500 > 450;
        assert!(g.can_update());
        g.update(16_667, &c);
        assert!(0 <= g.ship.pos.x && g.ship.pos.x < 800_000);
        assert!(0 <= g.ship.pos.y && g.ship.pos.y < 600_000);
        assert!(0 <= g.ship.shield_energy.time && g.ship.shield_energy.time <= 5_000_000);
        for a in g.world.asteroids.iter() {
            assert!(a.radius > 10_000);
            assert!(-100_000 < a.pos.y && a.pos.y < 700_000);
        }
        for d in g.world.drones.iter() {
            assert!(d.hp > 0);
            assert!(-50_000 < d.pos.x && d.pos.x < 850_000);
        }
        for b in g.world.bullets.iter() {
            assert!(b.life > 0);
        }
        for p in g.world.powerups.iter() {
            assert!(p.life > 0 && p.pos.y < 650_000);
        }
        assert!(g.weapons.missile_ammo >= 0 && g.weapons.missile_ammo <= 5);
        g.effects.process_events(&mut g.event_queue);
        i += 1;
    }
    assert!(g.timer > 0);
    assert!(g.ship.lives <= 5);
}

#[test]
fn a_step_longer_than_a_second_moves_things_for_all_of_it() {
    let mut g = Game::new(screen());
    g.reset();
    let mut a = rock(100_000, 100_000, 30_000);
    a.vel = Vec2 { x: 0, y: 100_000 };
    g.world.asteroids.push(a);
    g.world.bullets.push(Bullet {
        pos: Vec2 { x: 700_000, y: 100_000 },
        vel: Vec2 { x: 0, y: 10_000 },
        enemy: true,
        size: 3_000,
        life: 10_000_000,
    });
    g.update_entities(5_000_000);
    assert_eq!(g.world.asteroids[0].pos, Vec2 { x: 100_000, y: 600_000 });
    assert_eq!(g.world.bullets[0].pos, Vec2 { x: 700_000, y: 150_000 });
    assert_eq!(g.world.bullets[0].life, 5_000_000);
    g.combo = 3;
    g.combo_timer.reset();
    g.update(2_500_000, &Controls::idle());
    assert_eq!(g.timer, 2_500_000);
    assert_eq!(g.combo, 0);
    assert_eq!(g.world.bullets[0].pos, Vec2 { x: 700_000, y: 175_000 });
    assert_eq!(g.world.bullets[0].life, 2_500_000);
}

#[test]
fn screen_shake_follows_its_timer_and_dies_away() {
    let mut s = ScreenShake::new();
    assert_eq!(s.update(16_667), Vec2 { x: 0, y: 0 });
    s.trigger(500_000);
    let mut i: i32 = 0;
    while i < 50 {
        let mut t = s;
        let off = t.update(100_000);
        // Ten units per second left: five units at half a second.
        assert_eq!(t.amount, 5_000);
        assert_eq!(t.timer, 400_000);
        assert!(-5_000 <= off.x && off.x < 5_000);
        assert!(-5_000 <= off.y && off.y < 5_000);
        i += 1;
    }
    s.update(500_000);
    assert_eq!(s.timer, 0);
    assert_eq!(s.amount, 5_000);
    s.update(100_000);
    assert_eq!(s.amount, 4_500);
    let mut j: i32 = 0;
    while j < 100 {
        s.update(100_000);
        j += 1;
    }
    assert_eq!(s.amount, 0);
    assert_eq!(s.update(100_000), Vec2 { x: 0, y: 0 });
}

#[test]
fn scenes_follow_the_keys() {
    let mut g = Game::new(screen());
    let c = Controls::idle();
    let mut menu = MenuScene::new();
    assert_eq!(menu.update(&mut g, &no_keys()), None);
    assert_eq!(g.state, GameState::Menu);
    let start = SceneKeys { start: true, pause: false, menu: false };
    assert_eq!(menu.update(&mut g, &start), Some(Scene::Game(GameScene)));
    assert_eq!(g.state, GameState::Playing);

    let mut play = GameScene::new();
    let pause = SceneKeys { start: false, pause: true, menu: true };
    assert_eq!(play.update(&mut g, 16_667, &c, &pause), Some(Scene::Pause(PauseScene)));
    assert_eq!(g.timer, 0);
    let to_menu = SceneKeys { start: false, pause: false, menu: true };
    assert_eq!(play.update(&mut g, 16_667, &c, &to_menu), Some(Scene::Menu(MenuScene)));
    assert_eq!(g.timer, 0);
    assert_eq!(play.update(&mut g, 16_667, &c, &no_keys()), None);
    assert_eq!(g.timer, 16_667);

    let mut paused = PauseScene::new();
    assert_eq!(paused.update(&no_keys()), None);
    assert_eq!(paused.update(&pause), Some(Scene::Game(GameScene)));
    assert_eq!(paused.update(&to_menu), Some(Scene::Menu(MenuScene)));

    let mut over = GameOverScene::new();
    assert_eq!(over.update(&mut g, 16_667, &no_keys()), None);
    assert_eq!(over.update(&mut g, 16_667, &to_menu), Some(Scene::Menu(MenuScene)));
    g.score = 5;
    assert_eq!(over.update(&mut g, 16_667, &start), Some(Scene::Game(GameScene)));
    assert_eq!(g.score, 0);
}

#[test]
fn game_over_records_the_high_score() {
    let mut g = Game::new(screen());
    g.reset();
    g.score = 900;
    g.high_score = 500;
    g.ship.lives = 1;
    g.world.bullets.push(shot(400_000, 300_000, true, 2_000_000));
    let mut scene = Scene::Game(GameScene::new());
    let next = scene.update(&mut g, 1_000, &Controls::idle(), &no_keys());
    assert_eq!(next, Some(Scene::GameOver(GameOverScene)));
    assert_eq!(g.state, GameState::GameOver);
    assert_eq!(g.ship.lives, 0);
    assert_eq!(g.high_score, 900);
    // Ten particles went up for the hit; the end of the game was queued
    // and has been taken off the queue.
    assert!(g.event_queue.is_empty());
    assert_eq!(g.effects.particles.len(), 10);
    let mut end = Scene::GameOver(GameOverScene::new());
    assert_eq!(end.update(&mut g, 1_000_000, &Controls::idle(), &no_keys()), None);
    assert!(g.effects.particles.is_empty());
}
