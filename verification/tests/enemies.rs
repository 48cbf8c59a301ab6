use void_survivor::enemies::{BOMBER_RELOAD, HOSTILE_SHOT_LIFE, POWERUP_LIFE, SNIPER_RELOAD};
use void_survivor::{
    Asteroid, Bullet, Color, Cooldown, Drone, DroneType, PowerUp, PowerUpType, Ship, Vec2,
    WeaponSystem,
};

fn screen() -> Vec2 {
    Vec2 { x: 800_000, y: 600_000 }
}

fn rock(x: i64, y: i64, radius: i64) -> Asteroid {
    Asteroid { pos: Vec2 { x, y }, vel: Vec2 { x: 0, y: 0 }, radius, rotation: 0, rotation_speed: 0 }
}

#[test]
fn new_asteroid_draws_within_its_ranges() {
    let mut i: i32 = 0;
    while i < 200 {
        let a = Asteroid::new(Vec2 { x: 123_000, y: -50_000 }, 2250);
        assert_eq!(a.pos, Vec2 { x: 123_000, y: -50_000 });
        assert!(-50_000 <= a.vel.x && a.vel.x < 50_000);
        // A fall of 50 to 150 units per second, times a difficulty of 2.25.
        assert!(112_500 <= a.vel.y && a.vel.y < 337_500);
        assert!(15_000 <= a.radius && a.radius < 35_000);
        assert_eq!(a.rotation, 0);
        assert!(-2_000_000 <= a.rotation_speed && a.rotation_speed < 2_000_000);
        i += 1;
    }
}

#[test]
fn asteroid_fall_speed_is_capped_at_three_times() {
    let a = Asteroid::launched(Vec2 { x: 0, y: 0 }, 9000, 10_000, 100_000, 20_000, 0);
    assert_eq!(a.vel, Vec2 { x: 10_000, y: 300_000 });
    let b = Asteroid::launched(Vec2 { x: 0, y: 0 }, 2250, -10_000, 100_000, 20_000, 5);
    assert_eq!(b.vel, Vec2 { x: -10_000, y: 225_000 });
    assert_eq!(b.radius, 20_000);
    assert_eq!(b.rotation_speed, 5);
}

#[test]
fn asteroid_drifts_and_spins() {
    let mut a = rock(100_000, 100_000, 20_000);
    a.vel = Vec2 { x: 30_000, y: 120_000 };
    a.rotation_speed = -2_000_000;
    a.update(500_000);
    assert_eq!(a.pos, Vec2 { x: 115_000, y: 160_000 });
    assert_eq!(a.rotation, 6_283_186 - 1_000_000);
    assert_eq!(a.radius, 20_000);
}

#[test]
fn asteroid_lives_within_a_hundred_units_of_the_field() {
    assert!(rock(0, 0, 10_001).is_alive(screen()));
    assert!(!rock(0, 0, 10_000).is_alive(screen()));
    assert!(rock(-99_999, 0, 20_000).is_alive(screen()));
    assert!(!rock(-100_000, 0, 20_000).is_alive(screen()));
    assert!(rock(899_999, 699_999, 20_000).is_alive(screen()));
    assert!(!rock(900_000, 0, 20_000).is_alive(screen()));
    assert!(!rock(0, 700_000, 20_000).is_alive(screen()));
    assert!(!rock(0, -100_000, 20_000).is_alive(screen()));
}

#[test]
fn asteroid_take_damage_tells_when_destroyed() {
    let mut a = rock(0, 0, 35_000);
    assert!(!a.take_damage(10_000));
    assert_eq!(a.radius, 25_000);
    assert!(a.take_damage(15_000));
    assert_eq!(a.radius, 10_000);
}

#[test]
fn drone_hit_points_grow_with_the_wave() {
    let at = Vec2 { x: 5, y: -20_000 };
    assert_eq!(Drone::of_kind(at, 2250, 1, DroneType::Bomber).hp, 2);
    assert_eq!(Drone::of_kind(at, 2250, 2, DroneType::Bomber).max_hp, 2);
    assert_eq!(Drone::of_kind(at, 2250, 3, DroneType::Bomber).hp, 3);
    assert_eq!(Drone::of_kind(at, 2250, 10, DroneType::Kamikaze).hp, 5);
    let d = Drone::of_kind(at, 2250, 7, DroneType::Sniper);
    assert_eq!(d.hp, 4);
    assert_eq!(d.max_hp, 4);
    assert_eq!(d.pos, at);
    assert_eq!(d.vel, Vec2 { x: 0, y: 0 });
    assert_eq!(d.health_percent(), 1000);
}

#[test]
fn drone_first_reload_depends_on_its_kind() {
    let at = Vec2 { x: 0, y: 0 };
    assert_eq!(Drone::of_kind(at, 2000, 1, DroneType::Sniper).cooldown, Cooldown { time: 0, max: 1_000_000 });
    assert_eq!(Drone::of_kind(at, 2250, 1, DroneType::Sniper).cooldown.max, 888_888);
    assert_eq!(Drone::of_kind(at, 9000, 1, DroneType::Sniper).cooldown.max, 666_666);
    assert_eq!(Drone::of_kind(at, 2250, 1, DroneType::Bomber).cooldown.max, BOMBER_RELOAD);
    assert_eq!(Drone::of_kind(at, 2250, 1, DroneType::Kamikaze).cooldown.max, 0);
}

#[test]
fn new_drone_draws_every_kind() {
    let mut seen: [bool; 3] = [false, false, false];
    let mut i: i32 = 0;
    while i < 300 {
        let d = Drone::new(Vec2 { x: 0, y: -20_000 }, 2250, 4);
        assert_eq!(d.hp, 3);
        match d.kind {
            DroneType::Sniper => seen[0] = true,
            DroneType::Kamikaze => seen[1] = true,
            DroneType::Bomber => seen[2] = true,
        }
        i += 1;
    }
    assert!(seen[0] && seen[1] && seen[2]);
}

#[test]
fn sniper_sinks_and_bomber_slides_towards_the_ship() {
    let ship_pos = Vec2 { x: 400_000, y: 300_000 };
    let mut s = Drone::of_kind(Vec2 { x: 100_000, y: 0 }, 2250, 1, DroneType::Sniper);
    s.update(500_000, &ship_pos);
    assert_eq!(s.pos, Vec2 { x: 100_000, y: 10_000 });

    let mut left = Drone::of_kind(Vec2 { x: 100_000, y: 0 }, 2250, 1, DroneType::Bomber);
    left.update(500_000, &ship_pos);
    assert_eq!(left.pos, Vec2 { x: 140_000, y: 15_000 });
    assert_eq!(left.cooldown.time, 0);

    let mut right = Drone::of_kind(Vec2 { x: 700_000, y: 0 }, 2250, 1, DroneType::Bomber);
    right.update(500_000, &ship_pos);
    assert_eq!(right.pos, Vec2 { x: 660_000, y: 15_000 });

    let mut above = Drone::of_kind(Vec2 { x: 400_000, y: 0 }, 2250, 1, DroneType::Bomber);
    above.update(500_000, &ship_pos);
    assert_eq!(above.pos.x, 440_000);
}

#[test]
fn kamikaze_steers_a_tenth_of_the_way_each_step() {
    let ship_pos = Vec2 { x: 400_000, y: 0 };
    let mut k = Drone::of_kind(Vec2 { x: 100_000, y: 0 }, 2250, 1, DroneType::Kamikaze);
    k.update(1_000_000, &ship_pos);
    assert_eq!(k.vel, Vec2 { x: 4_000, y: 0 });
    assert_eq!(k.pos, Vec2 { x: 104_000, y: 0 });
    k.update(1_000_000, &ship_pos);
    assert_eq!(k.vel, Vec2 { x: 7_600, y: 0 });
    assert_eq!(k.pos, Vec2 { x: 111_600, y: 0 });
}

#[test]
fn sniper_leads_its_target() {
    let mut ship = Ship::new(screen());
    ship.pos = Vec2 { x: 400_000, y: 300_000 };
    ship.vel = Vec2 { x: 0, y: -1_000_000 };
    let mut d = Drone::of_kind(Vec2 { x: 100_000, y: 0 }, 2250, 1, DroneType::Sniper);
    let shot = d.shoot(16_667, &ship);
    // Three tenths of a second on, the ship is level with the drone.
    assert_eq!(
        shot,
        Some(Bullet {
            pos: Vec2 { x: 100_000, y: 0 },
            vel: Vec2 { x: 400_000, y: 0 },
            enemy: true,
            size: 4_000,
            life: HOSTILE_SHOT_LIFE,
        })
    );
    assert_eq!(d.cooldown, Cooldown { time: SNIPER_RELOAD, max: SNIPER_RELOAD });
    assert_eq!(d.shoot(16_667, &ship), None);
    d.update(1_000_000, &ship.pos);
    d.update(1_000_000, &ship.pos);
    assert_eq!(d.shoot(16_667, &ship), None);
    d.update(500_000, &ship.pos);
    assert!(d.shoot(16_667, &ship).is_some());
}

#[test]
fn bomber_drops_straight_down_and_kamikaze_never_fires() {
    let ship = Ship::new(screen());
    let mut b = Drone::of_kind(Vec2 { x: 7, y: 9 }, 2250, 1, DroneType::Bomber);
    let shot = b.shoot(0, &ship).unwrap();
    assert_eq!(shot.vel, Vec2 { x: 0, y: 150_000 });
    assert_eq!(shot.pos, Vec2 { x: 7, y: 9 });
    assert_eq!(shot.size, 6_000);
    assert!(shot.enemy);
    assert_eq!(b.cooldown.time, BOMBER_RELOAD);
    let mut k = Drone::of_kind(Vec2 { x: 7, y: 9 }, 2250, 1, DroneType::Kamikaze);
    assert!(k.cooldown.ready());
    assert_eq!(k.shoot(0, &ship), None);
}

#[test]
fn drones_and_shots_live_within_fifty_units_of_the_field() {
    let mut d = Drone::of_kind(Vec2 { x: -49_999, y: 649_999 }, 2250, 1, DroneType::Sniper);
    assert!(d.is_alive(screen()));
    d.pos.x = -50_000;
    assert!(!d.is_alive(screen()));
    d.pos.x = 0;
    d.hp = 0;
    assert!(!d.is_alive(screen()));

    let mut b = Bullet { pos: Vec2 { x: 849_999, y: -49_999 }, vel: Vec2 { x: 0, y: 0 }, enemy: false, size: 3_000, life: 1 };
    assert!(b.is_alive(screen()));
    b.pos.x = 850_000;
    assert!(!b.is_alive(screen()));
    b.pos.x = 0;
    b.life = 0;
    assert!(!b.is_alive(screen()));
}

#[test]
fn bullet_flies_and_ages() {
    let mut b = Bullet { pos: Vec2 { x: 0, y: 0 }, vel: Vec2 { x: 600_000, y: -600_000 }, enemy: false, size: 3_000, life: 2_000_000 };
    b.update(16_667);
    assert_eq!(b.pos, Vec2 { x: 10_000, y: -10_000 });
    assert_eq!(b.life, 1_983_333);
}

#[test]
fn power_up_falls_ever_faster() {
    let mut p = PowerUp::of_kind(Vec2 { x: 0, y: 0 }, PowerUpType::Life, Vec2 { x: 10_000, y: -20_000 });
    assert_eq!(p.life, POWERUP_LIFE);
    p.update(1_000_000);
    // It moves at its old velocity, then gravity adds fifty units per second.
    assert_eq!(p.pos, Vec2 { x: 10_000, y: -20_000 });
    assert_eq!(p.vel, Vec2 { x: 10_000, y: 30_000 });
    assert_eq!(p.life, 9_000_000);
    p.update(1_000_000);
    assert_eq!(p.pos, Vec2 { x: 20_000, y: 10_000 });
    assert_eq!(p.vel, Vec2 { x: 10_000, y: 80_000 });
}

#[test]
fn power_up_lives_until_it_falls_off_or_runs_out() {
    let mut p = PowerUp::of_kind(Vec2 { x: -5_000_000, y: -5_000_000 }, PowerUpType::Shield, Vec2 { x: 0, y: 0 });
    assert!(p.is_alive(screen()));
    p.pos.y = 649_999;
    assert!(p.is_alive(screen()));
    p.pos.y = 650_000;
    assert!(!p.is_alive(screen()));
    p.pos.y = 0;
    p.life = 0;
    assert!(!p.is_alive(screen()));
}

#[test]
fn new_power_up_draws_every_kind_and_a_small_drift() {
    let mut seen: [bool; 4] = [false, false, false, false];
    let mut i: i32 = 0;
    while i < 400 {
        let p = PowerUp::new(Vec2 { x: 1, y: 2 });
        assert_eq!(p.pos, Vec2 { x: 1, y: 2 });
        assert_eq!(p.life, POWERUP_LIFE);
        assert!(-30_000 <= p.vel.x && p.vel.x < 30_000);
        assert!(-30_000 <= p.vel.y && p.vel.y < 30_000);
        match p.kind {
            PowerUpType::Shield => seen[0] = true,
            PowerUpType::Life => seen[1] = true,
            PowerUpType::SlowTime => seen[2] = true,
            PowerUpType::RapidFire => seen[3] = true,
        }
        i += 1;
    }
    assert!(seen[0] && seen[1] && seen[2] && seen[3]);
}

#[test]
fn power_up_gives_what_it_holds() {
    let at = Vec2 { x: 0, y: 0 };
    let still = Vec2 { x: 0, y: 0 };
    let mut w = WeaponSystem::new();
    let mut ship = Ship::new(screen());
    ship.shield_energy.time = 0;
    ship.slowmo_energy.time = 0;
    PowerUp::of_kind(at, PowerUpType::Shield, still).apply(&mut ship, &mut w);
    assert_eq!(ship.shield_energy.time, 5_000_000);
    assert_eq!(ship.slowmo_energy.time, 0);
    PowerUp::of_kind(at, PowerUpType::SlowTime, still).apply(&mut ship, &mut w);
    assert_eq!(ship.slowmo_energy.time, 3_000_000);
    PowerUp::of_kind(at, PowerUpType::RapidFire, still).apply(&mut ship, &mut w);
    assert_eq!(ship.rapid_fire_timer.time, 7_000_000);
    let life = PowerUp::of_kind(at, PowerUpType::Life, still);
    life.apply(&mut ship, &mut w);
    assert_eq!(ship.lives, 4);
    life.apply(&mut ship, &mut w);
    life.apply(&mut ship, &mut w);
    assert_eq!(ship.lives, 5);
    assert_eq!(w.missile_ammo, 5);
}

#[test]
fn power_up_colours() {
    let at = Vec2 { x: 0, y: 0 };
    assert_eq!(PowerUp::of_kind(at, PowerUpType::Shield, at).color(), Color::SkyBlue);
    assert_eq!(PowerUp::of_kind(at, PowerUpType::Life, at).color(), Color::Green);
    assert_eq!(PowerUp::of_kind(at, PowerUpType::SlowTime, at).color(), Color::Purple);
    assert_eq!(PowerUp::of_kind(at, PowerUpType::RapidFire, at).color(), Color::Orange);
}

#[test]
fn each_kind_has_one_draw() {
    assert_eq!(DroneType::picked(0), DroneType::Sniper);
    assert_eq!(DroneType::picked(1), DroneType::Kamikaze);
    assert_eq!(DroneType::picked(2), DroneType::Bomber);
    assert_eq!(PowerUpType::picked(0), PowerUpType::Shield);
    assert_eq!(PowerUpType::picked(1), PowerUpType::Life);
    assert_eq!(PowerUpType::picked(2), PowerUpType::SlowTime);
    assert_eq!(PowerUpType::picked(3), PowerUpType::RapidFire);
}

#[test]
fn entities_move_for_as_long_as_they_are_told() {
    let mut a = Asteroid {
        pos: Vec2 { x: 100_000, y: 0 },
        vel: Vec2 { x: -10_000, y: 100_000 },
        radius: 30_000,
        rotation: 0,
        rotation_speed: 0,
    };
    a.update(2_500_000);
    assert_eq!(a.pos, Vec2 { x: 75_000, y: 250_000 });
    let mut b = Bullet {
        pos: Vec2 { x: 0, y: 0 },
        vel: Vec2 { x: 600_000, y: 0 },
        enemy: false,
        size: 3_000,
        life: 2_000_000,
    };
    b.update(3_000_000);
    assert_eq!(b.pos, Vec2 { x: 1_800_000, y: 0 });
    assert_eq!(b.life, -1_000_000);
}
