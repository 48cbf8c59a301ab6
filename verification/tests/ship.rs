use void_survivor::consts::{MAX_SHIELD_TIME, MAX_SLOWMO_TIME, PLAYER_INVINCIBLE_TIME};
use void_survivor::ship::{heading, Ship, TRAIL_LIFE};
use void_survivor::{Controls, Vec2};

fn screen() -> Vec2 {
    Vec2 { x: 800_000, y: 600_000 }
}

#[test]
fn new_ship_is_centred_with_full_reserves() {
    let s = Ship::new(screen());
    assert_eq!(s.pos, Vec2 { x: 400_000, y: 300_000 });
    assert_eq!(s.vel, Vec2 { x: 0, y: 0 });
    assert_eq!(s.rot, 0);
    assert_eq!(s.dir, Vec2 { x: 1000, y: 0 });
    assert_eq!(s.lives, 3);
    assert_eq!(s.shield_energy.time, MAX_SHIELD_TIME);
    assert_eq!(s.slowmo_energy.time, MAX_SLOWMO_TIME);
    assert_eq!(s.invincible_timer.time, 0);
    assert_eq!(s.invincible_timer.max, PLAYER_INVINCIBLE_TIME);
    assert!(s.is_slowmo_available);
    assert!(!s.shield_active);
    assert!(!s.slowmo_active);
    assert!(s.trail.is_empty());
    assert!(!s.is_invincible());
}

#[test]
fn heading_is_a_unit_vector() {
    assert_eq!(heading(0), Vec2 { x: 1000, y: 0 });
    assert_eq!(heading(1_570_796), Vec2 { x: 0, y: 1000 });
    assert_eq!(heading(3_141_593), Vec2 { x: -1000, y: 0 });
    assert_eq!(heading(4_712_389), Vec2 { x: 0, y: -1000 });
    assert_eq!(heading(785_398), Vec2 { x: 706, y: 706 });
    assert_eq!(heading(33_334), Vec2 { x: 999, y: 33 });
}

#[test]
fn ship_wraps_round_the_right_edge() {
    let mut s = Ship::new(screen());
    s.pos = Vec2 { x: 800_000 - 1, y: 300_000 };
    // 1000 steps to the right in one second, once drag has taken its share.
    s.vel = Vec2 { x: 1031, y: 0 };
    let c = Controls::idle();
    s.update(1_000_000, &c, screen());
    assert_eq!(s.vel.x, 1000);
    assert_eq!(s.pos.x, 999);
    assert_eq!(s.pos.y, 300_000);
}

#[test]
fn ship_wraps_round_the_left_and_top_edges() {
    let mut s = Ship::new(screen());
    s.pos = Vec2 { x: 0, y: 5 };
    s.vel = Vec2 { x: -1031, y: -1031 };
    s.handle_input(1_000_000, &Controls::idle(), screen());
    assert_eq!(s.pos, Vec2 { x: 799_000, y: 599_005 });
}

#[test]
fn thrust_drag_and_movement_in_one_step() {
    let mut s = Ship::new(screen());
    let mut c = Controls::idle();
    c.up = true;
    let dir = s.update(16_667, &c, screen());
    assert_eq!(dir, Vec2 { x: 1000, y: 0 });
    // 500 units per second squared for a sixtieth of a second, less drag.
    assert_eq!(s.vel, Vec2 { x: 8083, y: 0 });
    assert_eq!(s.pos, Vec2 { x: 400_134, y: 300_000 });
}

#[test]
fn backward_thrust_wins_and_reverse_boost_amplifies_it() {
    let mut c = Controls::idle();
    c.up = true;
    c.down = true;
    let mut plain = Ship::new(screen());
    plain.update(100_000, &c, screen());
    assert_eq!(plain.vel.x, -29_100);
    assert!(plain.reverse_boost_timer.ready());

    c.reverse_boost = true;
    let mut boosted = Ship::new(screen());
    boosted.update(100_000, &c, screen());
    assert_eq!(boosted.vel.x, -72_750);
    assert_eq!(boosted.reverse_boost_timer.time, 500_000);

    c.shield = true;
    let mut shielded = Ship::new(screen());
    shielded.update(100_000, &c, screen());
    assert!(shielded.shield_active);
    assert_eq!(shielded.vel.x, -29_100);
    assert!(shielded.reverse_boost_timer.ready());
}

#[test]
fn turning_changes_the_heading() {
    let mut s = Ship::new(screen());
    let mut c = Controls::idle();
    c.right = true;
    s.update(16_667, &c, screen());
    assert_eq!(s.rot, 33_334);
    assert_eq!(s.dir, Vec2 { x: 999, y: 33 });
    c.right = false;
    c.left = true;
    s.update(16_667, &c, screen());
    s.update(16_667, &c, screen());
    assert_eq!(s.rot, 6_283_186 - 33_334);
    assert_eq!(s.dir, Vec2 { x: 999, y: -33 });
}

#[test]
fn shield_drains_faster_than_it_recharges() {
    let mut s = Ship::new(screen());
    let mut c = Controls::idle();
    c.shield = true;
    s.update(1_000_000, &c, screen());
    assert!(s.shield_active);
    assert_eq!(s.shield_energy.time, 3_500_000);
    c.shield = false;
    s.update(1_000_000, &c, screen());
    assert!(!s.shield_active);
    assert_eq!(s.shield_energy.time, 4_100_000);
    s.update(1_000_000, &c, screen());
    s.update(1_000_000, &c, screen());
    assert_eq!(s.shield_energy.time, 5_000_000);
}

#[test]
fn shield_needs_more_than_a_tenth_of_a_second_of_energy() {
    let mut s = Ship::new(screen());
    let mut c = Controls::idle();
    c.shield = true;
    s.shield_energy.time = 100_000;
    s.update(10_000, &c, screen());
    assert!(!s.shield_active);
    assert_eq!(s.shield_energy.time, 106_000);
    s.update(10_000, &c, screen());
    assert!(s.shield_active);
    assert_eq!(s.shield_energy.time, 91_000);
}

#[test]
fn slow_time_latches_off_until_nine_tenths_full() {
    let mut s = Ship::new(screen());
    let mut c = Controls::idle();
    c.slowmo = true;
    s.update(1_000_000, &c, screen());
    assert!(s.slowmo_active);
    assert_eq!(s.get_slow_time_factor(), 300);
    assert_eq!(s.slowmo_energy.time, 500_000);
    s.update(1_000_000, &c, screen());
    assert_eq!(s.slowmo_energy.time, 0);
    assert!(!s.is_slowmo_available);
    // Still held, but empty and latched off: it recharges instead.
    s.update(1_000_000, &c, screen());
    assert!(!s.slowmo_active);
    assert_eq!(s.get_slow_time_factor(), 1000);
    assert_eq!(s.slowmo_energy.time, 400_000);
    assert!(!s.is_slowmo_available);
    let mut steps: i32 = 0;
    while s.slowmo_energy.time < 2_700_000 {
        assert!(!s.slowmo_active);
        assert!(!s.is_slowmo_available);
        s.update(1_000_000, &c, screen());
        steps += 1;
    }
    assert_eq!(steps, 6);
    assert!(s.is_slowmo_available);
    s.update(1_000_000, &c, screen());
    assert!(s.slowmo_active);
}

#[test]
fn slow_time_dilates_the_step() {
    let mut s = Ship::new(screen());
    assert_eq!(s.dilate(16_667), 16_667);
    assert_eq!(s.dilate(1_000_000), 1_000_000);
    s.slowmo_active = true;
    assert_eq!(s.dilate(16_667), 5_000);
    assert_eq!(s.dilate(1_000_000), 300_000);
    assert_eq!(s.dilate(0), 0);
}

#[test]
fn take_damage_costs_a_life_and_opens_the_window() {
    let mut s = Ship::new(screen());
    assert!(s.take_damage());
    assert_eq!(s.lives, 2);
    assert!(s.is_invincible());
    assert_eq!(s.invincible_timer.time, PLAYER_INVINCIBLE_TIME);
    assert!(!s.take_damage());
    assert_eq!(s.lives, 2);
    s.update(1_000_000, &Controls::idle(), screen());
    s.update(1_000_000, &Controls::idle(), screen());
    assert!(!s.is_invincible());
    s.shield_active = true;
    assert!(!s.take_damage());
    assert_eq!(s.lives, 2);
}

#[test]
fn trail_grows_and_fades() {
    let mut s = Ship::new(screen());
    let c = Controls::idle();
    s.update(100_000, &c, screen());
    assert_eq!(s.trail.len(), 1);
    assert_eq!(s.trail[0].life, TRAIL_LIFE - 100_000);
    assert_eq!(s.trail[0].pos, s.pos);
    let mut i: i32 = 0;
    while i < 10 {
        s.update(100_000, &c, screen());
        i += 1;
    }
    // A point lasts half a second: four steps of a tenth.
    assert_eq!(s.trail.len(), 4);
    assert_eq!(s.trail[0].life, 100_000);
    assert_eq!(s.trail[3].life, 400_000);
}

#[test]
fn a_long_step_moves_the_ship_for_all_of_it() {
    let mut s = Ship::new(screen());
    s.pos = Vec2 { x: 100_000, y: 300_000 };
    s.vel = Vec2 { x: 1031, y: 0 };
    s.invincible_timer.reset();
    s.shield_energy.time = 0;
    s.update(3_000_000, &Controls::idle(), screen());
    // A thousand steps a second, once drag has taken its share, for three
    // seconds.
    assert_eq!(s.vel.x, 1000);
    assert_eq!(s.pos, Vec2 { x: 103_000, y: 300_000 });
    assert_eq!(s.invincible_timer.time, 0);
    assert_eq!(s.shield_energy.time, 1_800_000);
    // Ten seconds of thrust, and the way they carry the ship round the field.
    let mut t = Ship::new(screen());
    let mut c = Controls::idle();
    c.up = true;
    t.update(10_000_000, &c, screen());
    assert_eq!(t.vel, Vec2 { x: 4_850_000, y: 0 });
    assert_eq!(t.pos, Vec2 { x: (400_000 + 48_500_000) % 800_000, y: 300_000 });
}
