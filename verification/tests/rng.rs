use void_survivor::collisions::drops_power_up;
use void_survivor::rng::{chance, comes_up, draw, one_in, uniform, wins};

#[test]
fn uniform_stays_in_its_range_and_reaches_both_ends() {
    let mut low_seen: bool = false;
    let mut high_seen: bool = false;
    let mut i: i32 = 0;
    while i < 2000 {
        let r: i64 = uniform(-3, 4);
        assert!(-3 <= r && r < 4);
        low_seen = low_seen || r == -3;
        high_seen = high_seen || r == 3;
        i += 1;
    }
    assert!(low_seen && high_seen);
    assert_eq!(uniform(7, 8), 7);
    let wide: i64 = uniform(-1_000_000_000, 1_000_000_000);
    assert!(-1_000_000_000 <= wide && wide < 1_000_000_000);
}

#[test]
fn chance_is_certain_at_the_ends_and_fair_in_between() {
    let mut hits: i32 = 0;
    let mut i: i32 = 0;
    while i < 4000 {
        assert!(!chance(0));
        assert!(!chance(-5));
        assert!(chance(1000));
        assert!(chance(2000));
        if chance(300) {
            hits += 1;
        }
        i += 1;
    }
    assert!(1000 < hits && hits < 1400);
}

#[test]
fn one_in_is_certain_for_one_and_below() {
    let mut hits: i32 = 0;
    let mut i: i32 = 0;
    while i < 3500 {
        assert!(one_in(1));
        assert!(one_in(0));
        assert!(one_in(-7));
        if one_in(35) {
            hits += 1;
        }
        i += 1;
    }
    assert!(50 < hits && hits < 160);
}

#[test]
fn a_draw_stays_below_its_bound_and_moves() {
    let mut seen = [false; 5];
    let mut i: i32 = 0;
    while i < 400 {
        let r: i32 = draw(5);
        assert!(0 <= r && r < 5);
        seen[r as usize] = true;
        i += 1;
    }
    assert!(seen.iter().all(|s| *s));
    assert_eq!(draw(1), 0);
}

#[test]
fn a_draw_wins_below_the_odds() {
    assert!(wins(0, 300));
    assert!(wins(299, 300));
    assert!(!wins(300, 300));
    assert!(!wins(999, 300));
    assert!(!wins(0, 0));
    assert!(wins(999, 1000));
}

#[test]
fn a_draw_comes_up_at_zero() {
    assert!(comes_up(0, 35));
    assert!(!comes_up(1, 35));
    assert!(!comes_up(34, 35));
    assert!(comes_up(5, 0));
    assert!(comes_up(5, -1));
}

#[test]
fn a_destroyed_enemy_leaves_a_power_up_three_times_in_ten() {
    let mut drops: i32 = 0;
    let mut drawn: i32 = 0;
    while drawn < 1000 {
        if drops_power_up(drawn) {
            drops += 1;
        }
        drawn += 1;
    }
    assert_eq!(drops, 300);
    assert!(drops_power_up(299));
    assert!(!drops_power_up(300));
}
