use void_survivor::units::{
    cosine, isqrt, scaled, sine, travel, wrapped, FULL_TURN, LONGEST_STEP, SECOND, UNIT,
};
use void_survivor::vec2::Vec2;

#[test]
fn scaled_rounds_towards_zero() {
    assert_eq!(scaled(7, 3, 2), 10);
    assert_eq!(scaled(-7, 3, 2), -10);
    assert_eq!(scaled(1000, 97, 100), 970);
    assert_eq!(scaled(-1, 1, 2), 0);
}

#[test]
fn travel_is_speed_times_time() {
    assert_eq!(travel(600_000, 16_667), 10_000);
    assert_eq!(travel(-600_000, 16_667), -10_000);
    assert_eq!(travel(20_000, 500_000), 10_000);
    assert_eq!(travel(123_456, SECOND), 123_456);
    assert_eq!(travel(123_456, 0), 0);
}

#[test]
fn wrapped_is_never_negative() {
    assert_eq!(wrapped(5, 3), 2);
    assert_eq!(wrapped(-1, 3), 2);
    assert_eq!(wrapped(-3, 3), 0);
    assert_eq!(wrapped(-4, 3), 2);
    assert_eq!(wrapped(0, 3), 0);
    assert_eq!(wrapped(i64::MIN, 7), 6);
    assert_eq!(wrapped(-33_334, FULL_TURN), 6_249_852);
}

#[test]
fn isqrt_rounds_down() {
    assert_eq!(isqrt(0), 0);
    assert_eq!(isqrt(1), 1);
    assert_eq!(isqrt(24), 4);
    assert_eq!(isqrt(25), 5);
    assert_eq!(isqrt(26), 5);
    assert_eq!(isqrt(u64::MAX), 4_294_967_295);
}

#[test]
fn sine_and_cosine_at_the_quarter_turns() {
    assert_eq!(sine(0), 0);
    assert_eq!(cosine(0), 999);
    assert_eq!(sine(1_570_796), 999);
    assert_eq!(cosine(1_570_796), 0);
    assert_eq!(sine(3_141_593), 0);
    assert_eq!(cosine(3_141_593), -999);
    assert_eq!(sine(4_712_389), -999);
    assert_eq!(sine(785_398), 705);
    assert_eq!(cosine(785_398), 705);
}

#[test]
fn sine_stays_within_one() {
    let mut a: i64 = -7_000_000;
    while a < 7_000_000 {
        let s: i64 = sine(a);
        assert!(-1000 <= s && s <= 1000);
        a += 9_973;
    }
}

#[test]
fn vector_sum_difference_and_dot() {
    let a = Vec2::new(3, 4);
    let b = Vec2::new(-1, 2);
    assert_eq!(a.plus(b), Vec2 { x: 2, y: 6 });
    assert_eq!(a.minus(b), Vec2 { x: 4, y: 2 });
    assert_eq!(a.dot(b), 5);
    assert_eq!(Vec2::zero(), Vec2 { x: 0, y: 0 });
}

#[test]
fn distance_test_is_strict() {
    let a = Vec2::new(0, 0);
    let b = Vec2::new(3000, 4000);
    assert_eq!(a.distance_squared(b), 25_000_000);
    assert!(a.is_closer_than(b, 5001));
    assert!(!a.is_closer_than(b, 5000));
    assert!(!a.is_closer_than(a, 0));
    assert!(!a.is_closer_than(a, -5));
    assert!(a.is_closer_than(a, 1));
}

#[test]
fn length_rounds_up() {
    assert_eq!(Vec2::new(3, 4).length(), 5);
    assert_eq!(Vec2::new(1, 1).length(), 2);
    assert_eq!(Vec2::new(0, 0).length(), 0);
    assert_eq!(Vec2::new(-3_000_000_000, 0).length(), 3_000_000_000);
}

#[test]
fn with_length_keeps_direction_and_never_overshoots() {
    assert_eq!(Vec2::new(3, 4).with_length(1000), Vec2 { x: 600, y: 800 });
    assert_eq!(Vec2::new(-300, 400).with_length(400_000), Vec2 { x: -240_000, y: 320_000 });
    assert_eq!(Vec2::new(1, 1).with_length(1000), Vec2 { x: 500, y: 500 });
    assert_eq!(Vec2::new(0, 0).with_length(1000), Vec2 { x: 0, y: 0 });
    assert_eq!(Vec2::new(0, -7).normalized(), Vec2 { x: 0, y: -UNIT });
    let mut x: i64 = -50;
    while x <= 50 {
        let mut y: i64 = -50;
        while y <= 50 {
            let v = Vec2::new(x * 37, y * 91).with_length(400_000);
            assert!(v.x * v.x + v.y * v.y <= 400_000i64 * 400_000);
            y += 7;
        }
        x += 7;
    }
}

#[test]
fn lerp_goes_part_of_the_way() {
    let a = Vec2::new(0, 100);
    let b = Vec2::new(1000, -100);
    assert_eq!(a.lerp(b, 1, 10), Vec2 { x: 100, y: 80 });
    assert_eq!(a.lerp(b, 0, 10), a);
    assert_eq!(a.lerp(b, 10, 10), b);
}

#[test]
fn moved_and_stretch() {
    let p = Vec2::new(10, 20);
    let v = Vec2::new(600_000, -300_000);
    assert_eq!(p.moved(v, 500_000), Vec2 { x: 300_010, y: -149_980 });
    assert_eq!(Vec2::new(1000, 0).stretch(600_000, UNIT), Vec2 { x: 600_000, y: 0 });
    assert_eq!(Vec2::new(706, -706).stretch(30_000, UNIT), Vec2 { x: 21_180, y: -21_180 });
}

#[test]
fn travel_takes_any_time_up_to_the_limit() {
    assert_eq!(travel(300_000, 2_500_000), 750_000);
    assert_eq!(travel(-300_000, 1_000_000_000), -300_000_000);
    assert_eq!(travel(1, 999_999), 0);
    assert_eq!(LONGEST_STEP, 20 * SECOND);
}

#[test]
fn cross_product_tells_left_from_right() {
    let ahead = Vec2 { x: 400_000, y: 0 };
    assert_eq!(ahead.cross(Vec2 { x: 7, y: 3 }), 1_200_000);
    assert_eq!(ahead.cross(Vec2 { x: 7, y: -3 }), -1_200_000);
    assert_eq!(ahead.cross(Vec2 { x: -9, y: 0 }), 0);
    assert_eq!(Vec2 { x: 2, y: 5 }.cross(Vec2 { x: 3, y: 4 }), -7);
}

#[test]
fn nearer_compares_the_angles_to_a_direction() {
    let w = Vec2 { x: -300_000, y: 0 };
    let ahead = Vec2 { x: 400_000, y: 0 };
    let abeam = Vec2 { x: 0, y: 400_000 };
    let behind = Vec2 { x: -5, y: 0 };
    let nearly = Vec2 { x: -400_000, y: 1 };
    assert!(abeam.is_nearer(ahead, w));
    assert!(!ahead.is_nearer(abeam, w));
    assert!(behind.is_nearer(abeam, w));
    assert!(behind.is_nearer(ahead, w));
    assert!(behind.is_nearer(nearly, w));
    assert!(nearly.is_nearer(abeam, w));
    // Length does not count, and nothing is nearer than itself.
    assert!(!behind.is_nearer(Vec2 { x: -400_000, y: 0 }, w));
    assert!(!abeam.is_nearer(abeam, w));
    assert!(!abeam.is_nearer(Vec2 { x: 0, y: -3 }, w));
    // The vector without length points nowhere.
    assert!(!Vec2 { x: 0, y: 0 }.is_nearer(ahead, w));
}
