use void_survivor::cooldown::Cooldown;

#[test]
fn tick_stops_at_zero() {
    let mut c = Cooldown::full(200_000);
    c.tick(150_000);
    assert_eq!(c.time, 50_000);
    c.tick(150_000);
    assert_eq!(c.time, 0);
    assert!(c.ready());
}

#[test]
fn increase_stops_at_maximum() {
    let mut c = Cooldown::new(5_000_000);
    c.increase(3_000_000);
    assert_eq!(c.time, 3_000_000);
    c.increase(3_000_000);
    assert_eq!(c.time, 5_000_000);
    assert_eq!(c.max, 5_000_000);
}

#[test]
fn reset_winds_up() {
    let mut c = Cooldown::new(2_000_000);
    assert!(c.ready());
    c.reset();
    assert_eq!(c.time, 2_000_000);
    assert!(!c.ready());
}

#[test]
fn set_floors_at_zero() {
    let mut c = Cooldown::new(2_000_000);
    c.set(-5);
    assert_eq!(c.time, 0);
    c.set(700);
    assert_eq!(c.time, 700);
}

#[test]
fn percent_is_in_thousandths() {
    let mut c = Cooldown::full(3_000_000);
    assert_eq!(c.percent(), 1000);
    c.tick(750_000);
    assert_eq!(c.percent(), 750);
    c.tick(3_000_000);
    assert_eq!(c.percent(), 0);
}
