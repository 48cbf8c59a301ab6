use void_survivor::effects::{TrailPoint, EFFECT_TRAIL_LIFE};
use void_survivor::{
    create_explosion_particle, Color, EffectSystem, Event, EventQueue, Particle, Vec2,
};

fn speck(life: i64) -> Particle {
    Particle { pos: Vec2 { x: 0, y: 0 }, vel: Vec2 { x: 100_000, y: -200_000 }, life, color: Color::White, size: 2_000 }
}

#[test]
fn explosion_particle_draws_within_its_ranges() {
    let mut i: i32 = 0;
    while i < 200 {
        let p = create_explosion_particle(Vec2 { x: 5, y: 6 }, Color::Gold);
        assert_eq!(p.pos, Vec2 { x: 5, y: 6 });
        assert_eq!(p.color, Color::Gold);
        assert!(-200_000 <= p.vel.x && p.vel.x < 200_000);
        assert!(-200_000 <= p.vel.y && p.vel.y < 200_000);
        assert!(300_000 <= p.life && p.life < 600_000);
        assert!(2_000 <= p.size && p.size < 5_000);
        i += 1;
    }
}

#[test]
fn explosion_adds_as_many_particles_as_asked() {
    let mut e = EffectSystem::new();
    e.create_explosion(Vec2 { x: 1, y: 2 }, Color::Red, 7);
    assert_eq!(e.particles.len(), 7);
    e.create_explosion(Vec2 { x: 3, y: 4 }, Color::White, 0);
    assert_eq!(e.particles.len(), 7);
    e.create_explosion(Vec2 { x: 3, y: 4 }, Color::White, 2);
    assert_eq!(e.particles.len(), 9);
    assert_eq!(e.particles[6].pos, Vec2 { x: 1, y: 2 });
    assert_eq!(e.particles[6].color, Color::Red);
    assert_eq!(e.particles[8].pos, Vec2 { x: 3, y: 4 });
    assert_eq!(e.particles[8].color, Color::White);
    assert!(e.trail.is_empty());
}

#[test]
fn flashes_fly_along_the_heading() {
    let mut e = EffectSystem::new();
    let dir = Vec2 { x: 0, y: -1000 };
    e.create_missile_launch(Vec2 { x: 10, y: 20 }, dir);
    assert_eq!(e.particles.len(), 5);
    for p in e.particles.iter() {
        assert_eq!(p.pos, Vec2 { x: 10, y: 20 });
        assert_eq!(p.color, Color::Orange);
        assert_eq!(p.life, 300_000);
        assert_eq!(p.size, 2_000);
        assert!(-50_000 <= p.vel.x && p.vel.x < 50_000);
        assert!(-200_000 <= p.vel.y && p.vel.y < -100_000);
    }
    e.clear();
    e.create_laser_flash(Vec2 { x: 10, y: 20 }, dir);
    assert_eq!(e.particles.len(), 10);
    for p in e.particles.iter() {
        assert_eq!(p.pos, Vec2 { x: 10, y: -29_980 });
        assert_eq!(p.color, Color::Crimson);
        assert_eq!(p.life, 300_000);
        assert_eq!(p.size, 4_000);
        assert!(-100_000 <= p.vel.x && p.vel.x < 100_000);
        assert!(-400_000 <= p.vel.y && p.vel.y < -200_000);
    }
    e.clear();
    e.create_muzzle_flash(Vec2 { x: 10, y: 20 }, dir);
    assert_eq!(e.particles.len(), 2);
    e.clear();
    e.create_text_effect(Vec2 { x: 10, y: 20 }, Color::Green);
    assert_eq!(e.particles.len(), 20);
    for p in e.particles.iter() {
        assert_eq!(p.color, Color::Green);
        assert_eq!(p.life, 1_000_000);
        assert!(-50_000 <= p.vel.x && p.vel.x < 50_000);
        assert!(-100_000 <= p.vel.y && p.vel.y < -50_000);
    }
}

#[test]
fn reverse_boost_jet_scatters_about_the_heading() {
    let mut e = EffectSystem::new();
    e.create_reverse_boost(Vec2 { x: 100_000, y: 100_000 }, 0);
    assert_eq!(e.particles.len(), 3);
    for p in e.particles.iter() {
        assert_eq!(p.color, Color::Violet);
        assert_eq!(p.life, 400_000);
        assert_eq!(p.size, 3_000);
        // Within half a radian of straight ahead.
        assert!(p.pos.x > 100_000 + 21_000 && p.pos.x <= 100_000 + 25_000);
        assert!(p.pos.y > 100_000 - 13_000 && p.pos.y < 100_000 + 13_000);
        assert!(p.vel.x > 240_000 && p.vel.x < 500_000);
    }
}

#[test]
fn particles_drift_and_die() {
    let mut e = EffectSystem::new();
    e.particles.push(speck(300_000));
    e.particles.push(speck(100_000));
    e.particles.push(speck(100_001));
    e.add_trail_point(Vec2 { x: 7, y: 8 });
    e.update(100_000);
    assert_eq!(e.particles.len(), 2);
    assert_eq!(e.particles[0].pos, Vec2 { x: 10_000, y: -20_000 });
    assert_eq!(e.particles[0].life, 200_000);
    assert_eq!(e.particles[1].life, 1);
    assert_eq!(e.trail, vec![TrailPoint { pos: Vec2 { x: 7, y: 8 }, life: EFFECT_TRAIL_LIFE - 100_000 }]);
    e.update(400_000);
    assert!(e.particles.is_empty());
    assert!(e.trail.is_empty());
}

#[test]
fn events_become_effects_in_order() {
    let mut e = EffectSystem::new();
    let mut q = EventQueue::new();
    q.push(Event::Explosion { pos: Vec2 { x: 1, y: 1 }, color: Color::Orange, count: 3 });
    q.push(Event::GameOver);
    q.push(Event::PowerUpSpawn { pos: Vec2 { x: 2, y: 2 } });
    q.push(Event::LaserFired { pos: Vec2 { x: 3, y: 3 }, dir: Vec2 { x: 1000, y: 0 } });
    e.process_events(&mut q);
    assert!(q.is_empty());
    assert_eq!(e.particles.len(), 3 + 20 + 10);
    assert_eq!(e.particles[0].color, Color::Orange);
    assert_eq!(e.particles[2].pos, Vec2 { x: 1, y: 1 });
    assert_eq!(e.particles[3].color, Color::Gold);
    assert_eq!(e.particles[22].pos, Vec2 { x: 2, y: 2 });
    assert_eq!(e.particles[23].color, Color::Crimson);
    assert_eq!(e.particles[32].pos, Vec2 { x: 30_003, y: 3 });
}

#[test]
fn queue_is_first_in_first_out() {
    let mut q = EventQueue::default();
    assert!(q.is_empty());
    assert_eq!(q.pop(), None);
    q.push(Event::GameOver);
    q.push(Event::PowerUpSpawn { pos: Vec2 { x: 1, y: 2 } });
    assert_eq!(q.len(), 2);
    assert!(!q.is_empty());
    assert_eq!(q.pop(), Some(Event::GameOver));
    assert_eq!(q.pop(), Some(Event::PowerUpSpawn { pos: Vec2 { x: 1, y: 2 } }));
    assert_eq!(q.pop(), None);
    q.push(Event::GameOver);
    q.clear();
    assert_eq!(q.len(), 0);
}
