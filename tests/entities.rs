use asteroids_core::asteroid::{Asteroid, AsteroidSize};
use asteroids_core::boxarea::BoxArea;
use asteroids_core::bullet::{Bullet, ShooterType};
use asteroids_core::explosion::{BurstDraw, Explosion};
use asteroids_core::geometry::Vec2;
use asteroids_core::lifecycle::{filter_out_inactive, IsActive};
use asteroids_core::lives::Lives;
use asteroids_core::particle::Particle;
use asteroids_core::rotation::TrigTable;
use asteroids_core::ship::{ControlIntents, Ship};
use asteroids_core::ufo::Ufo;

fn table() -> TrigTable {
    let cos: Vec<i64> = (0..6283).map(|k| ((k as f64 / 1000.0).cos() * 1e6).round() as i64).collect();
    let sin: Vec<i64> = (0..6283).map(|k| ((k as f64 / 1000.0).sin() * 1e6).round() as i64).collect();
    TrigTable::new(cos, sin).unwrap()
}

#[test]
fn asteroid_drifts_spins_and_wraps() {
    let t = table();
    let mut a = Asteroid::new(400_000, 300_000, 0, 10_000, 3000, true, AsteroidSize::LARGE, &t);
    assert!(a.is_active());
    a.update(1000, &t);
    // velocity 10 units/s along x, times the drift factor 10, for one second
    assert_eq!(a.get_position(), Vec2::new(500_000, 300_000));
    assert_eq!(a.get_box_area().get_position(), Vec2::new(440_000, 240_000));
    assert_eq!(a.get_box_area().get_size(), Vec2::new(120_000, 120_000));
    assert_eq!(a.get_tp().len(), 9);
    let mut edge = Asteroid::new(849_000, 10_000, 0, 10_000, 3000, false, AsteroidSize::SMALL, &t);
    edge.update(100, &t);
    assert_eq!(edge.get_position(), Vec2::new(-50_000, 10_000));
    assert_eq!(edge.get_asteroid_type(), AsteroidSize::SMALL);
}

#[test]
fn killing_is_idempotent() {
    let t = table();
    let mut a = Asteroid::new(0, 0, 0, 0, 0, true, AsteroidSize::MEDIUM, &t);
    a.kill();
    assert!(!a.is_active());
    a.kill();
    assert!(!a.is_active());
    let before = a.get_position();
    a.update(500, &t);
    assert_eq!(a.get_position(), before);
}

#[test]
fn bullet_expires_after_its_lifetime() {
    let t = table();
    let mut b = Bullet::new(100_000, 100_000, 0, ShooterType::PLAYER, &t);
    b.update(1000, &t);
    assert!(b.is_active());
    assert_eq!(b.get_position(), Vec2::new(500_000, 100_000));
    b.update(500, &t);
    assert!(b.is_active());
    b.update(1, &t);
    assert!(!b.is_active());
    assert_eq!(b.get_shooter_type(), ShooterType::PLAYER);
}

#[test]
fn ship_turns_thrusts_and_slows() {
    let t = table();
    let mut s = Ship::new(400_000, 300_000, 0);
    s.inputs(ControlIntents { turn_left: true, turn_right: false, thrust: false, fire: false });
    s.update(100, &t);
    assert_eq!(s.get_angle(), 500);
    let mut s2 = Ship::new(400_000, 300_000, 0);
    s2.inputs(ControlIntents { turn_left: false, turn_right: true, thrust: false, fire: false });
    s2.update(100, &t);
    assert_eq!(s2.get_angle(), 6283 - 500);
    let mut s3 = Ship::new(400_000, 300_000, 0);
    s3.inputs(ControlIntents { turn_left: false, turn_right: false, thrust: true, fire: true });
    assert!(s3.is_fireing());
    s3.update(1000, &t);
    // thrust 100 units/s for a second, less friction 20 units/s
    assert_eq!(s3.get_position(), Vec2::new(480_000, 300_000));
    // a standing ship does not move and stays well defined
    let mut s4 = Ship::new(400_000, 300_000, 0);
    s4.update(1000, &t);
    assert_eq!(s4.get_position(), Vec2::new(400_000, 300_000));
}

#[test]
fn ship_speed_is_capped() {
    let t = table();
    let mut s = Ship::new(400_000, 300_000, 0);
    s.inputs(ControlIntents { turn_left: false, turn_right: false, thrust: true, fire: false });
    for _ in 0..10 {
        s.update(1000, &t);
    }
    let before = s.get_position();
    s.update(1000, &t);
    let after = s.get_position();
    let dx = (after.x - before.x).abs();
    assert!(dx <= 250_000 || dx > 700_000, "moved {}", dx);
}

#[test]
fn ufo_shoots_on_its_clock() {
    let t = table();
    let mut u = Ufo::new(100_000, 100_000, 100_000);
    u.advance(1000, &t, 0);
    assert!(!u.is_shooting());
    assert_eq!(u.get_position(), Vec2::new(200_000, 100_000));
    u.advance(500, &t, 1571);
    assert!(u.is_shooting());
    u.advance(100, &t, 1571);
    assert!(!u.is_shooting());
    u.advance(1000, &t, 1571);
    let p = u.get_position();
    // the course changed to straight down after 2.5 s
    u.advance(1000, &t, 0);
    let q = u.get_position();
    assert!((q.x - p.x).abs() <= 100);
    assert!((q.y - p.y - 100_000).abs() <= 100);
}

#[test]
fn particle_lives_its_lifetime() {
    let t = table();
    let mut p = Particle::new();
    p.init(0, 0, 100_000, 0, 1000, &t);
    p.update(999, &t);
    assert!(!p.is_dead());
    p.update(1, &t);
    assert!(p.is_dead());
}

#[test]
fn explosion_ends_with_its_last_particle() {
    let t = table();
    let draws: Vec<BurstDraw> = (0..8)
        .map(|k| BurstDraw { jitter: 1500, life_ms: if k == 5 { 2000 } else { 1500 }, speed: 150_000 })
        .collect();
    let mut e = Explosion::from_draws(300_000, 300_000, &draws, &t);
    assert_eq!(e.get_particles().len(), 8);
    e.update(1000, &t);
    assert!(e.is_active());
    e.update(500, &t);
    assert!(e.is_active());
    let alive = e.get_particles().iter().filter(|p| !p.is_dead()).count();
    assert_eq!(alive, 1);
    e.update(499, &t);
    assert!(e.is_active());
    e.update(1, &t);
    assert!(!e.is_active());
}

#[test]
fn random_explosion_has_eight_particles() {
    let t = table();
    let e = Explosion::new(100_000, 100_000, &t);
    assert!(e.is_active());
    assert_eq!(e.get_particles().len(), 8);
}

#[test]
fn filter_keeps_active_in_order() {
    let t = table();
    let mut v: Vec<Bullet> = (0..5)
        .map(|k| Bullet::new(k * 1000, 0, 0, ShooterType::PLAYER, &t))
        .collect();
    v[1].kill();
    v[3].kill();
    filter_out_inactive(&mut v);
    let xs: Vec<i64> = v.iter().map(|b| b.get_position().x).collect();
    assert_eq!(xs, vec![0, 2000, 4000]);
    let mut empty: Vec<Bullet> = Vec::new();
    filter_out_inactive(&mut empty);
    assert!(empty.is_empty());
}

#[test]
fn lives_count_down_to_zero() {
    let mut l = Lives::new(50_000, 25_000);
    assert_eq!(l.get_amount(), 3);
    l.remove_life();
    assert_eq!(l.get_amount(), 2);
    assert!(!l.get_markers()[2].is_active());
    assert!(l.get_markers()[1].is_active());
    l.remove_life();
    l.remove_life();
    assert_eq!(l.get_amount(), 0);
    l.remove_life();
    assert_eq!(l.get_amount(), 0);
}

#[test]
fn box_area_recentres() {
    let mut b = BoxArea::new(0, 0, 70_000, 70_000);
    b.set_position(Vec2::new(400_000, 300_000));
    b.update();
    assert_eq!(b.get_position(), Vec2::new(365_000, 265_000));
    assert_eq!(b.get_outline()[0], Vec2::new(435_000, 265_000));
    assert_eq!(b.get_size(), Vec2::new(70_000, 70_000));
    b.kill();
    assert!(!b.is_active());
    b.toggle_active();
    assert!(b.is_active());
    b.toggle_color(true);
    assert!(b.is_highlighted());
}

#[test]
fn bounding_area_follows_the_wrap() {
    let t = table();
    let mut s = Ship::new(820_500, 300_000, 0);
    s.update(0, &t);
    assert_eq!(s.get_position(), Vec2::new(-20_000, 300_000));
    assert_eq!(s.get_box_area().get_position(), Vec2::new(-55_000, 265_000));
    assert_eq!(s.get_box_area().get_size(), Vec2::new(70_000, 70_000));
    let mut a = Asteroid::new(851_000, 300_000, 0, 0, 0, true, AsteroidSize::LARGE, &t);
    a.update(0, &t);
    assert_eq!(a.get_position(), Vec2::new(-50_000, 300_000));
    assert_eq!(a.get_box_area().get_position(), Vec2::new(-110_000, 240_000));
    let mut u = Ufo::new(10_000, 621_000, 0);
    u.advance(0, &t, 0);
    assert_eq!(u.get_position(), Vec2::new(10_000, -20_000));
    assert_eq!(u.get_box_area().get_position(), Vec2::new(-25_000, -55_000));
}

#[test]
fn large_outline_fits_its_box_at_any_heading() {
    let t = table();
    for heading in (0..6283).step_by(97) {
        let mut a = Asteroid::new(400_000, 300_000, heading, 0, 0, true, AsteroidSize::LARGE, &t);
        a.update(0, &t);
        let b = a.get_box_area();
        let (p, z) = (b.get_position(), b.get_size());
        for q in a.get_tp() {
            assert!(p.x <= q.x && q.x <= p.x + z.x && p.y <= q.y && q.y <= p.y + z.y);
        }
    }
}

#[test]
fn ship_heading_is_normalised() {
    let s = Ship::new(0, 0, 6283 + 10);
    assert_eq!(s.get_angle(), 10);
    let b = Bullet::new(0, 0, 0, ShooterType::ALIEN, &table());
    assert_eq!(b.get_box_area().get_size(), Vec2::new(10_000, 10_000));
}

#[test]
fn random_burst_draws_stay_in_range() {
    let t = table();
    for _ in 0..20 {
        let mut e = Explosion::new(100_000, 100_000, &t);
        // every particle lives between 1.5 and 2.5 seconds
        e.update(1499, &t);
        assert!(e.get_particles().iter().all(|p| !p.is_dead()));
        e.update(1001, &t);
        assert!(!e.is_active());
    }
}
