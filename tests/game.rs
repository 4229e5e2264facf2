use asteroids_core::asteroid::{Asteroid, AsteroidSize};
use asteroids_core::bullet::{Bullet, ShooterType};
use asteroids_core::game::{polulate_asteroids, spawn_pair, Game, SpawnDraw};
use asteroids_core::geometry::Vec2;
use asteroids_core::lifecycle::IsActive;
use asteroids_core::lives::Lives;
use asteroids_core::rotation::TrigTable;
use asteroids_core::ship::{ControlIntents, Ship};
use asteroids_core::ufo::Ufo;

fn table() -> TrigTable {
    let cos: Vec<i64> = (0..6283).map(|k| ((k as f64 / 1000.0).cos() * 1e6).round() as i64).collect();
    let sin: Vec<i64> = (0..6283).map(|k| ((k as f64 / 1000.0).sin() * 1e6).round() as i64).collect();
    TrigTable::new(cos, sin).unwrap()
}

fn idle() -> ControlIntents {
    ControlIntents { turn_left: false, turn_right: false, thrust: false, fire: false }
}

fn far_ship(t: &TrigTable) -> Ship {
    let mut s = Ship::new(700_000, 550_000, 0);
    s.update(0, t);
    s
}

fn far_ufo(t: &TrigTable) -> Ufo {
    let mut u = Ufo::new(700_000, 50_000, 0);
    u.advance(0, t, 0);
    u
}

#[test]
fn player_bullet_splits_large_asteroid() {
    let t = table();
    let (x, y) = (200_000, 300_000);
    let mut a = Asteroid::new(x, y, 0, 0, 0, true, AsteroidSize::LARGE, &t);
    a.update(0, &t);
    let mut b = Bullet::new(x, y, 0, ShooterType::PLAYER, &t);
    b.update(0, &t);
    let mut g = Game::from_parts(far_ship(&t), far_ufo(&t), vec![b], vec![a], Lives::new(50_000, 25_000), t);
    assert!(g.resolve_collisions());
    assert!(!g.get_bullets()[0].is_active());
    let rocks = g.get_asteroids();
    assert!(!rocks[0].is_active());
    assert_eq!(rocks.len(), 3);
    for r in &rocks[1..] {
        assert!(r.is_active());
        assert_eq!(r.get_asteroid_type(), AsteroidSize::MEDIUM);
        assert_eq!(r.get_position(), Vec2::new(x, y));
    }
    assert_eq!(g.get_explosions().len(), 1);
    assert_eq!(g.get_lives().get_amount(), 3);
}

#[test]
fn medium_gives_two_small_and_small_gives_none() {
    let t = table();
    let mut m = Asteroid::new(300_000, 300_000, 0, 0, 0, true, AsteroidSize::MEDIUM, &t);
    m.update(0, &t);
    let mut s = Asteroid::new(600_000, 100_000, 0, 0, 0, true, AsteroidSize::SMALL, &t);
    s.update(0, &t);
    let mut b1 = Bullet::new(300_000, 300_000, 0, ShooterType::PLAYER, &t);
    b1.update(0, &t);
    let mut b2 = Bullet::new(600_000, 100_000, 0, ShooterType::PLAYER, &t);
    b2.update(0, &t);
    let mut g = Game::from_parts(far_ship(&t), far_ufo(&t), vec![b1, b2], vec![m, s], Lives::new(50_000, 25_000), t);
    g.resolve_collisions();
    let rocks = g.get_asteroids();
    assert_eq!(rocks.len(), 4);
    assert!(!rocks[0].is_active() && !rocks[1].is_active());
    assert_eq!(rocks[2].get_asteroid_type(), AsteroidSize::SMALL);
    assert_eq!(rocks[3].get_asteroid_type(), AsteroidSize::SMALL);
    assert_eq!(rocks[3].get_position(), Vec2::new(300_000, 300_000));
}

#[test]
fn enemy_bullets_leave_asteroids_alone() {
    let t = table();
    let mut a = Asteroid::new(200_000, 300_000, 0, 0, 0, true, AsteroidSize::LARGE, &t);
    a.update(0, &t);
    let mut b = Bullet::new(200_000, 300_000, 0, ShooterType::ALIEN, &t);
    b.update(0, &t);
    let mut g = Game::from_parts(far_ship(&t), far_ufo(&t), vec![b], vec![a], Lives::new(50_000, 25_000), t);
    assert!(!g.resolve_collisions());
    assert!(g.get_bullets()[0].is_active());
    assert!(g.get_asteroids()[0].is_active());
    assert_eq!(g.get_asteroids().len(), 1);
}

#[test]
fn ramming_an_asteroid_costs_a_life() {
    let t = table();
    let mut ship = Ship::new(400_000, 300_000, 0);
    ship.update(0, &t);
    let mut a = Asteroid::new(400_000, 300_000, 0, 0, 0, true, AsteroidSize::SMALL, &t);
    a.update(0, &t);
    let mut g = Game::from_parts(ship, far_ufo(&t), vec![], vec![a], Lives::new(50_000, 25_000), t);
    assert!(g.resolve_collisions());
    assert!(!g.get_ship().is_active());
    assert!(!g.get_asteroids()[0].is_active());
    assert_eq!(g.get_asteroids().len(), 1);
    assert_eq!(g.get_explosions().len(), 2);
    assert_eq!(g.get_lives().get_amount(), 2);
}

#[test]
fn player_bullet_downs_the_ufo() {
    let t = table();
    let mut u = Ufo::new(300_000, 200_000, 0);
    u.advance(0, &t, 0);
    let mut b = Bullet::new(300_000, 200_000, 0, ShooterType::PLAYER, &t);
    b.update(0, &t);
    let mut g = Game::from_parts(far_ship(&t), u, vec![b], vec![], Lives::new(50_000, 25_000), t);
    assert!(g.resolve_collisions());
    assert!(!g.get_ufo().is_active());
    assert!(!g.get_bullets()[0].is_active());
    assert_eq!(g.get_lives().get_amount(), 3);
}

#[test]
fn three_hits_exhaust_the_lives() {
    let t = table();
    let mut ship = Ship::new(400_000, 300_000, 0);
    ship.update(0, &t);
    let bullets: Vec<Bullet> = (0..3)
        .map(|_| {
            let mut b = Bullet::new(400_000, 300_000, 0, ShooterType::ALIEN, &t);
            b.update(0, &t);
            b
        })
        .collect();
    let mut g = Game::from_parts(ship, far_ufo(&t), bullets, vec![], Lives::new(50_000, 25_000), t);
    assert_eq!(g.get_lives().get_amount(), 3);
    for expected in [2usize, 1, 0] {
        g.revive_ship();
        assert!(g.get_ship().is_active());
        g.tick(0, idle());
        assert_eq!(g.get_lives().get_amount(), expected);
        assert!(!g.get_ship().is_active());
    }
    g.revive_ship();
    assert!(!g.get_ship().is_active());
    g.tick(16, idle());
    assert!(!g.get_ship().is_active());
    assert_eq!(g.get_lives().get_amount(), 0);
}

#[test]
fn spawn_pair_uses_the_draws() {
    let t = table();
    let mut rocks: Vec<Asteroid> = Vec::new();
    let draws = vec![
        SpawnDraw { heading_deg: 90, acc: 12_000, rotate_right: true },
        SpawnDraw { heading_deg: 180, acc: 10_000, rotate_right: false },
    ];
    spawn_pair(300_000, 20_000, AsteroidSize::SMALL, &draws, &mut rocks, &t);
    assert_eq!(rocks.len(), 2);
    assert_eq!(rocks[0].get_position(), Vec2::new(300_000, 20_000));
    rocks[1].update(1000, &t);
    // 10 units/s toward -x, times the drift factor 10
    let p = rocks[1].get_position();
    assert!((p.x - (300_000 - 100_000)).abs() <= 100, "{:?}", p);
    polulate_asteroids(5_000, 5_000, AsteroidSize::MEDIUM, &mut rocks, &t);
    assert_eq!(rocks.len(), 4);
    assert_eq!(rocks[3].get_asteroid_type(), AsteroidSize::MEDIUM);
}

#[test]
fn new_game_and_ticks() {
    let t = table();
    let mut g = Game::new(t);
    assert_eq!(g.get_asteroids().len(), 3);
    assert_eq!(g.get_lives().get_amount(), 3);
    let fire = ControlIntents { turn_left: false, turn_right: false, thrust: false, fire: true };
    let ev = g.tick(600, fire);
    assert!(ev.fired);
    assert!(g.get_bullets().iter().any(|b| b.get_shooter_type() == ShooterType::PLAYER));
    let ev2 = g.tick(100, fire);
    assert!(!ev2.fired);
    for _ in 0..50 {
        g.tick(33, idle());
        assert!(g.get_bullets().iter().all(|b| b.is_active()));
        assert!(g.get_asteroids().iter().all(|a| a.is_active()));
    }
}

#[test]
fn bursts_sit_at_the_bullet_and_at_the_ramming_pair() {
    let t = table();
    let (x, y) = (200_000, 300_000);
    let mut a = Asteroid::new(x, y, 0, 0, 0, true, AsteroidSize::SMALL, &t);
    a.update(0, &t);
    let mut b = Bullet::new(x + 4_000, y, 0, ShooterType::PLAYER, &t);
    b.update(0, &t);
    let mut g = Game::from_parts(far_ship(&t), far_ufo(&t), vec![b], vec![a], Lives::new(50_000, 25_000), t);
    g.resolve_collisions();
    assert_eq!(g.get_asteroids().len(), 1);
    assert_eq!(g.get_explosions().len(), 1);
    // a tick of zero length lays out the particles where they start
    g.tick(0, idle());
    let e = &g.get_explosions()[0];
    for p in e.get_particles() {
        for q in p.get_tp() {
            assert!((q.x - (x + 4_000)).abs() <= 6_000 && (q.y - y).abs() <= 6_000, "{:?}", q);
        }
    }
}

#[test]
fn ramming_wins_over_a_later_shot() {
    let t = table();
    let mut ship = Ship::new(400_000, 300_000, 0);
    ship.update(0, &t);
    let mut a = Asteroid::new(400_000, 300_000, 0, 0, 0, true, AsteroidSize::LARGE, &t);
    a.update(0, &t);
    let mut b = Bullet::new(400_000, 300_000, 0, ShooterType::PLAYER, &t);
    b.update(0, &t);
    let mut g = Game::from_parts(ship, far_ufo(&t), vec![b], vec![a], Lives::new(50_000, 25_000), t);
    g.resolve_collisions();
    assert!(!g.get_ship().is_active());
    assert!(!g.get_asteroids()[0].is_active());
    // the asteroid was gone before the bullet's turn, so the bullet flies on
    assert!(g.get_bullets()[0].is_active());
    assert_eq!(g.get_explosions().len(), 2);
    assert_eq!(g.get_asteroids().len(), 3);
    assert_eq!(g.get_lives().get_amount(), 2);
}

#[test]
fn bullet_spent_on_the_ufo_spares_the_asteroid() {
    let t = table();
    let mut u = Ufo::new(300_000, 200_000, 0);
    u.advance(0, &t, 0);
    let mut a = Asteroid::new(300_000, 200_000, 0, 0, 0, true, AsteroidSize::MEDIUM, &t);
    a.update(0, &t);
    let mut b = Bullet::new(300_000, 200_000, 0, ShooterType::PLAYER, &t);
    b.update(0, &t);
    let mut g = Game::from_parts(far_ship(&t), u, vec![b], vec![a], Lives::new(50_000, 25_000), t);
    g.resolve_collisions();
    assert!(!g.get_ufo().is_active());
    assert!(g.get_asteroids()[0].is_active());
    assert_eq!(g.get_asteroids().len(), 1);
    assert_eq!(g.get_explosions().len(), 1);
}

#[test]
fn cull_after_a_split_in_one_tick() {
    let t = table();
    let mut a = Asteroid::new(200_000, 300_000, 0, 0, 0, true, AsteroidSize::LARGE, &t);
    a.update(0, &t);
    let mut keep = Asteroid::new(600_000, 100_000, 0, 0, 0, true, AsteroidSize::SMALL, &t);
    keep.update(0, &t);
    let mut b = Bullet::new(200_000, 300_000, 0, ShooterType::PLAYER, &t);
    b.update(0, &t);
    let mut g = Game::from_parts(far_ship(&t), far_ufo(&t), vec![b], vec![a, keep], Lives::new(50_000, 25_000), t);
    let ev = g.tick(0, idle());
    assert!(ev.exploded);
    let rocks = g.get_asteroids();
    assert_eq!(rocks.len(), 3);
    assert_eq!(rocks[0].get_asteroid_type(), AsteroidSize::SMALL);
    assert_eq!(rocks[1].get_asteroid_type(), AsteroidSize::MEDIUM);
    assert_eq!(rocks[2].get_asteroid_type(), AsteroidSize::MEDIUM);
    assert!(g.get_bullets().is_empty());
}

#[test]
fn new_game_layout() {
    let g = Game::new(table());
    assert_eq!(g.get_ship().get_position(), Vec2::new(400_000, 300_000));
    assert_eq!(g.get_ship().get_angle(), 0);
    assert_eq!(g.get_ufo().get_position(), Vec2::new(50_000, 50_000));
    let ps: Vec<Vec2> = g.get_asteroids().iter().map(|a| a.get_position()).collect();
    assert_eq!(ps, vec![Vec2::new(50_000, 350_000), Vec2::new(150_000, 150_000), Vec2::new(10_000, 10_000)]);
    assert!(g.get_asteroids().iter().all(|a| a.get_asteroid_type() == AsteroidSize::LARGE));
    assert!(g.get_lives().get_markers().iter().all(|m| m.is_active()));
}
