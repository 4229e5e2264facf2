use asteroids_core::boxarea::BoxArea;
use asteroids_core::boxshape::BoxShape;
use asteroids_core::collision::{aabb, sat};
use asteroids_core::geometry::Vec2;
use asteroids_core::rotation::{transform_points, TrigTable};
use asteroids_core::ship::Ship;

fn table() -> TrigTable {
    let cos: Vec<i64> = (0..6283).map(|k| ((k as f64 / 1000.0).cos() * 1e6).round() as i64).collect();
    let sin: Vec<i64> = (0..6283).map(|k| ((k as f64 / 1000.0).sin() * 1e6).round() as i64).collect();
    TrigTable::new(cos, sin).unwrap()
}

fn square(x: i64, y: i64, s: i64) -> Vec<Vec2> {
    vec![
        Vec2::new(x + s, y),
        Vec2::new(x + s, y + s),
        Vec2::new(x, y + s),
        Vec2::new(x, y),
        Vec2::new(x + s, y),
    ]
}

fn regular(n: usize, radius: f64, cx: i64, cy: i64) -> Vec<Vec2> {
    let mut v: Vec<Vec2> = (0..n)
        .map(|k| {
            let a = std::f64::consts::PI * 2.0 * (k as f64) / (n as f64);
            Vec2::new(cx + (a.cos() * radius) as i64, cy + (a.sin() * radius) as i64)
        })
        .collect();
    v.push(v[0]);
    v
}

#[test]
fn aabb_is_symmetric() {
    let a = BoxArea::new(0, 0, 10, 10);
    let b = BoxArea::new(5, 5, 10, 10);
    let c = BoxArea::new(50, 0, 10, 10);
    assert_eq!(aabb(&a, &b), aabb(&b, &a));
    assert_eq!(aabb(&a, &c), aabb(&c, &a));
    assert!(aabb(&a, &b));
    assert!(!aabb(&a, &c));
}

#[test]
fn aabb_reflexive_and_touching_edges() {
    let a = BoxArea::new(0, 0, 10, 10);
    assert!(aabb(&a, &a));
    let right = BoxArea::new(10, 0, 10, 10);
    assert!(aabb(&a, &right));
    let corner = BoxArea::new(10, 10, 5, 5);
    assert!(aabb(&a, &corner));
    let apart = BoxArea::new(11, 0, 10, 10);
    assert!(!aabb(&a, &apart));
}

#[test]
fn sat_is_symmetric() {
    let p = square(0, 0, 10);
    let q = regular(6, 8.0, 12, 5);
    let r = regular(6, 8.0, 40, 40);
    assert_eq!(sat(&p, &q), sat(&q, &p));
    assert_eq!(sat(&p, &r), sat(&r, &p));
    assert!(sat(&p, &q));
    assert!(!sat(&p, &r));
}

#[test]
fn sat_agrees_with_aabb_on_squares() {
    let cases = [
        (0, 0, 10, 5, 5, 10),
        (0, 0, 10, 10, 0, 10),
        (0, 0, 10, 11, 0, 10),
        (0, 0, 10, 0, 11, 3),
        (0, 0, 10, -3, -3, 3),
        (0, 0, 10, -4, -4, 3),
        (100, 100, 20, 90, 115, 8),
    ];
    for (x1, y1, s1, x2, y2, s2) in cases {
        let b1 = BoxArea::new(x1, y1, s1, s1);
        let b2 = BoxArea::new(x2, y2, s2, s2);
        assert_eq!(sat(&square(x1, y1, s1), &square(x2, y2, s2)), aabb(&b1, &b2));
    }
}

#[test]
fn regular_polygons_far_apart_or_superposed() {
    let p = regular(8, 20_000.0, 0, 0);
    let far = regular(8, 20_000.0, 40_001, 0);
    let far_diag = regular(8, 20_000.0, 30_000, 30_000);
    assert!(!sat(&p, &far));
    assert!(!sat(&p, &far_diag));
    assert!(sat(&p, &p.clone()));
}

#[test]
fn full_turn_keeps_outcome() {
    let t = table();
    let local = vec![
        Vec2::new(10_000, 0),
        Vec2::new(-10_000, -7_000),
        Vec2::new(-10_000, 7_000),
        Vec2::new(10_000, 0),
    ];
    let probe = square(5_000, -2_000, 4_000);
    let a = asteroids_core::rotation::normalize_angle(700);
    let b = asteroids_core::rotation::normalize_angle(700 + 6283);
    let ra = transform_points(&local, &t, a, Vec2::new(0, 0));
    let rb = transform_points(&local, &t, b, Vec2::new(0, 0));
    assert_eq!(ra, rb);
    assert_eq!(sat(&ra, &probe), sat(&rb, &probe));
}

#[test]
fn broad_phase_hit_narrow_phase_miss() {
    let t = table();
    let mut ship = Ship::new(400_000, 300_000, 0);
    ship.update(0, &t);
    let asteroid_box = BoxArea::new(365_000, 265_000, 70_000, 70_000);
    assert!(aabb(ship.get_box_area(), &asteroid_box));
    let shrunk = vec![Vec2::new(430_000, 330_000)];
    assert!(!sat(ship.get_tp(), &shrunk));
}

#[test]
fn box_shape_collision() {
    let a = BoxShape::new(0, 0, 10, 10);
    let b = BoxShape::new(10, 10, 10, 10);
    let c = BoxShape::new(30, 30, 10, 10);
    assert!(a.check_collision(&b));
    assert!(!a.check_collision(&c));
    let mut d = BoxShape::new(0, 0, 10, 10);
    d.toggle_color(true);
    assert!(d.is_highlighted());
    d.set_position(Vec2::new(100, 100));
    d.update(16);
    assert_eq!(d.get_position(), Vec2::new(95, 95));
    assert!(d.is_drawn());
    d.toggle_debug();
    assert!(!d.is_drawn());
}
