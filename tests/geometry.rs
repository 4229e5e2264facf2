use asteroids_core::geometry::{
    d_to_r, isqrt, screen_wrap, v2_direction, v2_distance_to, v2_distance_to_sq, v2_dot,
    v2_length, v2_length_sq, v2_normal, v2_unit, Vec2,
};
use asteroids_core::random::{random_bool, random_number};
use asteroids_core::rotation::{normalize_angle, transform_points, v2_angle_to_point, TrigTable};

fn table() -> TrigTable {
    let cos: Vec<i64> = (0..6283).map(|k| ((k as f64 / 1000.0).cos() * 1e6).round() as i64).collect();
    let sin: Vec<i64> = (0..6283).map(|k| ((k as f64 / 1000.0).sin() * 1e6).round() as i64).collect();
    TrigTable::new(cos, sin).unwrap()
}

#[test]
fn normal_is_minus_dy_dx() {
    let n = v2_normal(&Vec2::new(1, 2), &Vec2::new(4, 7));
    assert_eq!(n, Vec2::new(-5, 3));
}

#[test]
fn dot_and_lengths() {
    assert_eq!(v2_dot(Vec2::new(3, -4), Vec2::new(2, 5)), -14);
    assert_eq!(v2_length_sq(Vec2::new(3, 4)), 25);
    assert_eq!(v2_length(Vec2::new(3, 4)), 5);
    assert_eq!(v2_length(Vec2::new(1, 1)), 1);
    assert_eq!(v2_distance_to_sq(Vec2::new(1, 1), Vec2::new(4, 5)), 25);
    assert_eq!(v2_distance_to(Vec2::new(1, 1), Vec2::new(4, 5)), 5);
}

#[test]
fn integer_square_root_edges() {
    assert_eq!(isqrt(0), 0);
    assert_eq!(isqrt(1), 1);
    assert_eq!(isqrt(15), 3);
    assert_eq!(isqrt(16), 4);
    assert_eq!(isqrt(u128::MAX), u64::MAX);
}

#[test]
fn unit_and_direction() {
    assert_eq!(v2_unit(Vec2::new(3000, 4000)), Vec2::new(600_000, 800_000));
    assert_eq!(v2_unit(Vec2::new(0, -7)), Vec2::new(0, -1_000_000));
    assert_eq!(v2_direction(Vec2::new(10, 0), Vec2::new(0, 0)), Vec2::new(1_000_000, 0));
}

#[test]
fn degrees_to_milliradians() {
    assert_eq!(d_to_r(0), 0);
    assert_eq!(d_to_r(180), 3141);
    assert_eq!(d_to_r(360), 6283);
    assert_eq!(d_to_r(-90), -1570);
}

#[test]
fn angles_wrap_into_one_turn() {
    assert_eq!(normalize_angle(0), 0);
    assert_eq!(normalize_angle(6283), 0);
    assert_eq!(normalize_angle(-1), 6282);
    assert_eq!(normalize_angle(100 + 3 * 6283), 100);
    assert_eq!(normalize_angle(1234 + 6283), normalize_angle(1234));
}

#[test]
fn screen_wrap_moves_to_the_opposite_edge() {
    let w = 800_000;
    let h = 600_000;
    let pad = 50_000;
    assert_eq!(screen_wrap(Vec2::new(850_001, 10), w, h, pad), Vec2::new(-50_000, 10));
    assert_eq!(screen_wrap(Vec2::new(-50_001, 10), w, h, pad), Vec2::new(850_000, 10));
    assert_eq!(screen_wrap(Vec2::new(10, 650_001), w, h, pad), Vec2::new(10, -50_000));
    assert_eq!(screen_wrap(Vec2::new(10, -50_001), w, h, pad), Vec2::new(10, 650_000));
    assert_eq!(screen_wrap(Vec2::new(850_000, -50_000), w, h, pad), Vec2::new(850_000, -50_000));
}

#[test]
fn trig_table_is_checked() {
    assert!(TrigTable::new(vec![0; 10], vec![0; 10]).is_none());
    assert!(TrigTable::new(vec![2_000_000; 6283], vec![0; 6283]).is_none());
    assert!(TrigTable::new(vec![0; 6283], vec![0; 6283]).is_none());
    let mut skewed_cos: Vec<i64> = (0..6283).map(|k| ((k as f64 / 1000.0).cos() * 1e6).round() as i64).collect();
    let sin: Vec<i64> = (0..6283).map(|k| ((k as f64 / 1000.0).sin() * 1e6).round() as i64).collect();
    skewed_cos[100] = 0;
    assert!(TrigTable::new(skewed_cos, sin).is_none());
    let t = table();
    assert_eq!(t.lookup(0), (1_000_000, 0));
}

#[test]
fn rigid_transform_rotates_then_translates() {
    let t = table();
    let local = vec![Vec2::new(10_000, 0), Vec2::new(0, 5_000)];
    let at_zero = transform_points(&local, &t, 0, Vec2::new(100, 200));
    assert_eq!(at_zero, vec![Vec2::new(10_100, 200), Vec2::new(100, 5_200)]);
    // a quarter turn (1571 mrad) maps x onto y
    let quarter = transform_points(&local, &t, 1571, Vec2::new(0, 0));
    assert!((quarter[0].x).abs() <= 10);
    assert!((quarter[0].y - 10_000).abs() <= 10);
}

#[test]
fn aim_points_toward_the_target() {
    let t = table();
    assert_eq!(v2_angle_to_point(Vec2::new(100_000, 0), Vec2::new(0, 0), &t), 0);
    let down = v2_angle_to_point(Vec2::new(0, 100_000), Vec2::new(0, 0), &t);
    assert!((down - 1571).abs() <= 1);
    let left = v2_angle_to_point(Vec2::new(-100_000, 0), Vec2::new(0, 0), &t);
    assert!((left - 3142).abs() <= 1);
}

#[test]
fn random_number_stays_in_range_and_varies() {
    let mut seen_other = false;
    for _ in 0..200 {
        let r = random_number(10, 20);
        assert!(10 <= r && r < 20);
        if r != 10 {
            seen_other = true;
        }
        let s = random_number(20, 10);
        assert!(10 <= s && s < 20);
    }
    assert!(seen_other);
}

#[test]
fn random_bool_gives_both_outcomes() {
    let mut trues = 0;
    for _ in 0..600 {
        if random_bool() {
            trues += 1;
        }
    }
    assert!(trues > 100 && trues < 320);
}
