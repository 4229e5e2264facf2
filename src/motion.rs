use vstd::prelude::*;
use crate::geometry::{tdiv, within, Vec2, POS_LIMIT, TAU_MRAD, TRIG_ONE};
use crate::rotation::{normalize_angle, normalized, TrigTable};

verus! {

/// Largest magnitude of a velocity component, in milli-units per second.
pub const SPEED_LIMIT: i64 = 16_777_216;

/// Largest magnitude of a rotation rate, in milliradians per second.
pub const SPIN_LIMIT: i64 = 1_000_000;

/// Minimal physical state shared by every moving entity.
#[derive(Clone, Copy, Debug, PartialEq, Eq, Structural)]
pub struct BaseObject {
    pub position: Vec2,
    pub velocity: Vec2,
    pub acceleration: i64,
    pub angle: i64,
    pub is_active: bool,
}

/// The heading after turning at `rate` milliradians per second for
/// `delta_ms` milliseconds, brought back into `[0, TAU_MRAD)`.
pub open spec fn turned(angle: int, rate: int, delta_ms: int) -> int {
    normalized(angle + tdiv(rate * delta_ms, 1000))
}

pub fn advance_heading(angle: i64, rate: i64, delta_ms: u16) -> (r: i64)
    requires
        0 <= angle < TAU_MRAD,
        -SPIN_LIMIT <= rate <= SPIN_LIMIT,
    ensures
        r == turned(angle as int, rate as int, delta_ms as int),
        0 <= r < TAU_MRAD,
{
    proof {
        lemma_small_product(rate as int, delta_ms as int, SPIN_LIMIT as int);
    }
    normalize_angle(angle + rate * (delta_ms as i64) / 1000)
}

/// `|a * d| <= limit * 65535` for `|a| <= limit` and a 16-bit `d`.
pub proof fn lemma_small_product(a: int, d: int, limit: int)
    requires
        -limit <= a <= limit,
        0 <= d <= 65535,
    ensures
        -limit * 65535 <= a * d <= limit * 65535,
{
    assert(-limit * 65535 <= a * d <= limit * 65535) by (nonlinear_arith)
        requires -limit <= a <= limit, 0 <= d <= 65535;
}

/// `|tdiv(n, d)| <= |n| / d`, for `d > 0`.
pub proof fn lemma_tdiv_bound(n: int, d: int, m: int)
    requires
        d > 0,
        -m <= n <= m,
    ensures
        -(m / d) <= tdiv(n, d) <= m / d,
        -m <= tdiv(n, d) <= m,
{
    if n >= 0 {
        assert(n / d <= m / d) by (nonlinear_arith)
            requires 0 <= n <= m, d > 0;
        assert(n / d <= n) by (nonlinear_arith)
            requires 0 <= n, d > 0;
    } else {
        assert((-n) / d <= m / d) by (nonlinear_arith)
            requires 0 <= -n <= m, d > 0;
        assert((-n) / d <= -n) by (nonlinear_arith)
            requires 0 <= -n, d > 0;
    }
}

/// `speed` along the table heading `angle`, each component rounded toward zero.
pub open spec fn heading_velocity(trig: TrigTable, angle: int, speed: int) -> Vec2 {
    Vec2 {
        x: tdiv(trig.cos_at(angle) * speed, TRIG_ONE as int) as i64,
        y: tdiv(trig.sin_at(angle) * speed, TRIG_ONE as int) as i64,
    }
}

/// The velocity of magnitude `speed` along heading `angle`.
pub fn velocity_along(trig: &TrigTable, angle: i64, speed: i64) -> (r: Vec2)
    requires
        trig.wf(),
        0 <= angle < TAU_MRAD,
        -SPEED_LIMIT <= speed <= SPEED_LIMIT,
    ensures
        r == heading_velocity(*trig, angle as int, speed as int),
        -speed <= r.x <= speed || speed <= r.x <= -speed,
        -speed <= r.y <= speed || speed <= r.y <= -speed,
        within(r, SPEED_LIMIT as int),
{
    let (c, s) = trig.lookup(angle);
    proof {
        lemma_trig_scaled(c as int, speed as int);
        lemma_trig_scaled(s as int, speed as int);
    }
    Vec2::new(c * speed / TRIG_ONE, s * speed / TRIG_ONE)
}

proof fn lemma_trig_scaled(c: int, speed: int)
    requires
        -TRIG_ONE <= c <= TRIG_ONE,
        -SPEED_LIMIT <= speed <= SPEED_LIMIT,
    ensures
        -SPEED_LIMIT * TRIG_ONE <= c * speed <= SPEED_LIMIT * TRIG_ONE,
        -speed <= tdiv(c * speed, TRIG_ONE as int) <= speed || speed <= tdiv(
            c * speed,
            TRIG_ONE as int,
        ) <= -speed,
{
    let t = TRIG_ONE as int;
    let m = if speed >= 0 {
        speed
    } else {
        -speed
    };
    assert(-m * t <= c * speed <= m * t) by (nonlinear_arith)
        requires -t <= c <= t, m == speed || m == -speed, m >= 0, t > 0;
    assert(m * t <= SPEED_LIMIT * t) by (nonlinear_arith)
        requires 0 <= m <= SPEED_LIMIT, t > 0;
    lemma_tdiv_bound(c * speed, t, m * t);
    assert((m * t) / t == m) by (nonlinear_arith)
        requires t > 0;
}

/// The position after moving at `v` milli-units per second for `delta_ms`
/// milliseconds, each component rounded toward zero.
pub open spec fn moved(p: Vec2, v: Vec2, delta_ms: int) -> Vec2 {
    Vec2 {
        x: (p.x + tdiv(v.x * delta_ms, 1000)) as i64,
        y: (p.y + tdiv(v.y * delta_ms, 1000)) as i64,
    }
}

/// Most that one tick can move a coordinate at `SPEED_LIMIT`.
pub const STEP_LIMIT: i64 = 1_099_494_850;

pub fn integrate(p: Vec2, v: Vec2, delta_ms: u16) -> (r: Vec2)
    requires
        within(p, 2 * POS_LIMIT - STEP_LIMIT),
        within(v, SPEED_LIMIT as int),
    ensures
        r == moved(p, v, delta_ms as int),
        within(r, 2 * POS_LIMIT),
        p.x - STEP_LIMIT <= r.x <= p.x + STEP_LIMIT,
        p.y - STEP_LIMIT <= r.y <= p.y + STEP_LIMIT,
{
    proof {
        lemma_step(v.x as int, delta_ms as int);
        lemma_step(v.y as int, delta_ms as int);
    }
    let d = delta_ms as i64;
    Vec2::new(p.x + v.x * d / 1000, p.y + v.y * d / 1000)
}

/// One tick at speed `v` moves at most `|v| * delta_ms / 1000`, below `STEP_LIMIT`.
pub proof fn lemma_step(v: int, d: int)
    requires
        -SPEED_LIMIT <= v <= SPEED_LIMIT,
        0 <= d <= 65535,
    ensures
        -SPEED_LIMIT * 65535 <= v * d <= SPEED_LIMIT * 65535,
        -STEP_LIMIT <= tdiv(v * d, 1000) <= STEP_LIMIT,
{
    lemma_small_product(v, d, SPEED_LIMIT as int);
    lemma_tdiv_bound(v * d, 1000, SPEED_LIMIT * 65535);
}

} // verus!
