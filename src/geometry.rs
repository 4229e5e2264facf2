use vstd::prelude::*;

verus! {

/// Milli-units in one screen pixel.
pub const UNIT: i64 = 1000;

/// Width of the playfield, in milli-units.
pub const SCREEN_WIDTH: i64 = 800_000;

/// Height of the playfield, in milli-units.
pub const SCREEN_HEIGHT: i64 = 600_000;

/// Largest magnitude of a coordinate that the collision tests accept.
pub const COORD_LIMIT: i64 = 1_099_511_627_776;

/// Largest magnitude of an entity's position coordinate.
pub const POS_LIMIT: i64 = 68_719_476_736;

/// Largest magnitude of a coordinate at which a bullet or an explosion can
/// appear: entity positions plus the drift of a bullet over its lifetime.
pub const SPAWN_LIMIT: i64 = 69_793_218_560;

/// Division that rounds toward zero, as Rust's `/` does on signed integers.
pub open spec fn tdiv(n: int, d: int) -> int
    recommends
        d > 0,
{
    if n >= 0 {
        n / d
    } else {
        -((-n) / d)
    }
}

/// A point or a vector in the plane, in milli-units.
#[derive(Clone, Copy, Debug, PartialEq, Eq, Structural)]
pub struct Vec2 {
    pub x: i64,
    pub y: i64,
}

/// The point `(x, y)`, for writing outline templates.
pub open spec fn pt(x: int, y: int) -> Vec2 {
    Vec2 { x: x as i64, y: y as i64 }
}

pub open spec fn within(v: Vec2, limit: int) -> bool {
    -limit <= v.x <= limit && -limit <= v.y <= limit
}

/// Every point of the ring lies within the collision field.
pub open spec fn ring_in_field(s: Seq<Vec2>) -> bool {
    forall|i: int| 0 <= i < s.len() ==> within(#[trigger] s[i], COORD_LIMIT as int)
}

/// The (unnormalised) normal `(-dy, dx)` of the edge from `a` to `b`.
pub open spec fn normal_of(a: Vec2, b: Vec2) -> (int, int) {
    (-(b.y - a.y), b.x - a.x)
}

pub open spec fn dot_of(a: (int, int), b: (int, int)) -> int {
    a.0 * b.0 + a.1 * b.1
}

pub open spec fn coords(v: Vec2) -> (int, int) {
    (v.x as int, v.y as int)
}

pub open spec fn length_sq_of(v: Vec2) -> int {
    dot_of(coords(v), coords(v))
}

impl Vec2 {
    pub fn new(x: i64, y: i64) -> (r: Vec2)
        ensures
            r.x == x,
            r.y == y,
    {
        Vec2 { x, y }
    }
}

/// The normal `(-(b.y - a.y), b.x - a.x)` of the edge from `a` to `b`.
pub fn v2_normal(a: &Vec2, b: &Vec2) -> (r: Vec2)
    requires
        within(*a, COORD_LIMIT as int),
        within(*b, COORD_LIMIT as int),
    ensures
        coords(r) == normal_of(*a, *b),
{
    Vec2 { x: -(b.y - a.y), y: b.x - a.x }
}

/// `2 * COORD_LIMIT` squared.
pub const FIELD_SQ: i128 = 0x4_0000_0000_0000_0000_0000;

pub proof fn lemma_product_bound(a: int, b: int, lim: int)
    requires
        lim == 2 * COORD_LIMIT,
        -lim <= a <= lim,
        -lim <= b <= lim,
    ensures
        -FIELD_SQ <= a * b <= FIELD_SQ,
        0 <= a * a <= FIELD_SQ,
{
    assert(lim == 2_199_023_255_552);
    assert(lim * lim == FIELD_SQ) by (nonlinear_arith)
        requires lim == 2_199_023_255_552int;
    assert(-lim * lim <= a * b <= lim * lim) by (nonlinear_arith)
        requires -lim <= a <= lim, -lim <= b <= lim, lim > 0;
    assert(0 <= a * a <= lim * lim) by (nonlinear_arith)
        requires -lim <= a <= lim, lim > 0;
}

/// The dot product of two vectors.
pub fn v2_dot(a: Vec2, b: Vec2) -> (r: i128)
    requires
        within(a, 2 * COORD_LIMIT),
        within(b, 2 * COORD_LIMIT),
    ensures
        r == dot_of(coords(a), coords(b)),
{
    proof {
        lemma_product_bound(a.x as int, b.x as int, 2 * COORD_LIMIT);
        lemma_product_bound(a.y as int, b.y as int, 2 * COORD_LIMIT);
    }
    let x = (a.x as i128) * (b.x as i128);
    let y = (a.y as i128) * (b.y as i128);
    x + y
}

/// The squared length of a vector.
pub fn v2_length_sq(v: Vec2) -> (r: i128)
    requires
        within(v, 2 * COORD_LIMIT),
    ensures
        r == length_sq_of(v),
{
    v2_dot(v, v)
}

/// The difference `a - b`.
pub fn v2_sub(a: Vec2, b: Vec2) -> (r: Vec2)
    requires
        within(a, COORD_LIMIT as int),
        within(b, COORD_LIMIT as int),
    ensures
        r.x == a.x - b.x,
        r.y == a.y - b.y,
{
    Vec2 { x: a.x - b.x, y: a.y - b.y }
}

/// The squared distance between two points.
pub fn v2_distance_to_sq(a: Vec2, b: Vec2) -> (r: i128)
    requires
        within(a, COORD_LIMIT as int),
        within(b, COORD_LIMIT as int),
    ensures
        r == length_sq_of(Vec2 { x: (a.x - b.x) as i64, y: (a.y - b.y) as i64 }),
{
    v2_length_sq(v2_sub(a, b))
}

/// `r` is the integer square root of `n`.
pub open spec fn is_isqrt(n: int, r: int) -> bool {
    0 <= r && r * r <= n < (r + 1) * (r + 1)
}

/// The integer square root of a non-negative `n`.
pub open spec fn sqrt_of(n: int) -> int {
    choose|r: int| is_isqrt(n, r)
}

proof fn lemma_isqrt_unique(n: int, r1: int, r2: int)
    requires
        is_isqrt(n, r1),
        is_isqrt(n, r2),
    ensures
        r1 == r2,
{
    if r1 < r2 {
        assert((r1 + 1) * (r1 + 1) <= r2 * r2) by (nonlinear_arith)
            requires 0 <= r1 + 1 <= r2;
    }
    if r2 < r1 {
        assert((r2 + 1) * (r2 + 1) <= r1 * r1) by (nonlinear_arith)
            requires 0 <= r2 + 1 <= r1;
    }
}

/// Any integer square root is the one that `sqrt_of` names.
pub proof fn lemma_sqrt_of(n: int, r: int)
    requires
        is_isqrt(n, r),
    ensures
        sqrt_of(n) == r,
{
    lemma_isqrt_unique(n, r, sqrt_of(n));
}

/// The integer square root of `n`, by bisection.
pub fn isqrt(n: u128) -> (r: u64)
    ensures
        is_isqrt(n as int, r as int),
{
    let mut lo: u128 = 0;
    let mut hi: u128 = 0x1_0000_0000_0000_0000;
    assert(hi * hi > u128::MAX) by (nonlinear_arith)
        requires hi == 0x1_0000_0000_0000_0000u128;
    while hi - lo > 1
        invariant
            lo < hi <= 0x1_0000_0000_0000_0000,
            lo * lo <= n,
            n < hi * hi,
        decreases hi - lo,
    {
        let mid = lo + (hi - lo) / 2;
        assert(lo < mid < hi);
        assert(mid * mid < hi * hi) by (nonlinear_arith)
            requires 0 <= mid < hi;
        assert(hi * hi <= 0x1_0000_0000_0000_0000u128 as int * 0x1_0000_0000_0000_0000u128 as int)
            by (nonlinear_arith)
            requires 0 <= hi <= 0x1_0000_0000_0000_0000u128;
        if mid * mid <= n {
            lo = mid;
        } else {
            hi = mid;
        }
    }
    lo as u64
}

/// The length of a vector, rounded down to a whole milli-unit.
pub fn v2_length(v: Vec2) -> (r: i64)
    requires
        within(v, 2 * COORD_LIMIT),
    ensures
        r == sqrt_of(length_sq_of(v)),
        is_isqrt(length_sq_of(v), r as int),
{
    let sq = v2_length_sq(v);
    proof {
        assert(v.x * v.x >= 0 && v.y * v.y >= 0) by (nonlinear_arith);
    }
    let r = isqrt(sq as u128);
    proof {
        lemma_product_bound(v.x as int, v.x as int, 2 * COORD_LIMIT);
        lemma_product_bound(v.y as int, v.y as int, 2 * COORD_LIMIT);
        assert(r < 0x8000_0000_0000_0000u64) by (nonlinear_arith)
            requires r * r <= sq, sq <= 2 * FIELD_SQ, r >= 0;
        lemma_sqrt_of(length_sq_of(v), r as int);
    }
    r as i64
}

/// The distance between two points, rounded down to a whole milli-unit.
pub fn v2_distance_to(a: Vec2, b: Vec2) -> (r: i64)
    requires
        within(a, COORD_LIMIT as int),
        within(b, COORD_LIMIT as int),
    ensures
        r == sqrt_of(length_sq_of(Vec2 { x: (a.x - b.x) as i64, y: (a.y - b.y) as i64 })),
{
    v2_length(v2_sub(a, b))
}

/// Fixed-point one: a unit vector's components and the trigonometric
/// values of the rotation table are scaled by this.
pub const TRIG_ONE: i64 = 1_000_000;

/// The vector scaled to length `TRIG_ONE`, each component rounded toward zero.
pub open spec fn unit_of(v: Vec2, len: int) -> Vec2 {
    Vec2 {
        x: tdiv(v.x * TRIG_ONE, len) as i64,
        y: tdiv(v.y * TRIG_ONE, len) as i64,
    }
}

/// `|c| <= len` whenever `c * c` is below `(len + 1)^2`.
pub proof fn lemma_component_le_length(c: int, n: int, len: int)
    requires
        0 <= c * c <= n,
        is_isqrt(n, len),
    ensures
        -len <= c <= len,
{
    assert(c * c < (len + 1) * (len + 1));
    if c > len {
        assert(c * c >= (len + 1) * (len + 1)) by (nonlinear_arith)
            requires c >= len + 1, len >= 0;
    }
    if c < -len {
        assert(c * c >= (len + 1) * (len + 1)) by (nonlinear_arith)
            requires -c >= len + 1, len >= 0;
    }
}

/// `tdiv(c * TRIG_ONE, len)` lies in `[-TRIG_ONE, TRIG_ONE]` when `|c| <= len`.
proof fn lemma_scaled_ratio(c: int, len: int)
    requires
        len > 0,
        -len <= c <= len,
    ensures
        -TRIG_ONE <= tdiv(c * TRIG_ONE, len) <= TRIG_ONE,
{
    let t = TRIG_ONE as int;
    if c >= 0 {
        assert(c * t <= len * t) by (nonlinear_arith)
            requires c <= len, t > 0;
        assert(0 <= (c * t) / len <= t) by (nonlinear_arith)
            requires 0 <= c * t <= len * t, len > 0;
    } else {
        assert(-c * t <= len * t) by (nonlinear_arith)
            requires -c <= len, t > 0;
        assert(0 <= (-(c * t)) / len <= t) by (nonlinear_arith)
            requires 0 <= -(c * t) <= len * t, len > 0;
    }
}

/// The unit vector of `v`, scaled to `TRIG_ONE`. A zero vector has no
/// direction and is excluded.
pub fn v2_unit(v: Vec2) -> (r: Vec2)
    requires
        within(v, 2 * COORD_LIMIT),
        v.x != 0 || v.y != 0,
    ensures
        sqrt_of(length_sq_of(v)) > 0,
        r == unit_of(v, sqrt_of(length_sq_of(v))),
        within(r, TRIG_ONE as int),
{
    let len = v2_length(v);
    proof {
        lemma_product_bound(v.x as int, v.x as int, 2 * COORD_LIMIT);
        lemma_product_bound(v.y as int, v.y as int, 2 * COORD_LIMIT);
        assert(v.x * v.x > 0 || v.y * v.y > 0) by (nonlinear_arith)
            requires v.x != 0 || v.y != 0;
        assert(len > 0) by (nonlinear_arith)
            requires length_sq_of(v) >= 1, length_sq_of(v) < (len + 1) * (len + 1), len >= 0;
        lemma_component_le_length(v.x as int, length_sq_of(v), len as int);
        lemma_component_le_length(v.y as int, length_sq_of(v), len as int);
        lemma_scaled_ratio(v.x as int, len as int);
        lemma_scaled_ratio(v.y as int, len as int);
    }
    let x = (v.x as i128 * TRIG_ONE as i128) / (len as i128);
    let y = (v.y as i128 * TRIG_ONE as i128) / (len as i128);
    Vec2 { x: x as i64, y: y as i64 }
}

/// The unit vector pointing from `b` toward `a`, scaled to `TRIG_ONE`.
pub fn v2_direction(a: Vec2, b: Vec2) -> (r: Vec2)
    requires
        within(a, COORD_LIMIT as int),
        within(b, COORD_LIMIT as int),
        a != b,
    ensures
        r == unit_of(
            Vec2 { x: (a.x - b.x) as i64, y: (a.y - b.y) as i64 },
            sqrt_of(length_sq_of(Vec2 { x: (a.x - b.x) as i64, y: (a.y - b.y) as i64 })),
        ),
        within(r, TRIG_ONE as int),
{
    let c = v2_sub(a, b);
    v2_unit(c)
}

/// Milliradians in a full turn.
pub const TAU_MRAD: i64 = 6283;

/// Degrees to milliradians, rounded toward zero.
pub fn d_to_r(deg: i64) -> (r: i64)
    requires
        -1_000_000_000 <= deg <= 1_000_000_000,
    ensures
        r == tdiv(deg * TAU_MRAD, 360),
{
    deg * TAU_MRAD / 360
}

/// One coordinate after the wrap: past `dim + padding` it reappears at
/// `-padding`, before `-padding` at `dim + padding`.
pub open spec fn wrap_coord(c: int, dim: int, padding: int) -> int {
    let c1 = if c > dim + padding {
        -padding
    } else {
        c
    };
    if c1 < -padding {
        dim + padding
    } else {
        c1
    }
}

pub open spec fn wrapped(p: Vec2, width: int, height: int, padding: int) -> Vec2 {
    Vec2 {
        x: wrap_coord(p.x as int, width, padding) as i64,
        y: wrap_coord(p.y as int, height, padding) as i64,
    }
}

/// Toroidal wrap of a position around a `width` by `height` field with a
/// margin of `padding` on each side.
pub fn screen_wrap(p: Vec2, width: i64, height: i64, padding: i64) -> (r: Vec2)
    requires
        0 <= width <= POS_LIMIT,
        0 <= height <= POS_LIMIT,
        0 <= padding <= POS_LIMIT,
    ensures
        r == wrapped(p, width as int, height as int, padding as int),
        -padding <= r.x <= width + padding,
        -padding <= r.y <= height + padding,
{
    let screen_edge: i64 = 0;
    let mut r = p;
    if r.x > width + padding {
        r.x = screen_edge - padding;
    }
    if r.x < screen_edge - padding {
        r.x = width + padding;
    }
    if r.y > height + padding {
        r.y = screen_edge - padding;
    }
    if r.y < screen_edge - padding {
        r.y = height + padding;
    }
    r
}

} // verus!
