use vstd::prelude::*;
use crate::boxarea::BoxArea;
use crate::geometry::{
    pt, ring_in_field, tdiv, wrapped, screen_wrap, within, Vec2, POS_LIMIT, SCREEN_HEIGHT,
    SCREEN_WIDTH, TAU_MRAD, TRIG_ONE,
};
use crate::lifecycle::IsActive;
use crate::motion::{
    advance_heading, heading_velocity, lemma_small_product, lemma_tdiv_bound, turned,
    velocity_along, BaseObject, SPIN_LIMIT, STEP_LIMIT,
};
use crate::rotation::{
    local_ring, normalize_angle, normalized, transform_points, world_ring, TrigTable, TRIG_TOLERANCE,
};

verus! {

/// Largest drift factor of an asteroid, in thousandths.
pub const ACC_LIMIT: i64 = 100_000;

/// Width and height of an asteroid's bounding area.
pub const ASTEROID_BOX: i64 = 120_000;

/// Margin beyond the screen edge before an asteroid wraps around.
pub const ASTEROID_PADDING: i64 = 50_000;

/// Asteroid size classes.
#[derive(Clone, Copy, Debug, PartialEq, Eq, Structural)]
pub enum AsteroidSize {
    SMALL,
    MEDIUM,
    LARGE,
    NONE,
}

/// The class of the two fragments that destroying an asteroid of class
/// `s` spawns; `NONE` when it spawns nothing.
pub open spec fn fragment_class(s: AsteroidSize) -> AsteroidSize {
    match s {
        AsteroidSize::LARGE => AsteroidSize::MEDIUM,
        AsteroidSize::MEDIUM => AsteroidSize::SMALL,
        _ => AsteroidSize::NONE,
    }
}

/// The outline template of each size class, closed (first point repeated).
pub open spec fn asteroid_model(s: AsteroidSize) -> Seq<Vec2> {
    match s {
        AsteroidSize::SMALL => seq![
            pt(0, -10200), pt(5500, -4500), pt(8000, 0), pt(5000, 3500), pt(0, 9000),
            pt(-3800, 4000), pt(-4450, 0), pt(-2800, -3000), pt(0, -10270),
        ],
        AsteroidSize::MEDIUM => seq![
            pt(0, -20000), pt(4000, -6000), pt(4500, 0), pt(4300, 3900), pt(0, 10000),
            pt(-8200, 8670), pt(-10000, 0), pt(-6400, -14300), pt(0, -20000),
        ],
        AsteroidSize::LARGE => seq![
            pt(0, -50000), pt(40000, -40000), pt(60000, 0), pt(30000, 35000), pt(0, 50000),
            pt(-40500, 40000), pt(-55000, 0), pt(-35000, -30000), pt(0, -50000),
        ],
        AsteroidSize::NONE => seq![
            pt(0, 0), pt(0, 0), pt(0, 0), pt(0, 0), pt(0, 0), pt(0, 0), pt(0, 0), pt(0, 0),
            pt(0, 0),
        ],
    }
}

fn asteroid_points(s: AsteroidSize) -> (r: Vec<Vec2>)
    ensures
        r@ == asteroid_model(s),
        local_ring(r@),
        r@.len() == 9,
{
    let v = match s {
        AsteroidSize::SMALL => vec![
            Vec2::new(0, -10200), Vec2::new(5500, -4500), Vec2::new(8000, 0),
            Vec2::new(5000, 3500), Vec2::new(0, 9000), Vec2::new(-3800, 4000),
            Vec2::new(-4450, 0), Vec2::new(-2800, -3000), Vec2::new(0, -10270),
        ],
        AsteroidSize::MEDIUM => vec![
            Vec2::new(0, -20000), Vec2::new(4000, -6000), Vec2::new(4500, 0),
            Vec2::new(4300, 3900), Vec2::new(0, 10000), Vec2::new(-8200, 8670),
            Vec2::new(-10000, 0), Vec2::new(-6400, -14300), Vec2::new(0, -20000),
        ],
        AsteroidSize::LARGE => vec![
            Vec2::new(0, -50000), Vec2::new(40000, -40000), Vec2::new(60000, 0),
            Vec2::new(30000, 35000), Vec2::new(0, 50000), Vec2::new(-40500, 40000),
            Vec2::new(-55000, 0), Vec2::new(-35000, -30000), Vec2::new(0, -50000),
        ],
        AsteroidSize::NONE => vec![Vec2::new(0, 0); 9],
    };
    assert(v@ =~= asteroid_model(s));
    v
}

/// The position after drifting at `v` scaled by `acc` thousandths for
/// `delta_ms` milliseconds.
pub open spec fn drifted(p: Vec2, v: Vec2, acc: int, delta_ms: int) -> Vec2 {
    Vec2 {
        x: (p.x + tdiv(v.x * acc * delta_ms, 1_000_000)) as i64,
        y: (p.y + tdiv(v.y * acc * delta_ms, 1_000_000)) as i64,
    }
}

/// `after` is `before` after one tick of `delta_ms` milliseconds: spin,
/// drift and wrap, with the bounding area and outline following; an
/// inactive asteroid stays as it is.
pub open spec fn asteroid_stepped(before: Asteroid, after: Asteroid, delta_ms: int, trig: TrigTable) -> bool {
    &&& !before.live() ==> after == before
    &&& before.live() ==> {
        let moved = drifted(
            before.position(),
            before.velocity(),
            before.drift(),
            delta_ms,
        );
        &&& after.live()
        &&& after.heading() == turned(
            before.heading(),
            before.spin(),
            delta_ms,
        )
        &&& after.position() == wrapped(
            moved,
            SCREEN_WIDTH as int,
            SCREEN_HEIGHT as int,
            ASTEROID_PADDING as int,
        )
        &&& after.bounds().top_left() == (Vec2 {
            x: (after.position().x - ASTEROID_BOX / 2) as i64,
            y: (after.position().y - ASTEROID_BOX / 2) as i64,
        })
        &&& after.ring() == world_ring(
            asteroid_model(before.size_class()),
            trig,
            after.heading(),
            after.position(),
        )
        &&& after.velocity() == before.velocity()
        &&& after.drift() == before.drift()
        &&& after.spin() == before.spin()
        &&& after.size_class() == before.size_class()
        &&& after.highlighted() == before.highlighted()
    }
}

/// A drifting, spinning polygonal asteroid.
pub struct Asteroid {
    base: BaseObject,
    asteroid_size: AsteroidSize,
    rotate_speed: i64,
    points: Vec<Vec2>,
    tp: Vec<Vec2>,
    flip_color: bool,
    is_debug: bool,
    box_area: BoxArea,
}

impl IsActive for Asteroid {
    closed spec fn live(&self) -> bool {
        self.base.is_active
    }

    closed spec fn killed(&self) -> Self {
        Asteroid { base: BaseObject { is_active: false, ..self.base }, ..*self }
    }

    proof fn lemma_killed_is_dead(&self) {
    }

    fn is_active(&self) -> (r: bool) {
        self.base.is_active
    }

    fn kill(&mut self) {
        self.base.is_active = false;
    }
}

impl Asteroid {
    pub closed spec fn position(&self) -> Vec2 {
        self.base.position
    }

    pub closed spec fn velocity(&self) -> Vec2 {
        self.base.velocity
    }

    pub closed spec fn drift(&self) -> int {
        self.base.acceleration as int
    }

    pub closed spec fn heading(&self) -> int {
        self.base.angle as int
    }

    pub closed spec fn spin(&self) -> int {
        self.rotate_speed as int
    }

    pub closed spec fn size_class(&self) -> AsteroidSize {
        self.asteroid_size
    }

    pub closed spec fn ring(&self) -> Seq<Vec2> {
        self.tp@
    }

    pub closed spec fn bounds(&self) -> BoxArea {
        self.box_area
    }

    pub closed spec fn highlighted(&self) -> bool {
        self.flip_color
    }

    /// The same asteroid with its highlight set to `value`.
    pub closed spec fn with_highlight(&self, value: bool) -> Self {
        Asteroid { flip_color: value, ..*self }
    }

    pub closed spec fn wf(&self) -> bool {
        &&& within(self.base.position, POS_LIMIT as int)
        &&& 0 <= self.base.acceleration <= ACC_LIMIT
        &&& within(self.base.velocity, self.base.acceleration as int)
        &&& -SPIN_LIMIT <= self.rotate_speed <= SPIN_LIMIT
        &&& 0 <= self.base.angle < TAU_MRAD
        &&& self.points@ == asteroid_model(self.asteroid_size)
        &&& self.tp@.len() == 9
        &&& ring_in_field(self.tp@)
        &&& self.box_area.wf()
        &&& self.box_area.extent() == (Vec2 { x: ASTEROID_BOX, y: ASTEROID_BOX })
    }

    /// Killing changes nothing but the active flag.
    pub proof fn lemma_killed(&self)
        ensures
            !self.killed().live(),
            self.killed().position() == self.position(),
            self.killed().velocity() == self.velocity(),
            self.killed().drift() == self.drift(),
            self.killed().heading() == self.heading(),
            self.killed().spin() == self.spin(),
            self.killed().size_class() == self.size_class(),
            self.killed().ring() == self.ring(),
            self.killed().bounds() == self.bounds(),
            self.killed().highlighted() == self.highlighted(),
            self.wf() ==> self.killed().wf(),
    {
    }

    pub proof fn lemma_wf(&self)
        requires
            self.wf(),
        ensures
            self.ring().len() == 9,
            ring_in_field(self.ring()),
            self.bounds().wf(),
            within(self.position(), POS_LIMIT as int),
    {
    }

    /// A new asteroid at `(x, y)` heading `ang`, drifting with factor `acc`
    /// (thousandths), spinning at `rotate_speed` to the right or the left.
    pub fn new(
        x: i64,
        y: i64,
        ang: i64,
        acc: i64,
        rotate_speed: i64,
        rotate_right: bool,
        size_type: AsteroidSize,
        trig: &TrigTable,
    ) -> (r: Asteroid)
        requires
            trig.wf(),
            within(Vec2 { x, y }, POS_LIMIT as int),
            0 <= acc <= ACC_LIMIT,
            -SPIN_LIMIT <= rotate_speed <= SPIN_LIMIT,
        ensures
            r.wf(),
            r.live(),
            r.position() == (Vec2 { x, y }),
            r.heading() == normalized(ang as int),
            r.velocity() == heading_velocity(*trig, normalized(ang as int), acc as int),
            r.drift() == acc,
            r.spin() == if rotate_right {
                rotate_speed as int
            } else {
                -rotate_speed
            },
            r.size_class() == size_type,
            !r.highlighted(),
            r.bounds().top_left() == (Vec2 { x, y }),
            r.bounds().live(),
            r.bounds().extent() == (Vec2 { x: ASTEROID_BOX, y: ASTEROID_BOX }),
    {
        let points = asteroid_points(size_type);
        let angle = normalize_angle(ang);
        let velocity = velocity_along(trig, angle, acc);
        let speed = if rotate_right {
            rotate_speed
        } else {
            -rotate_speed
        };
        let ba = BoxArea::new(x, y, ASTEROID_BOX, ASTEROID_BOX);
        Asteroid {
            base: BaseObject {
                position: Vec2::new(x, y),
                velocity,
                acceleration: acc,
                angle,
                is_active: true,
            },
            asteroid_size: size_type,
            rotate_speed: speed,
            points,
            tp: vec![Vec2::new(0, 0); 9],
            flip_color: false,
            is_debug: false,
            box_area: ba,
        }
    }

    pub fn get_box_area(&self) -> (r: &BoxArea)
        ensures
            *r == self.bounds(),
    {
        &self.box_area
    }

    /// Current position.
    pub fn get_position(&self) -> (r: Vec2)
        ensures
            r == self.position(),
    {
        self.base.position
    }

    pub fn get_asteroid_type(&self) -> (r: AsteroidSize)
        ensures
            r == self.size_class(),
    {
        self.asteroid_size
    }

    /// Marks the asteroid for highlighting (drawn red) or not.
    pub fn toggle_color(&mut self, value: bool)
        ensures
            final(self).highlighted() == value,
            *final(self) == old(self).with_highlight(value),
    {
        self.flip_color = value;
    }

    pub fn is_highlighted(&self) -> (r: bool)
        ensures
            r == self.highlighted(),
    {
        self.flip_color
    }

    /// The world-space outline, as last computed by `update`.
    pub fn get_tp(&self) -> (r: &Vec<Vec2>)
        ensures
            r@ == self.ring(),
    {
        &self.tp
    }

    fn drift_step(p: Vec2, v: Vec2, acc: i64, delta_ms: u16) -> (r: Vec2)
        requires
            within(p, POS_LIMIT as int),
            0 <= acc <= ACC_LIMIT,
            within(v, acc as int),
        ensures
            r == drifted(p, v, acc as int, delta_ms as int),
            within(r, 2 * POS_LIMIT),
    {
        proof {
            lemma_drift_bound(v.x as int, acc as int, delta_ms as int);
            lemma_drift_bound(v.y as int, acc as int, delta_ms as int);
        }
        let d = delta_ms as i64;
        let sx = v.x * acc * d / 1_000_000;
        let sy = v.y * acc * d / 1_000_000;
        assert(sx == tdiv(v.x * acc * d, 1_000_000));
        assert(sy == tdiv(v.y * acc * d, 1_000_000));
        Vec2::new(p.x + sx, p.y + sy)
    }

    /// Spins, drifts, re-centres the bounding area, wraps around the screen
    /// and recomputes the outline of an active asteroid.
    pub fn update(&mut self, delta_ms: u16, trig: &TrigTable)
        requires
            old(self).wf(),
            trig.wf(),
        ensures
            final(self).wf(),
            asteroid_stepped(*old(self), *final(self), delta_ms as int, *trig),
    {
        if self.is_active() {
            self.base.angle = advance_heading(self.base.angle, self.rotate_speed, delta_ms);
            let moved = Self::drift_step(
                self.base.position,
                self.base.velocity,
                self.base.acceleration,
                delta_ms,
            );
            self.base.position = moved;
            proof {
                self.box_area.lemma_bounds();
            }
            self.base.position = screen_wrap(moved, SCREEN_WIDTH, SCREEN_HEIGHT, ASTEROID_PADDING);
            self.box_area.set_position(self.base.position);
            self.box_area.update();
            self.update_points(trig);
        }
    }

    fn update_points(&mut self, trig: &TrigTable)
        requires
            trig.wf(),
            0 <= old(self).base.angle < TAU_MRAD,
            within(old(self).base.position, POS_LIMIT as int),
            old(self).points@ == asteroid_model(old(self).asteroid_size),
        ensures
            *final(self) == (Asteroid { tp: final(self).tp, ..*old(self) }),
            final(self).tp@ == world_ring(
                asteroid_model(old(self).asteroid_size),
                *trig,
                old(self).base.angle as int,
                old(self).base.position,
            ),
            final(self).tp@.len() == 9,
            ring_in_field(final(self).tp@),
    {
        proof {
            lemma_models_are_local(self.asteroid_size);
        }
        self.tp = transform_points(&self.points, trig, self.base.angle, self.base.position);
    }
}

/// Every point of every template lies within 60 units of the centre.
proof fn lemma_models_within_radius(s: AsteroidSize)
    ensures
        forall|i: int|
            0 <= i < asteroid_model(s).len() ==> (#[trigger] asteroid_model(s)[i]).x * asteroid_model(s)[i].x
                + asteroid_model(s)[i].y * asteroid_model(s)[i].y <= 3_600_000_000,
{
    let m = asteroid_model(s);
    assert forall|i: int| 0 <= i < m.len() implies (#[trigger] m[i]).x * m[i].x + m[i].y * m[i].y
        <= 3_600_000_000 by {
        let px = m[i].x as int;
        let py = m[i].y as int;
        assert(-60_000 <= px <= 60_000 && -50_000 <= py <= 50_000);
        assert(i == 0 || i == 1 || i == 2 || i == 3 || i == 4 || i == 5 || i == 6 || i == 7 || i == 8);
        if px * px + py * py > 3_600_000_000 {
            assert(false) by (nonlinear_arith)
                requires
                    px * px + py * py > 3_600_000_000,
                    (px == 0 && -50_000 <= py <= 50_000) || (px == 60000 && py == 0) || (px == -55000 && py == 0)
                        || (-40_500 <= px <= 40_500 && -40_000 <= py <= 40_000)
                        || (-10_000 <= px <= 10_000 && -20_000 <= py <= 20_000)
                        || (px == 30000 && py == 35000);
        }
    }
}

proof fn lemma_square_of_sum(a: int, b: int)
    ensures
        (a + b) * (a + b) == a * a + 2 * (a * b) + b * b,
{
    assert((a + b) * (a + b) == a * a + 2 * (a * b) + b * b) by (nonlinear_arith);
}

proof fn lemma_product_square(a: int, b: int)
    ensures
        (a * b) * (a * b) == (a * a) * (b * b),
{
    assert((a * b) * (a * b) == (a * a) * (b * b)) by (nonlinear_arith);
}

proof fn lemma_cross_swap(x: int, c: int, y: int, s: int)
    ensures
        (x * c) * (y * s) == (x * s) * (y * c),
{
    vstd::arithmetic::mul::lemma_mul_is_associative(x, c, y * s);
    vstd::arithmetic::mul::lemma_mul_is_associative(c, y, s);
    vstd::arithmetic::mul::lemma_mul_is_commutative(c, y);
    vstd::arithmetic::mul::lemma_mul_is_associative(y, c, s);
    vstd::arithmetic::mul::lemma_mul_is_commutative(y * c, s);
    vstd::arithmetic::mul::lemma_mul_is_associative(x, s, y * c);
}

proof fn lemma_distribute(p: int, q: int, r: int, t: int)
    ensures
        p * r + p * t + q * r + q * t == (p + q) * (r + t),
{
    assert(p * r + p * t + q * r + q * t == (p + q) * (r + t)) by (nonlinear_arith);
}

/// A point within 60 units of the centre, rotated by a table entry, stays
/// within 60 units on each axis.
proof fn lemma_rotated_within_box(x: int, y: int, c: int, s: int)
    requires
        x * x + y * y <= 3_600_000_000,
        c * c + s * s <= TRIG_ONE * TRIG_ONE + TRIG_TOLERANCE,
    ensures
        -60_000 <= tdiv(x * c - y * s, TRIG_ONE as int) <= 60_000,
        -60_000 <= tdiv(x * s + y * c, TRIG_ONE as int) <= 60_000,
{
    let u = x * c - y * s;
    let v = x * s + y * c;
    lemma_square_of_sum(x * c, -(y * s));
    lemma_square_of_sum(x * s, y * c);
    lemma_product_square(x, c);
    lemma_product_square(y, s);
    lemma_product_square(x, s);
    lemma_product_square(y, c);
    lemma_cross_swap(x, c, y, s);
    assert(u == x * c + -(y * s));
    assert(-(y * s) * -(y * s) == (y * s) * (y * s)) by (nonlinear_arith);
    assert(x * c * -(y * s) == -((x * c) * (y * s))) by (nonlinear_arith);
    lemma_distribute(x * x, y * y, c * c, s * s);
    assert(u * u + v * v == (x * x + y * y) * (c * c + s * s));
    assert(0 <= x * x && 0 <= y * y && 0 <= c * c && 0 <= s * s && u * u >= 0 && v * v >= 0) by (nonlinear_arith);
    assert((x * x + y * y) * (c * c + s * s) <= 3_600_000_000 * (1_000_000_000_000 + 2_000_000))
        by (nonlinear_arith)
        requires 0 <= x * x + y * y <= 3_600_000_000, 0 <= c * c + s * s <= 1_000_000_000_000
            + 2_000_000;
    let k: int = 60_001_000_000;
    assert(u * u < k * k);
    assert(v * v < k * k);
    assert(-k < u < k) by (nonlinear_arith)
        requires u * u < k * k, k > 0;
    assert(-k < v < k) by (nonlinear_arith)
        requires v * v < k * k, k > 0;
    let t = TRIG_ONE as int;
    if u >= 0 {
        assert(u / t <= 60_000) by (nonlinear_arith) requires 0 <= u < k, t == 1_000_000, k == 60_001_000_000;
    } else {
        assert((-u) / t <= 60_000) by (nonlinear_arith) requires 0 < -u < k, t == 1_000_000, k == 60_001_000_000;
    }
    if v >= 0 {
        assert(v / t <= 60_000) by (nonlinear_arith) requires 0 <= v < k, t == 1_000_000, k == 60_001_000_000;
    } else {
        assert((-v) / t <= 60_000) by (nonlinear_arith) requires 0 < -v < k, t == 1_000_000, k == 60_001_000_000;
    }
}

impl Asteroid {
    /// Once `update` has placed the outline and the bounding area on the
    /// current position, the outline lies inside the area, whatever the
    /// heading and the size class.
    pub proof fn lemma_outline_inside_box(&self, trig: TrigTable)
        requires
            self.wf(),
            trig.wf(),
            self.ring() == world_ring(
                asteroid_model(self.size_class()),
                trig,
                self.heading(),
                self.position(),
            ),
            self.bounds().top_left() == (Vec2 {
                x: (self.position().x - ASTEROID_BOX / 2) as i64,
                y: (self.position().y - ASTEROID_BOX / 2) as i64,
            }),
        ensures
            self.bounds().extent() == (Vec2 { x: ASTEROID_BOX, y: ASTEROID_BOX }),
            forall|i: int|
                0 <= i < self.ring().len() ==> {
                    let q = #[trigger] self.ring()[i];
                    let b = self.bounds().top_left();
                    &&& b.x <= q.x <= b.x + ASTEROID_BOX
                    &&& b.y <= q.y <= b.y + ASTEROID_BOX
                },
    {
        let m = asteroid_model(self.size_class());
        let c = trig.cos_at(self.heading());
        let s = trig.sin_at(self.heading());
        lemma_models_within_radius(self.size_class());
        assert(c * c + s * s - TRIG_ONE * TRIG_ONE <= TRIG_TOLERANCE) by {
            assert(trig.cos_seq()[self.heading()] * trig.cos_seq()[self.heading()] + trig.sin_seq()[self.heading()]
                * trig.sin_seq()[self.heading()] - TRIG_ONE * TRIG_ONE <= TRIG_TOLERANCE);
        }
        assert forall|i: int| 0 <= i < self.ring().len() implies {
            let q = #[trigger] self.ring()[i];
            let b = self.bounds().top_left();
            &&& b.x <= q.x <= b.x + ASTEROID_BOX
            &&& b.y <= q.y <= b.y + ASTEROID_BOX
        } by {
            lemma_rotated_within_box(m[i].x as int, m[i].y as int, c, s);
        }
    }
}

proof fn lemma_models_are_local(s: AsteroidSize)
    ensures
        local_ring(asteroid_model(s)),
        asteroid_model(s).len() == 9,
{
}

proof fn lemma_drift_bound(v: int, acc: int, d: int)
    requires
        0 <= acc <= ACC_LIMIT,
        -acc <= v <= acc,
        0 <= d <= 65535,
    ensures
        -ACC_LIMIT * ACC_LIMIT <= v * acc <= ACC_LIMIT * ACC_LIMIT,
        -ACC_LIMIT * ACC_LIMIT * 65535 <= v * acc * d <= ACC_LIMIT * ACC_LIMIT * 65535,
        -STEP_LIMIT <= tdiv(v * acc * d, 1_000_000) <= STEP_LIMIT,
{
    let a = ACC_LIMIT as int;
    assert(-a * a <= v * acc <= a * a) by (nonlinear_arith)
        requires -acc <= v <= acc, 0 <= acc <= a;
    lemma_small_product(v * acc, d, a * a);
    assert((v * acc) * d == v * acc * d) by (nonlinear_arith);
    lemma_tdiv_bound(v * acc * d, 1_000_000, a * a * 65535);
}

} // verus!
