use vstd::prelude::*;
use crate::geometry::pt;
use crate::boxarea::BoxArea;
use crate::geometry::{
    lemma_component_le_length, length_sq_of, ring_in_field, screen_wrap, sqrt_of, tdiv,
    unit_of, v2_length, v2_unit, within, wrapped, Vec2, COORD_LIMIT, POS_LIMIT, SCREEN_HEIGHT,
    SCREEN_WIDTH, TAU_MRAD, TRIG_ONE,
};
use crate::lifecycle::IsActive;
use crate::motion::{
    advance_heading, integrate, lemma_tdiv_bound, moved, turned, BaseObject, SPEED_LIMIT,
};
use crate::rotation::{local_ring, normalize_angle, normalized, transform_points, world_ring, TrigTable};

verus! {

/// Thrust of the ship, in milli-units per second squared.
pub const SHIP_THRUST: i64 = 100_000;

/// Friction that slows the ship, in milli-units per second squared.
pub const SHIP_FRICTION: i64 = 20_000;

/// Top speed of the ship, in milli-units per second.
pub const SHIP_TOP_SPEED: i64 = 250_000;

/// Turning rate of the ship, in milliradians per second.
pub const SHIP_TURN_RATE: i64 = 5_000;

/// Width and height of the ship's bounding area.
pub const SHIP_BOX: i64 = 70_000;

/// Margin beyond the screen edge before the ship wraps around.
pub const SHIP_PADDING: i64 = 20_000;

/// Bound on each velocity component of the ship that every update keeps.
pub const SHIP_VEL_LIMIT: i64 = 2_000_000;

/// The control intents held during a tick.
#[derive(Clone, Copy, Debug, PartialEq, Eq, Structural)]
pub struct ControlIntents {
    pub turn_left: bool,
    pub turn_right: bool,
    pub thrust: bool,
    pub fire: bool,
}

/// The ship's outline template, closed.
pub open spec fn ship_model() -> Seq<Vec2> {
    seq![pt(10000, 0), pt(-10000, -7000), pt(-10000, 7000), pt(10000, 0)]
}

/// The thruster flame's outline template, closed, already set behind the ship.
pub open spec fn thruster_model() -> Seq<Vec2> {
    seq![pt(-26000, 0), pt(-18000, -3000), pt(-18000, 3000), pt(-26000, 0)]
}

/// Net turning rate for the held intents: left turns positive, right negative.
pub open spec fn turn_rate(left: bool, right: bool) -> int {
    (if left {
        SHIP_TURN_RATE as int
    } else {
        0
    }) - (if right {
        SHIP_TURN_RATE as int
    } else {
        0
    })
}

/// Velocity after thrusting along the heading whose cosine and sine are `c`, `s`.
pub open spec fn thrusted(v: Vec2, c: int, s: int, delta_ms: int) -> Vec2 {
    Vec2 {
        x: (v.x + tdiv(c * SHIP_THRUST * delta_ms, TRIG_ONE * 1000)) as i64,
        y: (v.y + tdiv(s * SHIP_THRUST * delta_ms, TRIG_ONE * 1000)) as i64,
    }
}

pub open spec fn is_zero(v: Vec2) -> bool {
    v.x == 0 && v.y == 0
}

pub open spec fn unit_vec(v: Vec2) -> Vec2 {
    unit_of(v, sqrt_of(length_sq_of(v)))
}

/// Velocity after friction: reduced along its own direction; a standing
/// ship stays put.
pub open spec fn slowed(v: Vec2, delta_ms: int) -> Vec2 {
    if is_zero(v) {
        v
    } else {
        Vec2 {
            x: (v.x - tdiv(unit_vec(v).x * SHIP_FRICTION * delta_ms, TRIG_ONE * 1000)) as i64,
            y: (v.y - tdiv(unit_vec(v).y * SHIP_FRICTION * delta_ms, TRIG_ONE * 1000)) as i64,
        }
    }
}

/// Velocity after the top-speed cap, decided on the speed `len` measured
/// before friction.
pub open spec fn capped(v: Vec2, len: int) -> Vec2 {
    if len > SHIP_TOP_SPEED && !is_zero(v) {
        Vec2 {
            x: tdiv(unit_vec(v).x * SHIP_TOP_SPEED, TRIG_ONE as int) as i64,
            y: tdiv(unit_vec(v).y * SHIP_TOP_SPEED, TRIG_ONE as int) as i64,
        }
    } else {
        v
    }
}

/// The ship's velocity after one tick of thrust (when held), friction and cap.
pub open spec fn ship_velocity(v: Vec2, thrust: bool, c: int, s: int, delta_ms: int) -> Vec2 {
    let pushed = if thrust {
        thrusted(v, c, s, delta_ms)
    } else {
        v
    };
    capped(slowed(pushed, delta_ms), sqrt_of(length_sq_of(pushed)))
}

/// `after` is `before` after one tick of `delta_ms` milliseconds: turning,
/// thrust, friction, cap, movement and wrap, with the bounding area and
/// outlines following; an inactive ship stays as it is.
pub open spec fn ship_stepped(before: Ship, after: Ship, delta_ms: int, trig: TrigTable) -> bool {
    &&& !before.live() ==> after == before
    &&& before.live() ==> {
        let heading = turned(
            before.heading(),
            turn_rate(before.intents().turn_left, before.intents().turn_right),
            delta_ms,
        );
        let v = ship_velocity(
            before.velocity(),
            before.intents().thrust,
            trig.cos_at(heading),
            trig.sin_at(heading),
            delta_ms,
        );
        let p = moved(before.position(), v, delta_ms);
        &&& after.live()
        &&& after.heading() == heading
        &&& after.velocity() == v
        &&& after.position() == wrapped(
            p,
            SCREEN_WIDTH as int,
            SCREEN_HEIGHT as int,
            SHIP_PADDING as int,
        )
        &&& after.bounds().top_left() == (Vec2 {
            x: (after.position().x - SHIP_BOX / 2) as i64,
            y: (after.position().y - SHIP_BOX / 2) as i64,
        })
        &&& after.ring() == world_ring(
            ship_model(),
            trig,
            heading,
            after.position(),
        )
        &&& before.intents().thrust ==> after.thruster_ring() == world_ring(
            thruster_model(),
            trig,
            heading,
            after.position(),
        )
        &&& after.intents() == before.intents()
    }
}

/// The player's ship.
pub struct Ship {
    base: BaseObject,
    friction: i64,
    top_speed: i64,
    rotation_speed: i64,
    is_turning_left: bool,
    is_turning_right: bool,
    is_thrusting: bool,
    is_shooting: bool,
    is_debug: bool,
    points: Vec<Vec2>,
    tp: Vec<Vec2>,
    thruster_points: Vec<Vec2>,
    thruster_tp: Vec<Vec2>,
    box_area: BoxArea,
}

impl IsActive for Ship {
    closed spec fn live(&self) -> bool {
        self.base.is_active
    }

    closed spec fn killed(&self) -> Self {
        Ship { base: BaseObject { is_active: false, ..self.base }, ..*self }
    }

    proof fn lemma_killed_is_dead(&self) {
    }

    fn is_active(&self) -> (r: bool) {
        self.base.is_active
    }

    fn kill(&mut self) {
        self.base.is_active = false;
    }
}

impl Ship {
    pub closed spec fn position(&self) -> Vec2 {
        self.base.position
    }

    pub closed spec fn velocity(&self) -> Vec2 {
        self.base.velocity
    }

    pub closed spec fn heading(&self) -> int {
        self.base.angle as int
    }

    pub closed spec fn intents(&self) -> ControlIntents {
        ControlIntents {
            turn_left: self.is_turning_left,
            turn_right: self.is_turning_right,
            thrust: self.is_thrusting,
            fire: self.is_shooting,
        }
    }

    pub closed spec fn ring(&self) -> Seq<Vec2> {
        self.tp@
    }

    pub closed spec fn thruster_ring(&self) -> Seq<Vec2> {
        self.thruster_tp@
    }

    pub closed spec fn bounds(&self) -> BoxArea {
        self.box_area
    }

    /// The same ship holding the given control intents.
    pub closed spec fn steered(&self, i: ControlIntents) -> Self {
        Ship {
            is_turning_left: i.turn_left,
            is_turning_right: i.turn_right,
            is_thrusting: i.thrust,
            is_shooting: i.fire,
            ..*self
        }
    }

    /// The same ship with its active flag set.
    pub closed spec fn revived(&self) -> Self {
        Ship { base: BaseObject { is_active: true, ..self.base }, ..*self }
    }

    pub closed spec fn wf(&self) -> bool {
        &&& self.friction == SHIP_FRICTION
        &&& self.top_speed == SHIP_TOP_SPEED
        &&& self.rotation_speed == SHIP_TURN_RATE
        &&& self.base.acceleration == SHIP_THRUST
        &&& within(self.base.position, POS_LIMIT as int)
        &&& within(self.base.velocity, SHIP_VEL_LIMIT as int)
        &&& 0 <= self.base.angle < TAU_MRAD
        &&& self.points@ == ship_model()
        &&& self.thruster_points@ == thruster_model()
        &&& self.tp@.len() == 4
        &&& ring_in_field(self.tp@)
        &&& self.thruster_tp@.len() == 4
        &&& ring_in_field(self.thruster_tp@)
        &&& self.box_area.wf()
        &&& self.box_area.extent() == (Vec2 { x: SHIP_BOX, y: SHIP_BOX })
    }

    /// Killing changes nothing but the active flag.
    pub proof fn lemma_killed(&self)
        ensures
            !self.killed().live(),
            self.killed().position() == self.position(),
            self.killed().velocity() == self.velocity(),
            self.killed().heading() == self.heading(),
            self.killed().intents() == self.intents(),
            self.killed().ring() == self.ring(),
            self.killed().thruster_ring() == self.thruster_ring(),
            self.killed().bounds() == self.bounds(),
            self.wf() ==> self.killed().wf(),
    {
    }

    pub proof fn lemma_wf(&self)
        requires
            self.wf(),
        ensures
            self.ring().len() == 4,
            ring_in_field(self.ring()),
            self.bounds().wf(),
            within(self.position(), POS_LIMIT as int),
    {
    }

    /// A standing ship at `(x, y)` with heading `angle`.
    pub fn new(x: i64, y: i64, angle: i64) -> (r: Ship)
        requires
            within(Vec2 { x, y }, POS_LIMIT as int),
        ensures
            r.wf(),
            r.live(),
            r.position() == (Vec2 { x, y }),
            r.velocity() == (Vec2 { x: 0, y: 0 }),
            r.heading() == normalized(angle as int),
            r.intents() == (ControlIntents {
                turn_left: false,
                turn_right: false,
                thrust: false,
                fire: false,
            }),
            r.bounds().top_left() == (Vec2 { x, y }),
            r.bounds().extent() == (Vec2 { x: SHIP_BOX, y: SHIP_BOX }),
    {
        let n7: i64 = -7000;
        let n10: i64 = -10000;
        let ship_v = vec![
            Vec2::new(10000, 0),
            Vec2::new(n10, n7),
            Vec2::new(n10, 7000),
            Vec2::new(10000, 0),
        ];
        let n26: i64 = -26000;
        let n18: i64 = -18000;
        let n3: i64 = -3000;
        let thruster_v = vec![
            Vec2::new(n26, 0),
            Vec2::new(n18, n3),
            Vec2::new(n18, 3000),
            Vec2::new(n26, 0),
        ];
        assert(ship_v@ =~= ship_model());
        assert(thruster_v@ =~= thruster_model());
        let ba = BoxArea::new(x, y, SHIP_BOX, SHIP_BOX);
        Ship {
            base: BaseObject {
                position: Vec2::new(x, y),
                velocity: Vec2::new(0, 0),
                acceleration: SHIP_THRUST,
                angle: normalize_angle(angle),
                is_active: true,
            },
            friction: SHIP_FRICTION,
            top_speed: SHIP_TOP_SPEED,
            rotation_speed: SHIP_TURN_RATE,
            is_turning_left: false,
            is_turning_right: false,
            is_thrusting: false,
            is_shooting: false,
            is_debug: false,
            points: ship_v,
            tp: vec![Vec2::new(0, 0); 4],
            thruster_points: thruster_v,
            thruster_tp: vec![Vec2::new(0, 0); 4],
            box_area: ba,
        }
    }

    pub fn get_box_area(&self) -> (r: &BoxArea)
        ensures
            *r == self.bounds(),
    {
        &self.box_area
    }

    pub fn get_position(&self) -> (r: Vec2)
        ensures
            r == self.position(),
    {
        self.base.position
    }

    pub fn get_angle(&self) -> (r: i64)
        ensures
            r == self.heading(),
    {
        self.base.angle
    }

    /// Brings the ship back to life where it stands.
    pub fn alive(&mut self)
        ensures
            *final(self) == old(self).revived(),
            final(self).live(),
            old(self).wf() ==> final(self).wf(),
    {
        self.base.is_active = true;
    }

    /// The world-space outline, as last computed by `update`.
    pub fn get_tp(&self) -> (r: &Vec<Vec2>)
        ensures
            r@ == self.ring(),
    {
        &self.tp
    }

    /// The world-space thruster flame, as last computed while thrusting.
    pub fn get_thruster_tp(&self) -> (r: &Vec<Vec2>)
        ensures
            r@ == self.thruster_ring(),
    {
        &self.thruster_tp
    }

    pub fn is_fireing(&self) -> (r: bool)
        ensures
            r == self.intents().fire,
    {
        self.is_shooting
    }

    pub fn is_thrusting(&self) -> (r: bool)
        ensures
            r == self.intents().thrust,
    {
        self.is_thrusting
    }

    /// Takes the control intents held this tick.
    pub fn inputs(&mut self, intents: ControlIntents)
        ensures
            *final(self) == old(self).steered(intents),
            final(self).intents() == intents,
            final(self).live() == old(self).live(),
            final(self).position() == old(self).position(),
            final(self).heading() == old(self).heading(),
            final(self).ring() == old(self).ring(),
            final(self).bounds() == old(self).bounds(),
            old(self).wf() ==> final(self).wf(),
    {
        self.is_turning_left = intents.turn_left;
        self.is_turning_right = intents.turn_right;
        self.is_thrusting = intents.thrust;
        self.is_shooting = intents.fire;
    }

    fn next_velocity(v: Vec2, thrust: bool, c: i64, s: i64, delta_ms: u16) -> (r: Vec2)
        requires
            within(v, SHIP_VEL_LIMIT as int),
            -TRIG_ONE <= c <= TRIG_ONE,
            -TRIG_ONE <= s <= TRIG_ONE,
        ensures
            r == ship_velocity(v, thrust, c as int, s as int, delta_ms as int),
            within(r, SHIP_VEL_LIMIT as int),
    {
        let d = delta_ms as i64;
        let mut vel = v;
        if thrust {
            proof {
                lemma_thrust_bound(c as int, d as int);
                lemma_thrust_bound(s as int, d as int);
            }
            vel.x = vel.x + c * SHIP_THRUST * d / (TRIG_ONE * 1000);
            vel.y = vel.y + s * SHIP_THRUST * d / (TRIG_ONE * 1000);
        }
        let pushed = vel;
        let len = v2_length(vel);
        proof {
            lemma_speed_bounds(pushed, len as int);
        }
        if len > 0 {
            let unit = v2_unit(vel);
            proof {
                lemma_friction_bound(unit.x as int, d as int);
                lemma_friction_bound(unit.y as int, d as int);
            }
            vel.x = vel.x - unit.x * SHIP_FRICTION * d / (TRIG_ONE * 1000);
            vel.y = vel.y - unit.y * SHIP_FRICTION * d / (TRIG_ONE * 1000);
        }
        assert(vel == slowed(pushed, d as int));
        if len > SHIP_TOP_SPEED && (vel.x != 0 || vel.y != 0) {
            let unit = v2_unit(vel);
            proof {
                lemma_top_speed_bound(unit.x as int);
                lemma_top_speed_bound(unit.y as int);
            }
            vel = Vec2::new(unit.x * SHIP_TOP_SPEED / TRIG_ONE, unit.y * SHIP_TOP_SPEED / TRIG_ONE);
        }
        vel
    }

    /// Turns, thrusts, slows, caps, moves, re-centres the bounding area,
    /// wraps around the screen and recomputes the outlines of an active ship.
    pub fn update(&mut self, delta_ms: u16, trig: &TrigTable)
        requires
            old(self).wf(),
            trig.wf(),
        ensures
            final(self).wf(),
            ship_stepped(*old(self), *final(self), delta_ms as int, *trig),
    {
        if self.is_active() {
            let mut rate: i64 = 0;
            if self.is_turning_left {
                rate = rate + self.rotation_speed;
            }
            if self.is_turning_right {
                rate = rate - self.rotation_speed;
            }
            self.base.angle = advance_heading(self.base.angle, rate, delta_ms);
            let (c, s) = trig.lookup(self.base.angle);
            self.base.velocity = Self::next_velocity(
                self.base.velocity,
                self.is_thrusting,
                c,
                s,
                delta_ms,
            );
            proof {
                assert(within(self.base.velocity, SPEED_LIMIT as int));
            }
            let p = integrate(self.base.position, self.base.velocity, delta_ms);
            self.base.position = p;
            proof {
                self.box_area.lemma_bounds();
            }
            self.base.position = screen_wrap(p, SCREEN_WIDTH, SCREEN_HEIGHT, SHIP_PADDING);
            self.box_area.set_position(self.base.position);
            self.box_area.update();
            self.update_points(trig);
        }
    }

    fn update_points(&mut self, trig: &TrigTable)
        requires
            trig.wf(),
            0 <= old(self).base.angle < TAU_MRAD,
            within(old(self).base.position, POS_LIMIT as int),
            old(self).points@ == ship_model(),
            old(self).thruster_points@ == thruster_model(),
            old(self).thruster_tp@.len() == 4,
            ring_in_field(old(self).thruster_tp@),
        ensures
            *final(self) == (Ship {
                tp: final(self).tp,
                thruster_tp: final(self).thruster_tp,
                ..*old(self)
            }),
            final(self).tp@ == world_ring(
                ship_model(),
                *trig,
                old(self).base.angle as int,
                old(self).base.position,
            ),
            old(self).is_thrusting ==> final(self).thruster_tp@ == world_ring(
                thruster_model(),
                *trig,
                old(self).base.angle as int,
                old(self).base.position,
            ),
            !old(self).is_thrusting ==> final(self).thruster_tp == old(self).thruster_tp,
            final(self).tp@.len() == 4,
            ring_in_field(final(self).tp@),
            final(self).thruster_tp@.len() == 4,
            ring_in_field(final(self).thruster_tp@),
    {
        assert(local_ring(ship_model()));
        assert(local_ring(thruster_model()));
        self.tp = transform_points(&self.points, trig, self.base.angle, self.base.position);
        if self.is_thrusting {
            self.thruster_tp = transform_points(
                &self.thruster_points,
                trig,
                self.base.angle,
                self.base.position,
            );
        }
    }
}

proof fn lemma_thrust_bound(c: int, d: int)
    requires
        -TRIG_ONE <= c <= TRIG_ONE,
        0 <= d <= 65535,
    ensures
        -TRIG_ONE * SHIP_THRUST <= c * SHIP_THRUST <= TRIG_ONE * SHIP_THRUST,
        -TRIG_ONE * SHIP_THRUST * 65535 <= c * SHIP_THRUST * d <= TRIG_ONE * SHIP_THRUST * 65535,
        -6_553_500 <= tdiv(c * SHIP_THRUST * d, TRIG_ONE * 1000) <= 6_553_500,
{
    let k = SHIP_THRUST as int;
    let t = TRIG_ONE as int;
    assert(-t * k <= c * k <= t * k) by (nonlinear_arith)
        requires -t <= c <= t, k > 0;
    assert(-(t * k * 65535) <= (c * k) * d <= t * k * 65535) by (nonlinear_arith)
        requires -t * k <= c * k <= t * k, 0 <= d <= 65535, t * k > 0;
    lemma_tdiv_bound(c * k * d, t * 1000, t * k * 65535);
}

proof fn lemma_friction_bound(u: int, d: int)
    requires
        -TRIG_ONE <= u <= TRIG_ONE,
        0 <= d <= 65535,
    ensures
        -TRIG_ONE * SHIP_FRICTION <= u * SHIP_FRICTION <= TRIG_ONE * SHIP_FRICTION,
        -TRIG_ONE * SHIP_FRICTION * 65535 <= u * SHIP_FRICTION * d <= TRIG_ONE * SHIP_FRICTION
            * 65535,
        -1_310_700 <= tdiv(u * SHIP_FRICTION * d, TRIG_ONE * 1000) <= 1_310_700,
{
    let k = SHIP_FRICTION as int;
    let t = TRIG_ONE as int;
    assert(-t * k <= u * k <= t * k) by (nonlinear_arith)
        requires -t <= u <= t, k > 0;
    assert(-(t * k * 65535) <= (u * k) * d <= t * k * 65535) by (nonlinear_arith)
        requires -t * k <= u * k <= t * k, 0 <= d <= 65535, t * k > 0;
    lemma_tdiv_bound(u * k * d, t * 1000, t * k * 65535);
}

proof fn lemma_top_speed_bound(u: int)
    requires
        -TRIG_ONE <= u <= TRIG_ONE,
    ensures
        -TRIG_ONE * SHIP_TOP_SPEED <= u * SHIP_TOP_SPEED <= TRIG_ONE * SHIP_TOP_SPEED,
        -SHIP_TOP_SPEED <= tdiv(u * SHIP_TOP_SPEED, TRIG_ONE as int) <= SHIP_TOP_SPEED,
{
    let k = SHIP_TOP_SPEED as int;
    let t = TRIG_ONE as int;
    assert(-t * k <= u * k <= t * k) by (nonlinear_arith)
        requires -t <= u <= t, k > 0;
    lemma_tdiv_bound(u * k, t, t * k);
    assert((t * k) / t == k) by (nonlinear_arith)
        requires t > 0;
}

/// Each component of a vector is within its length; a vector of length
/// zero is the zero vector.
proof fn lemma_speed_bounds(v: Vec2, len: int)
    requires
        within(v, 2 * COORD_LIMIT),
        len == sqrt_of(length_sq_of(v)),
        crate::geometry::is_isqrt(length_sq_of(v), len),
    ensures
        -len <= v.x <= len,
        -len <= v.y <= len,
        len == 0 <==> is_zero(v),
{
    assert(v.x * v.x >= 0 && v.y * v.y >= 0) by (nonlinear_arith);
    if is_zero(v) {
        assert(v.x * v.x == 0 && v.y * v.y == 0) by (nonlinear_arith)
            requires v.x == 0, v.y == 0;
        assert(length_sq_of(v) == 0);
        assert(len == 0) by (nonlinear_arith)
            requires len * len <= 0, len >= 0;
    }
    lemma_component_le_length(v.x as int, length_sq_of(v), len);
    lemma_component_le_length(v.y as int, length_sq_of(v), len);
}

} // verus!
