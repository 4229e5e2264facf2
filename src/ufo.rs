use vstd::prelude::*;
use crate::geometry::pt;
use crate::boxarea::BoxArea;
use crate::geometry::{
    ring_in_field, screen_wrap, within, wrapped, Vec2, POS_LIMIT, SCREEN_HEIGHT, SCREEN_WIDTH,
    TAU_MRAD,
};
use crate::lifecycle::IsActive;
use crate::motion::{heading_velocity, integrate, moved, velocity_along, BaseObject, SPEED_LIMIT};
use crate::random::random_number;
use crate::rotation::{local_ring, transform_points, world_ring, TrigTable};

verus! {

/// Time between two enemy shots, in milliseconds.
pub const UFO_SHOOT_MS: u32 = 1500;

/// Time between two random changes of course, in milliseconds.
pub const UFO_TURN_MS: u32 = 2500;

/// Width and height of the enemy craft's bounding area.
pub const UFO_BOX: i64 = 70_000;

/// Margin beyond the screen edge before the enemy craft wraps around.
pub const UFO_PADDING: i64 = 20_000;

/// The enemy craft's outline template, closed.
pub open spec fn ufo_model() -> Seq<Vec2> {
    seq![
        pt(5000, -5000), pt(16000, 0), pt(5000, 5000), pt(-5000, 5000), pt(-16000, 0),
        pt(-5000, -5000), pt(5000, -5000),
    ]
}

/// `after` is `before` advanced by one tick of `delta_ms` milliseconds with
/// `new_heading` as the course taken if the turn clock runs out: the shot
/// clock, the turn clock, movement, wrap and outline.
pub open spec fn advanced(before: Ufo, after: Ufo, delta_ms: int, trig: TrigTable, new_heading: int) -> bool {
    &&& !before.live() ==> after == before
    &&& before.live() ==> {
        let shot_due = before.shoot_clock() + delta_ms >= UFO_SHOOT_MS;
        let turn_due = before.turn_clock() + delta_ms >= UFO_TURN_MS;
        let v = if turn_due {
            heading_velocity(trig, new_heading, before.speed())
        } else {
            before.velocity()
        };
        let p = moved(before.position(), v, delta_ms);
        &&& after.live()
        &&& after.shooting() == shot_due
        &&& after.shoot_clock() == if shot_due {
            0
        } else {
            before.shoot_clock() + delta_ms
        }
        &&& after.turn_clock() == if turn_due {
            0
        } else {
            before.turn_clock() + delta_ms
        }
        &&& after.velocity() == v
        &&& after.speed() == before.speed()
        &&& after.position() == wrapped(
            p,
            SCREEN_WIDTH as int,
            SCREEN_HEIGHT as int,
            UFO_PADDING as int,
        )
        &&& after.bounds().top_left() == (Vec2 {
            x: (after.position().x - UFO_BOX / 2) as i64,
            y: (after.position().y - UFO_BOX / 2) as i64,
        })
        &&& after.bounds().extent() == before.bounds().extent()
        &&& after.ring() == world_ring(ufo_model(), trig, 0, after.position())
    }
}

/// One tick of `update`: `advanced` for some random heading.
pub open spec fn ufo_stepped(before: Ufo, after: Ufo, delta_ms: int, trig: TrigTable) -> bool {
    exists|h: int| 0 <= h < TAU_MRAD && #[trigger] advanced(before, after, delta_ms, trig, h)
}

/// The enemy craft: flies straight, changes course at random every few
/// seconds and signals when it wants to shoot.
pub struct Ufo {
    base: BaseObject,
    shoot_time: u32,
    max_shoot_time: u32,
    turn_time: u32,
    max_turn_time: u32,
    is_shooting: bool,
    points: Vec<Vec2>,
    tp: Vec<Vec2>,
    box_area: BoxArea,
    is_debug: bool,
}

impl IsActive for Ufo {
    closed spec fn live(&self) -> bool {
        self.base.is_active
    }

    closed spec fn killed(&self) -> Self {
        Ufo { base: BaseObject { is_active: false, ..self.base }, ..*self }
    }

    proof fn lemma_killed_is_dead(&self) {
    }

    fn is_active(&self) -> (r: bool) {
        self.base.is_active
    }

    fn kill(&mut self) {
        self.base.is_active = false;
    }
}

impl Ufo {
    pub closed spec fn position(&self) -> Vec2 {
        self.base.position
    }

    pub closed spec fn velocity(&self) -> Vec2 {
        self.base.velocity
    }

    pub closed spec fn speed(&self) -> int {
        self.base.acceleration as int
    }

    pub closed spec fn shoot_clock(&self) -> int {
        self.shoot_time as int
    }

    pub closed spec fn turn_clock(&self) -> int {
        self.turn_time as int
    }

    pub closed spec fn shooting(&self) -> bool {
        self.is_shooting
    }

    pub closed spec fn ring(&self) -> Seq<Vec2> {
        self.tp@
    }

    pub closed spec fn bounds(&self) -> BoxArea {
        self.box_area
    }

    pub closed spec fn wf(&self) -> bool {
        &&& self.max_shoot_time == UFO_SHOOT_MS
        &&& self.max_turn_time == UFO_TURN_MS
        &&& self.shoot_time < UFO_SHOOT_MS
        &&& self.turn_time < UFO_TURN_MS
        &&& 0 <= self.base.acceleration <= SPEED_LIMIT
        &&& within(self.base.velocity, self.base.acceleration as int)
        &&& within(self.base.position, POS_LIMIT as int)
        &&& self.base.angle == 0
        &&& self.points@ == ufo_model()
        &&& self.tp@.len() == 7
        &&& ring_in_field(self.tp@)
        &&& self.box_area.wf()
        &&& self.box_area.extent() == (Vec2 { x: UFO_BOX, y: UFO_BOX })
    }

    /// Killing changes nothing but the active flag.
    pub proof fn lemma_killed(&self)
        ensures
            !self.killed().live(),
            self.killed().position() == self.position(),
            self.killed().velocity() == self.velocity(),
            self.killed().speed() == self.speed(),
            self.killed().shoot_clock() == self.shoot_clock(),
            self.killed().turn_clock() == self.turn_clock(),
            self.killed().shooting() == self.shooting(),
            self.killed().ring() == self.ring(),
            self.killed().bounds() == self.bounds(),
            self.wf() ==> self.killed().wf(),
    {
    }

    pub proof fn lemma_wf(&self)
        requires
            self.wf(),
        ensures
            self.ring().len() == 7,
            ring_in_field(self.ring()),
            self.bounds().wf(),
            within(self.position(), POS_LIMIT as int),
    {
    }

    /// An enemy craft at `(x, y)` flying along heading zero at `acc`
    /// milli-units per second.
    pub fn new(x: i64, y: i64, acc: i64) -> (r: Ufo)
        requires
            within(Vec2 { x, y }, POS_LIMIT as int),
            0 <= acc <= SPEED_LIMIT,
        ensures
            r.wf(),
            r.live(),
            r.position() == (Vec2 { x, y }),
            r.velocity() == (Vec2 { x: acc, y: 0 }),
            r.bounds().top_left() == (Vec2 { x, y }),
            r.bounds().extent() == (Vec2 { x: UFO_BOX, y: UFO_BOX }),
            r.speed() == acc,
            r.shoot_clock() == 0,
            r.turn_clock() == 0,
            !r.shooting(),
    {
        let n5: i64 = -5000;
        let n16: i64 = -16000;
        let p = vec![
            Vec2::new(5000, n5),
            Vec2::new(16000, 0),
            Vec2::new(5000, 5000),
            Vec2::new(n5, 5000),
            Vec2::new(n16, 0),
            Vec2::new(n5, n5),
            Vec2::new(5000, n5),
        ];
        assert(p@ =~= ufo_model());
        let ba = BoxArea::new(x, y, UFO_BOX, UFO_BOX);
        Ufo {
            base: BaseObject {
                position: Vec2::new(x, y),
                velocity: Vec2::new(acc, 0),
                acceleration: acc,
                angle: 0,
                is_active: true,
            },
            points: p,
            shoot_time: 0,
            max_shoot_time: UFO_SHOOT_MS,
            turn_time: 0,
            max_turn_time: UFO_TURN_MS,
            is_shooting: false,
            tp: vec![Vec2::new(0, 0); 7],
            box_area: ba,
            is_debug: false,
        }
    }

    pub fn get_position(&self) -> (r: Vec2)
        ensures
            r == self.position(),
    {
        self.base.position
    }

    /// The world-space outline, as last computed by `update`.
    pub fn get_tp(&self) -> (r: &Vec<Vec2>)
        ensures
            r@ == self.ring(),
    {
        &self.tp
    }

    pub fn get_box_area(&self) -> (r: &BoxArea)
        ensures
            *r == self.bounds(),
    {
        &self.box_area
    }

    /// Whether the craft wants to fire this tick.
    pub fn is_shooting(&self) -> (r: bool)
        ensures
            r == self.shooting(),
    {
        self.is_shooting
    }

    /// One tick of an active craft: the shot clock, a change of course to a
    /// random heading when the turn clock runs out, movement and wrap.
    pub fn update(&mut self, delta_ms: u16, trig: &TrigTable)
        requires
            old(self).wf(),
            trig.wf(),
        ensures
            final(self).wf(),
            ufo_stepped(*old(self), *final(self), delta_ms as int, *trig),
    {
        let new_heading = random_number(0, TAU_MRAD);
        self.advance(delta_ms, trig, new_heading);
    }

    /// One tick of an active craft, with `new_heading` as the course taken
    /// if the turn clock runs out.
    pub fn advance(&mut self, delta_ms: u16, trig: &TrigTable, new_heading: i64)
        requires
            old(self).wf(),
            trig.wf(),
            0 <= new_heading < TAU_MRAD,
        ensures
            final(self).wf(),
            advanced(*old(self), *final(self), delta_ms as int, *trig, new_heading as int),
    {
        if self.is_active() {
            self.shoot_time = self.shoot_time + delta_ms as u32;
            if self.shoot_time >= self.max_shoot_time {
                self.is_shooting = true;
                self.shoot_time = 0;
            } else {
                self.is_shooting = false;
            }
            self.turn_time = self.turn_time + delta_ms as u32;
            if self.turn_time >= self.max_turn_time {
                self.base.velocity = velocity_along(trig, new_heading, self.base.acceleration);
                self.turn_time = 0;
            }
            let p = integrate(self.base.position, self.base.velocity, delta_ms);
            self.base.position = p;
            proof {
                self.box_area.lemma_bounds();
            }
            self.base.position = screen_wrap(p, SCREEN_WIDTH, SCREEN_HEIGHT, UFO_PADDING);
            self.box_area.set_position(self.base.position);
            self.box_area.update();
            self.update_points(trig);
        }
    }

    fn update_points(&mut self, trig: &TrigTable)
        requires
            trig.wf(),
            old(self).base.angle == 0,
            within(old(self).base.position, POS_LIMIT as int),
            old(self).points@ == ufo_model(),
        ensures
            *final(self) == (Ufo { tp: final(self).tp, ..*old(self) }),
            final(self).tp@ == world_ring(ufo_model(), *trig, 0, old(self).base.position),
            final(self).tp@.len() == 7,
            ring_in_field(final(self).tp@),
    {
        assert(local_ring(ufo_model()));
        self.tp = transform_points(&self.points, trig, self.base.angle, self.base.position);
    }
}

} // verus!
