use vstd::prelude::*;
use crate::boxarea::BoxArea;
use crate::geometry::{ring_in_field, within, Vec2, POS_LIMIT, SPAWN_LIMIT, TAU_MRAD};
use crate::lifecycle::IsActive;
use crate::motion::{
    heading_velocity, integrate, lemma_tdiv_bound, moved, velocity_along, BaseObject,
};
use crate::rotation::{local_ring, normalize_angle, normalized, transform_points, world_ring, TrigTable};
use crate::geometry::pt;

verus! {

/// Speed of every bullet, in milli-units per second.
pub const BULLET_SPEED: i64 = 400_000;

/// How long a bullet flies, in milliseconds.
pub const BULLET_LIFE_MS: u32 = 1500;

/// Width and height of a bullet's bounding area.
pub const BULLET_BOX: i64 = 10_000;

/// Who fired a bullet: enemy bullets never hit asteroids.
#[derive(Clone, Copy, Debug, PartialEq, Eq, Structural)]
pub enum ShooterType {
    PLAYER,
    ALIEN,
}

/// The bullet's outline template, closed.
pub open spec fn bullet_model() -> Seq<Vec2> {
    seq![pt(5000, -200), pt(5000, 200), pt(-5000, 200), pt(-5000, -200), pt(5000, -200)]
}

/// `after` is `before` after one tick of `delta_ms` milliseconds: flight,
/// ageing and expiry, with the bounding area and outline following; an
/// inactive bullet stays as it is.
pub open spec fn bullet_stepped(before: Bullet, after: Bullet, delta_ms: int, trig: TrigTable) -> bool {
    &&& !before.live() ==> after == before
    &&& before.live() ==> {
        &&& after.position() == moved(
            before.position(),
            before.velocity(),
            delta_ms,
        )
        &&& after.age() == before.age() + delta_ms
        &&& after.live() == (after.age() <= BULLET_LIFE_MS)
        &&& after.bounds().top_left() == (Vec2 {
            x: (after.position().x - BULLET_BOX / 2) as i64,
            y: (after.position().y - BULLET_BOX / 2) as i64,
        })
        &&& after.ring() == world_ring(
            bullet_model(),
            trig,
            before.heading(),
            after.position(),
        )
        &&& after.velocity() == before.velocity()
        &&& after.heading() == before.heading()
        &&& after.shooter() == before.shooter()
    }
}

/// `b` is a bullet just fired from `(x, y)` along heading `ang` by `mask`.
pub open spec fn fresh_bullet(b: Bullet, x: i64, y: i64, ang: int, mask: ShooterType, trig: TrigTable) -> bool {
    &&& b.wf()
    &&& b.live()
    &&& b.position() == (Vec2 { x, y })
    &&& b.heading() == normalized(ang)
    &&& b.velocity() == heading_velocity(trig, normalized(ang), BULLET_SPEED as int)
    &&& b.age() == 0
    &&& b.shooter() == mask
    &&& b.bounds().top_left() == (Vec2 { x, y })
    &&& b.bounds().extent() == (Vec2 { x: BULLET_BOX, y: BULLET_BOX })
}

/// A straight-flying projectile with a limited lifetime.
pub struct Bullet {
    base: BaseObject,
    life_timer: u32,
    max_life_time: u32,
    bullet_points: Vec<Vec2>,
    transform_points: Vec<Vec2>,
    is_debug: bool,
    mask: ShooterType,
    box_area: BoxArea,
}

impl IsActive for Bullet {
    closed spec fn live(&self) -> bool {
        self.base.is_active
    }

    closed spec fn killed(&self) -> Self {
        Bullet { base: BaseObject { is_active: false, ..self.base }, ..*self }
    }

    proof fn lemma_killed_is_dead(&self) {
    }

    fn is_active(&self) -> (r: bool) {
        self.base.is_active
    }

    fn kill(&mut self) {
        self.base.is_active = false;
    }
}

impl Bullet {
    pub closed spec fn position(&self) -> Vec2 {
        self.base.position
    }

    pub closed spec fn velocity(&self) -> Vec2 {
        self.base.velocity
    }

    pub closed spec fn heading(&self) -> int {
        self.base.angle as int
    }

    pub closed spec fn age(&self) -> int {
        self.life_timer as int
    }

    pub closed spec fn shooter(&self) -> ShooterType {
        self.mask
    }

    pub closed spec fn ring(&self) -> Seq<Vec2> {
        self.transform_points@
    }

    pub closed spec fn bounds(&self) -> BoxArea {
        self.box_area
    }

    pub closed spec fn wf(&self) -> bool {
        &&& self.max_life_time == BULLET_LIFE_MS
        &&& self.life_timer <= BULLET_LIFE_MS + 65535
        &&& self.base.is_active ==> self.life_timer <= BULLET_LIFE_MS
        &&& within(self.base.velocity, BULLET_SPEED as int)
        &&& within(self.base.position, POS_LIMIT + 400 * self.life_timer)
        &&& 0 <= self.base.angle < TAU_MRAD
        &&& self.bullet_points@ == bullet_model()
        &&& self.transform_points@.len() == 5
        &&& ring_in_field(self.transform_points@)
        &&& self.box_area.wf()
        &&& self.box_area.extent() == (Vec2 { x: BULLET_BOX, y: BULLET_BOX })
    }

    /// Killing changes nothing but the active flag.
    pub proof fn lemma_killed(&self)
        ensures
            !self.killed().live(),
            self.killed().position() == self.position(),
            self.killed().velocity() == self.velocity(),
            self.killed().heading() == self.heading(),
            self.killed().age() == self.age(),
            self.killed().shooter() == self.shooter(),
            self.killed().ring() == self.ring(),
            self.killed().bounds() == self.bounds(),
            self.wf() ==> self.killed().wf(),
    {
    }

    pub proof fn lemma_wf(&self)
        requires
            self.wf(),
        ensures
            self.ring().len() == 5,
            ring_in_field(self.ring()),
            self.bounds().wf(),
            within(self.position(), SPAWN_LIMIT as int),
    {
    }

    /// A bullet fired from `(x, y)` along heading `ang`.
    pub fn new(x: i64, y: i64, ang: i64, mask: ShooterType, trig: &TrigTable) -> (r: Bullet)
        requires
            trig.wf(),
            within(Vec2 { x, y }, POS_LIMIT as int),
        ensures
            fresh_bullet(r, x, y, ang as int, mask, *trig),
            r.wf(),
            r.live(),
            r.position() == (Vec2 { x, y }),
            r.heading() == normalized(ang as int),
            r.velocity() == heading_velocity(*trig, normalized(ang as int), BULLET_SPEED as int),
            r.age() == 0,
            r.shooter() == mask,
            r.bounds().top_left() == (Vec2 { x, y }),
            r.bounds().extent() == (Vec2 { x: BULLET_BOX, y: BULLET_BOX }),
    {
        let nw: i64 = -5000;
        let nh: i64 = -200;
        let bullet_v = vec![
            Vec2::new(5000, nh),
            Vec2::new(5000, 200),
            Vec2::new(nw, 200),
            Vec2::new(nw, nh),
            Vec2::new(5000, nh),
        ];
        assert(bullet_v@ =~= bullet_model());
        let angle = normalize_angle(ang);
        let velocity = velocity_along(trig, angle, BULLET_SPEED);
        let ba = BoxArea::new(x, y, BULLET_BOX, BULLET_BOX);
        Bullet {
            base: BaseObject {
                position: Vec2::new(x, y),
                velocity,
                acceleration: BULLET_SPEED,
                is_active: true,
                angle,
            },
            life_timer: 0,
            max_life_time: BULLET_LIFE_MS,
            bullet_points: bullet_v,
            transform_points: vec![Vec2::new(0, 0); 5],
            is_debug: false,
            box_area: ba,
            mask,
        }
    }

    /// Who fired this bullet.
    pub fn get_shooter_type(&self) -> (r: ShooterType)
        ensures
            r == self.shooter(),
    {
        self.mask
    }

    /// The world-space outline, as last computed by `update`.
    pub fn get_tp(&self) -> (r: &Vec<Vec2>)
        ensures
            r@ == self.ring(),
    {
        &self.transform_points
    }

    pub fn get_box_area(&self) -> (r: &BoxArea)
        ensures
            *r == self.bounds(),
    {
        &self.box_area
    }

    /// Current position.
    pub fn get_position(&self) -> (r: Vec2)
        ensures
            r == self.position(),
    {
        self.base.position
    }

    /// Moves an active bullet, ages it (ending it once its lifetime is
    /// exceeded), re-centres its bounding area and recomputes its outline.
    pub fn update(&mut self, delta_ms: u16, trig: &TrigTable)
        requires
            old(self).wf(),
            trig.wf(),
        ensures
            final(self).wf(),
            bullet_stepped(*old(self), *final(self), delta_ms as int, *trig),
    {
        if self.is_active() {
            let ghost life = self.life_timer as int;
            let p = self.base.position;
            let v = self.base.velocity;
            proof {
                lemma_bullet_step(v.x as int, delta_ms as int);
                lemma_bullet_step(v.y as int, delta_ms as int);
            }
            let moved = integrate(p, v, delta_ms);
            self.base.position = moved;
            self.life_timer = self.life_timer + delta_ms as u32;
            if self.life_timer > self.max_life_time {
                self.kill();
            }
            proof {
                self.box_area.lemma_bounds();
            }
            self.box_area.set_position(moved);
            self.box_area.update();
            self.update_points(trig);
        }
    }

    fn update_points(&mut self, trig: &TrigTable)
        requires
            trig.wf(),
            0 <= old(self).base.angle < TAU_MRAD,
            within(old(self).base.position, 2 * POS_LIMIT),
            old(self).bullet_points@ == bullet_model(),
        ensures
            *final(self) == (Bullet { transform_points: final(self).transform_points, ..*old(self) }),
            final(self).transform_points@ == world_ring(
                bullet_model(),
                *trig,
                old(self).base.angle as int,
                old(self).base.position,
            ),
            final(self).transform_points@.len() == 5,
            ring_in_field(final(self).transform_points@),
    {
        assert(local_ring(bullet_model()));
        self.transform_points = transform_points(
            &self.bullet_points,
            trig,
            self.base.angle,
            self.base.position,
        );
    }
}

/// A bullet moves at most 400 milli-units per millisecond.
proof fn lemma_bullet_step(v: int, d: int)
    requires
        -BULLET_SPEED <= v <= BULLET_SPEED,
        0 <= d <= 65535,
    ensures
        -400 * d <= crate::geometry::tdiv(v * d, 1000) <= 400 * d,
{
    assert(-(BULLET_SPEED * d) <= v * d <= BULLET_SPEED * d) by (nonlinear_arith)
        requires -BULLET_SPEED <= v <= BULLET_SPEED, 0 <= d;
    lemma_tdiv_bound(v * d, 1000, BULLET_SPEED * d);
    assert((BULLET_SPEED * d) / 1000 == 400 * d);
}

} // verus!
