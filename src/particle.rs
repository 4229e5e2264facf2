use vstd::prelude::*;
use crate::geometry::pt;
use crate::geometry::{ring_in_field, within, Vec2, POS_LIMIT, TAU_MRAD};
use crate::lifecycle::IsActive;
use crate::motion::{heading_velocity, integrate, lemma_tdiv_bound, moved, velocity_along, BaseObject};
use crate::rotation::{local_ring, normalize_angle, normalized, transform_points, world_ring, TrigTable};

verus! {

/// Largest speed of a particle, in milli-units per second.
pub const PARTICLE_SPEED_LIMIT: i64 = 1_000_000;

/// Largest lifetime of a particle, in milliseconds.
pub const PARTICLE_LIFE_LIMIT: u32 = 100_000;

/// Largest magnitude of a particle's starting coordinate.
pub const PARTICLE_START_LIMIT: i64 = 103_079_215_104;

/// The particle's segment template.
pub open spec fn particle_model() -> Seq<Vec2> {
    seq![pt(-3000, 0), pt(3000, 0)]
}

/// `after` is `before` advanced by one tick of `delta_ms` milliseconds: an
/// inactive particle stays as it is; an active one ages, dies once its age
/// reaches its lifetime, and moves in a straight line.
pub open spec fn stepped(before: Particle, after: Particle, delta_ms: int, trig: TrigTable) -> bool {
    &&& !before.live() ==> after == before
    &&& before.live() ==> {
        &&& after.age() == before.age() + delta_ms
        &&& after.live() == (after.age() < before.lifetime())
        &&& after.position() == moved(before.position(), before.velocity(), delta_ms)
        &&& after.velocity() == before.velocity()
        &&& after.lifetime() == before.lifetime()
        &&& after.ring() == world_ring(particle_model(), trig, before.heading(), after.position())
    }
}

/// A short line segment flying straight until its lifetime runs out.
pub struct Particle {
    base: BaseObject,
    points: Vec<Vec2>,
    transform_points: Vec<Vec2>,
    life_time: u32,
    max_life_time: u32,
}

impl IsActive for Particle {
    closed spec fn live(&self) -> bool {
        self.base.is_active
    }

    closed spec fn killed(&self) -> Self {
        Particle { base: BaseObject { is_active: false, ..self.base }, ..*self }
    }

    proof fn lemma_killed_is_dead(&self) {
    }

    fn is_active(&self) -> (r: bool) {
        self.base.is_active
    }

    fn kill(&mut self) {
        self.base.is_active = false;
    }
}

impl Particle {
    pub closed spec fn position(&self) -> Vec2 {
        self.base.position
    }

    pub closed spec fn velocity(&self) -> Vec2 {
        self.base.velocity
    }

    pub closed spec fn heading(&self) -> int {
        self.base.angle as int
    }

    pub closed spec fn age(&self) -> int {
        self.life_time as int
    }

    pub closed spec fn lifetime(&self) -> int {
        self.max_life_time as int
    }

    pub closed spec fn ring(&self) -> Seq<Vec2> {
        self.transform_points@
    }

    pub closed spec fn wf(&self) -> bool {
        &&& self.max_life_time <= PARTICLE_LIFE_LIMIT
        &&& self.life_time <= PARTICLE_LIFE_LIMIT + 65535
        &&& self.base.is_active ==> self.life_time <= PARTICLE_LIFE_LIMIT
        &&& within(self.base.velocity, PARTICLE_SPEED_LIMIT as int)
        &&& within(self.base.position, PARTICLE_START_LIMIT + 1000 * self.life_time)
        &&& 0 <= self.base.angle < TAU_MRAD
        &&& self.points@ == particle_model()
        &&& self.transform_points@.len() == 2
    }

    /// A resting particle at the origin, to be aimed by `init`.
    pub fn new() -> (r: Particle)
        ensures
            r.wf(),
            r.live(),
            r.position() == (Vec2 { x: 0, y: 0 }),
            r.velocity() == (Vec2 { x: 0, y: 0 }),
            r.age() == 0,
            r.lifetime() == 0,
    {
        let n3: i64 = -3000;
        let p_shape = vec![Vec2::new(n3, 0), Vec2::new(3000, 0)];
        assert(p_shape@ =~= particle_model());
        Particle {
            base: BaseObject {
                position: Vec2::new(0, 0),
                velocity: Vec2::new(0, 0),
                acceleration: 0,
                angle: 0,
                is_active: true,
            },
            points: p_shape,
            transform_points: vec![Vec2::new(0, 0); 2],
            life_time: 0,
            max_life_time: 0,
        }
    }

    /// Places the particle at `(x, y)`, flying along `ang` at `acc`
    /// milli-units per second for `life` milliseconds.
    pub fn init(&mut self, x: i64, y: i64, acc: i64, ang: i64, life: u32, trig: &TrigTable)
        requires
            old(self).wf(),
            trig.wf(),
            within(Vec2 { x, y }, PARTICLE_START_LIMIT as int),
            0 <= acc <= PARTICLE_SPEED_LIMIT,
            life <= PARTICLE_LIFE_LIMIT,
        ensures
            final(self).wf(),
            final(self).position() == (Vec2 { x, y }),
            final(self).heading() == normalized(ang as int),
            final(self).velocity() == heading_velocity(*trig, normalized(ang as int), acc as int),
            final(self).lifetime() == life,
            final(self).age() == old(self).age(),
            final(self).live() == old(self).live(),
    {
        let angle = normalize_angle(ang);
        let v = velocity_along(trig, angle, acc);
        self.base.position = Vec2::new(x, y);
        self.base.velocity = v;
        self.base.angle = angle;
        self.base.acceleration = acc;
        self.max_life_time = life;
    }

    /// The world-space segment, as last computed by `update`.
    pub fn get_tp(&self) -> (r: &Vec<Vec2>)
        ensures
            r@ == self.ring(),
    {
        &self.transform_points
    }

    pub fn is_dead(&self) -> (r: bool)
        ensures
            r == !self.live(),
    {
        self.base.is_active == false
    }

    /// Ages an active particle (ending it once its lifetime is reached),
    /// moves it and recomputes its segment.
    pub fn update(&mut self, delta_ms: u16, trig: &TrigTable)
        requires
            old(self).wf(),
            trig.wf(),
        ensures
            final(self).wf(),
            stepped(*old(self), *final(self), delta_ms as int, *trig),
    {
        if self.base.is_active {
            self.life_time = self.life_time + delta_ms as u32;
            if self.life_time >= self.max_life_time {
                self.kill();
            }
            let v = self.base.velocity;
            proof {
                lemma_particle_step(v.x as int, delta_ms as int);
                lemma_particle_step(v.y as int, delta_ms as int);
            }
            self.base.position = integrate(self.base.position, v, delta_ms);
            self.update_points(trig);
        }
    }

    fn update_points(&mut self, trig: &TrigTable)
        requires
            trig.wf(),
            0 <= old(self).base.angle < TAU_MRAD,
            within(old(self).base.position, 2 * POS_LIMIT),
            old(self).points@ == particle_model(),
        ensures
            *final(self) == (Particle { transform_points: final(self).transform_points, ..*old(self) }),
            final(self).transform_points@ == world_ring(
                particle_model(),
                *trig,
                old(self).base.angle as int,
                old(self).base.position,
            ),
            final(self).transform_points@.len() == 2,
            ring_in_field(final(self).transform_points@),
    {
        assert(local_ring(particle_model()));
        self.transform_points = transform_points(
            &self.points,
            trig,
            self.base.angle,
            self.base.position,
        );
    }
}

/// A particle moves at most 1000 milli-units per millisecond.
proof fn lemma_particle_step(v: int, d: int)
    requires
        -PARTICLE_SPEED_LIMIT <= v <= PARTICLE_SPEED_LIMIT,
        0 <= d <= 65535,
    ensures
        -1000 * d <= crate::geometry::tdiv(v * d, 1000) <= 1000 * d,
{
    assert(-(PARTICLE_SPEED_LIMIT * d) <= v * d <= PARTICLE_SPEED_LIMIT * d) by (nonlinear_arith)
        requires -PARTICLE_SPEED_LIMIT <= v <= PARTICLE_SPEED_LIMIT, 0 <= d;
    lemma_tdiv_bound(v * d, 1000, PARTICLE_SPEED_LIMIT * d);
    assert((PARTICLE_SPEED_LIMIT * d) / 1000 == 1000 * d);
}

} // verus!
