use vstd::prelude::*;
use crate::geometry::{tdiv, within, Vec2, SPAWN_LIMIT, TAU_MRAD, TRIG_ONE};
use crate::lifecycle::IsActive;
use crate::motion::{heading_velocity, lemma_tdiv_bound};
use crate::particle::{stepped, Particle, PARTICLE_LIFE_LIMIT, PARTICLE_SPEED_LIMIT};
use crate::random::random_number;
use crate::rotation::{normalize_angle, normalized, TrigTable};

verus! {

/// Particles in one burst.
pub const PARTICLE_COUNT: usize = 8;

/// Distance from the burst centre at which particles start, in milli-units.
pub const BURST_RADIUS: i64 = 3000;

/// Angular share of one particle, in milliradians.
pub const SLICE_MRAD: i64 = 785;

/// Largest magnitude of a particle's angle jitter, in milliradians.
pub const JITTER_LIMIT: i64 = 10_000;

/// The random draws for one particle of a burst.
#[derive(Clone, Copy, Debug, PartialEq, Eq, Structural)]
pub struct BurstDraw {
    /// Angle jitter in milliradians, scaled by the particle's slice.
    pub jitter: i64,
    /// Lifetime in milliseconds.
    pub life_ms: u32,
    /// Speed in milli-units per second.
    pub speed: i64,
}

pub open spec fn draw_in_range(d: BurstDraw) -> bool {
    -JITTER_LIMIT <= d.jitter <= JITTER_LIMIT && d.life_ms <= PARTICLE_LIFE_LIMIT && 0 <= d.speed
        <= PARTICLE_SPEED_LIMIT
}

/// Heading of particle `i`: its index in radians plus the jitter scaled by
/// a slice of the full turn.
pub open spec fn particle_heading(i: int, jitter: int) -> int {
    normalized(i * 1000 + tdiv(jitter * SLICE_MRAD, 1000))
}

/// Particle `p` is particle `i` of a fresh burst centred on `(x, y)`.
pub open spec fn launched(p: Particle, i: int, x: i64, y: i64, d: BurstDraw, trig: TrigTable) -> bool {
    let h = particle_heading(i, d.jitter as int);
    &&& p.wf()
    &&& p.live()
    &&& p.age() == 0
    &&& p.heading() == h
    &&& p.position() == (Vec2 {
        x: (x + tdiv(trig.cos_at(h) * BURST_RADIUS, TRIG_ONE as int)) as i64,
        y: (y + tdiv(trig.sin_at(h) * BURST_RADIUS, TRIG_ONE as int)) as i64,
    })
    &&& p.velocity() == heading_velocity(trig, h, d.speed as int)
    &&& p.lifetime() == d.life_ms
}

/// The ranges from which `Explosion::new` draws: jitter in [1000, 3140)
/// milliradians, lifetime in [1500, 2500) ms, speed in [100, 200) units/s.
pub open spec fn burst_draw(d: BurstDraw) -> bool {
    &&& 1000 <= d.jitter < 3140
    &&& 1500 <= d.life_ms < 2500
    &&& 100_000 <= d.speed < 200_000
}

/// Particle `p` is particle `i` of a fresh burst centred on `(x, y)`, for
/// some draw from the ranges of `burst_draw`.
pub open spec fn launched_by_some_draw(p: Particle, i: int, x: i64, y: i64, trig: TrigTable) -> bool {
    exists|d: BurstDraw| burst_draw(d) && #[trigger] launched(p, i, x, y, d, trig)
}

/// `e` is a fresh burst centred on `(x, y)`.
pub open spec fn burst_at(e: Explosion, x: i64, y: i64, trig: TrigTable) -> bool {
    &&& e.wf()
    &&& e.live()
    &&& e.dead_tally() == 0
    &&& e.parts().len() == PARTICLE_COUNT
    &&& forall|i: int|
        0 <= i < PARTICLE_COUNT ==> launched_by_some_draw(#[trigger] e.parts()[i], i, x, y, trig)
}

/// Number of inactive particles.
pub open spec fn dead_count(s: Seq<Particle>) -> nat
    decreases s.len(),
{
    if s.len() == 0 {
        0
    } else {
        dead_count(s.drop_last()) + if s.last().live() {
            0nat
        } else {
            1nat
        }
    }
}

pub open spec fn any_live(s: Seq<Particle>) -> bool {
    exists|i: int| 0 <= i < s.len() && (#[trigger] s[i]).live()
}

/// `after` is `before` after one tick of `delta_ms` milliseconds: every
/// particle advanced, the dead ones counted, and the burst ended exactly
/// when none is left; an inactive burst stays as it is.
pub open spec fn burst_stepped(before: Explosion, after: Explosion, delta_ms: int, trig: TrigTable) -> bool {
    &&& after.parts().len() == PARTICLE_COUNT
    &&& !before.live() ==> after == before
    &&& before.live() ==> {
        &&& forall|i: int|
            0 <= i < PARTICLE_COUNT ==> stepped(
                #[trigger] before.parts()[i],
                after.parts()[i],
                delta_ms,
                trig,
            )
        &&& after.dead_tally() == dead_count(after.parts())
        &&& after.live() == any_live(after.parts())
    }
}

/// A fan of short-lived particles that ends itself once all have expired.
pub struct Explosion {
    particles: Vec<Particle>,
    tally: usize,
    is_active: bool,
}

impl IsActive for Explosion {
    closed spec fn live(&self) -> bool {
        self.is_active
    }

    closed spec fn killed(&self) -> Self {
        Explosion { is_active: false, ..*self }
    }

    proof fn lemma_killed_is_dead(&self) {
    }

    fn is_active(&self) -> (r: bool) {
        self.is_active
    }

    fn kill(&mut self) {
        self.is_active = false;
    }
}

impl Explosion {
    pub closed spec fn parts(&self) -> Seq<Particle> {
        self.particles@
    }

    pub closed spec fn dead_tally(&self) -> int {
        self.tally as int
    }

    pub closed spec fn wf(&self) -> bool {
        &&& self.particles@.len() == PARTICLE_COUNT
        &&& forall|i: int| 0 <= i < PARTICLE_COUNT ==> (#[trigger] self.particles@[i]).wf()
        &&& self.tally <= PARTICLE_COUNT
    }

    /// A burst centred on `(x, y)` whose particles take their angle jitter,
    /// lifetime and speed at random.
    pub fn new(x: i64, y: i64, trig: &TrigTable) -> (r: Explosion)
        requires
            trig.wf(),
            within(Vec2 { x, y }, SPAWN_LIMIT as int),
        ensures
            burst_at(r, x, y, *trig),
    {
        let mut draws: Vec<BurstDraw> = Vec::new();
        let mut i: usize = 0;
        while i < PARTICLE_COUNT
            invariant
                i <= PARTICLE_COUNT,
                draws@.len() == i,
                forall|k: int| 0 <= k < i ==> burst_draw(#[trigger] draws@[k]),
            decreases PARTICLE_COUNT - i,
        {
            let jitter = random_number(1000, 3140);
            let life = random_number(1500, 2500);
            let speed = random_number(100_000, 200_000);
            draws.push(BurstDraw { jitter, life_ms: life as u32, speed });
            i += 1;
        }
        assert forall|k: int| 0 <= k < PARTICLE_COUNT implies draw_in_range(#[trigger] draws@[k]) by {
            assert(burst_draw(draws@[k]));
        }
        let r = Self::from_draws(x, y, &draws, trig);
        assert forall|i: int| 0 <= i < PARTICLE_COUNT implies launched_by_some_draw(
            #[trigger] r.parts()[i],
            i,
            x,
            y,
            *trig,
        ) by {
            assert(burst_draw(draws@[i]) && launched(r.parts()[i], i, x, y, draws@[i], *trig));
        }
        r
    }

    /// A burst centred on `(x, y)` from the given draws, one per particle.
    pub fn from_draws(x: i64, y: i64, draws: &Vec<BurstDraw>, trig: &TrigTable) -> (r: Explosion)
        requires
            trig.wf(),
            within(Vec2 { x, y }, SPAWN_LIMIT as int),
            draws@.len() == PARTICLE_COUNT,
            forall|k: int| 0 <= k < PARTICLE_COUNT ==> draw_in_range(#[trigger] draws@[k]),
        ensures
            r.wf(),
            r.live(),
            r.dead_tally() == 0,
            r.parts().len() == PARTICLE_COUNT,
            forall|i: int|
                0 <= i < PARTICLE_COUNT ==> launched(#[trigger] r.parts()[i], i, x, y, draws@[i], *trig),
    {
        let mut p: Vec<Particle> = Vec::new();
        let mut idx: usize = 0;
        while idx < PARTICLE_COUNT
            invariant
                trig.wf(),
                within(Vec2 { x, y }, SPAWN_LIMIT as int),
                draws@.len() == PARTICLE_COUNT,
                forall|k: int| 0 <= k < PARTICLE_COUNT ==> draw_in_range(#[trigger] draws@[k]),
                idx <= PARTICLE_COUNT,
                p@.len() == idx,
                forall|i: int| 0 <= i < idx ==> launched(#[trigger] p@[i], i, x, y, draws@[i], *trig),
            decreases PARTICLE_COUNT - idx,
        {
            let d = draws[idx];
            assert(draw_in_range(draws@[idx as int]));
            proof {
                lemma_jitter_bound(d.jitter as int);
            }
            let ang = normalize_angle((idx as i64) * 1000 + d.jitter * SLICE_MRAD / 1000);
            let (c, s) = trig.lookup(ang);
            proof {
                lemma_offset_bound(c as int);
                lemma_offset_bound(s as int);
            }
            let px = x + c * BURST_RADIUS / TRIG_ONE;
            let py = y + s * BURST_RADIUS / TRIG_ONE;
            let mut particle = Particle::new();
            particle.init(px, py, d.speed, ang, d.life_ms, trig);
            proof {
                vstd::arithmetic::div_mod::lemma_small_mod(ang as nat, TAU_MRAD as nat);
            }
            p.push(particle);
            idx += 1;
        }
        Explosion { tally: 0, particles: p, is_active: true }
    }

    /// The particles, for drawing.
    pub fn get_particles(&self) -> (r: &Vec<Particle>)
        ensures
            r@ == self.parts(),
    {
        &self.particles
    }

    /// Advances every particle of an active burst and counts the dead ones;
    /// the burst ends in the tick in which its last particle expires.
    pub fn update(&mut self, delta_ms: u16, trig: &TrigTable)
        requires
            old(self).wf(),
            trig.wf(),
        ensures
            final(self).wf(),
            burst_stepped(*old(self), *final(self), delta_ms as int, *trig),
    {
        if self.is_active {
            let ghost before = self.particles@;
            let mut dead: usize = 0;
            let mut i: usize = 0;
            while i < self.particles.len()
                invariant
                    trig.wf(),
                    self.is_active,
                    self.particles@.len() == PARTICLE_COUNT,
                    before.len() == PARTICLE_COUNT,
                    i <= PARTICLE_COUNT,
                    forall|k: int| 0 <= k < PARTICLE_COUNT ==> (#[trigger] self.particles@[k]).wf(),
                    forall|k: int|
                        0 <= k < i ==> stepped(
                            #[trigger] before[k],
                            self.particles@[k],
                            delta_ms as int,
                            *trig,
                        ),
                    forall|k: int| i <= k < PARTICLE_COUNT ==> #[trigger] self.particles@[k] == before[k],
                    dead == dead_count(self.particles@.take(i as int)),
                    dead <= i,
                decreases PARTICLE_COUNT - i,
            {
                let ghost prior = self.particles@;
                self.particles[i].update(delta_ms, trig);
                proof {
                    assert(self.particles@.take(i as int + 1).drop_last() =~= prior.take(i as int));
                    assert(self.particles@.take(i as int + 1).last() == self.particles@[i as int]);
                }
                if self.particles[i].is_dead() {
                    dead += 1;
                }
                i += 1;
            }
            assert(self.particles@.take(PARTICLE_COUNT as int) =~= self.particles@);
            self.tally = dead;
            proof {
                lemma_dead_count_full(self.particles@);
            }
            if self.tally >= self.particles.len() {
                self.kill();
            }
        }
    }
}

/// All particles are dead exactly when the dead count is the whole burst.
proof fn lemma_dead_count_full(s: Seq<Particle>)
    ensures
        dead_count(s) <= s.len(),
        (dead_count(s) == s.len()) == !any_live(s),
    decreases s.len(),
{
    if s.len() > 0 {
        lemma_dead_count_full(s.drop_last());
        if any_live(s.drop_last()) {
            let i = choose|i: int| 0 <= i < s.drop_last().len() && (#[trigger] s.drop_last()[i]).live();
            assert(s[i].live());
        }
        if any_live(s) {
            let i = choose|i: int| 0 <= i < s.len() && (#[trigger] s[i]).live();
            if i < s.len() - 1 {
                assert(s.drop_last()[i].live());
            }
        }
        if !s.last().live() && !any_live(s.drop_last()) {
            assert forall|i: int| 0 <= i < s.len() implies !(#[trigger] s[i]).live() by {
                if i < s.len() - 1 {
                    assert(s[i] == s.drop_last()[i]);
                }
            }
        }
    }
}

proof fn lemma_jitter_bound(j: int)
    requires
        -JITTER_LIMIT <= j <= JITTER_LIMIT,
    ensures
        -JITTER_LIMIT * SLICE_MRAD <= j * SLICE_MRAD <= JITTER_LIMIT * SLICE_MRAD,
        -JITTER_LIMIT * SLICE_MRAD <= tdiv(j * SLICE_MRAD, 1000) <= JITTER_LIMIT * SLICE_MRAD,
{
    assert(-JITTER_LIMIT * SLICE_MRAD <= j * SLICE_MRAD <= JITTER_LIMIT * SLICE_MRAD) by (nonlinear_arith)
        requires -JITTER_LIMIT <= j <= JITTER_LIMIT;
    lemma_tdiv_bound(j * SLICE_MRAD, 1000, JITTER_LIMIT * SLICE_MRAD);
}

proof fn lemma_offset_bound(c: int)
    requires
        -TRIG_ONE <= c <= TRIG_ONE,
    ensures
        -TRIG_ONE * BURST_RADIUS <= c * BURST_RADIUS <= TRIG_ONE * BURST_RADIUS,
        -BURST_RADIUS <= tdiv(c * BURST_RADIUS, TRIG_ONE as int) <= BURST_RADIUS,
{
    assert(-TRIG_ONE * BURST_RADIUS <= c * BURST_RADIUS <= TRIG_ONE * BURST_RADIUS) by (nonlinear_arith)
        requires -TRIG_ONE <= c <= TRIG_ONE;
    lemma_tdiv_bound(c * BURST_RADIUS, TRIG_ONE as int, TRIG_ONE * BURST_RADIUS);
}

} // verus!
