use vstd::prelude::*;
use crate::geometry::{within, Vec2, POS_LIMIT};
use crate::rotation::{local_ring, transform_points, world_ring, TrigTable};
use crate::ship::ship_model;

verus! {

/// Lives at the start of a session.
pub const START_LIVES: usize = 3;

/// Heading of the life markers, in milliradians (pointing up).
pub const MARKER_ANGLE: i64 = 4780;

/// Horizontal distance between two life markers.
pub const MARKER_GAP: i64 = 30_000;

/// One life marker: a small ship outline.
pub struct LifePoint {
    angle: i64,
    is_active: bool,
    position: Vec2,
    points: Vec<Vec2>,
    transform_points: Vec<Vec2>,
}

impl LifePoint {
    pub closed spec fn live(&self) -> bool {
        self.is_active
    }

    pub closed spec fn position(&self) -> Vec2 {
        self.position
    }

    pub closed spec fn ring(&self) -> Seq<Vec2> {
        self.transform_points@
    }

    pub closed spec fn wf(&self) -> bool {
        &&& self.angle == MARKER_ANGLE
        &&& within(self.position, POS_LIMIT as int)
        &&& self.points@ == ship_model()
    }

    fn new(x: i64, y: i64) -> (r: LifePoint)
        requires
            within(Vec2 { x, y }, POS_LIMIT as int),
        ensures
            r.wf(),
            r.live(),
            r.position() == (Vec2 { x, y }),
    {
        let n7: i64 = -7000;
        let n10: i64 = -10000;
        let p = vec![
            Vec2::new(10000, 0),
            Vec2::new(n10, n7),
            Vec2::new(n10, 7000),
            Vec2::new(10000, 0),
        ];
        assert(p@ =~= ship_model());
        LifePoint {
            is_active: true,
            position: Vec2::new(x, y),
            angle: MARKER_ANGLE,
            points: p,
            transform_points: vec![Vec2::new(0, 0); 4],
        }
    }

    fn kill(&mut self)
        ensures
            !final(self).live(),
            final(self).position() == old(self).position(),
            old(self).wf() ==> final(self).wf(),
    {
        self.is_active = false;
    }

    pub fn is_active(&self) -> (r: bool)
        ensures
            r == self.live(),
    {
        self.is_active
    }

    /// The world-space outline, as last computed by `update`.
    pub fn get_tp(&self) -> (r: &Vec<Vec2>)
        ensures
            r@ == self.ring(),
    {
        &self.transform_points
    }

    fn update_points(&mut self, trig: &TrigTable)
        requires
            old(self).wf(),
            trig.wf(),
        ensures
            final(self).wf(),
            final(self).live() == old(self).live(),
            final(self).position() == old(self).position(),
            final(self).ring() == world_ring(ship_model(), *trig, MARKER_ANGLE as int, old(self).position()),
    {
        assert(local_ring(ship_model()));
        self.transform_points = transform_points(&self.points, trig, self.angle, self.position);
    }

    fn update(&mut self, trig: &TrigTable)
        requires
            old(self).wf(),
            trig.wf(),
        ensures
            final(self).wf(),
            final(self).live() == old(self).live(),
            final(self).position() == old(self).position(),
            old(self).live() ==> final(self).ring() == world_ring(
                ship_model(),
                *trig,
                MARKER_ANGLE as int,
                old(self).position(),
            ),
    {
        if self.is_active {
            self.update_points(trig);
        }
    }
}

/// The life counter with one marker per remaining life.
pub struct Lives {
    amount: usize,
    total: Vec<LifePoint>,
}

impl Lives {
    pub closed spec fn count(&self) -> int {
        self.amount as int
    }

    pub closed spec fn markers(&self) -> Seq<LifePoint> {
        self.total@
    }

    /// Exactly the first `count` markers are shown.
    pub closed spec fn wf(&self) -> bool {
        &&& self.total@.len() == START_LIVES
        &&& self.amount <= START_LIVES
        &&& forall|i: int|
            0 <= i < START_LIVES ==> (#[trigger] self.total@[i]).wf() && (self.total@[i].live() <==> i
                < self.amount)
    }

    pub proof fn lemma_count(&self)
        ensures
            0 <= self.count(),
            self.wf() ==> self.count() <= START_LIVES,
    {
    }

    /// A full counter with its markers in a row starting at `(x, y)`.
    pub fn new(x: i64, y: i64) -> (r: Lives)
        requires
            within(Vec2 { x, y }, POS_LIMIT - 2 * MARKER_GAP),
        ensures
            r.wf(),
            r.count() == START_LIVES,
            r.markers().len() == START_LIVES,
            forall|i: int| 0 <= i < START_LIVES ==> (#[trigger] r.markers()[i]).live(),
    {
        let t = vec![
            LifePoint::new(x, y),
            LifePoint::new(x + MARKER_GAP, y),
            LifePoint::new(x + 2 * MARKER_GAP, y),
        ];
        let a = t.len();
        Lives { total: t, amount: a }
    }

    pub fn get_amount(&self) -> (r: usize)
        ensures
            r == self.count(),
    {
        self.amount
    }

    /// The markers, for drawing.
    pub fn get_markers(&self) -> (r: &Vec<LifePoint>)
        ensures
            r@ == self.markers(),
    {
        &self.total
    }

    /// Takes one life, if any is left, and hides its marker.
    pub fn remove_life(&mut self)
        requires
            old(self).wf(),
        ensures
            final(self).wf(),
            final(self).count() == if old(self).count() > 0 {
                old(self).count() - 1
            } else {
                0
            },
            final(self).markers().len() == START_LIVES,
            forall|i: int|
                0 <= i < START_LIVES ==> ((#[trigger] final(self).markers()[i]).live() <==> i
                    < final(self).count()),
            forall|i: int|
                0 <= i < START_LIVES && i != old(self).count() - 1 ==> #[trigger] final(self).markers()[i]
                    == old(self).markers()[i],
    {
        if self.amount > 0 {
            let ghost before = self.total@;
            let k = self.amount - 1;
            self.total[k].kill();
            self.amount = k;
            assert forall|i: int| 0 <= i < START_LIVES implies (#[trigger] self.total@[i]).wf() && (
            self.total@[i].live() <==> i < self.amount) by {
                if i != k {
                    assert(self.total@[i] == before[i]);
                }
            }
        }
    }

    /// Recomputes the outlines of the shown markers.
    pub fn update(&mut self, trig: &TrigTable)
        requires
            old(self).wf(),
            trig.wf(),
        ensures
            final(self).wf(),
            final(self).count() == old(self).count(),
    {
        let mut i: usize = 0;
        while i < self.total.len()
            invariant
                trig.wf(),
                self.total@.len() == START_LIVES,
                self.amount <= START_LIVES,
                self.amount == old(self).amount,
                forall|j: int|
                    0 <= j < START_LIVES ==> (#[trigger] self.total@[j]).wf() && (self.total@[j].live()
                        <==> j < self.amount),
            decreases START_LIVES - i,
        {
            let ghost before = self.total@;
            self.total[i].update(trig);
            assert forall|j: int| 0 <= j < START_LIVES implies (#[trigger] self.total@[j]).wf() && (
            self.total@[j].live() <==> j < self.amount) by {
                if j != i {
                    assert(self.total@[j] == before[j]);
                }
            }
            i += 1;
        }
    }
}

} // verus!
