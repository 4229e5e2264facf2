use vstd::prelude::*;
use crate::geometry::{within, Vec2, POS_LIMIT};
use crate::lifecycle::IsActive;

verus! {

/// Largest width or height of a bounding area.
pub const SIZE_LIMIT: i64 = 1_073_741_824;

/// Largest magnitude of a bounding area's corner coordinate.
pub const BOX_LIMIT: i64 = 274_877_906_944;

/// The corners of a `2w` by `2h` rectangle centred on the origin, as a
/// closed ring (the first corner repeated last).
pub open spec fn corner_ring(w: int, h: int) -> Seq<Vec2> {
    seq![
        Vec2 { x: w as i64, y: -h as i64 },
        Vec2 { x: w as i64, y: h as i64 },
        Vec2 { x: -w as i64, y: h as i64 },
        Vec2 { x: -w as i64, y: -h as i64 },
        Vec2 { x: w as i64, y: -h as i64 },
    ]
}

pub open spec fn shifted(s: Seq<Vec2>, d: Vec2) -> Seq<Vec2> {
    s.map_values(|p: Vec2| Vec2 { x: (p.x + d.x) as i64, y: (p.y + d.y) as i64 })
}

/// Axis-aligned rectangle that follows an entity: the broad-phase collider.
pub struct BoxArea {
    position: Vec2,
    size: Vec2,
    offset: Vec2,
    flip_color: bool,
    is_active: bool,
    points: Vec<Vec2>,
    transform_points: Vec<Vec2>,
}

impl IsActive for BoxArea {
    closed spec fn live(&self) -> bool {
        self.is_active
    }

    closed spec fn killed(&self) -> Self {
        BoxArea { is_active: false, ..*self }
    }

    proof fn lemma_killed_is_dead(&self) {
    }

    fn is_active(&self) -> (r: bool) {
        self.is_active
    }

    fn kill(&mut self) {
        self.is_active = false;
    }
}

impl BoxArea {
    /// Top-left corner.
    pub closed spec fn top_left(&self) -> Vec2 {
        self.position
    }

    /// Width and height.
    pub closed spec fn extent(&self) -> Vec2 {
        self.size
    }

    /// Half of the extent: the distance from the centre to the top-left corner.
    pub closed spec fn half_extent(&self) -> Vec2 {
        self.offset
    }

    pub closed spec fn active(&self) -> bool {
        self.is_active
    }

    pub closed spec fn highlighted(&self) -> bool {
        self.flip_color
    }

    /// The outline in world space, as last computed by `update`.
    pub closed spec fn outline(&self) -> Seq<Vec2> {
        self.transform_points@
    }

    pub closed spec fn wf(&self) -> bool {
        &&& within(self.position, BOX_LIMIT as int)
        &&& 0 <= self.size.x <= SIZE_LIMIT
        &&& 0 <= self.size.y <= SIZE_LIMIT
        &&& self.offset.x == self.size.x / 2
        &&& self.offset.y == self.size.y / 2
        &&& self.points@ == corner_ring(self.offset.x as int, self.offset.y as int)
        &&& self.transform_points@.len() == 5
    }

    pub proof fn lemma_bounds(&self)
        requires
            self.wf(),
        ensures
            within(self.top_left(), BOX_LIMIT as int),
            0 <= self.extent().x <= SIZE_LIMIT,
            0 <= self.extent().y <= SIZE_LIMIT,
            self.half_extent().x == self.extent().x / 2,
            self.half_extent().y == self.extent().y / 2,
    {
    }

    /// A bounding area of the given extent with its top-left corner at `(x, y)`.
    pub fn new(x: i64, y: i64, width: i64, height: i64) -> (r: BoxArea)
        requires
            within(Vec2 { x, y }, BOX_LIMIT as int),
            0 <= width <= SIZE_LIMIT,
            0 <= height <= SIZE_LIMIT,
        ensures
            r.wf(),
            r.top_left() == (Vec2 { x, y }),
            r.extent() == (Vec2 { x: width, y: height }),
            r.half_extent() == (Vec2 { x: (width / 2) as i64, y: (height / 2) as i64 }),
            r.live(),
            !r.highlighted(),
    {
        let w = width / 2;
        let h = height / 2;
        let nw = -w;
        let nh = -h;
        let p = vec![
            Vec2::new(w, nh),
            Vec2::new(w, h),
            Vec2::new(nw, h),
            Vec2::new(nw, nh),
            Vec2::new(w, nh),
        ];
        let t = vec![Vec2::new(0, 0); 5];
        assert(p@ == corner_ring(w as int, h as int));
        BoxArea {
            position: Vec2::new(x, y),
            size: Vec2::new(width, height),
            offset: Vec2::new(w, h),
            flip_color: false,
            is_active: true,
            points: p,
            transform_points: t,
        }
    }

    pub fn get_position(&self) -> (r: Vec2)
        ensures
            r == self.top_left(),
    {
        self.position
    }

    pub fn get_size(&self) -> (r: Vec2)
        ensures
            r == self.extent(),
    {
        self.size
    }

    pub fn toggle_active(&mut self)
        ensures
            final(self).live() == !old(self).live(),
            final(self).wf() == old(self).wf(),
            final(self).top_left() == old(self).top_left(),
            final(self).extent() == old(self).extent(),
            final(self).half_extent() == old(self).half_extent(),
    {
        self.is_active = !self.is_active;
    }

    /// Marks the area for highlighting (drawn red) or not.
    pub fn toggle_color(&mut self, value: bool)
        ensures
            final(self).highlighted() == value,
            final(self).live() == old(self).live(),
            final(self).wf() == old(self).wf(),
            final(self).top_left() == old(self).top_left(),
            final(self).extent() == old(self).extent(),
            final(self).half_extent() == old(self).half_extent(),
    {
        self.flip_color = value;
    }

    pub fn is_highlighted(&self) -> (r: bool)
        ensures
            r == self.highlighted(),
    {
        self.flip_color
    }

    /// Re-centres the area on `new_pos`.
    pub fn set_position(&mut self, new_pos: Vec2)
        requires
            old(self).wf(),
            within(new_pos, 2 * POS_LIMIT),
        ensures
            final(self).wf(),
            final(self).top_left() == (Vec2 {
                x: (new_pos.x - old(self).half_extent().x) as i64,
                y: (new_pos.y - old(self).half_extent().y) as i64,
            }),
            final(self).extent() == old(self).extent(),
            final(self).half_extent() == old(self).half_extent(),
            final(self).live() == old(self).live(),
            final(self).highlighted() == old(self).highlighted(),
    {
        self.position = Vec2::new(new_pos.x - self.offset.x, new_pos.y - self.offset.y);
    }

    fn update_points(&mut self)
        requires
            old(self).wf(),
        ensures
            final(self).wf(),
            final(self).outline() == shifted(
                corner_ring(old(self).half_extent().x as int, old(self).half_extent().y as int),
                Vec2 {
                    x: (old(self).top_left().x + old(self).half_extent().x) as i64,
                    y: (old(self).top_left().y + old(self).half_extent().y) as i64,
                },
            ),
            final(self).top_left() == old(self).top_left(),
            final(self).extent() == old(self).extent(),
            final(self).half_extent() == old(self).half_extent(),
            final(self).live() == old(self).live(),
            final(self).highlighted() == old(self).highlighted(),
    {
        let cx = self.position.x + self.offset.x;
        let cy = self.position.y + self.offset.y;
        let ghost centre = Vec2 { x: cx, y: cy };
        let ghost ring = corner_ring(self.offset.x as int, self.offset.y as int);
        let mut idx: usize = 0;
        while idx < 5
            invariant
                self.wf(),
                self.position == old(self).position,
                self.size == old(self).size,
                self.offset == old(self).offset,
                self.is_active == old(self).is_active,
                self.flip_color == old(self).flip_color,
                centre == (Vec2 { x: cx, y: cy }),
                ring == corner_ring(self.offset.x as int, self.offset.y as int),
                cx == self.position.x + self.offset.x,
                cy == self.position.y + self.offset.y,
                0 <= idx <= 5,
                forall|k: int| 0 <= k < idx ==> self.transform_points@[k] == shifted(ring, centre)[k],
            decreases 5 - idx,
        {
            let p = self.points[idx];
            self.transform_points.set(idx, Vec2::new(p.x + cx, p.y + cy));
            idx += 1;
        }
        assert(self.transform_points@ =~= shifted(ring, centre));
    }

    /// Recomputes the world-space outline of an active area.
    pub fn update(&mut self)
        requires
            old(self).wf(),
        ensures
            final(self).wf(),
            old(self).live() ==> final(self).outline() == shifted(
                corner_ring(old(self).half_extent().x as int, old(self).half_extent().y as int),
                Vec2 {
                    x: (old(self).top_left().x + old(self).half_extent().x) as i64,
                    y: (old(self).top_left().y + old(self).half_extent().y) as i64,
                },
            ),
            !old(self).live() ==> final(self).outline() == old(self).outline(),
            final(self).top_left() == old(self).top_left(),
            final(self).extent() == old(self).extent(),
            final(self).half_extent() == old(self).half_extent(),
            final(self).live() == old(self).live(),
            final(self).highlighted() == old(self).highlighted(),
    {
        if self.is_active() {
            self.update_points();
        }
    }

    /// The world-space outline for drawing.
    pub fn get_outline(&self) -> (r: &Vec<Vec2>)
        ensures
            r@ == self.outline(),
    {
        &self.transform_points
    }
}

} // verus!
