use vstd::prelude::*;
use crate::collision::rects_overlap;
use crate::geometry::{within, Vec2, POS_LIMIT};
use crate::boxarea::{BOX_LIMIT, SIZE_LIMIT};

verus! {

/// A debug rectangle that can test itself for overlap with another.
pub struct BoxShape {
    position: Vec2,
    size: Vec2,
    offset: Vec2,
    flip_color: bool,
    is_active: bool,
    is_debug: bool,
    shape_position: Vec2,
}

impl BoxShape {
    pub closed spec fn top_left(&self) -> Vec2 {
        self.position
    }

    pub closed spec fn extent(&self) -> Vec2 {
        self.size
    }

    pub closed spec fn half_extent(&self) -> Vec2 {
        self.offset
    }

    pub closed spec fn active(&self) -> bool {
        self.is_active
    }

    pub closed spec fn debug(&self) -> bool {
        self.is_debug
    }

    pub closed spec fn highlighted(&self) -> bool {
        self.flip_color
    }

    /// Where the rectangle is drawn, as last set by `update`.
    pub closed spec fn drawn_at(&self) -> Vec2 {
        self.shape_position
    }

    pub closed spec fn wf(&self) -> bool {
        &&& within(self.position, BOX_LIMIT as int)
        &&& 0 <= self.size.x <= SIZE_LIMIT
        &&& 0 <= self.size.y <= SIZE_LIMIT
        &&& self.offset.x == self.size.x / 2
        &&& self.offset.y == self.size.y / 2
    }

    /// A rectangle with its top-left corner at `(x, y)`.
    pub fn new(x: i64, y: i64, width: i64, height: i64) -> (r: BoxShape)
        requires
            within(Vec2 { x, y }, BOX_LIMIT as int),
            0 <= width <= SIZE_LIMIT,
            0 <= height <= SIZE_LIMIT,
        ensures
            r.wf(),
            r.top_left() == (Vec2 { x, y }),
            r.extent() == (Vec2 { x: width, y: height }),
            r.drawn_at() == (Vec2 { x, y }),
            r.active(),
            r.debug(),
            !r.highlighted(),
    {
        BoxShape {
            position: Vec2::new(x, y),
            size: Vec2::new(width, height),
            offset: Vec2::new(width / 2, height / 2),
            flip_color: false,
            is_active: true,
            is_debug: true,
            shape_position: Vec2::new(x, y),
        }
    }

    pub fn toggle_debug(&mut self)
        ensures
            final(self).debug() == !old(self).debug(),
            final(self).top_left() == old(self).top_left(),
            final(self).extent() == old(self).extent(),
            final(self).half_extent() == old(self).half_extent(),
            final(self).active() == old(self).active(),
            final(self).highlighted() == old(self).highlighted(),
            final(self).drawn_at() == old(self).drawn_at(),
    {
        self.is_debug = !self.is_debug;
    }

    /// Marks the rectangle for highlighting (drawn red) or not.
    pub fn toggle_color(&mut self, value: bool)
        ensures
            final(self).highlighted() == value,
            final(self).top_left() == old(self).top_left(),
            final(self).extent() == old(self).extent(),
            final(self).half_extent() == old(self).half_extent(),
            final(self).active() == old(self).active(),
            final(self).debug() == old(self).debug(),
            final(self).drawn_at() == old(self).drawn_at(),
    {
        self.flip_color = value;
    }

    fn check_overlap(&self, min_a: i64, max_a: i64, min_b: i64, max_b: i64) -> (r: bool)
        ensures
            r == (min_b <= max_a && min_a <= max_b),
    {
        min_b <= max_a && min_a <= max_b
    }

    /// Overlap on both axes, touching edges included; two inactive
    /// rectangles never collide.
    pub fn check_collision(&self, other: &BoxShape) -> (r: bool)
        requires
            self.wf(),
            other.wf(),
        ensures
            r == ((self.active() || other.active()) && rects_overlap(
                self.top_left(),
                self.extent(),
                other.top_left(),
                other.extent(),
            )),
    {
        if !self.is_active && !other.is_active {
            return false;
        }
        // x
        let min_x1 = self.position.x;
        let max_x1 = self.position.x + self.size.x;
        let min_x2 = other.position.x;
        let max_x2 = other.position.x + other.size.x;

        // y
        let min_y1 = self.position.y;
        let max_y1 = self.position.y + self.size.y;
        let min_y2 = other.position.y;
        let max_y2 = other.position.y + other.size.y;

        let check_a = self.check_overlap(min_x1, max_x1, min_x2, max_x2);
        let check_b = self.check_overlap(min_y1, max_y1, min_y2, max_y2);
        check_a && check_b
    }

    /// Re-centres the rectangle on `new_pos`.
    pub fn set_position(&mut self, new_pos: Vec2)
        requires
            old(self).wf(),
            within(new_pos, 2 * POS_LIMIT),
        ensures
            final(self).wf(),
            final(self).top_left() == (Vec2 {
                x: (new_pos.x - old(self).half_extent().x) as i64,
                y: (new_pos.y - old(self).half_extent().y) as i64,
            }),
            final(self).extent() == old(self).extent(),
            final(self).half_extent() == old(self).half_extent(),
            final(self).active() == old(self).active(),
            final(self).debug() == old(self).debug(),
            final(self).highlighted() == old(self).highlighted(),
            final(self).drawn_at() == old(self).drawn_at(),
    {
        self.position = Vec2::new(new_pos.x - self.offset.x, new_pos.y - self.offset.y);
    }

    /// Moves the drawn rectangle to the current position, if active.
    pub fn update(&mut self, _delta_ms: u16)
        ensures
            old(self).active() ==> final(self).drawn_at() == old(self).top_left(),
            !old(self).active() ==> final(self).drawn_at() == old(self).drawn_at(),
            final(self).top_left() == old(self).top_left(),
            final(self).extent() == old(self).extent(),
            final(self).half_extent() == old(self).half_extent(),
            final(self).active() == old(self).active(),
            final(self).debug() == old(self).debug(),
            final(self).highlighted() == old(self).highlighted(),
    {
        if self.is_active {
            self.shape_position = self.position;
        }
    }

    pub fn get_position(&self) -> (r: Vec2)
        ensures
            r == self.drawn_at(),
    {
        self.shape_position
    }

    pub fn get_size(&self) -> (r: Vec2)
        ensures
            r == self.extent(),
    {
        self.size
    }

    pub fn is_highlighted(&self) -> (r: bool)
        ensures
            r == self.highlighted(),
    {
        self.flip_color
    }

    /// Whether the rectangle is to be drawn: active and in debug mode.
    pub fn is_drawn(&self) -> (r: bool)
        ensures
            r == (self.active() && self.debug()),
    {
        self.is_active && self.is_debug
    }
}

} // verus!
