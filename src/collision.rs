use vstd::prelude::*;
use crate::boxarea::BoxArea;
use crate::geometry::{
    coords, dot_of, normal_of, ring_in_field, v2_dot, v2_normal, within, Vec2, COORD_LIMIT,
};

verus! {

/// The projection of a point on an axis (not normalised).
pub open spec fn proj(v: Vec2, axis: (int, int)) -> int {
    dot_of(coords(v), axis)
}

/// The normal of the edge from point `k` of the ring to the next one,
/// the last point closing on the first.
pub open spec fn edge_normal(a: Seq<Vec2>, k: int) -> (int, int) {
    normal_of(a[k], a[(k + 1) % (a.len() as int)])
}

/// The shadows of the two point sets on the axis overlap (closed intervals):
/// some point of `b` projects at or past some point of `a`, and the other way.
pub open spec fn axis_overlap(a: Seq<Vec2>, b: Seq<Vec2>, axis: (int, int)) -> bool {
    &&& exists|i: int, j: int|
        0 <= i < a.len() && 0 <= j < b.len() && proj(a[i], axis) <= proj(b[j], axis)
    &&& exists|i: int, j: int|
        0 <= i < a.len() && 0 <= j < b.len() && proj(b[j], axis) <= proj(a[i], axis)
}

/// No edge normal of `a` separates the two point sets.
pub open spec fn no_separating_edge(a: Seq<Vec2>, b: Seq<Vec2>) -> bool {
    forall|k: int| 0 <= k < a.len() ==> #[trigger] axis_overlap(a, b, edge_normal(a, k))
}

/// Separating-axis overlap: neither polygon has an edge whose normal
/// separates the two.
pub open spec fn sat_overlap(a: Seq<Vec2>, b: Seq<Vec2>) -> bool {
    no_separating_edge(a, b) && no_separating_edge(b, a)
}

/// The smallest and the largest projection of the points on the axis.
fn projection(points: &Vec<Vec2>, axis: Vec2) -> (r: (i128, i128))
    requires
        points.len() > 0,
        ring_in_field(points@),
        within(axis, 2 * COORD_LIMIT),
    ensures
        exists|i: int| 0 <= i < points.len() && r.0 == proj(points@[i], coords(axis)),
        exists|i: int| 0 <= i < points.len() && r.1 == proj(points@[i], coords(axis)),
        forall|i: int|
            0 <= i < points.len() ==> r.0 <= #[trigger] proj(points@[i], coords(axis)) <= r.1,
{
    let first = v2_dot(points[0], axis);
    let mut min_value = first;
    let mut max_value = first;
    let mut idx: usize = 1;
    while idx < points.len()
        invariant
            1 <= idx <= points.len(),
            ring_in_field(points@),
            within(axis, 2 * COORD_LIMIT),
            exists|i: int| 0 <= i < idx && min_value == proj(points@[i], coords(axis)),
            exists|i: int| 0 <= i < idx && max_value == proj(points@[i], coords(axis)),
            forall|i: int|
                0 <= i < idx ==> min_value <= #[trigger] proj(points@[i], coords(axis))
                    <= max_value,
        decreases points.len() - idx,
    {
        assert(within(points@[idx as int], COORD_LIMIT as int));
        let dot = v2_dot(points[idx], axis);
        if dot < min_value {
            min_value = dot;
        }
        if dot > max_value {
            max_value = dot;
        }
        idx += 1;
    }
    (min_value, max_value)
}

/// Whether no edge normal of `p1` separates `p1` from `p2`.
fn edges_admit_overlap(p1: &Vec<Vec2>, p2: &Vec<Vec2>) -> (r: bool)
    requires
        p1.len() > 0,
        p2.len() > 0,
        ring_in_field(p1@),
        ring_in_field(p2@),
    ensures
        r == no_separating_edge(p1@, p2@),
{
    let n1 = p1.len();
    let mut x: usize = 0;
    while x < n1
        invariant
            n1 == p1.len(),
            0 <= x <= n1,
            p1.len() > 0,
            p2.len() > 0,
            ring_in_field(p1@),
            ring_in_field(p2@),
            forall|k: int| 0 <= k < x ==> #[trigger] axis_overlap(p1@, p2@, edge_normal(p1@, k)),
        decreases n1 - x,
    {
        let y = (x + 1) % n1;
        assert(within(p1@[x as int], COORD_LIMIT as int));
        assert(within(p1@[y as int], COORD_LIMIT as int));
        let normal = v2_normal(&p1[x], &p1[y]);
        let (min_value1, max_value1) = projection(p1, normal);
        let (min_value2, max_value2) = projection(p2, normal);
        proof {
            lemma_axis_overlap(p1@, p2@, coords(normal), min_value1 as int, max_value1 as int,
                min_value2 as int, max_value2 as int);
        }
        if !(max_value2 >= min_value1 && max_value1 >= min_value2) {
            assert(!axis_overlap(p1@, p2@, edge_normal(p1@, x as int)));
            return false;
        }
        x += 1;
    }
    true
}

/// Interval overlap of the extreme projections is the same as `axis_overlap`.
proof fn lemma_axis_overlap(
    a: Seq<Vec2>,
    b: Seq<Vec2>,
    axis: (int, int),
    min1: int,
    max1: int,
    min2: int,
    max2: int,
)
    requires
        exists|i: int| 0 <= i < a.len() && min1 == proj(a[i], axis),
        exists|i: int| 0 <= i < a.len() && max1 == proj(a[i], axis),
        forall|i: int| 0 <= i < a.len() ==> min1 <= #[trigger] proj(a[i], axis) <= max1,
        exists|j: int| 0 <= j < b.len() && min2 == proj(b[j], axis),
        exists|j: int| 0 <= j < b.len() && max2 == proj(b[j], axis),
        forall|j: int| 0 <= j < b.len() ==> min2 <= #[trigger] proj(b[j], axis) <= max2,
    ensures
        (max2 >= min1 && max1 >= min2) == axis_overlap(a, b, axis),
{
    let i_min = choose|i: int| 0 <= i < a.len() && min1 == proj(a[i], axis);
    let i_max = choose|i: int| 0 <= i < a.len() && max1 == proj(a[i], axis);
    let j_min = choose|j: int| 0 <= j < b.len() && min2 == proj(b[j], axis);
    let j_max = choose|j: int| 0 <= j < b.len() && max2 == proj(b[j], axis);
    if max2 >= min1 {
        assert(proj(a[i_min], axis) <= proj(b[j_max], axis));
    }
    if max1 >= min2 {
        assert(proj(b[j_min], axis) <= proj(a[i_max], axis));
    }
    if axis_overlap(a, b, axis) {
        let (i, j) = choose|i: int, j: int|
            0 <= i < a.len() && 0 <= j < b.len() && proj(a[i], axis) <= proj(b[j], axis);
        assert(min1 <= proj(a[i], axis));
        assert(proj(b[j], axis) <= max2);
        let (i2, j2) = choose|i: int, j: int|
            0 <= i < a.len() && 0 <= j < b.len() && proj(b[j], axis) <= proj(a[i], axis);
        assert(min2 <= proj(b[j2], axis));
        assert(proj(a[i2], axis) <= max1);
    }
}

/// Separating Axis Theorem test on two convex point rings in world space:
/// `true` when no edge normal of either ring separates them.
pub fn sat(points_1: &Vec<Vec2>, points_2: &Vec<Vec2>) -> (r: bool)
    requires
        points_1.len() > 0,
        points_2.len() > 0,
        ring_in_field(points_1@),
        ring_in_field(points_2@),
    ensures
        r == sat_overlap(points_1@, points_2@),
{
    if !edges_admit_overlap(points_1, points_2) {
        return false;
    }
    edges_admit_overlap(points_2, points_1)
}

/// Closed intervals `[min_a, max_a]` and `[min_b, max_b]` overlap.
pub open spec fn intervals_overlap(min_a: int, max_a: int, min_b: int, max_b: int) -> bool {
    min_b <= max_a && min_a <= max_b
}

/// Rectangles given by top-left corner and extent overlap on both axes,
/// touching edges included.
pub open spec fn rects_overlap(p1: Vec2, s1: Vec2, p2: Vec2, s2: Vec2) -> bool {
    intervals_overlap(p1.x as int, p1.x + s1.x, p2.x as int, p2.x + s2.x) && intervals_overlap(
        p1.y as int,
        p1.y + s1.y,
        p2.y as int,
        p2.y + s2.y,
    )
}

pub open spec fn boxes_overlap(b1: &BoxArea, b2: &BoxArea) -> bool {
    rects_overlap(b1.top_left(), b1.extent(), b2.top_left(), b2.extent())
}

/// Broad-phase test: the two bounding areas overlap on both axes.
pub fn aabb(box1: &BoxArea, box2: &BoxArea) -> (r: bool)
    requires
        box1.wf(),
        box2.wf(),
    ensures
        r == boxes_overlap(box1, box2),
{
    let p1 = box1.get_position();
    let s1 = box1.get_size();
    let p2 = box2.get_position();
    let s2 = box2.get_size();
    proof {
        box1.lemma_bounds();
        box2.lemma_bounds();
    }
    // x
    let min_x1 = p1.x;
    let max_x1 = p1.x + s1.x;
    let min_x2 = p2.x;
    let max_x2 = p2.x + s2.x;

    // y
    let min_y1 = p1.y;
    let max_y1 = p1.y + s1.y;
    let min_y2 = p2.y;
    let max_y2 = p2.y + s2.y;

    let check_a = min_x2 <= max_x1 && min_x1 <= max_x2;
    let check_b = min_y2 <= max_y1 && min_y1 <= max_y2;
    check_a && check_b
}

/// The broad-phase test does not depend on the order of its arguments.
pub proof fn lemma_aabb_symmetric(b1: &BoxArea, b2: &BoxArea)
    ensures
        boxes_overlap(b1, b2) == boxes_overlap(b2, b1),
{
}

/// A rectangle overlaps itself, and rectangles that only share an edge
/// (one's right side on the other's left side) overlap too.
pub proof fn lemma_aabb_reflexive_and_touching(p: Vec2, s: Vec2, q: Vec2, t: Vec2)
    requires
        s.x >= 0,
        s.y >= 0,
        t.x >= 0,
        t.y >= 0,
        q.x == p.x + s.x,
        p.y <= q.y <= p.y + s.y,
    ensures
        rects_overlap(p, s, p, s),
        rects_overlap(p, s, q, t),
{
}

/// The separating-axis outcome does not depend on the order of its arguments.
pub proof fn lemma_sat_symmetric(a: Seq<Vec2>, b: Seq<Vec2>)
    ensures
        sat_overlap(a, b) == sat_overlap(b, a),
{
    assert forall|axis: (int, int)| axis_overlap(a, b, axis) == axis_overlap(b, a, axis) by {
        if axis_overlap(a, b, axis) {
            let (i, j) = choose|i: int, j: int|
                0 <= i < a.len() && 0 <= j < b.len() && proj(a[i], axis) <= proj(b[j], axis);
            let (i2, j2) = choose|i: int, j: int|
                0 <= i < a.len() && 0 <= j < b.len() && proj(b[j], axis) <= proj(a[i], axis);
            assert(proj(b[j], axis) >= proj(a[i], axis));
            assert(proj(a[i2], axis) >= proj(b[j2], axis));
        }
        if axis_overlap(b, a, axis) {
            let (j, i) = choose|j: int, i: int|
                0 <= j < b.len() && 0 <= i < a.len() && proj(b[j], axis) <= proj(a[i], axis);
            let (j2, i2) = choose|j: int, i: int|
                0 <= j < b.len() && 0 <= i < a.len() && proj(a[i], axis) <= proj(b[j], axis);
            assert(proj(a[i], axis) >= proj(b[j], axis));
            assert(proj(b[j2], axis) >= proj(a[i2], axis));
        }
    }
}

/// Point sets that share a point overlap on every axis.
pub proof fn lemma_common_point_overlaps(a: Seq<Vec2>, b: Seq<Vec2>, i: int, j: int, axis: (int, int))
    requires
        0 <= i < a.len(),
        0 <= j < b.len(),
        a[i] == b[j],
    ensures
        axis_overlap(a, b, axis),
{
    assert(proj(a[i], axis) <= proj(b[j], axis));
    assert(proj(b[j], axis) <= proj(a[i], axis));
}

/// A polygon laid exactly over a copy of itself (offset zero) overlaps it.
pub proof fn lemma_sat_same_place(a: Seq<Vec2>)
    requires
        a.len() > 0,
    ensures
        sat_overlap(a, a),
{
    assert forall|k: int| 0 <= k < a.len() implies #[trigger] axis_overlap(a, a, edge_normal(a, k)) by {
        lemma_common_point_overlaps(a, a, 0, 0, edge_normal(a, k));
    }
}

/// The closed outline of the axis-aligned square with top-left corner `p`
/// and side `s`, starting at the top-right corner.
pub open spec fn square_ring(p: Vec2, s: int) -> Seq<Vec2> {
    let x0 = p.x as int;
    let y0 = p.y as int;
    seq![
        Vec2 { x: (x0 + s) as i64, y: y0 as i64 },
        Vec2 { x: (x0 + s) as i64, y: (y0 + s) as i64 },
        Vec2 { x: x0 as i64, y: (y0 + s) as i64 },
        Vec2 { x: x0 as i64, y: y0 as i64 },
        Vec2 { x: (x0 + s) as i64, y: y0 as i64 },
    ]
}

pub open spec fn square_ok(p: Vec2, s: int) -> bool {
    0 < s <= COORD_LIMIT && within(p, COORD_LIMIT as int)
}

proof fn lemma_square_points(p: Vec2, s: int)
    requires
        square_ok(p, s),
    ensures
        square_ring(p, s).len() == 5,
        square_ring(p, s)[0] == (Vec2 { x: (p.x + s) as i64, y: p.y }),
        square_ring(p, s)[1] == (Vec2 { x: (p.x + s) as i64, y: (p.y + s) as i64 }),
        square_ring(p, s)[2] == (Vec2 { x: p.x, y: (p.y + s) as i64 }),
        square_ring(p, s)[3] == (Vec2 { x: p.x, y: p.y }),
        square_ring(p, s)[4] == (Vec2 { x: (p.x + s) as i64, y: p.y }),
        (p.x + s) as i64 == p.x + s,
        (p.y + s) as i64 == p.y + s,
{
}

proof fn lemma_scale_le(a: int, b: int, c: int)
    requires
        a <= b,
    ensures
        c >= 0 ==> a * c <= b * c,
        c <= 0 ==> b * c <= a * c,
{
    if c >= 0 {
        assert(a * c <= b * c) by (nonlinear_arith)
            requires a <= b, c >= 0;
    } else {
        assert(b * c <= a * c) by (nonlinear_arith)
            requires a <= b, c <= 0;
    }
}

proof fn lemma_scale_cancel(a: int, b: int, c: int)
    requires
        c != 0,
    ensures
        c > 0 ==> (a * c <= b * c <==> a <= b),
        c < 0 ==> (a * c <= b * c <==> b <= a),
{
    if c > 0 {
        if a <= b {
            lemma_scale_le(a, b, c);
        }
        if a * c <= b * c {
            assert(a <= b) by (nonlinear_arith)
                requires a * c <= b * c, c > 0;
        }
    } else {
        if b <= a {
            lemma_scale_le(b, a, c);
        }
        if a * c <= b * c {
            assert(b <= a) by (nonlinear_arith)
                requires a * c <= b * c, c < 0;
        }
    }
}

/// Extreme projections of a square's outline on an axis `(c, d)` with one
/// of `c`, `d` zero: they are those of its two sides along that axis.
proof fn lemma_square_shadow(p: Vec2, s: int, axis: (int, int), lo: int, hi: int)
    requires
        square_ok(p, s),
        axis.0 == 0 || axis.1 == 0,
        axis.1 == 0 ==> lo == (if axis.0 >= 0 {
            p.x * axis.0
        } else {
            (p.x + s) * axis.0
        }) && hi == (if axis.0 >= 0 {
            (p.x + s) * axis.0
        } else {
            p.x * axis.0
        }),
        axis.0 == 0 && axis.1 != 0 ==> lo == (if axis.1 >= 0 {
            p.y * axis.1
        } else {
            (p.y + s) * axis.1
        }) && hi == (if axis.1 >= 0 {
            (p.y + s) * axis.1
        } else {
            p.y * axis.1
        }),
    ensures
        exists|i: int| 0 <= i < square_ring(p, s).len() && lo == proj(square_ring(p, s)[i], axis),
        exists|i: int| 0 <= i < square_ring(p, s).len() && hi == proj(square_ring(p, s)[i], axis),
        forall|i: int|
            0 <= i < square_ring(p, s).len() ==> lo <= #[trigger] proj(square_ring(p, s)[i], axis)
                <= hi,
{
    let a = square_ring(p, s);
    let (c, d) = axis;
    lemma_square_points(p, s);
    assert forall|i: int| 0 <= i < a.len() implies lo <= #[trigger] proj(a[i], axis) <= hi by {
        assert(p.x <= a[i].x <= p.x + s);
        assert(p.y <= a[i].y <= p.y + s);
        if d == 0 {
            assert(a[i].y * d == 0) by (nonlinear_arith)
                requires d == 0;
            lemma_scale_le(p.x as int, a[i].x as int, c);
            lemma_scale_le(a[i].x as int, p.x + s, c);
        } else {
            assert(a[i].x * c == 0) by (nonlinear_arith)
                requires c == 0;
            lemma_scale_le(p.y as int, a[i].y as int, d);
            lemma_scale_le(a[i].y as int, p.y + s, d);
        }
    }
    assert(a[0].y * d == p.y * d);
    assert(a[0].x * c == (p.x + s) * c);
    assert(a[2].y * d == (p.y + s) * d);
    assert(a[2].x * c == p.x * c);
    assert(a[3].y * d == p.y * d);
    assert(a[3].x * c == p.x * c);
    assert(a[1].x * c == (p.x + s) * c);
    assert(a[1].y * d == (p.y + s) * d);
    if d == 0 {
        assert(a[0].y * d == 0 && a[3].y * d == 0) by (nonlinear_arith)
            requires d == 0;
        if c >= 0 {
            assert(lo == proj(a[3], axis) && hi == proj(a[0], axis));
        } else {
            assert(lo == proj(a[0], axis) && hi == proj(a[3], axis));
        }
    } else {
        assert(a[3].x * c == 0 && a[2].x * c == 0 && a[0].x * c == 0) by (nonlinear_arith)
            requires c == 0;
        if d >= 0 {
            assert(lo == proj(a[3], axis) && hi == proj(a[2], axis));
        } else {
            assert(lo == proj(a[2], axis) && hi == proj(a[3], axis));
        }
    }
}

/// On an axis along x or y, the outlines of two squares overlap exactly when
/// their extents along that axis do.
proof fn lemma_square_axis(p: Vec2, s: int, q: Vec2, t: int, axis: (int, int))
    requires
        square_ok(p, s),
        square_ok(q, t),
        axis.0 == 0 || axis.1 == 0,
    ensures
        axis.0 != 0 ==> (axis_overlap(square_ring(p, s), square_ring(q, t), axis) == intervals_overlap(
            p.x as int,
            p.x + s,
            q.x as int,
            q.x + t,
        )),
        axis.1 != 0 ==> (axis_overlap(square_ring(p, s), square_ring(q, t), axis) == intervals_overlap(
            p.y as int,
            p.y + s,
            q.y as int,
            q.y + t,
        )),
        axis.0 == 0 && axis.1 == 0 ==> axis_overlap(square_ring(p, s), square_ring(q, t), axis),
{
    let (c, d) = axis;
    let (pl, pu, ql, qu, k) = if d == 0 {
        (p.x as int, p.x + s, q.x as int, q.x + t, c)
    } else {
        (p.y as int, p.y + s, q.y as int, q.y + t, d)
    };
    let lo1 = if k >= 0 { pl * k } else { pu * k };
    let hi1 = if k >= 0 { pu * k } else { pl * k };
    let lo2 = if k >= 0 { ql * k } else { qu * k };
    let hi2 = if k >= 0 { qu * k } else { ql * k };
    lemma_square_shadow(p, s, axis, lo1, hi1);
    lemma_square_shadow(q, t, axis, lo2, hi2);
    lemma_axis_overlap(square_ring(p, s), square_ring(q, t), axis, lo1, hi1, lo2, hi2);
    if k != 0 {
        lemma_scale_cancel(pl, qu, k);
        lemma_scale_cancel(ql, pu, k);
        lemma_scale_cancel(qu, pl, k);
        lemma_scale_cancel(pu, ql, k);
    }
}

proof fn lemma_square_edges(p: Vec2, s: int, q: Vec2, t: int)
    requires
        square_ok(p, s),
        square_ok(q, t),
    ensures
        no_separating_edge(square_ring(p, s), square_ring(q, t)) == (intervals_overlap(
            p.x as int,
            p.x + s,
            q.x as int,
            q.x + t,
        ) && intervals_overlap(p.y as int, p.y + s, q.y as int, q.y + t)),
{
    let a = square_ring(p, s);
    let b = square_ring(q, t);
    lemma_square_points(p, s);
    assert(edge_normal(a, 0) == (-s, 0int));
    assert(edge_normal(a, 1) == (0int, -s));
    assert(edge_normal(a, 2) == (s, 0int));
    assert(edge_normal(a, 3) == (0int, s));
    assert(edge_normal(a, 4) == (0int, 0int));
    lemma_square_axis(p, s, q, t, edge_normal(a, 0));
    lemma_square_axis(p, s, q, t, edge_normal(a, 1));
    lemma_square_axis(p, s, q, t, edge_normal(a, 2));
    lemma_square_axis(p, s, q, t, edge_normal(a, 3));
    lemma_square_axis(p, s, q, t, edge_normal(a, 4));
    if intervals_overlap(p.x as int, p.x + s, q.x as int, q.x + t) && intervals_overlap(
        p.y as int,
        p.y + s,
        q.y as int,
        q.y + t,
    ) {
        assert forall|k: int| 0 <= k < a.len() implies #[trigger] axis_overlap(a, b, edge_normal(a, k)) by {
            assert(k == 0 || k == 1 || k == 2 || k == 3 || k == 4);
        }
    }
}

/// For two axis-aligned squares the separating-axis test and the
/// bounding-box test agree exactly.
pub proof fn lemma_sat_matches_aabb_on_squares(p: Vec2, s: int, q: Vec2, t: int)
    requires
        square_ok(p, s),
        square_ok(q, t),
    ensures
        sat_overlap(square_ring(p, s), square_ring(q, t)) == rects_overlap(
            p,
            Vec2 { x: s as i64, y: s as i64 },
            q,
            Vec2 { x: t as i64, y: t as i64 },
        ),
{
    lemma_square_edges(p, s, q, t);
    lemma_square_edges(q, t, p, s);
}

} // verus!
