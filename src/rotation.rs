use vstd::prelude::*;
use crate::collision::sat_overlap;
use crate::geometry::{
    lemma_product_bound, ring_in_field, tdiv, v2_sub, within, Vec2, COORD_LIMIT, POS_LIMIT,
    TAU_MRAD, TRIG_ONE,
};

verus! {

/// Largest magnitude of a local-space (model) coordinate.
pub const LOCAL_LIMIT: i64 = 16_777_216;

/// An angle in milliradians brought into `[0, TAU_MRAD)`.
pub open spec fn normalized(a: int) -> int {
    a % (TAU_MRAD as int)
}

/// Brings an angle into `[0, TAU_MRAD)`: one full turn is the identity.
pub fn normalize_angle(a: i64) -> (r: i64)
    ensures
        r == normalized(a as int),
        0 <= r < TAU_MRAD,
{
    let m = a % TAU_MRAD;
    if m < 0 {
        m + TAU_MRAD
    } else {
        m
    }
}

/// Cosine and sine of every whole milliradian in `[0, TAU_MRAD)`, scaled by
/// `TRIG_ONE`. The table is handed in by whoever can evaluate the functions;
/// everything here is proved for any table whose entries lie in
/// `[-TRIG_ONE, TRIG_ONE]`.
pub struct TrigTable {
    cos: Vec<i64>,
    sin: Vec<i64>,
}

pub open spec fn unit_range(s: Seq<i64>) -> bool {
    forall|k: int| 0 <= k < s.len() ==> -TRIG_ONE <= #[trigger] s[k] <= TRIG_ONE
}

/// How far `cos^2 + sin^2` of a table entry may stray from `TRIG_ONE^2`:
/// the rounding of each entry to a whole number.
pub const TRIG_TOLERANCE: i128 = 2_000_000;

/// Every entry lies on the unit circle, up to rounding.
pub open spec fn on_unit_circle(cos: Seq<i64>, sin: Seq<i64>) -> bool {
    forall|k: int|
        0 <= k < cos.len() ==> -TRIG_TOLERANCE <= #[trigger] cos[k] * cos[k] + sin[k] * sin[k] - TRIG_ONE
            * TRIG_ONE <= TRIG_TOLERANCE
}

pub open spec fn table_shape(cos: Seq<i64>, sin: Seq<i64>) -> bool {
    &&& cos.len() == TAU_MRAD
    &&& sin.len() == TAU_MRAD
    &&& unit_range(cos)
    &&& unit_range(sin)
    &&& cos[0] == TRIG_ONE
    &&& sin[0] == 0
    &&& on_unit_circle(cos, sin)
}

impl TrigTable {
    pub closed spec fn cos_seq(&self) -> Seq<i64> {
        self.cos@
    }

    pub closed spec fn sin_seq(&self) -> Seq<i64> {
        self.sin@
    }

    pub open spec fn wf(&self) -> bool {
        table_shape(self.cos_seq(), self.sin_seq())
    }

    pub open spec fn cos_at(&self, a: int) -> int {
        self.cos_seq()[a] as int
    }

    pub open spec fn sin_at(&self, a: int) -> int {
        self.sin_seq()[a] as int
    }

    /// A table from its two columns; `None` unless each holds `TAU_MRAD`
    /// entries in `[-TRIG_ONE, TRIG_ONE]`, heading zero is `(TRIG_ONE, 0)`
    /// and every entry lies on the unit circle up to `TRIG_TOLERANCE`.
    pub fn new(cos: Vec<i64>, sin: Vec<i64>) -> (r: Option<TrigTable>)
        ensures
            r.is_some() == table_shape(cos@, sin@),
            r matches Some(t) ==> t.cos_seq() == cos@ && t.sin_seq() == sin@,
    {
        if cos.len() != TAU_MRAD as usize || sin.len() != TAU_MRAD as usize {
            return None;
        }
        if !in_unit_range(&cos) || !in_unit_range(&sin) {
            return None;
        }
        if cos[0] != TRIG_ONE || sin[0] != 0 || !on_circle(&cos, &sin) {
            return None;
        }
        Some(TrigTable { cos, sin })
    }

    /// Cosine and sine of a normalised angle.
    pub fn lookup(&self, angle: i64) -> (r: (i64, i64))
        requires
            self.wf(),
            0 <= angle < TAU_MRAD,
        ensures
            r.0 == self.cos_at(angle as int),
            r.1 == self.sin_at(angle as int),
            -TRIG_ONE <= r.0 <= TRIG_ONE,
            -TRIG_ONE <= r.1 <= TRIG_ONE,
    {
        (self.cos[angle as usize], self.sin[angle as usize])
    }
}

fn on_circle(cos: &Vec<i64>, sin: &Vec<i64>) -> (r: bool)
    requires
        cos@.len() == sin@.len(),
        unit_range(cos@),
        unit_range(sin@),
    ensures
        r == on_unit_circle(cos@, sin@),
{
    let mut i: usize = 0;
    while i < cos.len()
        invariant
            cos@.len() == sin@.len(),
            unit_range(cos@),
            unit_range(sin@),
            0 <= i <= cos@.len(),
            forall|k: int|
                0 <= k < i ==> -TRIG_TOLERANCE <= #[trigger] cos@[k] * cos@[k] + sin@[k] * sin@[k]
                    - TRIG_ONE * TRIG_ONE <= TRIG_TOLERANCE,
        decreases cos@.len() - i,
    {
        let c = cos[i] as i128;
        let s = sin[i] as i128;
        proof {
            assert(-TRIG_ONE <= c <= TRIG_ONE);
            assert(-TRIG_ONE <= s <= TRIG_ONE);
            assert(0 <= c * c <= 1_000_000_000_000) by (nonlinear_arith)
                requires -1_000_000 <= c <= 1_000_000;
            assert(0 <= s * s <= 1_000_000_000_000) by (nonlinear_arith)
                requires -1_000_000 <= s <= 1_000_000;
        }
        let dev = c * c + s * s - (TRIG_ONE as i128) * (TRIG_ONE as i128);
        if dev < -TRIG_TOLERANCE || dev > TRIG_TOLERANCE {
            assert(!(-TRIG_TOLERANCE <= cos@[i as int] * cos@[i as int] + sin@[i as int] * sin@[i as int]
                - TRIG_ONE * TRIG_ONE <= TRIG_TOLERANCE));
            return false;
        }
        i += 1;
    }
    true
}

fn in_unit_range(v: &Vec<i64>) -> (r: bool)
    ensures
        r == unit_range(v@),
{
    let mut i: usize = 0;
    while i < v.len()
        invariant
            0 <= i <= v.len(),
            forall|k: int| 0 <= k < i ==> -TRIG_ONE <= #[trigger] v@[k] <= TRIG_ONE,
        decreases v.len() - i,
    {
        if v[i] < -TRIG_ONE || v[i] > TRIG_ONE {
            return false;
        }
        i += 1;
    }
    true
}

/// A local point rotated by the angle whose cosine and sine are `c` and `s`
/// (scaled by `TRIG_ONE`), then moved by `pos`.
pub open spec fn placed(p: Vec2, c: int, s: int, pos: Vec2) -> Vec2 {
    Vec2 {
        x: (tdiv(p.x * c - p.y * s, TRIG_ONE as int) + pos.x) as i64,
        y: (tdiv(p.x * s + p.y * c, TRIG_ONE as int) + pos.y) as i64,
    }
}

pub open spec fn placed_ring(local: Seq<Vec2>, c: int, s: int, pos: Vec2) -> Seq<Vec2> {
    local.map_values(|p: Vec2| placed(p, c, s, pos))
}

/// The model ring of an entity at heading `angle` and position `pos`.
pub open spec fn world_ring(local: Seq<Vec2>, trig: TrigTable, angle: int, pos: Vec2) -> Seq<Vec2> {
    placed_ring(local, trig.cos_at(angle), trig.sin_at(angle), pos)
}

pub open spec fn local_ring(s: Seq<Vec2>) -> bool {
    forall|k: int| 0 <= k < s.len() ==> within(#[trigger] s[k], LOCAL_LIMIT as int)
}

proof fn lemma_product_le(x: int, c: int)
    requires
        -LOCAL_LIMIT <= x <= LOCAL_LIMIT,
        -TRIG_ONE <= c <= TRIG_ONE,
    ensures
        -16_777_216_000_000 <= x * c <= 16_777_216_000_000,
{
    let l = LOCAL_LIMIT as int;
    let t = TRIG_ONE as int;
    assert(l * t == 16_777_216_000_000);
    assert(-l * t <= x * c <= l * t) by (nonlinear_arith)
        requires -l <= x <= l, -t <= c <= t, l > 0, t > 0;
}

proof fn lemma_scaled_down(n: int)
    requires
        -2 * 16_777_216_000_000 <= n <= 2 * 16_777_216_000_000,
    ensures
        -2 * LOCAL_LIMIT <= tdiv(n, TRIG_ONE as int) <= 2 * LOCAL_LIMIT,
{
    let t = TRIG_ONE as int;
    if n >= 0 {
        assert(n / t <= 2 * LOCAL_LIMIT) by (nonlinear_arith)
            requires 0 <= n <= 2 * 16_777_216_000_000, t == 1_000_000;
    } else {
        assert((-n) / t <= 2 * LOCAL_LIMIT) by (nonlinear_arith)
            requires 0 <= -n <= 2 * 16_777_216_000_000, t == 1_000_000;
    }
}

/// Rigid transform of a local ring: rotation by the table's angle, then
/// translation to `pos`.
pub fn transform_points(local: &Vec<Vec2>, trig: &TrigTable, angle: i64, pos: Vec2) -> (r: Vec<
    Vec2,
>)
    requires
        trig.wf(),
        0 <= angle < TAU_MRAD,
        local_ring(local@),
        within(pos, 2 * POS_LIMIT),
    ensures
        r@ == world_ring(local@, *trig, angle as int, pos),
        ring_in_field(r@),
{
    let (c, s) = trig.lookup(angle);
    let mut out: Vec<Vec2> = Vec::new();
    let mut idx: usize = 0;
    while idx < local.len()
        invariant
            0 <= idx <= local.len(),
            trig.wf(),
            local_ring(local@),
            within(pos, 2 * POS_LIMIT),
            -TRIG_ONE <= c <= TRIG_ONE,
            -TRIG_ONE <= s <= TRIG_ONE,
            c == trig.cos_at(angle as int),
            s == trig.sin_at(angle as int),
            out@.len() == idx,
            forall|k: int| 0 <= k < idx ==> out@[k] == placed(local@[k], c as int, s as int, pos),
            ring_in_field(out@),
        decreases local.len() - idx,
    {
        let p = local[idx];
        assert(within(local@[idx as int], LOCAL_LIMIT as int));
        proof {
            lemma_product_le(p.x as int, c as int);
            lemma_product_le(p.y as int, s as int);
            lemma_product_le(p.x as int, s as int);
            lemma_product_le(p.y as int, c as int);
            lemma_scaled_down(p.x * c - p.y * s);
            lemma_scaled_down(p.x * s + p.y * c);
        }
        let new_x = (p.x * c - p.y * s) / TRIG_ONE;
        let new_y = (p.x * s + p.y * c) / TRIG_ONE;
        let q = Vec2::new(new_x + pos.x, new_y + pos.y);
        out.push(q);
        idx += 1;
    }
    assert(out@ =~= world_ring(local@, *trig, angle as int, pos));
    out
}

/// How far the table heading `k` points along `d`.
pub open spec fn heading_score(trig: TrigTable, k: int, d: Vec2) -> int {
    trig.cos_at(k) * d.x + trig.sin_at(k) * d.y
}

/// The table heading that points most nearly from `b` toward `a` (the first
/// one where several score alike); `0` when the points coincide.
pub fn v2_angle_to_point(a: Vec2, b: Vec2, trig: &TrigTable) -> (r: i64)
    requires
        trig.wf(),
        within(a, COORD_LIMIT as int),
        within(b, COORD_LIMIT as int),
    ensures
        0 <= r < TAU_MRAD,
        forall|k: int|
            0 <= k < TAU_MRAD ==> #[trigger] heading_score(
                *trig,
                k,
                Vec2 { x: (a.x - b.x) as i64, y: (a.y - b.y) as i64 },
            )
                <= heading_score(*trig, r as int, Vec2 { x: (a.x - b.x) as i64, y: (a.y - b.y) as i64 }),
{
    let dis = v2_sub(a, b);
    let mut best: i64 = 0;
    let mut best_score: i128 = heading_score_of(trig, 0, dis);
    let mut k: i64 = 1;
    while k < TAU_MRAD
        invariant
            trig.wf(),
            within(dis, 2 * COORD_LIMIT),
            1 <= k <= TAU_MRAD,
            0 <= best < k,
            best_score == heading_score(*trig, best as int, dis),
            forall|j: int| 0 <= j < k ==> #[trigger] heading_score(*trig, j, dis) <= best_score,
        decreases TAU_MRAD - k,
    {
        let score = heading_score_of(trig, k, dis);
        if score > best_score {
            best = k;
            best_score = score;
        }
        k += 1;
    }
    best
}

fn heading_score_of(trig: &TrigTable, k: i64, d: Vec2) -> (r: i128)
    requires
        trig.wf(),
        0 <= k < TAU_MRAD,
        within(d, 2 * COORD_LIMIT),
    ensures
        r == heading_score(*trig, k as int, d),
{
    let (c, s) = trig.lookup(k);
    proof {
        lemma_product_bound(c as int, d.x as int, 2 * COORD_LIMIT);
        lemma_product_bound(s as int, d.y as int, 2 * COORD_LIMIT);
    }
    (c as i128) * (d.x as i128) + (s as i128) * (d.y as i128)
}

/// Turning an entity by a whole turn leaves its world-space ring, and so
/// every separating-axis outcome against any probe ring, unchanged.
pub proof fn lemma_full_turn_keeps_collision(
    local: Seq<Vec2>,
    trig: TrigTable,
    angle: int,
    pos: Vec2,
    probe: Seq<Vec2>,
)
    ensures
        world_ring(local, trig, normalized(angle + TAU_MRAD), pos) == world_ring(
            local,
            trig,
            normalized(angle),
            pos,
        ),
        sat_overlap(world_ring(local, trig, normalized(angle + TAU_MRAD), pos), probe)
            == sat_overlap(world_ring(local, trig, normalized(angle), pos), probe),
        sat_overlap(probe, world_ring(local, trig, normalized(angle + TAU_MRAD), pos))
            == sat_overlap(probe, world_ring(local, trig, normalized(angle), pos)),
{
    vstd::arithmetic::div_mod::lemma_mod_add_multiples_vanish(angle, TAU_MRAD as int);
}

} // verus!
