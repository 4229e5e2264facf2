use vstd::prelude::*;
use crate::asteroid::{asteroid_stepped, fragment_class, ACC_LIMIT, Asteroid, AsteroidSize};
use crate::boxarea::BoxArea;
use crate::bullet::{bullet_stepped, fresh_bullet, Bullet, ShooterType};
use crate::collision::{aabb, boxes_overlap, sat, sat_overlap};
use crate::explosion::{burst_at, burst_stepped, Explosion};
use crate::geometry::{d_to_r, tdiv, within, Vec2, POS_LIMIT, TAU_MRAD};
use crate::lifecycle::{
    ended, filter_out_inactive, lemma_cull_keeps_exactly_active, lemma_ended_live,
    lemma_ended_trans, survivors, IsActive,
};
use crate::lives::Lives;
use crate::random::{random_bool, random_number};
use crate::rotation::{heading_score, normalized, v2_angle_to_point, TrigTable};
use crate::ship::{ship_stepped, ControlIntents, Ship};
use crate::ufo::{ufo_stepped, Ufo};

verus! {

/// Spin of an asteroid spawned by a split, in milliradians per second.
pub const FRAGMENT_SPIN: i64 = 3000;

/// The random draws for one spawned asteroid.
#[derive(Clone, Copy, Debug, PartialEq, Eq, Structural)]
pub struct SpawnDraw {
    /// Heading in whole degrees.
    pub heading_deg: i64,
    /// Drift factor in thousandths.
    pub acc: i64,
    /// Spin direction.
    pub rotate_right: bool,
}

pub open spec fn spawn_draw_ok(d: SpawnDraw) -> bool {
    -1_000_000 <= d.heading_deg <= 1_000_000 && 0 <= d.acc <= ACC_LIMIT
}

/// Asteroid `a` was spawned by a split at `(x, y)` with class `size` and draw `d`.
pub open spec fn spawned_as(a: Asteroid, x: i64, y: i64, size: AsteroidSize, d: SpawnDraw) -> bool {
    &&& a.wf()
    &&& a.live()
    &&& a.position() == (Vec2 { x, y })
    &&& a.size_class() == size
    &&& a.heading() == normalized(tdiv(d.heading_deg * TAU_MRAD, 360))
    &&& a.drift() == d.acc
    &&& a.spin() == if d.rotate_right {
        FRAGMENT_SPIN as int
    } else {
        -FRAGMENT_SPIN
    }
}

/// A fragment as a split spawns it: active, of class `size` at `(x, y)`,
/// with a drift factor in [10, 15) and the fragment spin in either direction.
pub open spec fn fresh_fragment(a: Asteroid, x: i64, y: i64, size: AsteroidSize) -> bool {
    &&& a.wf()
    &&& a.live()
    &&& a.position() == (Vec2 { x, y })
    &&& a.size_class() == size
    &&& 10_000 <= a.drift() < 15_000
    &&& (a.spin() == FRAGMENT_SPIN || a.spin() == -FRAGMENT_SPIN)
}

/// Appends two asteroids of class `size` at `(x, y)`, one per draw.
pub fn spawn_pair(
    x: i64,
    y: i64,
    size: AsteroidSize,
    draws: &Vec<SpawnDraw>,
    asteroids: &mut Vec<Asteroid>,
    trig: &TrigTable,
)
    requires
        trig.wf(),
        within(Vec2 { x, y }, POS_LIMIT as int),
        draws@.len() == 2,
        spawn_draw_ok(draws@[0]),
        spawn_draw_ok(draws@[1]),
    ensures
        final(asteroids)@.len() == old(asteroids)@.len() + 2,
        final(asteroids)@.subrange(0, old(asteroids)@.len() as int) == old(asteroids)@,
        spawned_as(final(asteroids)@[old(asteroids)@.len() as int], x, y, size, draws@[0]),
        spawned_as(final(asteroids)@[old(asteroids)@.len() + 1int], x, y, size, draws@[1]),
{
    let d0 = draws[0];
    let d1 = draws[1];
    let new_a = Asteroid::new(
        x,
        y,
        d_to_r(d0.heading_deg),
        d0.acc,
        FRAGMENT_SPIN,
        d0.rotate_right,
        size,
        trig,
    );
    let new_b = Asteroid::new(
        x,
        y,
        d_to_r(d1.heading_deg),
        d1.acc,
        FRAGMENT_SPIN,
        d1.rotate_right,
        size,
        trig,
    );
    asteroids.push(new_a);
    asteroids.push(new_b);
    assert(asteroids@.subrange(0, old(asteroids)@.len() as int) =~= old(asteroids)@);
}

/// Appends two asteroids of class `asteroid_size` at `(x, y)`, each with a
/// random heading, drift factor and spin direction.
pub fn polulate_asteroids(
    x: i64,
    y: i64,
    asteroid_size: AsteroidSize,
    asteroids: &mut Vec<Asteroid>,
    trig: &TrigTable,
)
    requires
        trig.wf(),
        within(Vec2 { x, y }, POS_LIMIT as int),
    ensures
        final(asteroids)@.len() == old(asteroids)@.len() + 2,
        final(asteroids)@.subrange(0, old(asteroids)@.len() as int) == old(asteroids)@,
        forall|k: int|
            old(asteroids)@.len() <= k < final(asteroids)@.len() ==> fresh_fragment(#[trigger] final(asteroids)@[k], x, y, asteroid_size),
{
    let mut draws: Vec<SpawnDraw> = Vec::new();
    let mut i: usize = 0;
    while i < 2
        invariant
            i <= 2,
            draws@.len() == i,
            forall|k: int| 0 <= k < i ==> spawn_draw_ok(#[trigger] draws@[k]),
            forall|k: int| 0 <= k < i ==> 10_000 <= (#[trigger] draws@[k]).acc < 15_000,
        decreases 2 - i,
    {
        let heading_deg = random_number(1, 360);
        let acc = random_number(10_000, 15_000);
        let rotate_right = random_bool();
        draws.push(SpawnDraw { heading_deg, acc, rotate_right });
        i += 1;
    }
    let ghost n = asteroids@.len();
    spawn_pair(x, y, asteroid_size, &draws, asteroids, trig);
    assert forall|k: int| n <= k < asteroids@.len() implies fresh_fragment(
        #[trigger] asteroids@[k],
        x,
        y,
        asteroid_size,
    ) by {
        if k == n {
        } else {
            assert(k == n + 1);
        }
    }
}

/// Broad phase and narrow phase both report an overlap.
pub open spec fn touching(b1: BoxArea, r1: Seq<Vec2>, b2: BoxArea, r2: Seq<Vec2>) -> bool {
    boxes_overlap(&b1, &b2) && sat_overlap(r1, r2)
}

/// An active enemy bullet overlapping the ship.
pub open spec fn enemy_hit(b: Bullet, s: Ship) -> bool {
    b.live() && b.shooter() == ShooterType::ALIEN && touching(b.bounds(), b.ring(), s.bounds(), s.ring())
}

/// An active player bullet overlapping the enemy craft.
pub open spec fn player_hit(b: Bullet, u: Ufo) -> bool {
    b.live() && b.shooter() == ShooterType::PLAYER && touching(b.bounds(), b.ring(), u.bounds(), u.ring())
}

/// The ship overlapping an active asteroid.
pub open spec fn rammed(s: Ship, a: Asteroid) -> bool {
    a.live() && touching(s.bounds(), s.ring(), a.bounds(), a.ring())
}

/// An active player bullet overlapping an active asteroid.
pub open spec fn shot(a: Asteroid, b: Bullet) -> bool {
    a.live() && b.live() && b.shooter() == ShooterType::PLAYER && touching(
        a.bounds(),
        a.ring(),
        b.bounds(),
        b.ring(),
    )
}

/// The fragments owed to the asteroids that were active in `before` and are
/// not in `after`, in index order: two of the next smaller class at the
/// destroyed asteroid's position, none for the smallest.
pub open spec fn fragment_plan(before: Seq<Asteroid>, after: Seq<Asteroid>) -> Seq<(AsteroidSize, Vec2)>
    decreases before.len(),
{
    if before.len() == 0 {
        seq![]
    } else {
        let k = before.len() - 1;
        let rest = fragment_plan(before.drop_last(), after.take(k));
        let a = before[k];
        let c = fragment_class(a.size_class());
        if a.live() && !after[k].live() && c != AsteroidSize::NONE {
            rest + seq![(c, a.position()), (c, a.position())]
        } else {
            rest
        }
    }
}

/// The asteroids from index `n` on are exactly the fragments of `plan`:
/// active, well formed, of the planned class at the planned position.
pub open spec fn fragments_match(s: Seq<Asteroid>, n: int, plan: Seq<(AsteroidSize, Vec2)>) -> bool {
    &&& s.len() == n + plan.len()
    &&& forall|k: int|
        0 <= k < plan.len() ==> {
            let a = #[trigger] s[n + k];
            &&& a.wf()
            &&& a.live()
            &&& a.size_class() == plan[k].0
            &&& a.position() == plan[k].1
        }
}

/// Destroying one asteroid owes exactly two fragments of the next smaller
/// class at its last position: a large one two medium ones, a medium one two
/// small ones, a small one none.
pub proof fn lemma_split_of_one(a: Asteroid)
    requires
        a.live(),
    ensures
        a.size_class() == AsteroidSize::LARGE ==> fragment_plan(seq![a], seq![a.killed()]) == seq![
            (AsteroidSize::MEDIUM, a.position()),
            (AsteroidSize::MEDIUM, a.position()),
        ],
        a.size_class() == AsteroidSize::MEDIUM ==> fragment_plan(seq![a], seq![a.killed()])
            == seq![(AsteroidSize::SMALL, a.position()), (AsteroidSize::SMALL, a.position())],
        a.size_class() == AsteroidSize::SMALL ==> fragment_plan(seq![a], seq![a.killed()]).len()
            == 0,
{
    a.lemma_killed();
    let before = seq![a];
    let after = seq![a.killed()];
    assert(before.drop_last() =~= Seq::<Asteroid>::empty());
    assert(fragment_plan(before.drop_last(), after.take(0)) =~= Seq::<(AsteroidSize, Vec2)>::empty());
}

/// What a tick asks the audio collaborator to play.
#[derive(Clone, Copy, Debug, PartialEq, Eq, Structural)]
pub struct TickEvents {
    pub fired: bool,
    pub exploded: bool,
}

/// Spread of an enemy shot around its aim, in milliradians.
pub const AIM_SPREAD_MRAD: i64 = 200;

/// Positions of the bullets that were active in `before` and are not in
/// `after`, in index order.
pub open spec fn hit_positions(before: Seq<Bullet>, after: Seq<Bullet>) -> Seq<Vec2>
    decreases before.len(),
{
    if before.len() == 0 {
        seq![]
    } else {
        let k = before.len() - 1;
        let rest = hit_positions(before.drop_last(), after.take(k));
        if before[k].live() && !after[k].live() {
            rest.push(before[k].position())
        } else {
            rest
        }
    }
}

/// `after` is `before` followed by one fresh burst at each of `centres`, in order.
pub open spec fn bursts_appended(
    before: Seq<Explosion>,
    after: Seq<Explosion>,
    centres: Seq<Vec2>,
    trig: TrigTable,
) -> bool {
    &&& after.len() == before.len() + centres.len()
    &&& after.subrange(0, before.len() as int) == before
    &&& forall|k: int|
        0 <= k < centres.len() ==> burst_at(
            #[trigger] after[before.len() + k],
            centres[k].x,
            centres[k].y,
            trig,
        )
}

proof fn lemma_hit_positions_step(o: Seq<Bullet>, cur: Seq<Bullet>, j: int)
    requires
        0 <= j < o.len(),
        cur.len() == o.len(),
    ensures
        hit_positions(o.take(j + 1), cur.take(j + 1)) == if o[j].live() && !cur[j].live() {
            hit_positions(o.take(j), cur.take(j)).push(o[j].position())
        } else {
            hit_positions(o.take(j), cur.take(j))
        },
{
    assert(o.take(j + 1).drop_last() =~= o.take(j));
    assert(cur.take(j + 1).take(j) =~= cur.take(j));
}

/// Appending one burst to a list that already carries the bursts of `centres`.
proof fn lemma_burst_pushed(
    e0: Seq<Explosion>,
    e: Seq<Explosion>,
    centres: Seq<Vec2>,
    trig: TrigTable,
    b: Explosion,
    c: Vec2,
)
    requires
        bursts_appended(e0, e, centres, trig),
        burst_at(b, c.x, c.y, trig),
    ensures
        bursts_appended(e0, e.push(b), centres.push(c), trig),
{
    let e1 = e.push(b);
    assert(e1.subrange(0, e0.len() as int) =~= e0) by {
        assert forall|k: int| 0 <= k < e0.len() implies e1[k] == e0[k] by {
            assert(e.subrange(0, e0.len() as int)[k] == e0[k]);
        }
    }
    assert forall|k: int| 0 <= k < centres.len() + 1 implies burst_at(
        #[trigger] e1[e0.len() + k],
        centres.push(c)[k].x,
        centres.push(c)[k].y,
        trig,
    ) by {
        if k < centres.len() {
            assert(e1[e0.len() + k] == e[e0.len() + k]);
        }
    }
}

/// Rule one: bullets against the ship and the enemy craft, as the pass does it.
pub open spec fn bullet_hits_resolved(b: Game, a: Game) -> bool {
    &&& a.table() == b.table()
    &&& a.lives() == b.lives()
    &&& a.asteroids() == b.asteroids()
    &&& a.bullets().len() == b.bullets().len()
    &&& forall|k: int| 0 <= k < b.bullets().len() ==> ended( #[trigger] b.bullets()[k], a.bullets()[k], )
    &&& ended(b.ship(), a.ship())
    &&& ended(b.ufo(), a.ufo())
    &&& forall|k: int| 0 <= k < b.bullets().len() && (#[trigger] b.bullets()[k]).live() && !a.bullets()[k].live() ==> (b.ship().live() && enemy_hit( b.bullets()[k], b.ship(), )) || (b.ufo().live() && player_hit(b.bullets()[k], b.ufo()))
    &&& b.ship().live() && !a.ship().live() ==> exists|k: int| 0 <= k < b.bullets().len() && enemy_hit( #[trigger] b.bullets()[k], b.ship(), )
    &&& b.ufo().live() && !a.ufo().live() ==> exists|k: int| 0 <= k < b.bullets().len() && player_hit( #[trigger] b.bullets()[k], b.ufo(), )
    &&& forall|k: int| 0 <= k < b.bullets().len() ==> (a.ship().live() ==> !( #[trigger] a.bullets()[k].live() && enemy_hit( b.bullets()[k], b.ship(), ))) && (a.ufo().live() ==> !(a.bullets()[k].live() && player_hit(b.bullets()[k], b.ufo())))
    &&& a.explosions().len() >= b.explosions().len()
    &&& a.explosions().subrange(0, b.explosions().len() as int) == b.explosions()
    &&& a.shot_clock() == b.shot_clock()
    &&& bursts_appended( b.explosions(), a.explosions(), hit_positions(b.bullets(), a.bullets()), b.table(), )
}

/// Rule two: the ship against the asteroids.
pub open spec fn ramming_resolved(b: Game, a: Game) -> bool {
    &&& a.table() == b.table()
    &&& a.lives() == b.lives()
    &&& a.bullets() == b.bullets()
    &&& a.ufo() == b.ufo()
    &&& a.asteroids().len() == b.asteroids().len()
    &&& forall|k: int| 0 <= k < b.asteroids().len() ==> ended( #[trigger] b.asteroids()[k], a.asteroids()[k], )
    &&& ended(b.ship(), a.ship())
    &&& forall|k: int| 0 <= k < b.asteroids().len() && (#[trigger] b.asteroids()[k]).live() && !a.asteroids()[k].live() ==> b.ship().live() && rammed( b.ship(), b.asteroids()[k], )
    &&& b.ship().live() && !a.ship().live() ==> exists|k: int| 0 <= k < b.asteroids().len() && rammed( b.ship(), #[trigger] b.asteroids()[k], )
    &&& a.ship().live() ==> forall|k: int| 0 <= k < b.asteroids().len() ==> !( #[trigger] a.asteroids()[k].live() && rammed( b.ship(), b.asteroids()[k], ))
    &&& a.explosions().len() >= b.explosions().len()
    &&& a.explosions().subrange(0, b.explosions().len() as int) == b.explosions()
    &&& a.shot_clock() == b.shot_clock()
    &&& a.ship() == b.ship() ==> a.asteroids() == b.asteroids() && a.explosions() == b.explosions()
    &&& b.ship().live() && !a.ship().live() ==> exists|k: int| 0 <= k < b.asteroids().len() && rammed( b.ship(), #[trigger] b.asteroids()[k], ) && a.asteroids()[k] == b.asteroids()[k].killed() && (forall|m: int| 0 <= m < b.asteroids().len() && m != k ==> #[trigger] a.asteroids()[m] == b.asteroids()[m]) && bursts_appended( b.explosions(), a.explosions(), seq![b.asteroids()[k].position(), b.ship().position()], b.table(), )
}

/// Rule three: player bullets against the asteroids.
pub open spec fn shots_resolved(b: Game, a: Game) -> bool {
    &&& a.table() == b.table()
    &&& a.lives() == b.lives()
    &&& a.ship() == b.ship()
    &&& a.ufo() == b.ufo()
    &&& a.bullets().len() == b.bullets().len()
    &&& a.asteroids().len() == b.asteroids().len()
    &&& forall|k: int| 0 <= k < b.bullets().len() ==> ended( #[trigger] b.bullets()[k], a.bullets()[k], )
    &&& forall|k: int| 0 <= k < b.asteroids().len() ==> ended( #[trigger] b.asteroids()[k], a.asteroids()[k], )
    &&& forall|k: int| 0 <= k < b.asteroids().len() && (#[trigger] b.asteroids()[k]).live() && !a.asteroids()[k].live() ==> exists|j: int| 0 <= j < b.bullets().len() && shot( b.asteroids()[k], #[trigger] b.bullets()[j], )
    &&& forall|j: int| 0 <= j < b.bullets().len() && (#[trigger] b.bullets()[j]).live() && !a.bullets()[j].live() ==> exists|k: int| 0 <= k < b.asteroids().len() && shot( #[trigger] b.asteroids()[k], b.bullets()[j], )
    &&& forall|j: int, k: int| 0 <= j < b.bullets().len() && 0 <= k < b.asteroids().len() ==> !( #[trigger] a.bullets()[j].live() && #[trigger] a.asteroids()[k].live() && shot(b.asteroids()[k], b.bullets()[j]))
    &&& a.explosions().len() >= b.explosions().len()
    &&& a.explosions().subrange(0, b.explosions().len() as int) == b.explosions()
    &&& a.shot_clock() == b.shot_clock()
    &&& bursts_appended( b.explosions(), a.explosions(), hit_positions(b.bullets(), a.bullets()), b.table(), )
}

/// Rule four: the fragments owed to every asteroid of `before` that the
/// earlier rules destroyed are appended.
pub open spec fn split_resolved(b: Game, a: Game, before: Seq<Asteroid>) -> bool {
    &&& a.table() == b.table()
    &&& a.lives() == b.lives()
    &&& a.ship() == b.ship()
    &&& a.ufo() == b.ufo()
    &&& a.bullets() == b.bullets()
    &&& a.explosions() == b.explosions()
    &&& a.shot_clock() == b.shot_clock()
    &&& a.asteroids().take(before.len() as int) == b.asteroids()
    &&& fragments_match( a.asteroids(), before.len() as int, fragment_plan(before, b.asteroids()), )
}

/// Rule five: the lives, after a pass that started with the ship active
/// when `ship_was_live`.
pub open spec fn lives_resolved(b: Game, a: Game, ship_was_live: bool) -> bool {
    &&& a.table() == b.table()
    &&& a.ship() == b.ship()
    &&& a.ufo() == b.ufo()
    &&& a.bullets() == b.bullets()
    &&& a.asteroids() == b.asteroids()
    &&& a.explosions() == b.explosions()
    &&& a.shot_clock() == b.shot_clock()
    &&& a.lives().count() == if ship_was_live && !a.ship().live() {
        if b.lives().count() > 0 {
            b.lives().count() - 1
        } else {
            0
        }
    } else {
        b.lives().count()
    }
}

/// One collision-resolution pass from `o` to `f`, through the states after
/// each rule in the fixed order.
pub open spec fn resolved_in_order(o: Game, s1: Game, s2: Game, s3: Game, s4: Game, f: Game) -> bool {
    &&& bullet_hits_resolved(o, s1)
    &&& ramming_resolved(s1, s2)
    &&& shots_resolved(s2, s3)
    &&& split_resolved(s3, s4, o.asteroids())
    &&& lives_resolved(s4, f, o.ship().live())
}

/// `aim` is the table heading that points most nearly along `d`.
pub open spec fn best_heading(trig: TrigTable, aim: int, d: Vec2) -> bool {
    &&& 0 <= aim < TAU_MRAD
    &&& forall|k: int|
        0 <= k < TAU_MRAD ==> #[trigger] heading_score(trig, k, d) <= heading_score(trig, aim, d)
}

/// `b` is an enemy bullet fired from `from` toward `to`: the best table
/// heading toward the target, spread by less than `AIM_SPREAD_MRAD`.
pub open spec fn enemy_shot(b: Bullet, from: Vec2, to: Vec2, trig: TrigTable) -> bool {
    exists|aim: int, ang: int|
        #![trigger best_heading(trig, aim, Vec2 { x: (to.x - from.x) as i64, y: (to.y - from.y) as i64 }), fresh_bullet(b, from.x, from.y, ang, ShooterType::ALIEN, trig)]
        best_heading(trig, aim, Vec2 { x: (to.x - from.x) as i64, y: (to.y - from.y) as i64 })
            && -AIM_SPREAD_MRAD <= ang - aim < AIM_SPREAD_MRAD && fresh_bullet(
            b,
            from.x,
            from.y,
            ang,
            ShooterType::ALIEN,
            trig,
        )
}

/// The player's shot clock after `delta_ms` more milliseconds.
pub open spec fn next_shot_clock(c: int, delta_ms: int) -> int {
    if c + delta_ms > SHOOT_INTERVAL_MS {
        SHOOT_INTERVAL_MS + 1
    } else {
        c + delta_ms
    }
}

/// The movement part of a tick, from `o` to `m`: the ship takes the intents
/// and moves, fires if it holds fire, is active and its shot clock has run
/// past the interval; the enemy craft moves and fires at the ship when its
/// clock says so and both are active; every bullet (the new ones included)
/// and every asteroid moves.
pub open spec fn integrated(o: Game, m: Game, delta_ms: int, intents: ControlIntents, fired: bool) -> bool {
    let trig = o.table();
    let clock = next_shot_clock(o.shot_clock(), delta_ms);
    let n = o.bullets().len();
    let enemy_fired = m.ufo().live() && m.ufo().shooting() && m.ship().live();
    let extra: int = if fired {
        1
    } else {
        0
    };
    &&& m.table() == trig
    &&& m.lives() == o.lives()
    &&& m.explosions() == o.explosions()
    &&& ship_stepped(o.ship().steered(intents), m.ship(), delta_ms, trig)
    &&& fired == (m.ship().live() && intents.fire && clock > SHOOT_INTERVAL_MS)
    &&& m.shot_clock() == if fired {
        0
    } else {
        clock
    }
    &&& ufo_stepped(o.ufo(), m.ufo(), delta_ms, trig)
    &&& m.bullets().len() == n + extra + if enemy_fired {
        1int
    } else {
        0
    }
    &&& forall|k: int|
        0 <= k < n ==> bullet_stepped(#[trigger] o.bullets()[k], m.bullets()[k], delta_ms, trig)
    &&& fired ==> exists|b: Bullet|
        #[trigger] fresh_bullet(
            b,
            m.ship().position().x,
            m.ship().position().y,
            m.ship().heading(),
            ShooterType::PLAYER,
            trig,
        ) && bullet_stepped(b, m.bullets()[n as int], delta_ms, trig)
    &&& enemy_fired ==> exists|b: Bullet|
        #[trigger] enemy_shot(b, m.ufo().position(), m.ship().position(), trig) && bullet_stepped(
            b,
            m.bullets()[n + extra],
            delta_ms,
            trig,
        )
    &&& m.asteroids().len() == o.asteroids().len()
    &&& forall|k: int|
        0 <= k < o.asteroids().len() ==> asteroid_stepped(
            #[trigger] o.asteroids()[k],
            m.asteroids()[k],
            delta_ms,
            trig,
        )
}

/// Every particle burst advanced by one tick, nothing else changed.
pub open spec fn bursts_advanced(b: Game, a: Game, delta_ms: int) -> bool {
    &&& a.table() == b.table()
    &&& a.ship() == b.ship()
    &&& a.ufo() == b.ufo()
    &&& a.bullets() == b.bullets()
    &&& a.asteroids() == b.asteroids()
    &&& a.lives() == b.lives()
    &&& a.shot_clock() == b.shot_clock()
    &&& a.explosions().len() == b.explosions().len()
    &&& forall|k: int|
        0 <= k < b.explosions().len() ==> burst_stepped(
            #[trigger] b.explosions()[k],
            a.explosions()[k],
            delta_ms,
            b.table(),
        )
}

/// A whole tick from `o` to `f` through the state `m` after movement, `r`
/// after the collision pass and `q` after the bursts advanced; `f` holds
/// the survivors of `q`.
pub open spec fn tick_stages(
    o: Game,
    m: Game,
    r: Game,
    q: Game,
    f: Game,
    delta_ms: int,
    intents: ControlIntents,
    ev: TickEvents,
) -> bool {
    &&& integrated(o, m, delta_ms, intents, ev.fired)
    &&& exists|s1: Game, s2: Game, s3: Game, s4: Game| #[trigger] resolved_in_order(m, s1, s2, s3, s4, r)
    &&& ev.exploded == (r.explosions().len() > m.explosions().len())
    &&& bursts_advanced(r, q, delta_ms)
    &&& f.table() == q.table()
    &&& f.ship() == q.ship()
    &&& f.ufo() == q.ufo()
    &&& f.shot_clock() == q.shot_clock()
    &&& f.lives().count() == q.lives().count()
    &&& f.explosions() == survivors(q.explosions())
    &&& f.bullets() == survivors(q.bullets())
    &&& f.asteroids() == survivors(q.asteroids())
}

/// Time between two player shots, in milliseconds.
pub const SHOOT_INTERVAL_MS: u32 = 500;

/// The whole simulation state of a session.
pub struct Game {
    ship: Ship,
    ufo: Ufo,
    bullets: Vec<Bullet>,
    asteroids: Vec<Asteroid>,
    explosions: Vec<Explosion>,
    lives: Lives,
    shoot_time: u32,
    trig: TrigTable,
}

pub open spec fn all_bullets_wf(s: Seq<Bullet>) -> bool {
    forall|k: int| 0 <= k < s.len() ==> (#[trigger] s[k]).wf()
}

pub open spec fn all_asteroids_wf(s: Seq<Asteroid>) -> bool {
    forall|k: int| 0 <= k < s.len() ==> (#[trigger] s[k]).wf()
}

pub open spec fn all_explosions_wf(s: Seq<Explosion>) -> bool {
    forall|k: int| 0 <= k < s.len() ==> (#[trigger] s[k]).wf()
}

impl Game {
    pub closed spec fn ship(&self) -> Ship {
        self.ship
    }

    pub closed spec fn ufo(&self) -> Ufo {
        self.ufo
    }

    pub closed spec fn bullets(&self) -> Seq<Bullet> {
        self.bullets@
    }

    pub closed spec fn asteroids(&self) -> Seq<Asteroid> {
        self.asteroids@
    }

    pub closed spec fn explosions(&self) -> Seq<Explosion> {
        self.explosions@
    }

    pub closed spec fn lives(&self) -> Lives {
        self.lives
    }

    /// Milliseconds since the player's last shot, held at one past the interval.
    pub closed spec fn shot_clock(&self) -> int {
        self.shoot_time as int
    }

    pub closed spec fn table(&self) -> TrigTable {
        self.trig
    }

    pub closed spec fn wf(&self) -> bool {
        &&& self.trig.wf()
        &&& self.ship.wf()
        &&& self.ufo.wf()
        &&& all_bullets_wf(self.bullets@)
        &&& all_asteroids_wf(self.asteroids@)
        &&& all_explosions_wf(self.explosions@)
        &&& self.lives.wf()
        &&& self.shoot_time <= SHOOT_INTERVAL_MS + 1
    }

    /// A session from the given entities.
    pub fn from_parts(
        ship: Ship,
        ufo: Ufo,
        bullets: Vec<Bullet>,
        asteroids: Vec<Asteroid>,
        lives: Lives,
        trig: TrigTable,
    ) -> (r: Game)
        requires
            trig.wf(),
            ship.wf(),
            ufo.wf(),
            all_bullets_wf(bullets@),
            all_asteroids_wf(asteroids@),
            lives.wf(),
        ensures
            r.wf(),
            r.ship() == ship,
            r.ufo() == ufo,
            r.bullets() == bullets@,
            r.asteroids() == asteroids@,
            r.explosions().len() == 0,
            r.lives() == lives,
            r.table() == trig,
    {
        Game {
            ship,
            ufo,
            bullets,
            asteroids,
            explosions: Vec::new(),
            lives,
            shoot_time: 0,
            trig,
        }
    }

    pub fn get_ship(&self) -> (r: &Ship)
        ensures
            *r == self.ship(),
    {
        &self.ship
    }

    pub fn get_ufo(&self) -> (r: &Ufo)
        ensures
            *r == self.ufo(),
    {
        &self.ufo
    }

    pub fn get_bullets(&self) -> (r: &Vec<Bullet>)
        ensures
            r@ == self.bullets(),
    {
        &self.bullets
    }

    pub fn get_asteroids(&self) -> (r: &Vec<Asteroid>)
        ensures
            r@ == self.asteroids(),
    {
        &self.asteroids
    }

    pub fn get_explosions(&self) -> (r: &Vec<Explosion>)
        ensures
            r@ == self.explosions(),
    {
        &self.explosions
    }

    pub fn get_lives(&self) -> (r: &Lives)
        ensures
            *r == self.lives(),
    {
        &self.lives
    }

    /// Bullets against the ship and the enemy craft: an enemy bullet that
    /// overlaps the active ship ends both, a player bullet that overlaps the
    /// active craft ends both; each hit leaves an explosion at the bullet.
    fn bullets_vs_ship_and_ufo(&mut self) -> (exploded: bool)
        requires
            old(self).wf(),
        ensures
            final(self).wf(),
            final(self).table() == old(self).table(),
            final(self).lives() == old(self).lives(),
            final(self).asteroids() == old(self).asteroids(),
            final(self).bullets().len() == old(self).bullets().len(),
            forall|k: int|
                0 <= k < old(self).bullets().len() ==> ended(
                    #[trigger] old(self).bullets()[k],
                    final(self).bullets()[k],
                ),
            ended(old(self).ship(), final(self).ship()),
            ended(old(self).ufo(), final(self).ufo()),
            forall|k: int|
                0 <= k < old(self).bullets().len() && (#[trigger] old(self).bullets()[k]).live()
                    && !final(self).bullets()[k].live() ==> (old(self).ship().live() && enemy_hit(
                    old(self).bullets()[k],
                    old(self).ship(),
                )) || (old(self).ufo().live() && player_hit(old(self).bullets()[k], old(self).ufo())),
            old(self).ship().live() && !final(self).ship().live() ==> exists|k: int|
                0 <= k < old(self).bullets().len() && enemy_hit(
                    #[trigger] old(self).bullets()[k],
                    old(self).ship(),
                ),
            old(self).ufo().live() && !final(self).ufo().live() ==> exists|k: int|
                0 <= k < old(self).bullets().len() && player_hit(
                    #[trigger] old(self).bullets()[k],
                    old(self).ufo(),
                ),
            forall|k: int|
                0 <= k < old(self).bullets().len() ==> (final(self).ship().live() ==> !(
                #[trigger] final(self).bullets()[k].live() && enemy_hit(
                    old(self).bullets()[k],
                    old(self).ship(),
                ))) && (final(self).ufo().live() ==> !(final(self).bullets()[k].live()
                    && player_hit(old(self).bullets()[k], old(self).ufo()))),
            final(self).explosions().len() >= old(self).explosions().len(),
            final(self).explosions().subrange(0, old(self).explosions().len() as int)
                == old(self).explosions(),
            exploded == (final(self).explosions().len() > old(self).explosions().len()),
            final(self).shot_clock() == old(self).shot_clock(),
            bursts_appended(
                old(self).explosions(),
                final(self).explosions(),
                hit_positions(old(self).bullets(), final(self).bullets()),
                old(self).table(),
            ),
    {
        let ghost o_b = self.bullets@;
        let ghost o_ship = self.ship;
        let ghost o_ufo = self.ufo;
        let ghost o_e = self.explosions@;
        proof {
            assert(o_e.subrange(0, o_e.len() as int) =~= o_e);
            assert(hit_positions(o_b.take(0), self.bullets@.take(0)) =~= Seq::<Vec2>::empty());
        }
        let mut exploded = false;
        let mut j: usize = 0;
        while j < self.bullets.len()
            invariant
                self.wf(),
                self.trig == old(self).trig,
                self.lives == old(self).lives,
                self.asteroids == old(self).asteroids,
                o_b == old(self).bullets@,
                o_ship == old(self).ship,
                o_ufo == old(self).ufo,
                o_e == old(self).explosions@,
                self.bullets@.len() == o_b.len(),
                j <= o_b.len(),
                forall|k: int| 0 <= k < o_b.len() ==> ended(#[trigger] o_b[k], self.bullets@[k]),
                forall|k: int| j <= k < o_b.len() ==> #[trigger] self.bullets@[k] == o_b[k],
                ended(o_ship, self.ship),
                ended(o_ufo, self.ufo),
                forall|k: int|
                    0 <= k < o_b.len() && (#[trigger] o_b[k]).live() && !self.bullets@[k].live()
                        ==> (o_ship.live() && enemy_hit(o_b[k], o_ship)) || (o_ufo.live()
                        && player_hit(o_b[k], o_ufo)),
                o_ship.live() && !self.ship.live() ==> exists|k: int|
                    0 <= k < o_b.len() && enemy_hit(#[trigger] o_b[k], o_ship),
                o_ufo.live() && !self.ufo.live() ==> exists|k: int|
                    0 <= k < o_b.len() && player_hit(#[trigger] o_b[k], o_ufo),
                forall|k: int|
                    0 <= k < j ==> (self.ship.live() ==> !(#[trigger] self.bullets@[k].live()
                        && enemy_hit(o_b[k], o_ship))) && (self.ufo.live() ==> !(
                    self.bullets@[k].live() && player_hit(o_b[k], o_ufo))),
                self.explosions@.len() >= o_e.len(),
                self.explosions@.subrange(0, o_e.len() as int) == o_e,
                exploded == (self.explosions@.len() > o_e.len()),
                self.shoot_time == old(self).shoot_time,
                bursts_appended(o_e, self.explosions@, hit_positions(o_b.take(j as int), self.bullets@.take(j as int)), self.trig),
            decreases o_b.len() - j,
        {
            let ghost cur0 = self.bullets@;
            let ghost hp = hit_positions(o_b.take(j as int), cur0.take(j as int));
            proof {
                assert(self.bullets@[j as int] == o_b[j as int]);
                self.bullets@[j as int].lemma_wf();
                self.ship.lemma_wf();
                self.ufo.lemma_wf();
                self.ship.lemma_killed();
                self.ufo.lemma_killed();
                o_ship.lemma_killed();
                o_ufo.lemma_killed();
            }
            if self.bullets[j].is_active() {
                let shooter = self.bullets[j].get_shooter_type();
                if shooter == ShooterType::ALIEN && self.ship.is_active() {
                    if aabb(self.bullets[j].get_box_area(), self.ship.get_box_area()) && sat(
                        self.bullets[j].get_tp(),
                        self.ship.get_tp(),
                    ) {
                        let pos = self.bullets[j].get_position();
                        let e = Explosion::new(pos.x, pos.y, &self.trig);
                        proof {
                            lemma_burst_pushed(o_e, self.explosions@, hp, self.trig, e, pos);
                        }
                        self.explosions.push(e);
                        exploded = true;
                        self.ship.kill();
                        let ghost before = self.bullets@;
                        proof {
                            self.bullets@[j as int].lemma_killed();
                        }
                        self.bullets[j].kill();
                        proof {
                            assert forall|k: int| 0 <= k < o_b.len() && k != j implies #[trigger] self.bullets@[k] == before[k] by {}
                        }
                    }
                } else if shooter == ShooterType::PLAYER && self.ufo.is_active() {
                    if aabb(self.bullets[j].get_box_area(), self.ufo.get_box_area()) && sat(
                        self.bullets[j].get_tp(),
                        self.ufo.get_tp(),
                    ) {
                        let pos = self.bullets[j].get_position();
                        let e = Explosion::new(pos.x, pos.y, &self.trig);
                        proof {
                            lemma_burst_pushed(o_e, self.explosions@, hp, self.trig, e, pos);
                        }
                        self.explosions.push(e);
                        exploded = true;
                        self.ufo.kill();
                        let ghost before = self.bullets@;
                        proof {
                            self.bullets@[j as int].lemma_killed();
                        }
                        self.bullets[j].kill();
                        proof {
                            assert forall|k: int| 0 <= k < o_b.len() && k != j implies #[trigger] self.bullets@[k] == before[k] by {}
                        }
                    }
                }
            }
            proof {
                assert(self.bullets@.take(j as int) =~= cur0.take(j as int));
                lemma_hit_positions_step(o_b, self.bullets@, j as int);
            }
            j += 1;
        }
        proof {
            assert(o_b.take(o_b.len() as int) =~= o_b);
            assert(self.bullets@.take(o_b.len() as int) =~= self.bullets@);
        }
        exploded
    }

    /// The ship against the asteroids: the first active asteroid that
    /// overlaps the active ship ends both and leaves an explosion at each.
    fn ship_vs_asteroids(&mut self) -> (exploded: bool)
        requires
            old(self).wf(),
        ensures
            final(self).wf(),
            final(self).table() == old(self).table(),
            final(self).lives() == old(self).lives(),
            final(self).bullets() == old(self).bullets(),
            final(self).ufo() == old(self).ufo(),
            final(self).asteroids().len() == old(self).asteroids().len(),
            forall|k: int|
                0 <= k < old(self).asteroids().len() ==> ended(
                    #[trigger] old(self).asteroids()[k],
                    final(self).asteroids()[k],
                ),
            ended(old(self).ship(), final(self).ship()),
            forall|k: int|
                0 <= k < old(self).asteroids().len() && (#[trigger] old(self).asteroids()[k]).live()
                    && !final(self).asteroids()[k].live() ==> old(self).ship().live() && rammed(
                    old(self).ship(),
                    old(self).asteroids()[k],
                ),
            old(self).ship().live() && !final(self).ship().live() ==> exists|k: int|
                0 <= k < old(self).asteroids().len() && rammed(
                    old(self).ship(),
                    #[trigger] old(self).asteroids()[k],
                ),
            final(self).ship().live() ==> forall|k: int|
                0 <= k < old(self).asteroids().len() ==> !(
                #[trigger] final(self).asteroids()[k].live() && rammed(
                    old(self).ship(),
                    old(self).asteroids()[k],
                )),
            final(self).explosions().len() >= old(self).explosions().len(),
            final(self).explosions().subrange(0, old(self).explosions().len() as int)
                == old(self).explosions(),
            exploded == (final(self).explosions().len() > old(self).explosions().len()),
            final(self).shot_clock() == old(self).shot_clock(),
            final(self).ship() == old(self).ship() ==> final(self).asteroids() == old(self).asteroids()
                && final(self).explosions() == old(self).explosions(),
            old(self).ship().live() && !final(self).ship().live() ==> exists|k: int|
                0 <= k < old(self).asteroids().len() && rammed(
                    old(self).ship(),
                    #[trigger] old(self).asteroids()[k],
                ) && final(self).asteroids()[k] == old(self).asteroids()[k].killed() && (forall|m: int|
                    0 <= m < old(self).asteroids().len() && m != k ==> #[trigger] final(self).asteroids()[m]
                        == old(self).asteroids()[m]) && bursts_appended(
                    old(self).explosions(),
                    final(self).explosions(),
                    seq![old(self).asteroids()[k].position(), old(self).ship().position()],
                    old(self).table(),
                ),
    {
        let ghost o_a = self.asteroids@;
        let ghost o_ship = self.ship;
        let ghost o_e = self.explosions@;
        let mut exploded = false;
        let ghost mut killed_at: int = 0;
        let mut i: usize = 0;
        while i < self.asteroids.len() && self.ship.is_active()
            invariant
                self.wf(),
                self.trig == old(self).trig,
                self.lives == old(self).lives,
                self.bullets == old(self).bullets,
                self.ufo == old(self).ufo,
                o_a == old(self).asteroids@,
                o_ship == old(self).ship,
                o_e == old(self).explosions@,
                self.asteroids@.len() == o_a.len(),
                i <= o_a.len(),
                forall|k: int| 0 <= k < o_a.len() ==> ended(#[trigger] o_a[k], self.asteroids@[k]),
                forall|k: int| i <= k < o_a.len() ==> #[trigger] self.asteroids@[k] == o_a[k],
                ended(o_ship, self.ship),
                forall|k: int|
                    0 <= k < o_a.len() && (#[trigger] o_a[k]).live() && !self.asteroids@[k].live()
                        ==> o_ship.live() && rammed(o_ship, o_a[k]),
                o_ship.live() && !self.ship.live() ==> exists|k: int|
                    0 <= k < o_a.len() && rammed(o_ship, #[trigger] o_a[k]),
                self.ship.live() ==> forall|k: int|
                    0 <= k < i ==> !(#[trigger] self.asteroids@[k].live() && rammed(o_ship, o_a[k])),
                self.explosions@.len() >= o_e.len(),
                self.explosions@.subrange(0, o_e.len() as int) == o_e,
                exploded == (self.explosions@.len() > o_e.len()),
                self.shoot_time == old(self).shoot_time,
                self.ship.live() || !o_ship.live() ==> self.ship == o_ship && self.asteroids@ == o_a
                    && self.explosions@ == o_e,
                o_ship.live() && !self.ship.live() ==> 0 <= killed_at < o_a.len() && rammed(
                    o_ship,
                    o_a[killed_at],
                ) && self.asteroids@[killed_at] == o_a[killed_at].killed() && (forall|m: int|
                    0 <= m < o_a.len() && m != killed_at ==> #[trigger] self.asteroids@[m] == o_a[m])
                    && bursts_appended(
                    o_e,
                    self.explosions@,
                    seq![o_a[killed_at].position(), o_ship.position()],
                    self.trig,
                ),
            decreases o_a.len() - i,
        {
            proof {
                assert(self.asteroids@[i as int] == o_a[i as int]);
                self.asteroids@[i as int].lemma_wf();
                self.ship.lemma_wf();
                self.ship.lemma_killed();
                o_ship.lemma_killed();
            }
            if self.asteroids[i].is_active() {
                if aabb(self.ship.get_box_area(), self.asteroids[i].get_box_area()) && sat(
                    self.ship.get_tp(),
                    self.asteroids[i].get_tp(),
                ) {
                    let apos = self.asteroids[i].get_position();
                    let e = Explosion::new(apos.x, apos.y, &self.trig);
                    proof {
                        assert(o_e.subrange(0, o_e.len() as int) =~= o_e);
                        lemma_burst_pushed(o_e, o_e, seq![], self.trig, e, apos);
                    }
                    self.explosions.push(e);
                    let spos = self.ship.get_position();
                    let e2 = Explosion::new(spos.x, spos.y, &self.trig);
                    proof {
                        lemma_burst_pushed(o_e, self.explosions@, seq![].push(apos), self.trig, e2, spos);
                        assert(seq![].push(apos).push(spos) =~= seq![apos, spos]);
                        killed_at = i as int;
                    }
                    self.explosions.push(e2);
                    exploded = true;
                    self.ship.kill();
                    let ghost before = self.asteroids@;
                    proof {
                        self.asteroids@[i as int].lemma_killed();
                    }
                    self.asteroids[i].kill();
                    proof {
                        assert forall|k: int| 0 <= k < o_a.len() && k != i implies #[trigger] self.asteroids@[k] == before[k] by {}
                    }
                }
            }
            i += 1;
        }
        proof {
            if o_ship.live() && !self.ship.live() {
                let k = choose|k: int| 0 <= k < o_a.len() && rammed(o_ship, #[trigger] o_a[k]);
                assert(rammed(old(self).ship(), old(self).asteroids()[k]));
            }
        }
        exploded
    }

    /// Player bullets against the asteroids: each active player bullet ends
    /// the first active asteroid it overlaps, and itself, leaving an
    /// explosion at the bullet. Enemy bullets never touch asteroids.
    fn bullets_vs_asteroids(&mut self) -> (exploded: bool)
        requires
            old(self).wf(),
        ensures
            final(self).wf(),
            final(self).table() == old(self).table(),
            final(self).lives() == old(self).lives(),
            final(self).ship() == old(self).ship(),
            final(self).ufo() == old(self).ufo(),
            final(self).bullets().len() == old(self).bullets().len(),
            final(self).asteroids().len() == old(self).asteroids().len(),
            forall|k: int|
                0 <= k < old(self).bullets().len() ==> ended(
                    #[trigger] old(self).bullets()[k],
                    final(self).bullets()[k],
                ),
            forall|k: int|
                0 <= k < old(self).asteroids().len() ==> ended(
                    #[trigger] old(self).asteroids()[k],
                    final(self).asteroids()[k],
                ),
            forall|k: int|
                0 <= k < old(self).asteroids().len() && (#[trigger] old(self).asteroids()[k]).live()
                    && !final(self).asteroids()[k].live() ==> exists|j: int|
                    0 <= j < old(self).bullets().len() && shot(
                        old(self).asteroids()[k],
                        #[trigger] old(self).bullets()[j],
                    ),
            forall|j: int|
                0 <= j < old(self).bullets().len() && (#[trigger] old(self).bullets()[j]).live()
                    && !final(self).bullets()[j].live() ==> exists|k: int|
                    0 <= k < old(self).asteroids().len() && shot(
                        #[trigger] old(self).asteroids()[k],
                        old(self).bullets()[j],
                    ),
            forall|j: int, k: int|
                0 <= j < old(self).bullets().len() && 0 <= k < old(self).asteroids().len() ==> !(
                #[trigger] final(self).bullets()[j].live() && #[trigger] final(self).asteroids()[k].live()
                    && shot(old(self).asteroids()[k], old(self).bullets()[j])),
            final(self).explosions().len() >= old(self).explosions().len(),
            final(self).explosions().subrange(0, old(self).explosions().len() as int)
                == old(self).explosions(),
            exploded == (final(self).explosions().len() > old(self).explosions().len()),
            final(self).shot_clock() == old(self).shot_clock(),
            bursts_appended(
                old(self).explosions(),
                final(self).explosions(),
                hit_positions(old(self).bullets(), final(self).bullets()),
                old(self).table(),
            ),
    {
        let ghost o_a = self.asteroids@;
        let ghost o_b = self.bullets@;
        let ghost o_e = self.explosions@;
        let mut exploded = false;
        proof {
            assert(o_e.subrange(0, o_e.len() as int) =~= o_e);
            assert(hit_positions(o_b.take(0), self.bullets@.take(0)) =~= Seq::<Vec2>::empty());
        }
        let mut j: usize = 0;
        while j < self.bullets.len()
            invariant
                self.wf(),
                self.trig == old(self).trig,
                self.lives == old(self).lives,
                self.ship == old(self).ship,
                self.ufo == old(self).ufo,
                o_a == old(self).asteroids@,
                o_b == old(self).bullets@,
                o_e == old(self).explosions@,
                self.asteroids@.len() == o_a.len(),
                self.bullets@.len() == o_b.len(),
                j <= o_b.len(),
                forall|k: int| 0 <= k < o_a.len() ==> ended(#[trigger] o_a[k], self.asteroids@[k]),
                forall|k: int| 0 <= k < o_b.len() ==> ended(#[trigger] o_b[k], self.bullets@[k]),
                forall|k: int| j <= k < o_b.len() ==> #[trigger] self.bullets@[k] == o_b[k],
                forall|k: int|
                    0 <= k < o_a.len() && (#[trigger] o_a[k]).live() && !self.asteroids@[k].live()
                        ==> exists|m: int| 0 <= m < o_b.len() && shot(o_a[k], #[trigger] o_b[m]),
                forall|m: int|
                    0 <= m < o_b.len() && (#[trigger] o_b[m]).live() && !self.bullets@[m].live()
                        ==> exists|k: int| 0 <= k < o_a.len() && shot(#[trigger] o_a[k], o_b[m]),
                forall|m: int, k: int|
                    0 <= m < j && 0 <= k < o_a.len() ==> !(#[trigger] self.bullets@[m].live()
                        && #[trigger] self.asteroids@[k].live() && shot(o_a[k], o_b[m])),
                self.explosions@.len() >= o_e.len(),
                self.explosions@.subrange(0, o_e.len() as int) == o_e,
                exploded == (self.explosions@.len() > o_e.len()),
                self.shoot_time == old(self).shoot_time,
                bursts_appended(o_e, self.explosions@, hit_positions(o_b.take(j as int), self.bullets@.take(j as int)), self.trig),
            decreases o_b.len() - j,
        {
            let ghost cur0 = self.bullets@;
            let ghost hp = hit_positions(o_b.take(j as int), cur0.take(j as int));
            proof {
                assert(self.bullets@[j as int] == o_b[j as int]);
                self.bullets@[j as int].lemma_wf();
            }
            if self.bullets[j].is_active() && self.bullets[j].get_shooter_type()
                == ShooterType::PLAYER {
                let mut i: usize = 0;
                let mut hit = false;
                while i < self.asteroids.len() && !hit
                    invariant
                        self.wf(),
                        self.trig == old(self).trig,
                        self.lives == old(self).lives,
                        self.ship == old(self).ship,
                        self.ufo == old(self).ufo,
                        o_a == old(self).asteroids@,
                        o_b == old(self).bullets@,
                        o_e == old(self).explosions@,
                        self.asteroids@.len() == o_a.len(),
                        self.bullets@.len() == o_b.len(),
                        j < o_b.len(),
                        i <= o_a.len(),
                        o_b[j as int].live(),
                        o_b[j as int].shooter() == ShooterType::PLAYER,
                        hit ==> !self.bullets@[j as int].live(),
                        !hit ==> self.bullets@[j as int] == o_b[j as int],
                        forall|k: int| 0 <= k < o_a.len() ==> ended(#[trigger] o_a[k], self.asteroids@[k]),
                        forall|k: int| 0 <= k < o_b.len() ==> ended(#[trigger] o_b[k], self.bullets@[k]),
                        forall|k: int| j < k < o_b.len() ==> #[trigger] self.bullets@[k] == o_b[k],
                        forall|k: int|
                            0 <= k < o_a.len() && (#[trigger] o_a[k]).live() && !self.asteroids@[k].live()
                                ==> exists|m: int| 0 <= m < o_b.len() && shot(o_a[k], #[trigger] o_b[m]),
                        forall|m: int|
                            0 <= m < o_b.len() && (#[trigger] o_b[m]).live() && !self.bullets@[m].live()
                                ==> exists|k: int| 0 <= k < o_a.len() && shot(#[trigger] o_a[k], o_b[m]),
                        forall|m: int, k: int|
                            0 <= m < j && 0 <= k < o_a.len() ==> !(#[trigger] self.bullets@[m].live()
                                && #[trigger] self.asteroids@[k].live() && shot(o_a[k], o_b[m])),
                        forall|k: int|
                            0 <= k < i ==> !(self.bullets@[j as int].live()
                                && #[trigger] self.asteroids@[k].live() && shot(o_a[k], o_b[j as int])),
                        self.explosions@.len() >= o_e.len(),
                        self.explosions@.subrange(0, o_e.len() as int) == o_e,
                        exploded == (self.explosions@.len() > o_e.len()),
                        self.shoot_time == old(self).shoot_time,
                        self.bullets@.take(j as int) == cur0.take(j as int),
                        !hit ==> bursts_appended(o_e, self.explosions@, hp, self.trig),
                        hit ==> bursts_appended(o_e, self.explosions@, hp.push(o_b[j as int].position()), self.trig),
                    decreases o_a.len() - i,
                {
                    let ghost a_before = self.asteroids@;
                    proof {
                        self.asteroids@[i as int].lemma_wf();
                        self.bullets@[j as int].lemma_wf();
                        o_a[i as int].lemma_killed();
                        o_b[j as int].lemma_killed();
                    }
                    if self.asteroids[i].is_active() {
                        if aabb(self.asteroids[i].get_box_area(), self.bullets[j].get_box_area())
                            && sat(self.asteroids[i].get_tp(), self.bullets[j].get_tp()) {
                            let pos = self.bullets[j].get_position();
                            let e = Explosion::new(pos.x, pos.y, &self.trig);
                            proof {
                                lemma_burst_pushed(o_e, self.explosions@, hp, self.trig, e, pos);
                            }
                            self.explosions.push(e);
                            exploded = true;
                            proof {
                                self.asteroids@[i as int].lemma_killed();
                            }
                            self.asteroids[i].kill();
                            let ghost b_before = self.bullets@;
                            proof {
                                self.bullets@[j as int].lemma_killed();
                            }
                            self.bullets[j].kill();
                            hit = true;
                            proof {
                                assert(self.bullets@.take(j as int) =~= b_before.take(j as int));
                                assert(shot(o_a[i as int], o_b[j as int]));
                                assert forall|k: int| 0 <= k < o_a.len() && k != i implies #[trigger] self.asteroids@[k] == a_before[k] by {}
                                assert forall|k: int| 0 <= k < o_b.len() && k != j implies #[trigger] self.bullets@[k] == b_before[k] by {}
                            }
                        }
                    }
                    i += 1;
                }
            }
            proof {
                assert(self.bullets@.take(j as int) =~= cur0.take(j as int));
                lemma_hit_positions_step(o_b, self.bullets@, j as int);
            }
            j += 1;
        }
        proof {
            assert(o_b.take(o_b.len() as int) =~= o_b);
            assert(self.bullets@.take(o_b.len() as int) =~= self.bullets@);
        }
        exploded
    }

    /// Appends the fragments of every asteroid that was active at the start
    /// of the pass (`was_live`) and is no longer.
    fn spawn_fragments(&mut self, was_live: &Vec<bool>, Ghost(before): Ghost<Seq<Asteroid>>)
        requires
            old(self).wf(),
            was_live@.len() == before.len(),
            old(self).asteroids().len() == before.len(),
            forall|k: int| 0 <= k < before.len() ==> was_live@[k] == (#[trigger] before[k]).live(),
            forall|k: int|
                0 <= k < before.len() ==> ended(#[trigger] before[k], old(self).asteroids()[k]),
        ensures
            final(self).wf(),
            final(self).table() == old(self).table(),
            final(self).lives() == old(self).lives(),
            final(self).ship() == old(self).ship(),
            final(self).ufo() == old(self).ufo(),
            final(self).bullets() == old(self).bullets(),
            final(self).explosions() == old(self).explosions(),
            final(self).shot_clock() == old(self).shot_clock(),
            final(self).asteroids().take(before.len() as int) == old(self).asteroids(),
            fragments_match(
                final(self).asteroids(),
                before.len() as int,
                fragment_plan(before, old(self).asteroids()),
            ),
    {
        let ghost post = self.asteroids@;
        let n = self.asteroids.len();
        let mut i: usize = 0;
        while i < n
            invariant
                self.wf(),
                self.trig == old(self).trig,
                self.lives == old(self).lives,
                self.ship == old(self).ship,
                self.ufo == old(self).ufo,
                self.bullets == old(self).bullets,
                self.explosions == old(self).explosions,
                self.shoot_time == old(self).shoot_time,
                post == old(self).asteroids@,
                n == post.len(),
                n == before.len(),
                was_live@.len() == n,
                forall|k: int| 0 <= k < n ==> was_live@[k] == (#[trigger] before[k]).live(),
                forall|k: int| 0 <= k < n ==> ended(#[trigger] before[k], post[k]),
                i <= n,
                self.asteroids@.len() >= n,
                self.asteroids@.take(n as int) == post,
                fragments_match(
                    self.asteroids@,
                    n as int,
                    fragment_plan(before.take(i as int), post.take(i as int)),
                ),
            decreases n - i,
        {
            let ghost s0 = self.asteroids@;
            let ghost plan0 = fragment_plan(before.take(i as int), post.take(i as int));
            proof {
                assert(before.take(i as int + 1).drop_last() =~= before.take(i as int));
                assert(post.take(i as int + 1).take(i as int) =~= post.take(i as int));
                assert(self.asteroids@[i as int] == s0.take(n as int)[i as int]);
                assert(self.asteroids@[i as int] == post[i as int]);
                before[i as int].lemma_killed();
                self.asteroids@[i as int].lemma_wf();
            }
            if was_live[i] && !self.asteroids[i].is_active() {
                let pos = self.asteroids[i].get_position();
                let class = self.asteroids[i].get_asteroid_type();
                match class {
                    AsteroidSize::LARGE => {
                        polulate_asteroids(pos.x, pos.y, AsteroidSize::MEDIUM, &mut self.asteroids, &self.trig);
                    },
                    AsteroidSize::MEDIUM => {
                        polulate_asteroids(pos.x, pos.y, AsteroidSize::SMALL, &mut self.asteroids, &self.trig);
                    },
                    _ => {},
                }
                proof {
                    assert(self.asteroids@.take(n as int) =~= post) by {
                        assert(self.asteroids@.subrange(0, s0.len() as int) == s0);
                        assert forall|k: int| 0 <= k < n implies self.asteroids@[k] == post[k] by {
                            assert(self.asteroids@.subrange(0, s0.len() as int)[k] == s0[k]);
                            assert(s0.take(n as int)[k] == s0[k]);
                        }
                    }
                    assert forall|k: int| 0 <= k < self.asteroids@.len() implies (#[trigger] self.asteroids@[k]).wf() by {
                        if k < s0.len() {
                            assert(self.asteroids@.subrange(0, s0.len() as int)[k] == s0[k]);
                        }
                    }
                    let plan1 = fragment_plan(before.take(i as int + 1), post.take(i as int + 1));
                    assert forall|k: int| 0 <= k < plan1.len() implies {
                        let a = #[trigger] self.asteroids@[n + k];
                        &&& a.wf()
                        &&& a.live()
                        &&& a.size_class() == plan1[k].0
                        &&& a.position() == plan1[k].1
                    } by {
                        if k < plan0.len() {
                            assert(self.asteroids@.subrange(0, s0.len() as int)[n + k] == s0[n + k]);
                        }
                    }
                }
            } else {
                proof {
                    assert(fragment_plan(before.take(i as int + 1), post.take(i as int + 1)) == plan0);
                }
            }
            i += 1;
        }
        proof {
            assert(before.take(n as int) =~= before);
            assert(post.take(n as int) =~= post);
        }
    }

    /// One collision-resolution pass, in the fixed rule order: bullets
    /// against the ship and the enemy craft, the ship against the asteroids,
    /// player bullets against the asteroids, then the deferred split of every
    /// destroyed asteroid and, if the ship was destroyed, the loss of a life.
    /// Returns whether anything exploded.
    pub fn resolve_collisions(&mut self) -> (exploded: bool)
        requires
            old(self).wf(),
        ensures
            final(self).wf(),
            final(self).table() == old(self).table(),
            // every entity is left as it was or killed
            final(self).bullets().len() == old(self).bullets().len(),
            forall|k: int|
                0 <= k < old(self).bullets().len() ==> ended(
                    #[trigger] old(self).bullets()[k],
                    final(self).bullets()[k],
                ),
            forall|k: int|
                0 <= k < old(self).asteroids().len() ==> ended(
                    #[trigger] old(self).asteroids()[k],
                    final(self).asteroids()[k],
                ),
            ended(old(self).ship(), final(self).ship()),
            ended(old(self).ufo(), final(self).ufo()),
            // nothing is killed without a collision that the rules pair it in
            forall|k: int|
                0 <= k < old(self).asteroids().len() && (#[trigger] old(self).asteroids()[k]).live()
                    && !final(self).asteroids()[k].live() ==> (old(self).ship().live() && rammed(
                    old(self).ship(),
                    old(self).asteroids()[k],
                )) || exists|j: int|
                    0 <= j < old(self).bullets().len() && shot(
                        old(self).asteroids()[k],
                        #[trigger] old(self).bullets()[j],
                    ),
            old(self).ship().live() && !final(self).ship().live() ==> (exists|j: int|
                0 <= j < old(self).bullets().len() && enemy_hit(
                    #[trigger] old(self).bullets()[j],
                    old(self).ship(),
                )) || (exists|k: int|
                0 <= k < old(self).asteroids().len() && rammed(
                    old(self).ship(),
                    #[trigger] old(self).asteroids()[k],
                )),
            old(self).ufo().live() && !final(self).ufo().live() ==> exists|j: int|
                0 <= j < old(self).bullets().len() && player_hit(
                    #[trigger] old(self).bullets()[j],
                    old(self).ufo(),
                ),
            forall|j: int|
                0 <= j < old(self).bullets().len() && (#[trigger] old(self).bullets()[j]).live()
                    && !final(self).bullets()[j].live() ==> (old(self).ship().live() && enemy_hit(
                    old(self).bullets()[j],
                    old(self).ship(),
                )) || (old(self).ufo().live() && player_hit(old(self).bullets()[j], old(self).ufo()))
                    || exists|k: int|
                    0 <= k < old(self).asteroids().len() && shot(
                        #[trigger] old(self).asteroids()[k],
                        old(self).bullets()[j],
                    ),
            // no colliding pair that the rules pair is left with both sides active
            final(self).ship().live() ==> forall|j: int|
                0 <= j < old(self).bullets().len() ==> !(#[trigger] final(self).bullets()[j].live()
                    && enemy_hit(old(self).bullets()[j], old(self).ship())),
            final(self).ship().live() ==> forall|k: int|
                0 <= k < old(self).asteroids().len() ==> !(
                #[trigger] final(self).asteroids()[k].live() && rammed(
                    old(self).ship(),
                    old(self).asteroids()[k],
                )),
            final(self).ufo().live() ==> forall|j: int|
                0 <= j < old(self).bullets().len() ==> !(#[trigger] final(self).bullets()[j].live()
                    && player_hit(old(self).bullets()[j], old(self).ufo())),
            forall|j: int, k: int|
                0 <= j < old(self).bullets().len() && 0 <= k < old(self).asteroids().len() ==> !(
                #[trigger] final(self).bullets()[j].live() && #[trigger] final(self).asteroids()[k].live()
                    && shot(old(self).asteroids()[k], old(self).bullets()[j])),
            // the split cascade, appended after the existing asteroids
            final(self).asteroids().len() >= old(self).asteroids().len(),
            fragments_match(
                final(self).asteroids(),
                old(self).asteroids().len() as int,
                fragment_plan(
                    old(self).asteroids(),
                    final(self).asteroids().take(old(self).asteroids().len() as int),
                ),
            ),
            // a destroyed ship costs one life
            final(self).lives().count() == if old(self).ship().live() && !final(self).ship().live() {
                if old(self).lives().count() > 0 {
                    old(self).lives().count() - 1
                } else {
                    0
                }
            } else {
                old(self).lives().count()
            },
            final(self).explosions().len() >= old(self).explosions().len(),
            final(self).explosions().subrange(0, old(self).explosions().len() as int)
                == old(self).explosions(),
            exploded == (final(self).explosions().len() > old(self).explosions().len()),
            final(self).shot_clock() == old(self).shot_clock(),
            // the rules one after another, each on the state the previous left
            exists|s1: Game, s2: Game, s3: Game, s4: Game|
                #[trigger] resolved_in_order(*old(self), s1, s2, s3, s4, *final(self)),
    {
        let ghost g0 = *self;
        let ghost o_b = self.bullets@;
        let ghost o_a = self.asteroids@;
        let ghost o_ship = self.ship;
        let ghost o_ufo = self.ufo;
        let ghost o_e = self.explosions@;
        let ship_was_live = self.ship.is_active();
        let mut was_live: Vec<bool> = Vec::new();
        let mut i: usize = 0;
        while i < self.asteroids.len()
            invariant
                i <= self.asteroids@.len(),
                was_live@.len() == i,
                forall|k: int| 0 <= k < i ==> was_live@[k] == (#[trigger] self.asteroids@[k]).live(),
            decreases self.asteroids@.len() - i,
        {
            was_live.push(self.asteroids[i].is_active());
            i += 1;
        }
        let e1 = self.bullets_vs_ship_and_ufo();
        let ghost g1 = *self;
        let ghost s1_b = self.bullets@;
        let ghost s1_ship = self.ship;
        let ghost s1_ufo = self.ufo;
        let ghost s1_e = self.explosions@;
        let e2 = self.ship_vs_asteroids();
        let ghost g2 = *self;
        let ghost s2_a = self.asteroids@;
        let ghost s2_ship = self.ship;
        let ghost s2_e = self.explosions@;
        let e3 = self.bullets_vs_asteroids();
        let ghost g3 = *self;
        let ghost s3_b = self.bullets@;
        let ghost s3_a = self.asteroids@;
        let ghost s3_e = self.explosions@;
        proof {
            assert forall|k: int| 0 <= k < o_a.len() implies ended(#[trigger] o_a[k], s3_a[k]) by {
                lemma_ended_trans(o_a[k], s2_a[k], s3_a[k]);
            }
        }
        self.spawn_fragments(&was_live, Ghost(o_a));
        let ghost g4 = *self;
        if ship_was_live && !self.ship.is_active() {
            self.lives.remove_life();
        }
        proof {
            assert(resolved_in_order(g0, g1, g2, g3, g4, *self));
            let n = o_a.len() as int;
            assert(self.asteroids@.take(n) == s3_a);
            assert forall|k: int| 0 <= k < n implies #[trigger] self.asteroids@[k] == s3_a[k] by {
                assert(self.asteroids@.take(n)[k] == self.asteroids@[k]);
            }
            // every entity is ended
            assert forall|k: int| 0 <= k < o_b.len() implies ended(#[trigger] o_b[k], self.bullets@[k]) by {
                lemma_ended_trans(o_b[k], s1_b[k], self.bullets@[k]);
            }
            assert forall|k: int| 0 <= k < n implies ended(#[trigger] o_a[k], self.asteroids@[k]) by {
                lemma_ended_trans(o_a[k], s2_a[k], self.asteroids@[k]);
            }
            lemma_ended_trans(o_ship, s1_ship, self.ship);
            o_ship.lemma_killed();
            o_ufo.lemma_killed();
            // soundness
            assert forall|k: int| 0 <= k < n && (#[trigger] o_a[k]).live() && !self.asteroids@[k].live()
                implies (o_ship.live() && rammed(o_ship, o_a[k])) || exists|j: int|
                    0 <= j < o_b.len() && shot(o_a[k], #[trigger] o_b[j]) by {
                o_a[k].lemma_killed();
                if !s2_a[k].live() {
                    assert(s1_ship.live() && rammed(s1_ship, o_a[k]));
                    lemma_ended_live(o_ship, s1_ship);
                } else {
                    lemma_ended_live(o_a[k], s2_a[k]);
                    let j = choose|j: int| 0 <= j < s1_b.len() && shot(s2_a[k], #[trigger] s1_b[j]);
                    lemma_ended_live(o_b[j], s1_b[j]);
                    assert(shot(o_a[k], o_b[j]));
                }
            }
            if o_ship.live() && !self.ship.live() {
                if s1_ship.live() {
                    lemma_ended_live(o_ship, s1_ship);
                    let k = choose|k: int| 0 <= k < n && rammed(s1_ship, #[trigger] o_a[k]);
                    assert(rammed(o_ship, o_a[k]));
                }
            }
            assert forall|j: int| 0 <= j < o_b.len() && (#[trigger] o_b[j]).live() && !self.bullets@[j].live()
                implies (o_ship.live() && enemy_hit(o_b[j], o_ship)) || (o_ufo.live() && player_hit(o_b[j], o_ufo))
                    || exists|k: int| 0 <= k < n && shot(#[trigger] o_a[k], o_b[j]) by {
                if s1_b[j].live() {
                    lemma_ended_live(o_b[j], s1_b[j]);
                    let k = choose|k: int| 0 <= k < s2_a.len() && shot(#[trigger] s2_a[k], s1_b[j]);
                    lemma_ended_live(o_a[k], s2_a[k]);
                    assert(shot(o_a[k], o_b[j]));
                }
            }
            // completeness
            assert forall|j: int| 0 <= j < o_b.len() && self.ship.live() implies !(#[trigger] self.bullets@[j].live()
                && enemy_hit(o_b[j], o_ship)) by {
                lemma_ended_trans(o_ship, s1_ship, self.ship);
                if self.bullets@[j].live() {
                    lemma_ended_live(s1_b[j], self.bullets@[j]);
                }
            }
            assert forall|k: int| 0 <= k < n && self.ship.live() implies !(#[trigger] self.asteroids@[k].live()
                && rammed(o_ship, o_a[k])) by {
                lemma_ended_live(o_ship, s1_ship);
                if self.asteroids@[k].live() {
                    lemma_ended_live(s2_a[k], self.asteroids@[k]);
                }
            }
            assert forall|j: int| 0 <= j < o_b.len() && self.ufo.live() implies !(#[trigger] self.bullets@[j].live()
                && player_hit(o_b[j], o_ufo)) by {
                if self.bullets@[j].live() {
                    lemma_ended_live(s1_b[j], self.bullets@[j]);
                }
            }
            assert forall|j: int, k: int| 0 <= j < o_b.len() && 0 <= k < n implies !(#[trigger] self.bullets@[j].live()
                && #[trigger] self.asteroids@[k].live() && shot(o_a[k], o_b[j])) by {
                if self.bullets@[j].live() && self.asteroids@[k].live() {
                    lemma_ended_live(s1_b[j], self.bullets@[j]);
                    lemma_ended_live(o_b[j], s1_b[j]);
                    lemma_ended_live(s2_a[k], self.asteroids@[k]);
                    lemma_ended_live(o_a[k], s2_a[k]);
                }
            }
            assert(self.explosions@.subrange(0, o_e.len() as int) =~= o_e) by {
                assert forall|k: int| 0 <= k < o_e.len() implies self.explosions@[k] == o_e[k] by {
                    assert(s3_e.subrange(0, s2_e.len() as int)[k] == s2_e[k]);
                    assert(s2_e.subrange(0, s1_e.len() as int)[k] == s1_e[k]);
                    assert(s1_e.subrange(0, o_e.len() as int)[k] == o_e[k]);
                }
            }
        }
        e1 || e2 || e3
    }

    /// A new session: the ship standing in the middle of the screen, the
    /// enemy craft in a corner, three large asteroids on random courses and
    /// a full life counter.
    pub fn new(trig: TrigTable) -> (r: Game)
        requires
            trig.wf(),
        ensures
            r.wf(),
            r.table() == trig,
            r.ship().live(),
            r.ufo().live(),
            r.bullets().len() == 0,
            r.asteroids().len() == 3,
            r.explosions().len() == 0,
            r.lives().count() == 3,
            r.ship().position() == (Vec2 { x: 400_000, y: 300_000 }),
            r.ship().heading() == 0,
            r.ufo().position() == (Vec2 { x: 50_000, y: 50_000 }),
            r.asteroids()[0].position() == (Vec2 { x: 50_000, y: 350_000 }),
            r.asteroids()[1].position() == (Vec2 { x: 150_000, y: 150_000 }),
            r.asteroids()[2].position() == (Vec2 { x: 10_000, y: 10_000 }),
            forall|k: int|
                0 <= k < 3 ==> (#[trigger] r.asteroids()[k]).live() && r.asteroids()[k].size_class()
                    == AsteroidSize::LARGE,
    {
        let ship = Ship::new(400_000, 300_000, 0);
        let ufo = Ufo::new(50_000, 50_000, 100_000);
        let mut asteroids: Vec<Asteroid> = Vec::new();
        let xs: [i64; 3] = [50_000, 150_000, 10_000];
        let ys: [i64; 3] = [350_000, 150_000, 10_000];
        let mut i: usize = 0;
        while i < 3
            invariant
                trig.wf(),
                i <= 3,
                asteroids@.len() == i,
                all_asteroids_wf(asteroids@),
                xs@ == seq![50_000i64, 150_000, 10_000],
                ys@ == seq![350_000i64, 150_000, 10_000],
                forall|k: int|
                    0 <= k < i ==> (#[trigger] asteroids@[k]).position() == (Vec2 { x: xs[k], y: ys[k] })
                        && asteroids@[k].live() && asteroids@[k].size_class() == AsteroidSize::LARGE,
            decreases 3 - i,
        {
            let heading = d_to_r(random_number(1, 360));
            let acc = random_number(5_000, 15_000);
            let a = Asteroid::new(
                xs[i],
                ys[i],
                heading,
                acc,
                2000,
                random_bool(),
                AsteroidSize::LARGE,
                &trig,
            );
            asteroids.push(a);
            i += 1;
        }
        let lives = Lives::new(50_000, 25_000);
        Game {
            ship,
            ufo,
            bullets: Vec::new(),
            asteroids,
            explosions: Vec::new(),
            lives,
            shoot_time: 0,
            trig,
        }
    }

    /// Brings the ship back, unless the lives are exhausted: with no life
    /// left the ship stays as it is for the rest of the session.
    pub fn revive_ship(&mut self)
        requires
            old(self).wf(),
        ensures
            final(self).wf(),
            old(self).lives().count() == 0 ==> final(self).ship() == old(self).ship(),
            old(self).lives().count() > 0 ==> final(self).ship() == old(self).ship().revived(),
            final(self).lives() == old(self).lives(),
            final(self).asteroids() == old(self).asteroids(),
            final(self).bullets() == old(self).bullets(),
            final(self).table() == old(self).table(),
    {
        if self.lives.get_amount() > 0 {
            self.ship.alive();
        }
    }

    /// One simulation tick of `delta_ms` milliseconds with the given control
    /// intents, in this order: the ship moves and may fire, the enemy craft
    /// moves and may fire, bullets and asteroids move; then one collision
    /// pass; then the particle bursts advance; then everything inactive is
    /// culled.
    pub fn tick(&mut self, delta_ms: u16, intents: ControlIntents) -> (r: TickEvents)
        requires
            old(self).wf(),
        ensures
            final(self).wf(),
            exists|m: Game, res: Game, q: Game|
                #[trigger] tick_stages(*old(self), m, res, q, *final(self), delta_ms as int, intents, r),
            final(self).table() == old(self).table(),
            !old(self).ship().live() ==> !final(self).ship().live(),
            final(self).lives().count() <= old(self).lives().count(),
            forall|k: int| 0 <= k < final(self).bullets().len() ==> (#[trigger] final(self).bullets()[k]).live(),
            forall|k: int|
                0 <= k < final(self).asteroids().len() ==> (#[trigger] final(self).asteroids()[k]).live(),
            forall|k: int|
                0 <= k < final(self).explosions().len() ==> (#[trigger] final(self).explosions()[k]).live(),
    {
        let ghost g0 = *self;
        let ghost ship0 = self.ship;
        proof {
            ship0.lemma_killed();
            self.lives.lemma_count();
        }
        self.ship.inputs(intents);
        self.ship.update(delta_ms, &self.trig);

        // the ship's shots
        let mut fired = false;
        if self.shoot_time + (delta_ms as u32) > SHOOT_INTERVAL_MS {
            self.shoot_time = SHOOT_INTERVAL_MS + 1;
        } else {
            self.shoot_time = self.shoot_time + delta_ms as u32;
        }
        let ghost n = self.bullets@.len();
        let ghost mut player_shot: Bullet = arbitrary();
        if self.ship.is_active() && self.ship.is_fireing() && self.shoot_time > SHOOT_INTERVAL_MS {
            proof {
                self.ship.lemma_wf();
            }
            let pos = self.ship.get_position();
            let b = Bullet::new(pos.x, pos.y, self.ship.get_angle(), ShooterType::PLAYER, &self.trig);
            proof {
                player_shot = b;
            }
            self.bullets.push(b);
            fired = true;
            self.shoot_time = 0;
        }

        // the enemy craft and its shots
        self.ufo.update(delta_ms, &self.trig);
        let ghost mut enemy_bullet: Bullet = arbitrary();
        if self.ufo.is_active() && self.ufo.is_shooting() && self.ship.is_active() {
            proof {
                self.ship.lemma_wf();
                self.ufo.lemma_wf();
            }
            let target = self.ship.get_position();
            let from = self.ufo.get_position();
            let angle = v2_angle_to_point(target, from, &self.trig);
            let fudge = random_number(-AIM_SPREAD_MRAD, AIM_SPREAD_MRAD);
            let b = Bullet::new(from.x, from.y, angle + fudge, ShooterType::ALIEN, &self.trig);
            proof {
                enemy_bullet = b;
                assert(best_heading(self.trig, angle as int, Vec2 {
                    x: (target.x - from.x) as i64,
                    y: (target.y - from.y) as i64,
                }));
                assert(enemy_shot(b, from, target, self.trig));
            }
            self.bullets.push(b);
        }
        let ghost pre_b = self.bullets@;
        self.update_bullets(delta_ms);
        self.update_asteroids(delta_ms);
        let ghost gm = *self;
        proof {
            let trig = g0.table();
            let extra: int = if fired { 1 } else { 0 };
            assert forall|k: int| 0 <= k < n implies bullet_stepped(
                #[trigger] g0.bullets()[k],
                gm.bullets()[k],
                delta_ms as int,
                trig,
            ) by {
                assert(pre_b[k] == g0.bullets()[k]);
            }
            if fired {
                assert(pre_b[n as int] == player_shot);
                assert(fresh_bullet(player_shot, gm.ship().position().x, gm.ship().position().y, gm.ship().heading(), ShooterType::PLAYER, trig));
            }
            if gm.ufo().live() && gm.ufo().shooting() && gm.ship().live() {
                assert(pre_b[n + extra] == enemy_bullet);
                assert(enemy_shot(enemy_bullet, gm.ufo().position(), gm.ship().position(), trig));
            }
            assert(integrated(g0, gm, delta_ms as int, intents, fired));
        }

        let exploded = self.resolve_collisions();
        let ghost gr = *self;
        self.update_explosions(delta_ms);
        let ghost gq = *self;
        self.cull();
        self.lives.update(&self.trig);
        let r = TickEvents { fired, exploded };
        proof {
            assert(tick_stages(g0, gm, gr, gq, *self, delta_ms as int, intents, r));
        }
        r
    }

    fn update_explosions(&mut self, delta_ms: u16)
        requires
            old(self).wf(),
        ensures
            final(self).wf(),
            bursts_advanced(*old(self), *final(self), delta_ms as int),
    {
        let mut i: usize = 0;
        while i < self.explosions.len()
            invariant
                self.wf(),
                self.trig == old(self).trig,
                self.ship == old(self).ship,
                self.ufo == old(self).ufo,
                self.bullets == old(self).bullets,
                self.asteroids == old(self).asteroids,
                self.lives == old(self).lives,
                self.shoot_time == old(self).shoot_time,
                self.explosions@.len() == old(self).explosions@.len(),
                forall|k: int|
                    0 <= k < i ==> burst_stepped(
                        #[trigger] old(self).explosions@[k],
                        self.explosions@[k],
                        delta_ms as int,
                        self.trig,
                    ),
                forall|k: int|
                    i <= k < self.explosions@.len() ==> #[trigger] self.explosions@[k] == old(self).explosions@[k],
            decreases self.explosions@.len() - i,
        {
            let ghost before = self.explosions@;
            self.explosions[i].update(delta_ms, &self.trig);
            proof {
                assert forall|k: int| 0 <= k < self.explosions@.len() implies (#[trigger] self.explosions@[k]).wf() by {
                    if k != i {
                        assert(self.explosions@[k] == before[k]);
                    }
                }
                assert forall|k: int| 0 <= k < i + 1 implies burst_stepped(
                    #[trigger] old(self).explosions@[k],
                    self.explosions@[k],
                    delta_ms as int,
                    self.trig,
                ) by {
                    if k != i {
                        assert(self.explosions@[k] == before[k]);
                    }
                }
            }
            i += 1;
        }
    }

    fn update_bullets(&mut self, delta_ms: u16)
        requires
            old(self).wf(),
        ensures
            final(self).wf(),
            final(self).table() == old(self).table(),
            final(self).ship() == old(self).ship(),
            final(self).ufo() == old(self).ufo(),
            final(self).asteroids() == old(self).asteroids(),
            final(self).explosions() == old(self).explosions(),
            final(self).lives() == old(self).lives(),
            final(self).shot_clock() == old(self).shot_clock(),
            final(self).bullets().len() == old(self).bullets().len(),
            forall|k: int|
                0 <= k < old(self).bullets().len() ==> bullet_stepped(
                    #[trigger] old(self).bullets()[k],
                    final(self).bullets()[k],
                    delta_ms as int,
                    old(self).table(),
                ),
    {
        let mut i: usize = 0;
        while i < self.bullets.len()
            invariant
                self.wf(),
                self.trig == old(self).trig,
                self.ship == old(self).ship,
                self.ufo == old(self).ufo,
                self.asteroids == old(self).asteroids,
                self.explosions == old(self).explosions,
                self.lives == old(self).lives,
                self.shoot_time == old(self).shoot_time,
                self.bullets@.len() == old(self).bullets@.len(),
                forall|k: int|
                    0 <= k < i ==> bullet_stepped(
                        #[trigger] old(self).bullets@[k],
                        self.bullets@[k],
                        delta_ms as int,
                        self.trig,
                    ),
                forall|k: int|
                    i <= k < self.bullets@.len() ==> #[trigger] self.bullets@[k] == old(self).bullets@[k],
            decreases self.bullets@.len() - i,
        {
            let ghost before = self.bullets@;
            self.bullets[i].update(delta_ms, &self.trig);
            proof {
                assert forall|k: int| 0 <= k < self.bullets@.len() implies (#[trigger] self.bullets@[k]).wf() by {
                    if k != i {
                        assert(self.bullets@[k] == before[k]);
                    }
                }
                assert forall|k: int| 0 <= k < i + 1 implies bullet_stepped(
                    #[trigger] old(self).bullets@[k],
                    self.bullets@[k],
                    delta_ms as int,
                    self.trig,
                ) by {
                    if k != i {
                        assert(self.bullets@[k] == before[k]);
                    }
                }
            }
            i += 1;
        }
    }

    fn update_asteroids(&mut self, delta_ms: u16)
        requires
            old(self).wf(),
        ensures
            final(self).wf(),
            final(self).table() == old(self).table(),
            final(self).ship() == old(self).ship(),
            final(self).ufo() == old(self).ufo(),
            final(self).bullets() == old(self).bullets(),
            final(self).explosions() == old(self).explosions(),
            final(self).lives() == old(self).lives(),
            final(self).shot_clock() == old(self).shot_clock(),
            final(self).asteroids().len() == old(self).asteroids().len(),
            forall|k: int|
                0 <= k < old(self).asteroids().len() ==> asteroid_stepped(
                    #[trigger] old(self).asteroids()[k],
                    final(self).asteroids()[k],
                    delta_ms as int,
                    old(self).table(),
                ),
    {
        let mut i: usize = 0;
        while i < self.asteroids.len()
            invariant
                self.wf(),
                self.trig == old(self).trig,
                self.ship == old(self).ship,
                self.ufo == old(self).ufo,
                self.bullets == old(self).bullets,
                self.explosions == old(self).explosions,
                self.lives == old(self).lives,
                self.shoot_time == old(self).shoot_time,
                self.asteroids@.len() == old(self).asteroids@.len(),
                forall|k: int|
                    0 <= k < i ==> asteroid_stepped(
                        #[trigger] old(self).asteroids@[k],
                        self.asteroids@[k],
                        delta_ms as int,
                        self.trig,
                    ),
                forall|k: int|
                    i <= k < self.asteroids@.len() ==> #[trigger] self.asteroids@[k] == old(self).asteroids@[k],
            decreases self.asteroids@.len() - i,
        {
            let ghost before = self.asteroids@;
            self.asteroids[i].update(delta_ms, &self.trig);
            proof {
                assert forall|k: int| 0 <= k < self.asteroids@.len() implies (#[trigger] self.asteroids@[k]).wf() by {
                    if k != i {
                        assert(self.asteroids@[k] == before[k]);
                    }
                }
                assert forall|k: int| 0 <= k < i + 1 implies asteroid_stepped(
                    #[trigger] old(self).asteroids@[k],
                    self.asteroids@[k],
                    delta_ms as int,
                    self.trig,
                ) by {
                    if k != i {
                        assert(self.asteroids@[k] == before[k]);
                    }
                }
            }
            i += 1;
        }
    }

    /// Removes every inactive explosion, bullet and asteroid.
    fn cull(&mut self)
        requires
            old(self).wf(),
        ensures
            final(self).wf(),
            final(self).table() == old(self).table(),
            final(self).ship() == old(self).ship(),
            final(self).ufo() == old(self).ufo(),
            final(self).shot_clock() == old(self).shot_clock(),
            final(self).lives() == old(self).lives(),
            final(self).explosions() == survivors(old(self).explosions()),
            final(self).bullets() == survivors(old(self).bullets()),
            final(self).asteroids() == survivors(old(self).asteroids()),
            forall|k: int| 0 <= k < final(self).bullets().len() ==> (#[trigger] final(self).bullets()[k]).live(),
            forall|k: int|
                0 <= k < final(self).asteroids().len() ==> (#[trigger] final(self).asteroids()[k]).live(),
            forall|k: int|
                0 <= k < final(self).explosions().len() ==> (#[trigger] final(self).explosions()[k]).live(),
    {
        let ghost e0 = self.explosions@;
        let ghost b0 = self.bullets@;
        let ghost a0 = self.asteroids@;
        filter_out_inactive(&mut self.explosions);
        filter_out_inactive(&mut self.bullets);
        filter_out_inactive(&mut self.asteroids);
        proof {
            lemma_cull_keeps_exactly_active(e0, Seq::empty());
            lemma_cull_keeps_exactly_active(b0, Seq::empty());
            lemma_cull_keeps_exactly_active(a0, Seq::empty());
            assert forall|k: int| 0 <= k < self.explosions@.len() implies (#[trigger] self.explosions@[k]).wf() by {
                assert(survivors(e0).contains(self.explosions@[k]));
            }
            assert forall|k: int| 0 <= k < self.bullets@.len() implies (#[trigger] self.bullets@[k]).wf() by {
                assert(survivors(b0).contains(self.bullets@[k]));
            }
            assert forall|k: int| 0 <= k < self.asteroids@.len() implies (#[trigger] self.asteroids@[k]).wf() by {
                assert(survivors(a0).contains(self.asteroids@[k]));
            }
        }
    }

    pub fn get_table(&self) -> (r: &TrigTable)
        ensures
            *r == self.table(),
    {
        &self.trig
    }
}

} // verus!
