use vstd::prelude::*;

verus! {

/// The activity capability shared by every entity: whether it is alive, and
/// how to end it. Killing is idempotent.
pub trait IsActive: Sized {
    spec fn live(&self) -> bool;

    /// The same entity with its active flag cleared and nothing else changed.
    spec fn killed(&self) -> Self;

    /// A killed entity is inactive.
    proof fn lemma_killed_is_dead(&self)
        ensures
            !self.killed().live(),
    ;

    fn is_active(&self) -> (r: bool)
        ensures
            r == self.live(),
    ;

    fn kill(&mut self)
        ensures
            !final(self).live(),
            *final(self) == old(self).killed(),
    ;
}

/// `after` is `before`, or `before` was active and has been killed.
pub open spec fn ended<T: IsActive>(before: T, after: T) -> bool {
    after == before || (before.live() && after == before.killed())
}

/// Ending twice in a row is ending once.
pub proof fn lemma_ended_trans<T: IsActive>(a: T, b: T, c: T)
    requires
        ended(a, b),
        ended(b, c),
    ensures
        ended(a, c),
{
    a.lemma_killed_is_dead();
}

/// An entity that is still active after ending was left as it was.
pub proof fn lemma_ended_live<T: IsActive>(a: T, b: T)
    requires
        ended(a, b),
        b.live(),
    ensures
        a == b,
{
    a.lemma_killed_is_dead();
}

pub open spec fn survivors<T: IsActive>(s: Seq<T>) -> Seq<T> {
    s.filter(|e: T| e.live())
}

/// Removes every inactive entity, keeping the others in their order.
pub fn filter_out_inactive<T: IsActive>(value: &mut Vec<T>)
    ensures
        final(value)@ == survivors(old(value)@),
{
    let ghost orig = value@;
    let n = value.len();
    assert(orig.len() == n);
    let mut rest: Vec<T> = Vec::new();
    std::mem::swap(value, &mut rest);
    let mut i: usize = 0;
    while rest.len() > 0
        invariant
            0 <= i <= orig.len(),
            orig.len() <= usize::MAX,
            rest@ == orig.skip(i as int),
            value@ == survivors(orig.take(i as int)),
        decreases rest.len(),
    {
        assert(rest@.len() == orig.len() - i);
        let e = rest.remove(0);
        proof {
            reveal(Seq::filter);
            assert(orig.take(i as int + 1).drop_last() =~= orig.take(i as int));
            assert(orig.take(i as int + 1).last() == e);
        }
        if e.is_active() {
            value.push(e);
        }
        i += 1;
        proof {
            assert(rest@ =~= orig.skip(i as int));
        }
    }
    assert(orig.take(i as int) =~= orig);
}

/// Culling keeps exactly the active entities in their relative order: every
/// survivor is active, every active entity survives, and culling a
/// concatenation culls each part.
pub proof fn lemma_cull_keeps_exactly_active<T: IsActive>(s: Seq<T>, t: Seq<T>)
    ensures
        forall|i: int| 0 <= i < survivors(s).len() ==> (#[trigger] survivors(s)[i]).live(),
        forall|e: T| s.contains(e) && e.live() ==> #[trigger] survivors(s).contains(e),
        forall|e: T| #[trigger] survivors(s).contains(e) ==> s.contains(e) && e.live(),
        survivors(s + t) == survivors(s) + survivors(t),
{
    broadcast use vstd::seq_lib::group_filter_ensures;

    let p = |e: T| e.live();
    assert forall|e: T| s.contains(e) && e.live() implies #[trigger] survivors(s).contains(e) by {
        let i = choose|i: int| 0 <= i < s.len() && s[i] == e;
        assert(p(s[i]));
        s.lemma_filter_contains(p, i);
    }
    assert forall|e: T| #[trigger] survivors(s).contains(e) implies s.contains(e) && e.live() by {
        s.lemma_filter_contains_rev(p, e);
        let i = choose|i: int| 0 <= i < survivors(s).len() && survivors(s)[i] == e;
        s.lemma_filter_pred(p, i);
    }
    Seq::filter_distributes_over_add(s, t, p);
}

} // verus!
