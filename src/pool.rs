use vstd::prelude::*;
use crate::entity::Entity;

verus! {

/// Largest capacity a pool can be built with.
pub const MAX_CAPACITY: usize = 50;

#[verifier::external_type_specification]
#[verifier::external_body]
#[verifier::reject_recursive_types(T)]
pub struct ExHeaplessVec<T, const N: usize>(heapless::Vec<T, N>);

/// The entities that a fixed-capacity vector holds, in order.
pub uninterp spec fn slots(v: heapless::Vec<Entity, 50>) -> Seq<Entity>;

/// Relies on heapless::Vec::new: the new vector is empty.
#[verifier::external_body]
fn slots_new() -> (r: heapless::Vec<Entity, 50>)
    ensures
        slots(r).len() == 0,
{
    heapless::Vec::new()
}

/// Relies on heapless::Vec::push: appends while the length is under the
/// capacity 50, otherwise hands the item back and changes nothing.
#[verifier::external_body]
fn slots_push(v: &mut heapless::Vec<Entity, 50>, e: Entity) -> (r: bool)
    ensures
        r == (slots(*old(v)).len() < 50),
        r ==> slots(*final(v)) == slots(*old(v)).push(e),
        !r ==> slots(*final(v)) == slots(*old(v)),
{
    v.push(e).is_ok()
}

/// Relies on the slice length that heapless::Vec dereferences to.
#[verifier::external_body]
fn slots_len(v: &heapless::Vec<Entity, 50>) -> (r: usize)
    ensures
        r == slots(*v).len(),
{
    v.len()
}

/// Relies on indexing the slice that heapless::Vec dereferences to.
#[verifier::external_body]
fn slots_get(v: &heapless::Vec<Entity, 50>, i: usize) -> (r: Entity)
    requires
        i < slots(*v).len(),
    ensures
        r == slots(*v)[i as int],
{
    v[i]
}

/// Relies on assigning through the mutable slice of heapless::Vec.
#[verifier::external_body]
fn slots_set(v: &mut heapless::Vec<Entity, 50>, i: usize, e: Entity)
    requires
        i < slots(*old(v)).len(),
    ensures
        slots(*final(v)) == slots(*old(v)).update(i as int, e),
{
    v[i] = e;
}

/// Relies on heapless::Vec::remove: takes out the item at `i` and shifts the
/// later ones down, keeping their order.
#[verifier::external_body]
fn slots_remove(v: &mut heapless::Vec<Entity, 50>, i: usize)
    requires
        i < slots(*old(v)).len(),
    ensures
        slots(*final(v)) == slots(*old(v)).remove(i as int),
{
    v.remove(i);
}

/// Relies on heapless::Vec::clear: the vector is left empty.
#[verifier::external_body]
fn slots_clear(v: &mut heapless::Vec<Entity, 50>)
    ensures
        slots(*final(v)).len() == 0,
{
    v.clear();
}

/// Returned by `try_add` on a full pool; the entity was dropped.
#[derive(Clone, Copy, Debug, PartialEq, Eq, Structural)]
pub struct CapacityExceeded;

/// A fixed-capacity, insertion-ordered pool of entities with lazy removal:
/// an entity is marked dead and taken out by the next `compact`.
pub struct Pool {
    items: heapless::Vec<Entity, 50>,
    cap: usize,
}

/// What is left of `s` once the dead entities are taken out, order kept.
pub open spec fn survivors(s: Seq<Entity>) -> Seq<Entity>
    decreases s.len(),
{
    if s.len() == 0 {
        s
    } else if s.last().live {
        survivors(s.drop_last()).push(s.last())
    } else {
        survivors(s.drop_last())
    }
}

/// The number of live entities of `s`.
pub open spec fn live_count(s: Seq<Entity>) -> nat
    decreases s.len(),
{
    if s.len() == 0 {
        0
    } else {
        live_count(s.drop_last()) + if s.last().live { 1nat } else { 0nat }
    }
}

pub proof fn lemma_live_count_le(s: Seq<Entity>)
    ensures
        live_count(s) <= s.len(),
    decreases s.len(),
{
    if s.len() > 0 {
        lemma_live_count_le(s.drop_last());
    }
}

/// Every survivor is live and was in the original sequence.
pub proof fn lemma_survivors_live(s: Seq<Entity>)
    ensures
        forall|i: int| 0 <= i < survivors(s).len() ==> #[trigger] survivors(s)[i].live,
        forall|i: int| 0 <= i < survivors(s).len() ==> s.contains(#[trigger] survivors(s)[i]),
        survivors(s).len() <= s.len(),
    decreases s.len(),
{
    if s.len() > 0 {
        let t = s.drop_last();
        lemma_survivors_live(t);
        assert forall|i: int| 0 <= i < survivors(s).len() implies s.contains(#[trigger] survivors(s)[i]) by {
            if i < survivors(t).len() {
                assert(survivors(s)[i] == survivors(t)[i]);
                let k = choose|k: int| 0 <= k < t.len() && t[k] == survivors(t)[i];
                assert(s[k] == t[k]);
            } else {
                assert(survivors(s)[i] == s.last());
                assert(s[s.len() - 1] == s.last());
            }
        }
    }
}

pub proof fn lemma_survivors_of_live(s: Seq<Entity>)
    requires
        forall|i: int| 0 <= i < s.len() ==> #[trigger] s[i].live,
    ensures
        survivors(s) == s,
    decreases s.len(),
{
    if s.len() > 0 {
        let t = s.drop_last();
        assert forall|i: int| 0 <= i < t.len() implies #[trigger] t[i].live by {
            assert(t[i] == s[i]);
        }
        lemma_survivors_of_live(t);
        assert(s.last().live);
        assert(t.push(s.last()) =~= s);
    }
}

/// Compacting twice in a row leaves what compacting once left.
pub proof fn lemma_compact_idempotent(s: Seq<Entity>)
    ensures
        survivors(survivors(s)) == survivors(s),
{
    lemma_survivors_live(s);
    lemma_survivors_of_live(survivors(s));
}

/// `s` with `e` appended when it holds fewer than `cap` entities.
pub open spec fn add_capped(s: Seq<Entity>, cap: int, e: Entity) -> Seq<Entity> {
    if s.len() < cap {
        s.push(e)
    } else {
        s
    }
}

/// The pool contents after `try_add` of each entity of `es` in turn on a
/// pool of capacity `cap` holding `s`.
pub open spec fn after_adds(s: Seq<Entity>, cap: nat, es: Seq<Entity>) -> Seq<Entity>
    decreases es.len(),
{
    if es.len() == 0 {
        s
    } else {
        let t = after_adds(s, cap, es.drop_last());
        if t.len() < cap {
            t.push(es.last())
        } else {
            t
        }
    }
}

/// However many entities are offered, a pool never holds more than its
/// capacity, live or not, and the entries it held are kept, in place.
pub proof fn lemma_pool_bound(s: Seq<Entity>, cap: nat, es: Seq<Entity>)
    requires
        s.len() <= cap,
    ensures
        after_adds(s, cap, es).len() <= cap,
        live_count(after_adds(s, cap, es)) <= cap,
        after_adds(s, cap, es).len() >= s.len(),
        after_adds(s, cap, es).subrange(0, s.len() as int) == s,
    decreases es.len(),
{
    lemma_live_count_le(after_adds(s, cap, es));
    if es.len() > 0 {
        lemma_pool_bound(s, cap, es.drop_last());
        let t = after_adds(s, cap, es.drop_last());
        if t.len() < cap {
            assert(t.push(es.last()).subrange(0, s.len() as int) =~= t.subrange(0, s.len() as int));
        }
    } else {
        assert(s.subrange(0, s.len() as int) =~= s);
    }
}

impl View for Pool {
    type V = Seq<Entity>;

    closed spec fn view(&self) -> Seq<Entity> {
        slots(self.items)
    }
}

impl Pool {
    /// The capacity fixed at construction.
    pub closed spec fn capacity(&self) -> nat {
        self.cap as nat
    }

    /// A pool never holds more than its capacity.
    pub open spec fn wf(&self) -> bool {
        &&& self@.len() <= self.capacity()
        &&& self.capacity() <= MAX_CAPACITY
    }

    /// An empty pool that holds at most `capacity` entities.
    pub fn new(capacity: usize) -> (r: Pool)
        requires
            capacity <= MAX_CAPACITY,
        ensures
            r.wf(),
            r@.len() == 0,
            r.capacity() == capacity,
    {
        Pool { items: slots_new(), cap: capacity }
    }

    pub fn capacity_of(&self) -> (r: usize)
        ensures
            r == self.capacity(),
    {
        self.cap
    }

    pub fn len(&self) -> (r: usize)
        ensures
            r == self@.len(),
    {
        slots_len(&self.items)
    }

    pub fn is_full(&self) -> (r: bool)
        requires
            self.wf(),
        ensures
            r == (self@.len() == self.capacity()),
    {
        self.len() == self.cap
    }

    pub fn get(&self, i: usize) -> (r: Entity)
        requires
            i < self@.len(),
        ensures
            r == self@[i as int],
    {
        slots_get(&self.items, i)
    }

    /// Replaces the entity at `i`.
    pub fn set(&mut self, i: usize, e: Entity)
        requires
            i < old(self)@.len(),
        ensures
            final(self)@ == old(self)@.update(i as int, e),
            final(self).capacity() == old(self).capacity(),
    {
        slots_set(&mut self.items, i, e);
    }

    /// Appends `e` when there is room; on a full pool `e` is dropped and the
    /// pool is left as it was.
    pub fn try_add(&mut self, e: Entity) -> (r: Result<(), CapacityExceeded>)
        requires
            old(self).wf(),
        ensures
            final(self).wf(),
            final(self).capacity() == old(self).capacity(),
            r is Ok <==> old(self)@.len() < old(self).capacity(),
            r is Ok ==> final(self)@ == old(self)@.push(e),
            r is Err ==> final(self)@ == old(self)@,
    {
        if self.len() < self.cap {
            let ok = slots_push(&mut self.items, e);
            assert(ok);
            Ok(())
        } else {
            Err(CapacityExceeded)
        }
    }

    /// Takes out every dead entity, keeping the order of the live ones.
    pub fn compact(&mut self)
        requires
            old(self).wf(),
        ensures
            final(self).wf(),
            final(self).capacity() == old(self).capacity(),
            final(self)@ == survivors(old(self)@),
    {
        let ghost orig = self@;
        let ghost mut j: int = 0;
        let mut i: usize = 0;
        while i < self.len()
            invariant
                self.wf(),
                self.capacity() == old(self).capacity(),
                0 <= j <= orig.len(),
                i == survivors(orig.subrange(0, j)).len(),
                self@ == survivors(orig.subrange(0, j)) + orig.subrange(j, orig.len() as int),
            decreases self@.len() - i,
        {
            proof {
                assert(self@[i as int] == orig[j]);
                assert(orig.subrange(0, j + 1).drop_last() =~= orig.subrange(0, j));
                assert(orig.subrange(0, j + 1).last() == orig[j]);
            }
            let e = slots_get(&self.items, i);
            if e.live {
                i = i + 1;
                proof {
                    j = j + 1;
                    assert(self@ =~= survivors(orig.subrange(0, j)) + orig.subrange(j, orig.len() as int));
                }
            } else {
                slots_remove(&mut self.items, i);
                proof {
                    j = j + 1;
                    assert(self@ =~= survivors(orig.subrange(0, j)) + orig.subrange(j, orig.len() as int));
                }
            }
        }
        proof {
            assert(orig.subrange(j, orig.len() as int).len() == 0);
            assert(j == orig.len());
            assert(orig.subrange(0, j) =~= orig);
            assert(self@ =~= survivors(orig));
        }
    }

    /// Replaces every entity by what `f` makes of it, in order.
    pub fn for_each_mut<F: Fn(Entity) -> Entity>(&mut self, f: F)
        requires
            old(self).wf(),
            forall|e: Entity| f.requires((e,)),
        ensures
            final(self).wf(),
            final(self).capacity() == old(self).capacity(),
            final(self)@.len() == old(self)@.len(),
            forall|i: int| 0 <= i < old(self)@.len() ==> f.ensures((old(self)@[i],), #[trigger] final(self)@[i]),
    {
        let n = self.len();
        let mut i: usize = 0;
        while i < n
            invariant
                self.wf(),
                self.capacity() == old(self).capacity(),
                i <= n,
                n == old(self)@.len(),
                self@.len() == n,
                forall|e: Entity| f.requires((e,)),
                forall|k: int| 0 <= k < i ==> f.ensures((old(self)@[k],), #[trigger] self@[k]),
                forall|k: int| i <= k < n ==> #[trigger] self@[k] == old(self)@[k],
            decreases n - i,
        {
            let e = self.get(i);
            let g = f(e);
            self.set(i, g);
            i = i + 1;
        }
    }

    /// Empties the pool.
    pub fn clear(&mut self)
        requires
            old(self).wf(),
        ensures
            final(self).wf(),
            final(self).capacity() == old(self).capacity(),
            final(self)@.len() == 0,
    {
        slots_clear(&mut self.items);
    }
}

} // verus!
