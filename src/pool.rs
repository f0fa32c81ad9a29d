//! A fixed set of reusable slots, each lent to one borrower at a time.
use vstd::prelude::*;
use vstd::multiset::Multiset;

verus! {

/// The slots not lent out sit in `free`; a lease moves one out to its
/// borrower, a release moves it back. `capacity` is the number of slots
/// the pool was made with.
pub struct SlotPool<S> {
    free: Vec<S>,
    capacity: usize,
}

impl<S> SlotPool<S> {
    /// The slots waiting in the pool, the next to be lent last.
    pub closed spec fn free_slots(&self) -> Seq<S> {
        self.free@
    }

    /// The number of slots the pool was made with.
    pub closed spec fn spec_capacity(&self) -> nat {
        self.capacity as nat
    }

    /// No more slots wait in the pool than it was made with.
    pub open spec fn wf(&self) -> bool {
        self.free_slots().len() <= self.spec_capacity()
    }

    /// The number of slots lent out.
    pub open spec fn spec_in_use(&self) -> nat {
        (self.spec_capacity() - self.free_slots().len()) as nat
    }

    /// A pool holding `slots`, none of them lent.
    pub fn new(slots: Vec<S>) -> (r: Self)
        ensures
            r.wf(),
            r.free_slots() == slots@,
            r.spec_capacity() == slots@.len(),
    {
        let capacity = slots.len();
        SlotPool { free: slots, capacity }
    }

    pub fn capacity(&self) -> (r: usize)
        ensures
            r == self.spec_capacity(),
    {
        self.capacity
    }

    /// The number of slots waiting to be lent.
    pub fn available(&self) -> (r: usize)
        ensures
            r == self.free_slots().len(),
    {
        self.free.len()
    }

    /// The number of slots lent out.
    pub fn in_use(&self) -> (r: usize)
        requires
            self.wf(),
        ensures
            r == self.spec_in_use(),
    {
        self.capacity - self.free.len()
    }

    /// Lends a slot if one is free; `None` when every slot is lent out, which
    /// bounds the borrowers at any moment by the capacity.
    pub fn lease(&mut self) -> (r: Option<S>)
        requires
            old(self).wf(),
        ensures
            final(self).wf(),
            final(self).spec_capacity() == old(self).spec_capacity(),
            old(self).free_slots().len() == 0 ==> (r is None && final(self).free_slots()
                == old(self).free_slots()),
            old(self).free_slots().len() > 0 ==> (r == Some(old(self).free_slots().last())
                && final(self).free_slots() == old(self).free_slots().drop_last()),
            final(self).spec_in_use() <= final(self).spec_capacity(),
    {
        self.free.pop()
    }

    /// Takes a slot back. A pool that has lent nothing out cannot take one
    /// more: the slot is handed back in `Err`.
    pub fn release(&mut self, slot: S) -> (r: Result<(), S>)
        requires
            old(self).wf(),
        ensures
            final(self).wf(),
            final(self).spec_capacity() == old(self).spec_capacity(),
            old(self).spec_in_use() > 0 ==> (r is Ok && final(self).free_slots() == old(
                self,
            ).free_slots().push(slot)),
            old(self).spec_in_use() == 0 ==> (r == Err::<(), S>(slot) && final(self).free_slots()
                == old(self).free_slots()),
    {
        if self.free.len() < self.capacity {
            self.free.push(slot);
            Ok(())
        } else {
            Err(slot)
        }
    }
}

/// Lending the next slot and taking it back leaves the pool as it was.
pub proof fn lemma_lease_release<S>(free: Seq<S>)
    requires
        free.len() > 0,
    ensures
        free.drop_last().push(free.last()) == free,
{
    assert(free.drop_last().push(free.last()) =~= free);
}

/// After `k` leases the pool keeps all but its last `k` slots; once the
/// borrowers give those back, in whatever order, the pool holds the same
/// slots as before and as many of them.
pub proof fn lemma_all_returned<S>(free: Seq<S>, k: int, returned: Seq<S>)
    requires
        0 <= k <= free.len(),
        returned.to_multiset() == free.subrange(free.len() - k, free.len() as int).to_multiset(),
    ensures
        (free.subrange(0, free.len() - k) + returned).to_multiset() == free.to_multiset(),
        (free.subrange(0, free.len() - k) + returned).len() == free.len(),
{
    let kept = free.subrange(0, free.len() - k);
    let lent = free.subrange(free.len() - k, free.len() as int);
    vstd::seq_lib::lemma_multiset_commutative(kept, returned);
    vstd::seq_lib::lemma_multiset_commutative(kept, lent);
    assert(kept + lent =~= free);
    assert(returned.len() == returned.to_multiset().len()) by {
        returned.to_multiset_ensures();
    }
    assert(lent.len() == lent.to_multiset().len()) by {
        lent.to_multiset_ensures();
    }
}

/// Slots are conserved across any run of leases and releases: with `lent` the
/// slots out with borrowers, a lease moves the next slot from the pool to the
/// borrowers and a release moves one back, so the pool and the borrowers
/// together always hold the slots the pool was made with, and once nothing is
/// lent the pool holds exactly those.
pub proof fn lemma_slots_conserved<S>(free: Seq<S>, lent: Multiset<S>, x: S)
    ensures
        free.len() > 0 ==> free.drop_last().to_multiset().add(lent.insert(free.last()))
            == free.to_multiset().add(lent),
        lent.contains(x) ==> free.push(x).to_multiset().add(lent.remove(x))
            == free.to_multiset().add(lent),
{
    free.to_multiset_ensures();
    if free.len() > 0 {
        let d = free.drop_last();
        d.to_multiset_ensures();
        assert(d.push(free.last()) =~= free);
        assert(d.to_multiset().add(lent.insert(free.last())) =~= free.to_multiset().add(lent));
    }
    if lent.contains(x) {
        assert(free.push(x).to_multiset().add(lent.remove(x)) =~= free.to_multiset().add(lent));
    }
}

} // verus!
