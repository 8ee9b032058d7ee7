use vstd::prelude::*;

verus! {

/// An opaque identifier of a component, unique among all identifiers that one
/// allocator hands out.
#[derive(Clone, Copy, Debug, PartialEq, Eq, Structural, Hash, PartialOrd, Ord)]
pub struct ComponentId {
    value: u64,
}

impl ComponentId {
    pub closed spec fn view(self) -> u64 {
        self.value
    }

    /// The raw value of the identifier.
    pub fn value(&self) -> (r: u64)
        ensures
            r == self@,
    {
        self.value
    }
}

/// Hands out identifiers that it never handed out before.
#[derive(Debug)]
pub struct IdAllocator {
    next: u64,
}

impl IdAllocator {
    /// The raw values of all identifiers handed out so far.
    pub closed spec fn issued(self) -> Set<u64> {
        Set::new(|v: u64| v < self.next)
    }

    pub fn new() -> (r: IdAllocator)
        ensures
            r.issued() == Set::<u64>::empty(),
            r.remaining() == u64::MAX,
    {
        let r = IdAllocator { next: 0 };
        assert(r.issued() =~= Set::<u64>::empty());
        r
    }

    /// How many fresh identifiers are left.
    pub closed spec fn remaining(self) -> nat {
        (u64::MAX - self.next) as nat
    }

    pub fn remaining_count(&self) -> (r: u64)
        ensures
            r == self.remaining(),
    {
        u64::MAX - self.next
    }

    pub fn is_exhausted(&self) -> (r: bool)
        ensures
            r == (self.remaining() == 0),
    {
        self.next == u64::MAX
    }

    /// A fresh identifier, recorded as handed out.
    pub fn next(&mut self) -> (r: ComponentId)
        requires
            old(self).remaining() > 0,
        ensures
            final(self).remaining() == old(self).remaining() - 1,
            !old(self).issued().contains(r@),
            final(self).issued() == old(self).issued().insert(r@),
    {
        let r = ComponentId { value: self.next };
        self.next = self.next + 1;
        assert(self.issued() =~= old(self).issued().insert(r@));
        r
    }
}

proof fn lemma_issued_grows(states: Seq<IdAllocator>, ids: Seq<ComponentId>, i: int, j: int)
    requires
        states.len() == ids.len() + 1,
        forall|k: int|
            0 <= k < ids.len() ==> #[trigger] states[k + 1].issued() == states[k].issued().insert(
                ids[k]@,
            ),
        0 <= i <= j < states.len(),
    ensures
        states[i].issued().subset_of(states[j].issued()),
    decreases j - i,
{
    if i < j {
        lemma_issued_grows(states, ids, i, j - 1);
        let k = j - 1;
        assert(states[k + 1].issued() == states[k].issued().insert(ids[k]@));
    }
}

/// Identifiers that one allocator hands out in successive calls, from any
/// number of callers, are pairwise distinct.
pub proof fn lemma_ids_pairwise_distinct(states: Seq<IdAllocator>, ids: Seq<ComponentId>)
    requires
        states.len() == ids.len() + 1,
        forall|k: int|
            0 <= k < ids.len() ==> !states[k].issued().contains(#[trigger] ids[k]@),
        forall|k: int|
            0 <= k < ids.len() ==> #[trigger] states[k + 1].issued() == states[k].issued().insert(
                ids[k]@,
            ),
    ensures
        forall|i: int, j: int| 0 <= i < j < ids.len() ==> ids[i] != ids[j],
{
    assert forall|i: int, j: int| 0 <= i < j < ids.len() implies ids[i] != ids[j] by {
        lemma_issued_grows(states, ids, i + 1, j);
        assert(states[i + 1].issued() == states[i].issued().insert(ids[i]@));
        assert(states[j].issued().contains(ids[i]@));
        assert(!states[j].issued().contains(ids[j]@));
    }
}

} // verus!
