//! Slot allocator used for managing GPU allocations.
use vstd::prelude::*;

verus! {

/// The slots `hi - 1, hi - 2, ..., lo`, highest first.
pub open spec fn descending(lo: int, hi: int) -> Seq<usize> {
    Seq::new((hi - lo) as nat, |i: int| (hi - 1 - i) as usize)
}

/// The slots `hi - 1, ..., lo` are all different, and they are exactly the slots in `lo..hi`.
pub proof fn lemma_descending(lo: int, hi: int)
    requires
        0 <= lo <= hi,
        hi <= usize::MAX + 1,
    ensures
        descending(lo, hi).no_duplicates(),
        forall|v: usize| #[trigger] descending(lo, hi).contains(v) <==> lo <= v < hi,
{
    let d = descending(lo, hi);
    assert forall|v: usize| #[trigger] d.contains(v) <==> lo <= v < hi by {
        if lo <= v < hi {
            assert(d[hi - 1 - v] == v);
        }
    }
}

/// The slots `hi - 1, ..., lo` come highest first: each is below the one before it, and the
/// last is `lo`, so taking slots from the end hands out `lo` first, then `lo + 1`, and so on.
pub proof fn lemma_descending_order(lo: int, hi: int)
    requires
        0 <= lo < hi,
        hi <= usize::MAX + 1,
    ensures
        descending(lo, hi).len() == hi - lo,
        descending(lo, hi).last() == lo,
        descending(lo, hi)[0] == hi - 1,
        forall|i: int, j: int|
            0 <= i < j < hi - lo ==> #[trigger] descending(lo, hi)[i] > #[trigger] descending(lo, hi)[j],
{
}

/// Simple slot allocator used for managing GPU allocations: slots are handed out from the end
/// of a list of free slots, and freed slots go back to its end.
#[derive(Debug)]
pub struct SlotAllocator {
    capacity: usize,
    size: usize,
    free: Vec<usize>,
}

impl SlotAllocator {
    /// Never more slots handed out than there are, enough free slots left for the rest, and
    /// every free slot below the capacity.
    pub closed spec fn wf(&self) -> bool {
        &&& self.size <= self.capacity
        &&& self.free@.len() + self.size >= self.capacity
        &&& forall|i: int| 0 <= i < self.free@.len() ==> self.free@[i] < self.capacity
    }

    /// Number of slots.
    pub closed spec fn capacity(&self) -> nat {
        self.capacity as nat
    }

    /// Number of allocations made so far; freeing a slot does not lower it.
    pub closed spec fn size(&self) -> nat {
        self.size as nat
    }

    /// The free slots; the last one is handed out next.
    pub closed spec fn free_slots(&self) -> Seq<usize> {
        self.free@
    }

    /// Creates an empty slot allocator.
    pub fn new() -> (a: SlotAllocator)
        ensures
            a.wf(),
            a.capacity() == 0,
            a.size() == 0,
            a.free_slots() == Seq::<usize>::empty(),
    {
        SlotAllocator { capacity: 0, size: 0, free: Vec::new() }
    }

    /// Creates an allocator with the given capacity, whose slots come out in increasing order.
    pub fn with_capacity(capacity: usize) -> (a: SlotAllocator)
        ensures
            a.wf(),
            a.capacity() == capacity,
            a.size() == 0,
            a.free_slots() == descending(0, capacity as int),
    {
        let mut free: Vec<usize> = Vec::new();
        let mut next = capacity;
        while next > 0
            invariant
                next <= capacity,
                free@ == descending(next as int, capacity as int),
            decreases next,
        {
            next = next - 1;
            free.push(next);
            assert(free@ =~= descending(next as int, capacity as int));
        }
        SlotAllocator { capacity, size: 0, free }
    }

    /// Allocates a fresh slot: the last free one.
    pub fn allocate(&mut self) -> (slot: usize)
        requires
            old(self).wf(),
            old(self).size() < old(self).capacity(),
        ensures
            final(self).wf(),
            old(self).free_slots().len() > 0,
            slot == old(self).free_slots().last(),
            slot < final(self).capacity(),
            final(self).free_slots() == old(self).free_slots().drop_last(),
            final(self).size() == old(self).size() + 1,
            final(self).capacity() == old(self).capacity(),
    {
        self.size = self.size + 1;
        let slot = self.free.pop().unwrap();
        slot
    }

    /// Whether another slot can be allocated.
    pub fn can_allocate(&self) -> (r: bool)
        ensures
            r == (self.size() < self.capacity()),
    {
        self.size < self.capacity
    }

    /// Gives a slot back; it is the next one handed out.
    pub fn free(&mut self, slot: usize)
        requires
            slot < old(self).capacity(),
        ensures
            old(self).wf() ==> final(self).wf(),
            final(self).free_slots() == old(self).free_slots().push(slot),
            final(self).size() == old(self).size(),
            final(self).capacity() == old(self).capacity(),
    {
        self.free.push(slot);
    }
}

impl Default for SlotAllocator {
    fn default() -> (a: SlotAllocator)
        ensures
            a.wf(),
            a.capacity() == 0,
            a.size() == 0,
            a.free_slots() == Seq::<usize>::empty(),
    {
        SlotAllocator::new()
    }
}

} // verus!
