//! Growable slot allocator for GPU buffer slots.
use vstd::prelude::*;
use crate::client::slot_allocator::descending;

verus! {

/// The capacity after the next allocation: doubled when the allocation count would pass it.
pub open spec fn grown_capacity(a: SlotAllocator) -> int {
    if a.size + 1 > a.capacity {
        2 * a.capacity
    } else {
        a.capacity as int
    }
}

/// The free list after the next allocation's growth, before a slot is taken from it.
pub open spec fn grown_free(a: SlotAllocator) -> Seq<usize> {
    if a.size + 1 > a.capacity {
        a.free@ + descending(a.capacity as int, 2 * a.capacity)
    } else {
        a.free@
    }
}

/// Slot allocator that doubles its capacity when the allocation count passes it.
#[derive(Debug, Clone)]
pub struct SlotAllocator {
    pub capacity: usize,
    pub size: usize,
    pub free: Vec<usize>,
}

impl SlotAllocator {
    /// At least one slot, never more allocations counted than slots, enough free slots left
    /// for the rest, and every free slot below the capacity.
    pub open spec fn wf(&self) -> bool {
        &&& self.capacity >= 1
        &&& self.size <= self.capacity
        &&& self.free@.len() + self.size >= self.capacity
        &&& forall|i: int| 0 <= i < self.free@.len() ==> self.free@[i] < self.capacity
    }

    /// The next allocation cannot overflow the allocation count or the grown capacity.
    pub open spec fn can_allocate(&self) -> bool {
        &&& self.size < usize::MAX
        &&& self.size + 1 > self.capacity ==> 0 < self.capacity && 2 * self.capacity
            <= usize::MAX
    }

    /// An allocator of `slots` slots, handed out in increasing order.
    pub fn new(slots: usize) -> (a: SlotAllocator)
        ensures
            a.capacity == slots,
            a.size == 0,
            a.free@ == descending(0, slots as int),
            slots >= 1 ==> a.wf(),
    {
        let mut free: Vec<usize> = Vec::new();
        let mut next = slots;
        while next > 0
            invariant
                next <= slots,
                free@ == descending(next as int, slots as int),
            decreases next,
        {
            next = next - 1;
            free.push(next);
            assert(free@ =~= descending(next as int, slots as int));
        }
        SlotAllocator { size: 0, capacity: slots, free }
    }

    /// Counts an allocation, doubling the capacity when the count passes it, and hands out the
    /// last free slot, if any.
    pub fn allocate(&mut self) -> (slot: Option<usize>)
        requires
            old(self).can_allocate(),
        ensures
            final(self).size == old(self).size + 1,
            final(self).capacity == grown_capacity(*old(self)),
            grown_free(*old(self)).len() > 0 ==> slot == Some(grown_free(*old(self)).last())
                && final(self).free@ == grown_free(*old(self)).drop_last(),
            grown_free(*old(self)).len() == 0 ==> slot is None && final(self).free@ == grown_free(
                *old(self),
            ),
            old(self).wf() ==> final(self).wf() && slot is Some && slot.unwrap()
                < final(self).capacity,
    {
        self.size = self.size + 1;
        if self.size > self.capacity {
            self.resize(self.capacity * 2);
        }
        self.free.pop()
    }

    /// Gives a slot back; it is the next one handed out.
    pub fn free(&mut self, slot: usize)
        requires
            slot < old(self).capacity,
        ensures
            final(self).free@ == old(self).free@.push(slot),
            final(self).size == old(self).size,
            final(self).capacity == old(self).capacity,
            old(self).wf() ==> final(self).wf(),
    {
        self.free.push(slot);
    }

    /// Grows the capacity to `new_capacity`, adding the new slots to the free list so that
    /// the lowest of them is handed out first.
    pub fn resize(&mut self, new_capacity: usize)
        requires
            new_capacity > old(self).capacity,
        ensures
            final(self).capacity == new_capacity,
            final(self).size == old(self).size,
            final(self).free@ == old(self).free@ + descending(
                old(self).capacity as int,
                new_capacity as int,
            ),
    {
        let ghost start = self.free@;
        let mut next = new_capacity;
        while next > self.capacity
            invariant
                self.capacity == old(self).capacity,
                self.size == old(self).size,
                start == old(self).free@,
                self.capacity < new_capacity,
                self.capacity <= next <= new_capacity,
                self.free@ == start + descending(next as int, new_capacity as int),
            decreases next,
        {
            next = next - 1;
            self.free.push(next);
            assert(self.free@ =~= start + descending(next as int, new_capacity as int));
        }
        self.capacity = new_capacity;
    }
}

} // verus!
