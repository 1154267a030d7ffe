//! The order in which the per-frame schedules run.
use vstd::prelude::*;

verus! {

/// A schedule, identified by a number.
pub type ScheduleId = u64;

/// Schedule run once at start-up.
#[derive(Debug, Clone, Copy, PartialEq, Eq, Hash)]
pub struct Startup;

/// Schedule run first in every frame.
#[derive(Debug, Clone, Copy, PartialEq, Eq, Hash)]
pub struct PreUpdate;

/// Schedule run in the middle of every frame.
#[derive(Debug, Clone, Copy, PartialEq, Eq, Hash)]
pub struct Update;

/// Schedule run last in every frame.
#[derive(Debug, Clone, Copy, PartialEq, Eq, Hash)]
pub struct PostUpdate;

/// Installs the per-frame schedules and their order.
#[derive(Debug, Clone, Copy, PartialEq, Eq, Hash)]
pub struct SchedulePlugin;

/// The schedules to run each frame, in order.
#[derive(Debug, Clone)]
pub struct Order {
    pub schedules: Vec<ScheduleId>,
}

/// `p` is the first position of `x` in `s`.
pub open spec fn first_position(s: Seq<ScheduleId>, x: ScheduleId, p: int) -> bool {
    &&& 0 <= p < s.len()
    &&& s[p] == x
    &&& forall|q: int| 0 <= q < p ==> s[q] != x
}

impl Order {
    /// An order running `schedules` in turn.
    pub fn new(schedules: Vec<ScheduleId>) -> (o: Order)
        ensures
            o.schedules@ == schedules@,
    {
        Order { schedules }
    }

    /// Runs `schedule` right after the first occurrence of `after`.
    pub fn insert_after(&mut self, after: ScheduleId, schedule: ScheduleId)
        requires
            old(self).schedules@.contains(after),
        ensures
            exists|p: int|
                first_position(old(self).schedules@, after, p) && final(self).schedules@ == old(
                    self,
                ).schedules@.insert(p + 1, schedule),
    {
        let mut position: usize = 0;
        proof {
            assert(self.schedules@.len() == self.schedules.len());
        }
        while self.schedules[position] != after
            invariant
                self.schedules@ == old(self).schedules@,
                self.schedules@.len() <= usize::MAX,
                exists|w: int| position <= w < self.schedules@.len() && self.schedules@[w] == after,
                position < self.schedules@.len(),
                forall|q: int| 0 <= q < position ==> self.schedules@[q] != after,
            decreases self.schedules@.len() - position,
        {
            position = position + 1;
        }
        self.schedules.insert(position + 1, schedule);
        assert(first_position(old(self).schedules@, after, position as int));
    }
}

} // verus!
