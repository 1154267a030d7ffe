//! Which GPU map slot each grid cell uses, and the unpack commands still to be dispatched.
use vstd::prelude::*;
use std::collections::HashMap;
use crate::client::command::Command;
use crate::client::slot_allocator::{SlotAllocator, descending};
use crate::client::world::Edit;
use crate::pending::{drain_values, drained_as};

verus! {

broadcast use vstd::std_specs::hash::group_hash_axioms;

/// GPU-side contents of a full-resolution map.
pub type GPUMap8 = [u32; 16];

/// GPU-side contents of a half-resolution map.
pub type GPUMap4 = [u32; 2];

/// GPU-side contents of a quarter-resolution map.
pub type GPUMap2 = [u32; 1];

/// `c` clears grid cell `g`.
pub open spec fn is_clear_command(c: Command, g: u32) -> bool {
    &&& c.action == 0
    &&& c.grid == g
    &&& c.map == 0
    &&& c.mask8@ == Seq::new(16, |i: int| 0u32)
    &&& c.mask4@ == Seq::new(2, |i: int| 0u32)
    &&& c.mask2@ == Seq::new(1, |i: int| 0u32)
}

/// Slot bookkeeping of the GPU world: the map slot of every occupied grid cell and, per grid
/// cell, the latest command to send.
#[derive(Debug)]
pub struct GPUWorld {
    allocator: SlotAllocator,
    pending: HashMap<u32, Command>,
    grid_to_map: HashMap<u32, u32>,
}

impl GPUWorld {
    /// The map slot allocator.
    pub closed spec fn allocator(&self) -> SlotAllocator {
        self.allocator
    }

    /// The command to send for each grid cell.
    pub closed spec fn pending(&self) -> Map<u32, Command> {
        self.pending@
    }

    /// The map slot of each occupied grid cell.
    pub closed spec fn grid_to_map(&self) -> Map<u32, u32> {
        self.grid_to_map@
    }

    /// The allocator is consistent and every assigned slot is one of its slots.
    pub open spec fn wf(&self) -> bool {
        &&& self.allocator().wf()
        &&& forall|g: u32| #[trigger]
            self.grid_to_map().contains_key(g) ==> self.grid_to_map()[g]
                < self.allocator().capacity()
    }

    /// An empty GPU world with one map slot per grid cell.
    pub fn new(grid_volume: usize) -> (w: GPUWorld)
        ensures
            w.wf(),
            w.allocator().capacity() == grid_volume,
            w.allocator().size() == 0,
            w.allocator().free_slots() == descending(0, grid_volume as int),
            w.pending() == Map::<u32, Command>::empty(),
            w.grid_to_map() == Map::<u32, u32>::empty(),
    {
        GPUWorld {
            allocator: SlotAllocator::with_capacity(grid_volume),
            pending: HashMap::new(),
            grid_to_map: HashMap::new(),
        }
    }

    /// Records the command for an edit: a set command carrying the maps in the cell's slot,
    /// which is allocated when the cell has none yet, or a clear command, which gives the
    /// cell's slot back.
    pub fn apply(&mut self, edit: Edit)
        requires
            old(self).wf(),
            edit matches Edit::Assign { grid, .. } && !old(self).grid_to_map().contains_key(
                grid as u32,
            ) ==> old(self).allocator().size() < old(self).allocator().capacity(),
        ensures
            final(self).wf(),
            match edit {
                Edit::Assign { grid, map8, map4, map2 } => {
                    let g = grid as u32;
                    let had = old(self).grid_to_map().contains_key(g);
                    let map = if had {
                        old(self).grid_to_map()[g]
                    } else {
                        old(self).allocator().free_slots().last() as u32
                    };
                    &&& final(self).grid_to_map() == old(self).grid_to_map().insert(g, map)
                    &&& final(self).pending() == old(self).pending().insert(
                        g,
                        Command {
                            action: 1,
                            grid: g,
                            map,
                            mask8: map8.mask,
                            mask4: map4.mask,
                            mask2: map2.mask,
                        },
                    )
                    &&& final(self).allocator().capacity() == old(self).allocator().capacity()
                    &&& had ==> final(self).allocator().size() == old(self).allocator().size()
                        && final(self).allocator().free_slots() == old(
                        self,
                    ).allocator().free_slots()
                    &&& !had ==> final(self).allocator().size() == old(self).allocator().size()
                        + 1 && final(self).allocator().free_slots() == old(
                        self,
                    ).allocator().free_slots().drop_last()
                },
                Edit::Clear { grid } => {
                    let g = grid as u32;
                    let had = old(self).grid_to_map().contains_key(g);
                    &&& final(self).grid_to_map() == old(self).grid_to_map().remove(g)
                    &&& final(self).pending().dom() == old(self).pending().dom().insert(g)
                    &&& is_clear_command(final(self).pending()[g], g)
                    &&& forall|k: u32|
                        k != g && #[trigger] old(self).pending().contains_key(k)
                            ==> final(self).pending()[k] == old(self).pending()[k]
                    &&& final(self).allocator().capacity() == old(self).allocator().capacity()
                    &&& final(self).allocator().size() == old(self).allocator().size()
                    &&& final(self).allocator().free_slots() == if had {
                        old(self).allocator().free_slots().push(old(self).grid_to_map()[g] as usize)
                    } else {
                        old(self).allocator().free_slots()
                    }
                },
            },
    {
        match edit {
            Edit::Assign { grid, map8, map4, map2 } => {
                let grid = grid as u32;
                let map = self.acquire_map(grid);
                self.pending.insert(
                    grid,
                    Command::set(grid, map, map8.mask, map4.mask, map2.mask),
                );
            },
            Edit::Clear { grid } => {
                let grid = grid as u32;
                self.free_map(grid);
                self.pending.insert(grid, Command::clear(grid));
            },
        }
    }

    /// Whether `edit` can be applied: it clears a cell, sets a cell that has a map slot
    /// already, or a slot is still free.
    pub fn can_apply(&self, edit: &Edit) -> (r: bool)
        ensures
            r == (edit matches Edit::Assign { grid, .. } && !self.grid_to_map().contains_key(
                grid as u32,
            ) ==> self.allocator().size() < self.allocator().capacity()),
    {
        match edit {
            Edit::Assign { grid, .. } => {
                let g = *grid as u32;
                self.grid_to_map.contains_key(&g) || self.allocator.can_allocate()
            },
            Edit::Clear { .. } => true,
        }
    }

    /// Takes every pending command, in the order the map of pending commands is walked.
    pub fn drain_commands(&mut self) -> (cmds: Vec<Command>)
        ensures
            exists|ks: Seq<u32>| drained_as(old(self).pending(), ks, cmds@),
            final(self).pending() == Map::<u32, Command>::empty(),
            final(self).grid_to_map() == old(self).grid_to_map(),
            final(self).allocator() == old(self).allocator(),
    {
        let ghost before = self.pending@;
        let cmds = drain_values(&mut self.pending);
        proof {
            let ks = choose|ks: Seq<u32>| drained_as(before, ks, cmds@);
            assert(drained_as(old(self).pending(), ks, cmds@));
        }
        cmds
    }

    /// The map slot of `grid`, allocated if it has none.
    fn acquire_map(&mut self, grid: u32) -> (map: u32)
        requires
            old(self).wf(),
            !old(self).grid_to_map().contains_key(grid) ==> old(self).allocator().size() < old(
                self,
            ).allocator().capacity(),
        ensures
            final(self).wf(),
            final(self).pending() == old(self).pending(),
            old(self).grid_to_map().contains_key(grid) ==> map == old(self).grid_to_map()[grid]
                && final(self).allocator() == old(self).allocator(),
            !old(self).grid_to_map().contains_key(grid) ==> map == old(
                self,
            ).allocator().free_slots().last() as u32 && final(self).allocator().size() == old(
                self,
            ).allocator().size() + 1 && final(self).allocator().free_slots() == old(
                self,
            ).allocator().free_slots().drop_last() && final(self).allocator().capacity() == old(
                self,
            ).allocator().capacity(),
            final(self).grid_to_map() == old(self).grid_to_map().insert(grid, map),
    {
        match self.grid_to_map.get(&grid) {
            Some(map) => {
                let map = *map;
                proof {
                    assert(self.grid_to_map@.insert(grid, map) =~= self.grid_to_map@);
                }
                map
            },
            None => {
                let slot = self.allocator.allocate();
                let map = slot as u32;
                self.grid_to_map.insert(grid, map);
                map
            },
        }
    }

    /// Gives the map slot of `grid` back, if it has one.
    fn free_map(&mut self, grid: u32)
        requires
            old(self).wf(),
        ensures
            final(self).wf(),
            final(self).pending() == old(self).pending(),
            final(self).grid_to_map() == old(self).grid_to_map().remove(grid),
            final(self).allocator().capacity() == old(self).allocator().capacity(),
            final(self).allocator().size() == old(self).allocator().size(),
            final(self).allocator().free_slots() == if old(self).grid_to_map().contains_key(
                grid,
            ) {
                old(self).allocator().free_slots().push(old(self).grid_to_map()[grid] as usize)
            } else {
                old(self).allocator().free_slots()
            },
    {
        match self.grid_to_map.remove(&grid) {
            Some(map) => {
                proof {
                    assert(old(self).grid_to_map().contains_key(grid));
                }
                self.allocator.free(map as usize);
            },
            None => {
                proof {
                    assert(self.grid_to_map@ =~= old(self).grid_to_map@.remove(grid));
                }
            },
        }
        proof {
            assert forall|g: u32| #[trigger]
                self.grid_to_map().contains_key(g) implies self.grid_to_map()[g]
                < self.allocator().capacity() by {
                assert(old(self).grid_to_map().contains_key(g));
            }
        }
    }
}

} // verus!
