//! The game's GPU world bookkeeping: map and pallete slots of the grid cells, and the unpack
//! command still to be sent for each cell.
use vstd::prelude::*;
use std::collections::HashMap;
use crate::game::render::command::UnpackCommand;
use crate::client::slot_allocator::{descending, lemma_descending};
use crate::game::render::slot_allocator::{SlotAllocator, grown_capacity, grown_free};
use crate::game::world::brick_grid::{BrickMap, Edit, uniform_material_of};
use crate::pending::{drain_values, drained_as};
use vstd::set_lib::lemma_len_subset;

verus! {

broadcast use vstd::std_specs::hash::group_hash_axioms;

/// GPU-side description of a map.
#[derive(Debug, Clone, Copy)]
pub struct GpuBrickMap {
    pub mask: [u32; 16],
    pub material_idx: u32,
    pub is_requested: u32,
}

/// GPU-side pallete: the material of every voxel of a map.
#[derive(Debug, Clone, Copy)]
pub struct GpuPallete {
    pub pallete: [u32; 512],
}

/// The slot that the next allocation hands out, for an allocator that has one.
pub open spec fn next_slot(a: SlotAllocator) -> usize {
    grown_free(a).last()
}

/// `after` is `before` with one allocation made.
pub open spec fn allocated_from(after: SlotAllocator, before: SlotAllocator) -> bool {
    &&& after.capacity == grown_capacity(before)
    &&& after.size == before.size + 1
    &&& after.free@ == grown_free(before).drop_last()
}

/// `after` is `before` with `slot` given back.
pub open spec fn freed_into(after: SlotAllocator, before: SlotAllocator, slot: usize) -> bool {
    &&& after.capacity == before.capacity
    &&& after.size == before.size
    &&& after.free@ == before.free@.push(slot)
}

/// The two allocators are in the same state.
pub open spec fn same_allocator(a: SlotAllocator, b: SlotAllocator) -> bool {
    &&& a.capacity == b.capacity
    &&& a.size == b.size
    &&& a.free@ == b.free@
}

/// The pallete of a brick: the number of each voxel's material.
pub open spec fn pallete_words(brick: BrickMap) -> Seq<u32> {
    Seq::new(512, |i: int| brick.materials@[i]@ as u32)
}

/// `c` gives grid cell `g` map `map` and pallete `p`, filled from `brick`.
pub open spec fn is_pallete_command(c: UnpackCommand, g: u32, map: u32, p: u32, brick: BrickMap) -> bool {
    match c {
        UnpackCommand::SetPallete { grid_idx, map_idx, pallete_idx, mask, pallete } => {
            &&& grid_idx == g
            &&& map_idx == map
            &&& pallete_idx == p
            &&& mask == brick.mask
            &&& pallete@ == pallete_words(brick)
        },
        _ => false,
    }
}

/// A pallete command carries, word by word, the number of the material of each of the brick's
/// 512 voxels, together with the given grid, map and pallete slots and the brick's mask.
pub proof fn lemma_pallete_command(c: UnpackCommand, g: u32, map: u32, p: u32, brick: BrickMap)
    requires
        is_pallete_command(c, g, map, p, brick),
    ensures
        match c {
            UnpackCommand::SetPallete { grid_idx, map_idx, pallete_idx, mask, pallete } => {
                &&& grid_idx == g && map_idx == map && pallete_idx == p
                &&& mask == brick.mask
                &&& forall|i: int| 0 <= i < 512 ==> pallete@[i] == brick.materials@[i]@ as u32
            },
            _ => false,
        },
{
}

/// Map and pallete slots of the grid cells and the command to send for each cell.
#[derive(Debug)]
pub struct GpuWorld {
    allocator: SlotAllocator,
    pallete_allocator: SlotAllocator,
    pending: HashMap<u32, UnpackCommand>,
    grid_map: HashMap<u32, u32>,
    map_pallete: HashMap<u32, u32>,
}

impl GpuWorld {
    /// The map slot allocator.
    pub closed spec fn maps(&self) -> SlotAllocator {
        self.allocator
    }

    /// The pallete slot allocator.
    pub closed spec fn palletes(&self) -> SlotAllocator {
        self.pallete_allocator
    }

    /// The command to send for each grid cell.
    pub closed spec fn pending(&self) -> Map<u32, UnpackCommand> {
        self.pending@
    }

    /// The map slot of each occupied grid cell.
    pub closed spec fn grid_map(&self) -> Map<u32, u32> {
        self.grid_map@
    }

    /// The pallete slot recorded for each map slot.
    pub closed spec fn map_pallete(&self) -> Map<u32, u32> {
        self.map_pallete@
    }

    /// Both allocators are consistent, no more cells are occupied than map slots were
    /// allocated, and every recorded slot is one of its allocator's.
    pub open spec fn wf(&self) -> bool {
        &&& self.maps().wf()
        &&& self.palletes().wf()
        &&& self.grid_map().len() <= self.maps().size
        &&& forall|g: u32| #[trigger]
            self.grid_map().contains_key(g) ==> self.grid_map()[g] < self.maps().capacity
        &&& forall|m: u32| #[trigger]
            self.map_pallete().contains_key(m) ==> self.map_pallete()[m]
                < self.palletes().capacity
    }

    /// Neither allocator can overflow on its next allocation.
    pub open spec fn can_allocate(&self) -> bool {
        self.maps().can_allocate() && self.palletes().can_allocate()
    }

    /// Map slots fit a `u32`, the free list of map slots repeats none, and the occupied grid
    /// cells hold different map slots, none of which is free.
    pub open spec fn slots_distinct(&self) -> bool {
        &&& self.maps().capacity <= 0x1_0000_0000
        &&& self.maps().free@.no_duplicates()
        &&& forall|g: u32| #[trigger]
            self.grid_map().contains_key(g) ==> !self.maps().free@.contains(
                self.grid_map()[g] as usize,
            )
        &&& forall|g1: u32, g2: u32|
            #[trigger] self.grid_map().contains_key(g1) && #[trigger] self.grid_map().contains_key(
                g2,
            ) && g1 != g2 ==> self.grid_map()[g1] != self.grid_map()[g2]
    }

    /// Setting `brick` at grid cell `g` cannot overflow an allocator: a map slot is only
    /// allocated for a cell that has none, and a pallete slot only for a brick of several
    /// materials whose map has none.
    pub open spec fn can_set(&self, g: u32, brick: BrickMap) -> bool {
        &&& !self.grid_map().contains_key(g) ==> self.maps().can_allocate()
        &&& uniform_material_of(brick.materials@) is None && !self.map_pallete().contains_key(
            self.map_for(g),
        ) ==> self.palletes().can_allocate()
    }

    /// The command recorded for cell `g` sets it to `brick`: in the cell's map slot, and for a
    /// brick of several materials in the pallete slot recorded for that map.
    pub open spec fn mirrors(&self, g: u32, brick: BrickMap) -> bool {
        &&& self.grid_map().contains_key(g)
        &&& self.pending().contains_key(g)
        &&& match uniform_material_of(brick.materials@) {
            Some(m) => self.pending()[g] == UnpackCommand::SetUniform {
                grid_idx: g,
                map_idx: self.grid_map()[g],
                material_idx: m@ as u32,
                mask: brick.mask,
            },
            None => {
                &&& self.map_pallete().contains_key(self.grid_map()[g])
                &&& is_pallete_command(
                    self.pending()[g],
                    g,
                    self.grid_map()[g],
                    self.map_pallete()[self.grid_map()[g]],
                    brick,
                )
            },
        }
    }

    /// Every cell of `cells` is occupied, so there are at most as many of them as map slots:
    /// each occupied cell took one allocation, and allocations never pass the capacity.
    pub proof fn lemma_cells_within_capacity(&self, cells: Set<u32>)
        requires
            self.wf(),
            forall|g: u32| #[trigger] cells.contains(g) ==> self.grid_map().contains_key(g),
        ensures
            cells.finite(),
            cells.len() <= self.grid_map().len(),
            self.grid_map().len() <= self.maps().capacity,
            forall|g: u32| #[trigger] cells.contains(g) ==> self.grid_map()[g] < self.maps().capacity,
    {
        let dom = self.grid_map().dom();
        assert(dom.finite());
        assert(cells.subset_of(dom));
        lemma_len_subset(cells, dom);
    }

    /// The map slot grid cell `g` ends up with when an edit sets it.
    pub open spec fn map_for(&self, g: u32) -> u32 {
        if self.grid_map().contains_key(g) {
            self.grid_map()[g]
        } else {
            next_slot(self.maps()) as u32
        }
    }

    /// The pallete slot map slot `map` ends up with when a non-uniform brick is set.
    pub open spec fn pallete_for(&self, map: u32) -> u32 {
        if self.map_pallete().contains_key(map) {
            self.map_pallete()[map]
        } else {
            next_slot(self.palletes()) as u32
        }
    }

    /// A GPU world with `size` map slots and 4 pallete slots.
    pub fn new(size: usize) -> (w: GpuWorld)
        ensures
            w.maps().capacity == size,
            w.maps().size == 0,
            w.palletes().capacity == 4,
            w.palletes().size == 0,
            w.pending() == Map::<u32, UnpackCommand>::empty(),
            w.grid_map() == Map::<u32, u32>::empty(),
            w.map_pallete() == Map::<u32, u32>::empty(),
            w.maps().free@ == descending(0, size as int),
            w.palletes().free@ == descending(0, 4),
            size >= 1 ==> w.wf(),
            size <= 0x1_0000_0000 ==> w.slots_distinct(),
    {
        proof {
            lemma_descending(0, size as int);
        }
        GpuWorld {
            allocator: SlotAllocator::new(size),
            pallete_allocator: SlotAllocator::new(4),
            pending: HashMap::new(),
            grid_map: HashMap::new(),
            map_pallete: HashMap::new(),
        }
    }

    /// Records the command for an edit. Setting a brick gives its cell a map slot (allocated
    /// when the cell has none) and, for a brick of one material, a uniform command; otherwise
    /// the map gets a pallete slot (allocated when it has none) and a pallete command.
    /// Clearing an occupied cell gives its map slot, and the pallete slot recorded for that
    /// map, back, and records a clear command; clearing an empty cell does nothing.
    pub fn apply(&mut self, edit: Edit)
        requires
            old(self).wf(),
            edit matches Edit::Assign { grid_idx, brick } ==> old(self).can_set(
                grid_idx as u32,
                brick,
            ),
        ensures
            final(self).wf(),
            old(self).slots_distinct() && final(self).maps().capacity <= 0x1_0000_0000
                ==> final(self).slots_distinct(),
            edit matches Edit::Assign { grid_idx, brick } ==> final(self).mirrors(
                grid_idx as u32,
                brick,
            ),
            edit matches Edit::Assign { grid_idx, .. } ==> forall|k: u32, b: BrickMap|
                k != grid_idx as u32 && old(self).mirrors(k, b) && final(self).slots_distinct()
                    ==> #[trigger] final(self).mirrors(k, b),
            final(self).maps().capacity >= old(self).maps().capacity,
            match edit {
                Edit::Assign { grid_idx, brick } => {
                    let g = grid_idx as u32;
                    let map = old(self).map_for(g);
                    &&& final(self).grid_map() == old(self).grid_map().insert(g, map)
                    &&& if old(self).grid_map().contains_key(g) {
                        same_allocator(final(self).maps(), old(self).maps())
                    } else {
                        allocated_from(final(self).maps(), old(self).maps())
                    }
                    &&& final(self).pending().dom() == old(self).pending().dom().insert(g)
                    &&& forall|k: u32|
                        k != g && #[trigger] old(self).pending().contains_key(k)
                            ==> final(self).pending()[k] == old(self).pending()[k]
                    &&& match uniform_material_of(brick.materials@) {
                        Some(m) => {
                            &&& final(self).pending()[g] == UnpackCommand::SetUniform {
                                grid_idx: g,
                                map_idx: map,
                                material_idx: m@ as u32,
                                mask: brick.mask,
                            }
                            &&& final(self).map_pallete() == old(self).map_pallete()
                            &&& same_allocator(final(self).palletes(), old(self).palletes())
                        },
                        None => {
                            let p = old(self).pallete_for(map);
                            &&& is_pallete_command(final(self).pending()[g], g, map, p, brick)
                            &&& final(self).map_pallete() == old(self).map_pallete().insert(
                                map,
                                p,
                            )
                            &&& if old(self).map_pallete().contains_key(map) {
                                same_allocator(final(self).palletes(), old(self).palletes())
                            } else {
                                allocated_from(final(self).palletes(), old(self).palletes())
                            }
                        },
                    }
                },
                Edit::Clear { grid_idx } => {
                    let g = grid_idx as u32;
                    &&& final(self).map_pallete() == old(self).map_pallete()
                    &&& if old(self).grid_map().contains_key(g) {
                        let map = old(self).grid_map()[g];
                        &&& final(self).grid_map() == old(self).grid_map().remove(g)
                        &&& freed_into(final(self).maps(), old(self).maps(), map as usize)
                        &&& if old(self).map_pallete().contains_key(map) {
                            freed_into(
                                final(self).palletes(),
                                old(self).palletes(),
                                old(self).map_pallete()[map] as usize,
                            )
                        } else {
                            same_allocator(final(self).palletes(), old(self).palletes())
                        }
                        &&& final(self).pending() == old(self).pending().insert(
                            g,
                            UnpackCommand::Clear { grid_idx: g },
                        )
                    } else {
                        &&& final(self).grid_map() == old(self).grid_map()
                        &&& same_allocator(final(self).maps(), old(self).maps())
                        &&& same_allocator(final(self).palletes(), old(self).palletes())
                        &&& final(self).pending() == old(self).pending()
                    }
                },
            },
    {
        match edit {
            Edit::Assign { grid_idx, brick } => {
                let grid_idx = grid_idx as u32;
                let map_idx = match self.grid_map.get(&grid_idx) {
                    Some(m) => *m,
                    None => {
                        let slot = self.allocator.allocate().unwrap() as u32;
                        self.grid_map.insert(grid_idx, slot);
                        slot
                    },
                };
                proof {
                    assert(self.grid_map@ =~= old(self).grid_map@.insert(grid_idx, map_idx));
                }
                let command = match brick.uniform_material() {
                    Some(material) => UnpackCommand::SetUniform {
                        grid_idx,
                        map_idx,
                        material_idx: material.id() as u32,
                        mask: brick.mask,
                    },
                    None => {
                        let pallete_idx = match self.map_pallete.get(&map_idx) {
                            Some(p) => *p,
                            None => {
                                let slot = self.pallete_allocator.allocate().unwrap() as u32;
                                self.map_pallete.insert(map_idx, slot);
                                slot
                            },
                        };
                        self.map_pallete.insert(map_idx, pallete_idx);
                        let mut pallete = [0u32; 512];
                        let mut i: usize = 0;
                        while i < 512
                            invariant
                                i <= 512,
                                pallete@.len() == 512,
                                forall|j: int|
                                    0 <= j < i ==> pallete@[j] == brick.materials@[j]@ as u32,
                            decreases 512 - i,
                        {
                            pallete[i] = brick.materials[i].id() as u32;
                            i = i + 1;
                        }
                        proof {
                            assert(pallete@ =~= pallete_words(brick));
                        }
                        UnpackCommand::SetPallete {
                            grid_idx,
                            map_idx,
                            pallete_idx,
                            mask: brick.mask,
                            pallete,
                        }
                    },
                };
                self.pending.insert(grid_idx, command);
            },
            Edit::Clear { grid_idx } => {
                let grid_idx = grid_idx as u32;
                match self.grid_map.remove(&grid_idx) {
                    Some(map_idx) => {
                        proof {
                            assert(old(self).grid_map().contains_key(grid_idx));
                        }
                        self.allocator.free(map_idx as usize);
                        match self.map_pallete.get(&map_idx) {
                            Some(p) => {
                                proof {
                                    assert(old(self).map_pallete().contains_key(map_idx));
                                }
                                self.pallete_allocator.free(*p as usize);
                            },
                            None => {},
                        }
                        self.pending.insert(grid_idx, UnpackCommand::Clear { grid_idx });
                    },
                    None => {
                        proof {
                            assert(self.grid_map@ =~= old(self).grid_map@);
                        }
                    },
                }
            },
        }
        proof {
            assert forall|g: u32| #[trigger]
                self.grid_map().contains_key(g) implies self.grid_map()[g]
                < self.maps().capacity by {
                if old(self).grid_map().contains_key(g) {
                    assert(old(self).grid_map()[g] < old(self).maps().capacity);
                }
            }
            assert forall|m: u32| #[trigger]
                self.map_pallete().contains_key(m) implies self.map_pallete()[m]
                < self.palletes().capacity by {
                if old(self).map_pallete().contains_key(m) {
                    assert(old(self).map_pallete()[m] < old(self).palletes().capacity);
                }
            }
        }
    }

    /// Takes every pending command, in the order the map of pending commands is walked, with
    /// their number.
    pub fn drain_commands(&mut self) -> (r: (usize, Vec<UnpackCommand>))
        ensures
            r.0 == old(self).pending().len(),
            exists|ks: Seq<u32>| drained_as(old(self).pending(), ks, r.1@),
            final(self).pending() == Map::<u32, UnpackCommand>::empty(),
            final(self).grid_map() == old(self).grid_map(),
            final(self).map_pallete() == old(self).map_pallete(),
            final(self).maps() == old(self).maps(),
            final(self).palletes() == old(self).palletes(),
    {
        let len = self.pending.len();
        let ghost before = self.pending@;
        let cmds = drain_values(&mut self.pending);
        let r = (len, cmds);
        proof {
            let ks = choose|ks: Seq<u32>| drained_as(before, ks, r.1@);
            assert(drained_as(old(self).pending(), ks, r.1@));
        }
        r
    }

    /// Number of map slots.
    pub fn map_capacity(&self) -> (c: u64)
        ensures
            c == self.maps().capacity as u64,
    {
        self.allocator.capacity as u64
    }

    /// Number of pallete slots.
    pub fn pallete_capacity(&self) -> (c: u64)
        ensures
            c == self.palletes().capacity as u64,
    {
        self.pallete_allocator.capacity as u64
    }
}

} // verus!
