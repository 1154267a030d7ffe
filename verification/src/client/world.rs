//! The voxel world: a grid of 8³ bricks and the list of edits still to be sent to the GPU.
use vstd::prelude::*;
use crate::bitmask::{lemma_mask_with, lemma_mask_without, mask_bit, mask_with, mask_without};
use crate::client::map::{Map2, Map4, Map8, VoxelMap, downsampled, lemma_map_dims, voxel_index};
use crate::math::{IVec3, USizeVec3, cube_index, flatten};
use crate::voxel::{
    brick_in_grid, brick_of, grid_half, grid_slot, lemma_local_index, lemma_voxel_slots,
    local_index, slot_addressable,
};

verus! {

/// `small` holds the downsampling of the cube `big` of side `s` (to side `s / 2`), and has
/// no bit set past its volume.
pub open spec fn is_downsample_of(
    small: Seq<u32>,
    small_side: int,
    small_words: int,
    big: Seq<u32>,
    big_side: int,
) -> bool {
    &&& small.len() == small_words
    &&& forall|x: int, y: int, z: int|
        0 <= x < small_side && 0 <= y < small_side && 0 <= z < small_side ==> #[trigger] mask_bit(
            small,
            cube_index(x, y, z, small_side),
        ) == downsampled(big, big_side, x, y, z)
    &&& forall|i: int|
        small_side * small_side * small_side <= i < 32 * small_words ==> !#[trigger] mask_bit(
            small,
            i,
        )
}

/// Pending world edit that is going to converted to unpack command later in frame.
#[derive(Debug, Clone, Copy, PartialEq, Eq, Hash)]
pub enum Edit {
    /// Set the maps of the brick at the given grid index.
    Assign { grid: usize, map8: Map8, map4: Map4, map2: Map2 },
    /// Clear the brick at the given grid index.
    Clear { grid: usize },
}

/// Dynamically sized volume of [maps](Map8).
#[derive(Debug, Clone)]
pub struct Grid {
    pub size: USizeVec3,
    pub grid: Vec<Map8>,
}

impl Grid {
    /// The grid holds one brick for each cell of its size.
    pub open spec fn wf(&self) -> bool {
        self.grid@.len() == self.size.x * self.size.y * self.size.z
    }

    /// Whether the voxel at `pos` is set, for a position whose brick is addressable.
    pub open spec fn voxel(&self, pos: IVec3) -> bool {
        mask_bit(self.grid@[grid_slot(self.size, brick_of(pos))].mask@, local_index(pos))
    }

    /// Creates a grid of the given size with every brick empty.
    pub fn new(size: USizeVec3) -> (g: Grid)
        requires
            size.x * size.y <= usize::MAX,
            size.x * size.y * size.z <= usize::MAX,
        ensures
            g.wf(),
            g.size == size,
            forall|i: int| 0 <= i < g.grid@.len() ==> g.grid@[i].mask@ == Seq::new(16, |j: int| 0u32),
    {
        let n = size.element_product();
        let mut grid: Vec<Map8> = Vec::new();
        let mut i: usize = 0;
        while i < n
            invariant
                i <= n,
                grid@.len() == i,
                forall|j: int| 0 <= j < i ==> grid@[j].mask@ == Seq::new(16, |k: int| 0u32),
            decreases n - i,
        {
            grid.push(Map8::new());
            i = i + 1;
        }
        Grid { size, grid }
    }

    /// Get a map index given global brick position.
    pub fn idx(&self, pos: IVec3) -> (r: usize)
        requires
            i32::MIN <= pos.x + grid_half(self.size.x) <= i32::MAX,
            i32::MIN <= pos.y + grid_half(self.size.y) <= i32::MAX,
            i32::MIN <= pos.z + grid_half(self.size.z) <= i32::MAX,
            grid_slot(self.size, pos) <= usize::MAX,
        ensures
            r == grid_slot(self.size, pos),
    {
        let half_size = IVec3::new(
            (self.size.x as i32) / 2,
            (self.size.y as i32) / 2,
            (self.size.z as i32) / 2,
        );
        let pos = pos.plus(half_size).as_usizevec3();
        flatten(pos, self.size)
    }

    /// Get a map reference given global brick position.
    pub fn map(&self, pos: IVec3) -> (m: &Map8)
        requires
            slot_addressable(self.size, self.grid@.len() as int, pos),
        ensures
            *m == self.grid@[grid_slot(self.size, pos)],
    {
        proof {
            assert(self.grid@.len() == self.grid.len());
        }
        let idx = self.idx(pos);
        &self.grid[idx]
    }

    /// Get a mutable map reference given global brick position.
    pub fn map_mut(&mut self, pos: IVec3) -> (m: &mut Map8)
        requires
            slot_addressable(old(self).size, old(self).grid@.len() as int, pos),
        ensures
            *m == old(self).grid@[grid_slot(old(self).size, pos)],
            final(self).size == old(self).size,
            final(self).grid@ == old(self).grid@.update(
                grid_slot(old(self).size, pos),
                *final(m),
            ),
    {
        proof {
            assert(self.grid@.len() == self.grid.len());
        }
        let idx = self.idx(pos);
        &mut self.grid[idx]
    }
}

/// Main world representation, holds grid and pending edits to world.
#[derive(Debug, Clone)]
pub struct World {
    grid: Grid,
    pending_edits: Vec<Edit>,
}

impl World {
    /// The grid of bricks.
    pub closed spec fn grid_spec(&self) -> Grid {
        self.grid
    }

    /// The edits not yet drained, oldest first.
    pub closed spec fn edits(&self) -> Seq<Edit> {
        self.pending_edits@
    }

    /// Create a world with given size.
    pub fn new(size: USizeVec3) -> (w: World)
        requires
            size.x * size.y <= usize::MAX,
            size.x * size.y * size.z <= usize::MAX,
        ensures
            w.grid_spec().wf(),
            w.grid_spec().size == size,
            forall|i: int|
                0 <= i < w.grid_spec().grid@.len() ==> w.grid_spec().grid@[i].mask@ == Seq::new(
                    16,
                    |j: int| 0u32,
                ),
            w.edits() == Seq::<Edit>::empty(),
    {
        World { grid: Grid::new(size), pending_edits: Vec::new() }
    }

    /// Set a voxel at given global voxel position.
    ///
    /// The brick that holds `pos` gets the voxel set or cleared, and an edit that carries the
    /// brick and its two downsampled levels is queued.
    pub fn set_voxel(&mut self, pos: IVec3, state: bool)
        requires
            slot_addressable(
                old(self).grid_spec().size,
                old(self).grid_spec().grid@.len() as int,
                brick_of(pos),
            ),
        ensures
            final(self).grid_spec().size == old(self).grid_spec().size,
            ({
                let slot = grid_slot(old(self).grid_spec().size, brick_of(pos));
                let before = old(self).grid_spec().grid@[slot].mask@;
                let after = if state {
                    mask_with(before, local_index(pos))
                } else {
                    mask_without(before, local_index(pos))
                };
                &&& final(self).grid_spec().grid@ == old(self).grid_spec().grid@.update(
                    slot,
                    Map8 { mask: final(self).grid_spec().grid@[slot].mask },
                )
                &&& final(self).grid_spec().grid@[slot].mask@ == after
                &&& final(self).edits().len() == old(self).edits().len() + 1
                &&& final(self).edits().drop_last() == old(self).edits()
                &&& match final(self).edits().last() {
                    Edit::Assign { grid, map8, map4, map2 } => {
                        &&& grid == slot
                        &&& map8 == final(self).grid_spec().grid@[slot]
                        &&& is_downsample_of(map4.mask@, 4, 2, map8.mask@, 8)
                        &&& is_downsample_of(map2.mask@, 2, 1, map4.mask@, 4)
                    },
                    Edit::Clear { .. } => false,
                }
            }),
            old(self).grid_spec().wf() && brick_in_grid(old(self).grid_spec().size, brick_of(pos))
                ==> forall|q: IVec3|
                brick_in_grid(old(self).grid_spec().size, brick_of(q))
                    ==> #[trigger] final(self).grid_spec().voxel(q) == if q == pos {
                    state
                } else {
                    old(self).grid_spec().voxel(q)
                },
    {
        let ghost old_grid = self.grid;
        let size = IVec3::splat(8);
        let brick_pos = pos.div_euclid(size);
        let local_pos = pos.rem_euclid(size).as_uvec3();
        proof {
            lemma_local_index(pos);
            assert(self.grid.grid@.len() == self.grid.grid.len());
            lemma_map_dims();
            assert(voxel_index(local_pos, 8) == local_index(pos));
        }
        let grid = self.grid.idx(brick_pos);
        let map8 = self.grid.map_mut(brick_pos);
        if state {
            map8.set(local_pos);
        } else {
            map8.clear(local_pos);
        }
        let map4 = map8.downsample::<Map4>();
        let map2 = map4.downsample::<Map2>();
        let copy = *map8;
        self.pending_edits.push(Edit::Assign { grid, map8: copy, map4, map2 });
        proof {
            if old_grid.wf() && brick_in_grid(old_grid.size, brick_of(pos)) {
                assert forall|q: IVec3| brick_in_grid(old_grid.size, brick_of(q)) implies #[trigger] self.grid.voxel(q) == if q == pos {
                    state
                } else {
                    old_grid.voxel(q)
                } by {
                    lemma_voxel_slots(old_grid.size, pos, q);
                    lemma_local_index(q);
                    let sp = grid_slot(old_grid.size, brick_of(pos));
                    let sq = grid_slot(old_grid.size, brick_of(q));
                    if sq == sp {
                        let before = old_grid.grid@[sp].mask@;
                        if state {
                            lemma_mask_with(before, local_index(pos), local_index(q));
                        } else {
                            lemma_mask_without(before, local_index(pos), local_index(q));
                        }
                    }
                }
            }
        }
    }

    /// Drain pending edits, oldest first.
    pub fn drain_edits(&mut self) -> (edits: Vec<Edit>)
        ensures
            edits@ == old(self).edits(),
            final(self).edits() == Seq::<Edit>::empty(),
            final(self).grid_spec() == old(self).grid_spec(),
    {
        let mut edits = Vec::new();
        std::mem::swap(&mut edits, &mut self.pending_edits);
        edits
    }

    /// Returns total volume of maps in world.
    pub fn grid_volume(&self) -> (v: usize)
        requires
            self.grid_spec().size.x * self.grid_spec().size.y <= usize::MAX,
            self.grid_spec().size.x * self.grid_spec().size.y * self.grid_spec().size.z
                <= usize::MAX,
        ensures
            v == self.grid_spec().size.x * self.grid_spec().size.y * self.grid_spec().size.z,
    {
        self.grid.size.element_product()
    }

    /// The size of the grid, in bricks.
    pub fn grid_size(&self) -> (s: USizeVec3)
        ensures
            s == self.grid_spec().size,
    {
        self.grid.size
    }
}

} // verus!
