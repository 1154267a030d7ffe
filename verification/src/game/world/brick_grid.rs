//! The game's world: a cubic grid of 8³ bricks, each voxel of which holds a material.
use vstd::prelude::*;
use crate::bitmask::{
    count_ones, lemma_mask_zero_iff, lemma_mask_with, lemma_mask_without, mask_bit, mask_is_zero, mask_ones, mask_with,
    mask_without, word_ones,
};
use crate::game::world::material::MaterialId;
use crate::math::{IVec3, UVec3, USizeVec3, cube_index, lemma_flat_index_bounds};
use crate::voxel::{
    brick_in_grid, brick_of, grid_half, grid_slot, lemma_local_index, lemma_voxel_slots,
    local_index, slot_addressable,
};

verus! {

/// The grid size as a vector, for a grid of `s`³ bricks.
pub open spec fn cube_size(s: usize) -> USizeVec3 {
    USizeVec3 { x: s, y: s, z: s }
}

/// The brick position lies in the grid's bounds, `-s / 2 ..< s / 2` on every axis.
pub open spec fn brick_within(s: usize, b: IVec3) -> bool {
    let h = grid_half(s);
    &&& -h <= b.x < h
    &&& -h <= b.y < h
    &&& -h <= b.z < h
}

/// The material every non-air voxel has, when there is at least one non-air voxel and they
/// all agree.
pub open spec fn uniform_material_of(mats: Seq<MaterialId>) -> Option<MaterialId> {
    if exists|m: MaterialId| m@ != 0 && mats.contains(m) && all_solid_are(mats, m) {
        Some(choose|m: MaterialId| m@ != 0 && mats.contains(m) && all_solid_are(mats, m))
    } else {
        None
    }
}

/// Every non-air material of the list.
pub open spec fn all_solid_are(mats: Seq<MaterialId>, m: MaterialId) -> bool {
    forall|j: int| 0 <= j < mats.len() && mats[j]@ != 0 ==> mats[j] == m
}

/// The list holds a non-air material.
pub open spec fn has_solid(mats: Seq<MaterialId>) -> bool {
    exists|i: int| 0 <= i < mats.len() && mats[i]@ != 0
}

fn flatten(pos: USizeVec3, size: usize) -> (r: usize)
    requires
        cube_index(pos.x as int, pos.y as int, pos.z as int, size as int) <= usize::MAX,
    ensures
        r == cube_index(pos.x as int, pos.y as int, pos.z as int, size as int),
{
    crate::math::flatten(pos, USizeVec3::splat(size))
}

/// An edit of the world, to be mirrored on the GPU.
#[derive(Debug, Clone)]
pub enum Edit {
    /// The brick at the given grid index now has the given contents.
    Assign { grid_idx: usize, brick: BrickMap },
    /// The brick at the given grid index is cleared.
    Clear { grid_idx: usize },
}

/// A cubic grid of `size`³ bricks centred on the origin.
#[derive(Debug, Clone)]
pub struct BrickGrid {
    pub size: usize,
    pub grid: Vec<BrickMap>,
}

impl BrickGrid {
    /// The grid holds one brick per cell.
    pub open spec fn wf(&self) -> bool {
        self.grid@.len() == self.size * self.size * self.size
    }

    /// The material at `pos`: none outside the grid's bounds or where the voxel is not set.
    pub open spec fn voxel(&self, pos: IVec3) -> Option<MaterialId> {
        if brick_within(self.size, brick_of(pos)) {
            let brick = self.grid@[grid_slot(cube_size(self.size), brick_of(pos))];
            if mask_bit(brick.mask@, local_index(pos)) {
                Some(brick.materials@[local_index(pos)])
            } else {
                None
            }
        } else {
            None
        }
    }

    /// Creates a grid of `size`³ empty bricks.
    pub fn new(size: usize) -> (g: BrickGrid)
        requires
            size * size <= usize::MAX,
            size * size * size <= usize::MAX,
        ensures
            g.wf(),
            g.size == size,
            forall|i: int| 0 <= i < g.grid@.len() ==> (#[trigger] g.grid@[i]).is_clear(),
    {
        let n = size * size * size;
        let mut grid: Vec<BrickMap> = Vec::new();
        let mut i: usize = 0;
        while i < n
            invariant
                i <= n,
                grid@.len() == i,
                forall|j: int| 0 <= j < i ==> (#[trigger] grid@[j]).is_clear(),
            decreases n - i,
        {
            grid.push(BrickMap::new());
            i = i + 1;
        }
        BrickGrid { size, grid }
    }

    /// The slot of the brick at brick position `pos`.
    pub fn brick_idx(&self, pos: IVec3) -> (r: usize)
        requires
            i32::MIN <= pos.x + grid_half(self.size) <= i32::MAX,
            i32::MIN <= pos.y + grid_half(self.size) <= i32::MAX,
            i32::MIN <= pos.z + grid_half(self.size) <= i32::MAX,
            grid_slot(cube_size(self.size), pos) <= usize::MAX,
        ensures
            r == grid_slot(cube_size(self.size), pos),
    {
        let half_size = (self.size as i32) / 2;
        let pos = pos.plus(IVec3::splat(half_size)).as_usizevec3();
        flatten(pos, self.size)
    }

    /// The brick at brick position `pos`.
    pub fn brick(&self, pos: IVec3) -> (b: &BrickMap)
        requires
            slot_addressable(cube_size(self.size), self.grid@.len() as int, pos),
        ensures
            *b == self.grid@[grid_slot(cube_size(self.size), pos)],
    {
        proof {
            assert(self.grid@.len() == self.grid.len());
        }
        let idx = self.brick_idx(pos);
        &self.grid[idx]
    }

    /// The brick at brick position `pos`, for writing.
    pub fn brick_mut(&mut self, pos: IVec3) -> (b: &mut BrickMap)
        requires
            slot_addressable(cube_size(old(self).size), old(self).grid@.len() as int, pos),
        ensures
            *b == old(self).grid@[grid_slot(cube_size(old(self).size), pos)],
            final(self).size == old(self).size,
            final(self).grid@ == old(self).grid@.update(
                grid_slot(cube_size(old(self).size), pos),
                *final(b),
            ),
    {
        proof {
            assert(self.grid@.len() == self.grid.len());
        }
        let idx = self.brick_idx(pos);
        &mut self.grid[idx]
    }

    /// Puts `material` at `pos`, or clears the voxel when `material` is air, and returns the
    /// edit that carries the changed brick.
    pub fn set_voxel(&mut self, pos: IVec3, material: MaterialId) -> (edit: Edit)
        requires
            slot_addressable(
                cube_size(old(self).size),
                old(self).grid@.len() as int,
                brick_of(pos),
            ),
        ensures
            final(self).size == old(self).size,
            ({
                let slot = grid_slot(cube_size(old(self).size), brick_of(pos));
                let before = old(self).grid@[slot];
                let after = final(self).grid@[slot];
                &&& final(self).grid@ == old(self).grid@.update(slot, after)
                &&& after.mask@ == if material@ == 0 {
                    mask_without(before.mask@, local_index(pos))
                } else {
                    mask_with(before.mask@, local_index(pos))
                }
                &&& after.materials@ == before.materials@.update(local_index(pos), material)
                &&& edit == Edit::Assign { grid_idx: slot as usize, brick: after }
            }),
            old(self).wf() && brick_within(old(self).size, brick_of(pos)) ==> forall|q: IVec3|
                #[trigger] final(self).voxel(q) == if q == pos {
                    if material@ == 0 {
                        None
                    } else {
                        Some(material)
                    }
                } else {
                    old(self).voxel(q)
                },
            old(self).wf() && material@ != 0 && ({
                let b = brick_of(pos);
                let h = (old(self).size / 2) as int;
                &&& -h <= b.x < h
                &&& -h <= b.y < h
                &&& -h <= b.z < h
            }) ==> final(self).voxel(pos) == Some(material),
    {
        let ghost old_grid = *self;
        let brick_size: i32 = 8;
        let brick_pos = pos.div_euclid(IVec3::splat(brick_size));
        let local_pos = pos.rem_euclid(IVec3::splat(brick_size)).as_uvec3();
        proof {
            lemma_local_index(pos);
            assert(cube_index(local_pos.x as int, local_pos.y as int, local_pos.z as int, 8)
                == local_index(pos));
            assert(self.grid@.len() == self.grid.len());
        }
        let grid_idx = self.brick_idx(brick_pos);
        if material == MaterialId::air() {
            self.grid[grid_idx].clear(local_pos);
        } else {
            self.grid[grid_idx].set(local_pos, material);
        }
        let brick = self.grid[grid_idx];
        proof {
            MaterialId::lemma_view_injective(material, MaterialId::air_spec());
            if old_grid.wf() && brick_within(old_grid.size, brick_of(pos)) {
                assert forall|q: IVec3| #[trigger] self.voxel(q) == if q == pos {
                    if material@ == 0 {
                        None
                    } else {
                        Some(material)
                    }
                } else {
                    old_grid.voxel(q)
                } by {
                    if brick_within(old_grid.size, brick_of(q)) {
                        lemma_within_grid(old_grid.size, brick_of(pos));
                        lemma_within_grid(old_grid.size, brick_of(q));
                        lemma_voxel_slots(cube_size(old_grid.size), pos, q);
                        lemma_local_index(q);
                        let sp = grid_slot(cube_size(old_grid.size), brick_of(pos));
                        let sq = grid_slot(cube_size(old_grid.size), brick_of(q));
                        if sq == sp {
                            let before = old_grid.grid@[sp].mask@;
                            if material@ == 0 {
                                lemma_mask_without(before, local_index(pos), local_index(q));
                            } else {
                                lemma_mask_with(before, local_index(pos), local_index(q));
                            }
                        }
                    }
                }
            }
        }
        proof {
            if old_grid.wf() {
                lemma_bounds(old_grid.size, brick_of(pos));
            }
        }
        Edit::Assign { grid_idx, brick }
    }

    /// Whether the brick position lies in the grid's bounds.
    fn brick_in_bounds(&self, brick_pos: IVec3) -> (r: bool)
        ensures
            r == brick_within(self.size, brick_pos),
    {
        let half = (self.size as i32) / 2;
        proof {
            assert(grid_half(self.size) == half);
        }
        brick_pos.x >= -half && brick_pos.y >= -half && brick_pos.z >= -half
            && brick_pos.x < half && brick_pos.y < half && brick_pos.z < half
    }

    /// The material at `pos`, if the position is inside the grid and its voxel is set.
    pub fn get_voxel(&self, pos: IVec3) -> (r: Option<MaterialId>)
        requires
            self.wf(),
        ensures
            r == self.voxel(pos),
    {
        let brick_size: i32 = 8;
        let brick_pos = pos.div_euclid(IVec3::splat(brick_size));
        if !self.brick_in_bounds(brick_pos) {
            return None;
        }
        proof {
            assert(self.grid@.len() == self.grid.len());
        }
        let local_pos = pos.rem_euclid(IVec3::splat(brick_size)).as_uvec3();
        proof {
            lemma_local_index(pos);
            lemma_within_grid(self.size, brick_pos);
            lemma_voxel_slots(cube_size(self.size), pos, pos);
            assert(cube_index(local_pos.x as int, local_pos.y as int, local_pos.z as int, 8)
                == local_index(pos));
        }
        let brick = self.brick(brick_pos);
        if brick.get(local_pos) {
            Some(brick.get_material(local_pos))
        } else {
            None
        }
    }
}

/// The material of a brick is uniform exactly when the brick has a non-air voxel and all its
/// non-air voxels have the same material, which is then the one given; otherwise the brick
/// has no non-air voxel or two non-air voxels of different materials.
pub proof fn lemma_uniform_material(mats: Seq<MaterialId>)
    ensures
        match uniform_material_of(mats) {
            Some(m) => {
                &&& m@ != 0
                &&& exists|i: int| 0 <= i < mats.len() && mats[i] == m
                &&& forall|j: int| 0 <= j < mats.len() && mats[j]@ != 0 ==> mats[j] == m
            },
            None => {
                ||| forall|i: int| 0 <= i < mats.len() ==> mats[i]@ == 0
                ||| exists|i: int, j: int|
                    0 <= i < mats.len() && 0 <= j < mats.len() && mats[i]@ != 0 && mats[j]@ != 0
                        && mats[i] != mats[j]
            },
        },
{
    match uniform_material_of(mats) {
        Some(m) => {
            assert(mats.contains(m));
        },
        None => {
            if !(forall|i: int| 0 <= i < mats.len() ==> mats[i]@ == 0) {
                let i = choose|i: int| 0 <= i < mats.len() && mats[i]@ != 0;
                if !(exists|a: int, b: int|
                    0 <= a < mats.len() && 0 <= b < mats.len() && mats[a]@ != 0 && mats[b]@ != 0
                        && mats[a] != mats[b]) {
                    let m = mats[i];
                    assert(mats.contains(m));
                    assert(all_solid_are(mats, m)) by {
                        assert forall|j: int| 0 <= j < mats.len() && mats[j]@ != 0 implies mats[j]
                            == m by {
                            if mats[j] != m {
                                assert(0 <= i < mats.len() && 0 <= j < mats.len() && mats[i]@
                                    != 0 && mats[j]@ != 0 && mats[i] != mats[j]);
                            }
                        }
                    }
                    assert(false);
                }
            }
        },
    }
}

/// The bounds of a grid of `s`³ bricks, with the numbers: a brick position is within them
/// exactly when each of its coordinates lies in `-(s / 2) .. s / 2`.
pub proof fn lemma_bounds(s: usize, b: IVec3)
    requires
        s * s * s <= usize::MAX,
    ensures
        brick_within(s, b) <==> ({
            let h = (s / 2) as int;
            &&& -h <= b.x < h
            &&& -h <= b.y < h
            &&& -h <= b.z < h
        }),
{
    if s >= 0x8000_0000 {
        assert(s * s * s >= 0x8000_0000 * 0x8000_0000 * 0x8000_0000) by (nonlinear_arith)
            requires
                s >= 0x8000_0000,
        ;
        assert(false);
    }
    assert((s as i32) as int == s as int);
    assert(grid_half(s) == s / 2);
}

/// A brick position within the bounds of a well-formed grid has an addressable slot inside
/// the grid.
pub proof fn lemma_within_grid(s: usize, b: IVec3)
    requires
        s * s * s <= usize::MAX,
        brick_within(s, b),
    ensures
        brick_in_grid(cube_size(s), b),
        grid_half(s) == s / 2,
        slot_addressable(cube_size(s), s * s * s, b),
{
    if s >= 0x8000_0000 {
        assert(s * s * s >= 0x8000_0000 * 0x8000_0000 * 0x8000_0000) by (nonlinear_arith)
            requires
                s >= 0x8000_0000,
        ;
        assert(false);
    }
    assert((s as i32) as int == s as int);
    let h = grid_half(s);
    lemma_flat_index_bounds(b.x + h, b.y + h, b.z + h, s as int, s as int, s as int);
}

/// An 8³ brick: a bit mask of the set voxels and the material of every voxel.
#[derive(Debug, Clone, Copy)]
pub struct BrickMap {
    pub mask: [u32; 16],
    pub materials: [MaterialId; 512],
}

impl Default for BrickMap {
    fn default() -> (b: BrickMap)
        ensures
            b.is_clear(),
    {
        let b = BrickMap { mask: [0; 16], materials: [MaterialId::air(); 512] };
        proof {
            broadcast use vstd::array::axiom_spec_array_fill_for_copy_type;

            assert(b.mask@ =~= Seq::new(16, |i: int| 0u32));
            assert forall|i: int| 0 <= i < 512 implies (#[trigger] b.materials@[i])@ == 0 by {
                MaterialId::lemma_view_injective(b.materials@[i], MaterialId::air_spec());
            }
        }
        b
    }
}

impl BrickMap {
    /// Side of a brick, in voxels.
    pub const SIZE: usize = 8;
    /// Voxels in a brick.
    pub const VOLUME: usize = 512;

    /// No voxel is set and every material is air.
    pub open spec fn is_clear(&self) -> bool {
        &&& self.mask@ == Seq::new(16, |i: int| 0u32)
        &&& forall|i: int| 0 <= i < 512 ==> (#[trigger] self.materials@[i])@ == 0
    }

    /// An empty brick.
    pub fn new() -> (b: BrickMap)
        ensures
            b.is_clear(),
    {
        BrickMap::default()
    }

    /// A brick has no voxel set exactly when its mask words are all zero, and exactly when it
    /// counts no set voxel: `is_empty`, `count() == 0` and no position whose `get` is true
    /// coincide.
    pub proof fn lemma_empty_iff(&self)
        ensures
            mask_is_zero(self.mask@) <==> mask_ones(self.mask@, 16) == 0,
            mask_is_zero(self.mask@) <==> forall|x: int, y: int, z: int|
                0 <= x < 8 && 0 <= y < 8 && 0 <= z < 8 ==> !#[trigger] mask_bit(
                    self.mask@,
                    cube_index(x, y, z, 8),
                ),
    {
        let m = self.mask@;
        lemma_mask_zero_iff(m);
        if mask_is_zero(m) {
            assert forall|x: int, y: int, z: int|
                0 <= x < 8 && 0 <= y < 8 && 0 <= z < 8 implies !#[trigger] mask_bit(
                    m,
                    cube_index(x, y, z, 8),
                ) by {
                lemma_flat_index_bounds(x, y, z, 8, 8, 8);
            }
        }
        if forall|x: int, y: int, z: int|
            0 <= x < 8 && 0 <= y < 8 && 0 <= z < 8 ==> !#[trigger] mask_bit(
                m,
                cube_index(x, y, z, 8),
            ) {
            assert forall|i: int| 0 <= i < 32 * m.len() implies !#[trigger] mask_bit(m, i) by {
                let x = i % 8;
                let y = (i / 8) % 8;
                let z = i / 64;
                assert(i == x + y * 8 + z * 64 && 0 <= y < 8 && 0 <= z < 8) by (nonlinear_arith)
                    requires
                        0 <= i < 512,
                        x == i % 8,
                        y == (i / 8) % 8,
                        z == i / 64,
                ;
                assert(cube_index(x, y, z, 8) == i);
            }
        }
    }

    /// Word index and bit of the voxel at `pos`.
    fn index(pos: UVec3) -> (r: (usize, u32))
        requires
            cube_index(pos.x as int, pos.y as int, pos.z as int, 8) < 512,
        ensures
            ({
                let i = cube_index(pos.x as int, pos.y as int, pos.z as int, 8);
                r.0 == i / 32 && r.1 == 1u32 << ((i % 32) as u32)
            }),
    {
        let index = flatten(pos.as_usizevec3(), 8);
        (index / 32, 1u32 << ((index % 32) as u32))
    }

    /// Number of set voxels.
    pub fn count(&self) -> (c: u32)
        ensures
            c == mask_ones(self.mask@, 16),
    {
        let mut total: u32 = 0;
        let mut w: usize = 0;
        while w < 16
            invariant
                w <= 16,
                total == mask_ones(self.mask@, w as nat),
                total <= 32 * w,
            decreases 16 - w,
        {
            let c = count_ones(self.mask[w]);
            proof {
                lemma_word_ones_bound(self.mask@[w as int], 32);
            }
            total = total + c;
            w = w + 1;
        }
        total
    }

    /// Whether the voxel at `pos` is set.
    pub fn get(&self, pos: UVec3) -> (r: bool)
        requires
            cube_index(pos.x as int, pos.y as int, pos.z as int, 8) < 512,
        ensures
            r == mask_bit(self.mask@, cube_index(pos.x as int, pos.y as int, pos.z as int, 8)),
    {
        let index = flatten(pos.as_usizevec3(), 8);
        crate::bitmask::test_bit(&self.mask, index)
    }

    /// The material stored for the voxel at `pos`.
    pub fn get_material(&self, pos: UVec3) -> (m: MaterialId)
        requires
            cube_index(pos.x as int, pos.y as int, pos.z as int, 8) < 512,
        ensures
            m == self.materials@[cube_index(pos.x as int, pos.y as int, pos.z as int, 8)],
    {
        self.materials[flatten(pos.as_usizevec3(), 8)]
    }

    /// Sets the voxel at `pos` and stores its material.
    pub fn set(&mut self, pos: UVec3, material: MaterialId)
        requires
            cube_index(pos.x as int, pos.y as int, pos.z as int, 8) < 512,
        ensures
            ({
                let i = cube_index(pos.x as int, pos.y as int, pos.z as int, 8);
                &&& final(self).mask@ == mask_with(old(self).mask@, i)
                &&& final(self).materials@ == old(self).materials@.update(i, material)
            }),
    {
        let (word, bit) = Self::index(pos);
        self.mask[word] = self.mask[word] | bit;
        self.materials[flatten(pos.as_usizevec3(), 8)] = material;
    }

    /// Clears the voxel at `pos` and resets its material to air.
    pub fn clear(&mut self, pos: UVec3)
        requires
            cube_index(pos.x as int, pos.y as int, pos.z as int, 8) < 512,
        ensures
            ({
                let i = cube_index(pos.x as int, pos.y as int, pos.z as int, 8);
                &&& final(self).mask@ == mask_without(old(self).mask@, i)
                &&& final(self).materials@ == old(self).materials@.update(i, MaterialId::air_spec())
            }),
    {
        let (word, bit) = Self::index(pos);
        self.mask[word] = self.mask[word] & !bit;
        self.materials[flatten(pos.as_usizevec3(), 8)] = MaterialId::air();
    }

    /// Whether no voxel is set.
    pub fn is_empty(&self) -> (r: bool)
        ensures
            r == mask_is_zero(self.mask@),
    {
        let mut w: usize = 0;
        while w < 16
            invariant
                w <= 16,
                forall|k: int| 0 <= k < w ==> self.mask@[k] == 0,
            decreases 16 - w,
        {
            if self.mask[w] != 0 {
                return false;
            }
            w = w + 1;
        }
        true
    }

    /// The material shared by every non-air voxel material, if there is at least one and
    /// they all agree.
    pub fn uniform_material(&self) -> (r: Option<MaterialId>)
        ensures
            r == uniform_material_of(self.materials@),
            match r {
                Some(m) => m@ != 0 && all_solid_are(self.materials@, m),
                None => !has_solid(self.materials@) || exists|i: int, j: int|
                    0 <= i < 512 && 0 <= j < 512 && self.materials@[i]@ != 0
                        && self.materials@[j]@ != 0 && self.materials@[i] != self.materials@[j],
            },
    {
        let air = MaterialId::air();
        let mut i: usize = 0;
        while i < 512 && self.materials[i] == air
            invariant
                i <= 512,
                air@ == 0,
                forall|k: int| 0 <= k < i ==> (#[trigger] self.materials@[k])@ == 0,
            decreases 512 - i,
        {
            i = i + 1;
        }
        proof {
            if i < 512 {
                MaterialId::lemma_view_injective(self.materials@[i as int], air);
            }
        }
        if i == 512 {
            proof {
                assert forall|m: MaterialId| !(m@ != 0 && self.materials@.contains(m)) by {
                    if self.materials@.contains(m) {
                        let k = choose|k: int| 0 <= k < 512 && self.materials@[k] == m;
                        assert(self.materials@[k]@ == 0);
                    }
                }
            }
            return None;
        }
        let first = self.materials[i];
        let mut j: usize = 0;
        while j < 512
            invariant
                j <= 512,
                i < 512,
                air@ == 0,
                first == self.materials@[i as int],
                first@ != 0,
                forall|k: int|
                    0 <= k < j && (#[trigger] self.materials@[k])@ != 0 ==> self.materials@[k]
                        == first,
            decreases 512 - j,
        {
            let m = self.materials[j];
            proof {
                MaterialId::lemma_view_injective(m, air);
            }
            if m != air && m != first {
                assert(self.materials@[i as int] != self.materials@[j as int]);
                proof {
                    assert forall|c: MaterialId|
                        !(c@ != 0 && self.materials@.contains(c) && all_solid_are(
                            self.materials@,
                            c,
                        )) by {
                        if c@ != 0 && all_solid_are(self.materials@, c) {
                            assert(self.materials@[i as int] == c);
                            assert(self.materials@[j as int] == c);
                        }
                    }
                }
                return None;
            }
            j = j + 1;
        }
        proof {
            assert(self.materials@[i as int] == first);
            assert(self.materials@.contains(first));
            let c = choose|c: MaterialId|
                c@ != 0 && self.materials@.contains(c) && all_solid_are(self.materials@, c);
            let k = choose|k: int| 0 <= k < 512 && self.materials@[k] == c;
            assert(self.materials@[k] == first);
        }
        Some(first)
    }
}

proof fn lemma_word_ones_bound(w: u32, n: nat)
    ensures
        word_ones(w, n) <= n,
    decreases n,
{
    if n > 0 {
        lemma_word_ones_bound(w, (n - 1) as nat);
    }
}

} // verus!
