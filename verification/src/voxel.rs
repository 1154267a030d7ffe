//! Where a voxel lives: its 8³ brick, the brick's slot in a grid centred on the origin, and
//! its place within the brick.
use vstd::prelude::*;
use crate::math::{
    IVec3, USizeVec3, cube_index, div_euclid, flat_index, lemma_flat_index_bounds,
    lemma_flat_index_injective, rem_euclid,
};

verus! {

/// `v / 2` as integer division on `i32` computes it: rounded toward zero.
pub open spec fn trunc_half(v: int) -> int {
    if v >= 0 {
        v / 2
    } else {
        -((-v) / 2)
    }
}

/// The offset that moves the centre of a grid axis of `s` bricks to index `s / 2`.
pub open spec fn grid_half(s: usize) -> int {
    trunc_half((s as i32) as int)
}

/// Slot of the brick at brick position `pos` in a grid of the given size; a brick position
/// whose shifted coordinates are negative wraps around as an `as usize` cast does.
pub open spec fn grid_slot(size: USizeVec3, pos: IVec3) -> int {
    flat_index(
        ((pos.x + grid_half(size.x)) as usize) as int,
        ((pos.y + grid_half(size.y)) as usize) as int,
        ((pos.z + grid_half(size.z)) as usize) as int,
        size.x as int,
        size.y as int,
    )
}

/// The brick position, shifted by the grid's half size, lies inside the grid.
pub open spec fn brick_in_grid(size: USizeVec3, pos: IVec3) -> bool {
    &&& 0 <= pos.x + grid_half(size.x) < size.x
    &&& 0 <= pos.y + grid_half(size.y) < size.y
    &&& 0 <= pos.z + grid_half(size.z) < size.z
}

/// Brick position and local position may be computed for `pos` without overflow, and the
/// brick's slot may be computed and addresses a brick of a grid of `len` bricks.
pub open spec fn slot_addressable(size: USizeVec3, len: int, pos: IVec3) -> bool {
    &&& i32::MIN <= pos.x + grid_half(size.x) <= i32::MAX
    &&& i32::MIN <= pos.y + grid_half(size.y) <= i32::MAX
    &&& i32::MIN <= pos.z + grid_half(size.z) <= i32::MAX
    &&& grid_slot(size, pos) < len
}

/// The brick that holds the voxel at `pos`.
pub open spec fn brick_of(pos: IVec3) -> IVec3 {
    IVec3 {
        x: div_euclid(pos.x as int, 8) as i32,
        y: div_euclid(pos.y as int, 8) as i32,
        z: div_euclid(pos.z as int, 8) as i32,
    }
}

/// Index of the voxel at `pos` within its brick.
pub open spec fn local_index(pos: IVec3) -> int {
    cube_index(
        rem_euclid(pos.x as int, 8),
        rem_euclid(pos.y as int, 8),
        rem_euclid(pos.z as int, 8),
        8,
    )
}

/// Inside the grid, the slot of a voxel's brick is a valid slot, and two different voxels
/// either lie in different bricks or at different places of the same brick.
pub proof fn lemma_voxel_slots(size: USizeVec3, p: IVec3, q: IVec3)
    requires
        brick_in_grid(size, brick_of(p)),
        brick_in_grid(size, brick_of(q)),
    ensures
        0 <= grid_slot(size, brick_of(p)) < size.x * size.y * size.z,
        0 <= grid_slot(size, brick_of(q)) < size.x * size.y * size.z,
        p != q ==> grid_slot(size, brick_of(p)) != grid_slot(size, brick_of(q)) || local_index(
            p,
        ) != local_index(q),
{
    let bp = brick_of(p);
    let bq = brick_of(q);
    let (hx, hy, hz) = (grid_half(size.x), grid_half(size.y), grid_half(size.z));
    lemma_flat_index_bounds(
        bp.x + hx,
        bp.y + hy,
        bp.z + hz,
        size.x as int,
        size.y as int,
        size.z as int,
    );
    lemma_flat_index_bounds(
        bq.x + hx,
        bq.y + hy,
        bq.z + hz,
        size.x as int,
        size.y as int,
        size.z as int,
    );
    lemma_local_index(p);
    lemma_local_index(q);
    if p != q && grid_slot(size, bp) == grid_slot(size, bq) && local_index(p) == local_index(q) {
        lemma_flat_index_injective(
            bp.x + hx,
            bp.y + hy,
            bp.z + hz,
            bq.x + hx,
            bq.y + hy,
            bq.z + hz,
            size.x as int,
            size.y as int,
            size.z as int,
        );
        lemma_flat_index_injective(
            rem_euclid(p.x as int, 8),
            rem_euclid(p.y as int, 8),
            rem_euclid(p.z as int, 8),
            rem_euclid(q.x as int, 8),
            rem_euclid(q.y as int, 8),
            rem_euclid(q.z as int, 8),
            8,
            8,
            8,
        );
        lemma_euclid_split(p.x as int);
        lemma_euclid_split(q.x as int);
        lemma_euclid_split(p.y as int);
        lemma_euclid_split(q.y as int);
        lemma_euclid_split(p.z as int);
        lemma_euclid_split(q.z as int);
        assert(false);
    }
}

/// A value is eight times its brick coordinate plus its place in the brick, and the brick
/// coordinate fits an `i32`.
pub proof fn lemma_euclid_split(v: int)
    requires
        i32::MIN <= v <= i32::MAX,
    ensures
        v == 8 * div_euclid(v, 8) + rem_euclid(v, 8),
        i32::MIN <= div_euclid(v, 8) <= i32::MAX,
{
    vstd::arithmetic::div_mod::lemma_fundamental_div_mod(v, 8);
}

/// The local position of a voxel within its brick is a valid in-brick position.
pub proof fn lemma_local_index(pos: IVec3)
    ensures
        0 <= rem_euclid(pos.x as int, 8) < 8,
        0 <= rem_euclid(pos.y as int, 8) < 8,
        0 <= rem_euclid(pos.z as int, 8) < 8,
        0 <= local_index(pos) < 512,
{
    lemma_flat_index_bounds(
        rem_euclid(pos.x as int, 8),
        rem_euclid(pos.y as int, 8),
        rem_euclid(pos.z as int, 8),
        8,
        8,
        8,
    );
}

/// A voxel's brick and its place in it, with the numbers: each brick coordinate is the voxel
/// coordinate divided by 8 and rounded down, and the place is `x + 8 * y + 64 * z` for the
/// voxel's offsets `x`, `y`, `z` (each in `0..8`) from the brick's lowest corner.
pub proof fn lemma_brick_and_place(pos: IVec3)
    ensures
        ({
            let b = brick_of(pos);
            &&& 8 * b.x <= pos.x < 8 * b.x + 8
            &&& 8 * b.y <= pos.y < 8 * b.y + 8
            &&& 8 * b.z <= pos.z < 8 * b.z + 8
            &&& local_index(pos) == (pos.x - 8 * b.x) + 8 * (pos.y - 8 * b.y) + 64 * (pos.z - 8
                * b.z)
        }),
{
    lemma_euclid_split(pos.x as int);
    lemma_euclid_split(pos.y as int);
    lemma_euclid_split(pos.z as int);
    lemma_local_index(pos);
}

/// The slot of a brick inside a grid, with the numbers: bricks are laid out x fastest, then
/// y, then z, starting from brick `-(size / 2)` on each axis.
pub proof fn lemma_grid_slot_layout(size: USizeVec3, b: IVec3)
    requires
        size.x <= i32::MAX,
        size.y <= i32::MAX,
        size.z <= i32::MAX,
        0 <= b.x + size.x / 2 < size.x,
        0 <= b.y + size.y / 2 < size.y,
        0 <= b.z + size.z / 2 < size.z,
    ensures
        brick_in_grid(size, b),
        grid_slot(size, b) == (b.x + size.x / 2) + (b.y + size.y / 2) * size.x + (b.z + size.z
            / 2) * (size.x * size.y),
{
    assert((size.x as i32) as int == size.x as int);
    assert((size.y as i32) as int == size.y as int);
    assert((size.z as i32) as int == size.z as int);
    assert(grid_half(size.x) == size.x / 2);
    assert(grid_half(size.y) == size.y / 2);
    assert(grid_half(size.z) == size.z / 2);
}

} // verus!
