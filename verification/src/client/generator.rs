//! Filling the world from sampled terrain heights; the heights themselves come from noise
//! sampled in floating point outside this library.
use vstd::prelude::*;
use crate::bitmask::{lemma_mask_with, mask_bit};
use crate::client::world::{Edit, World, is_downsample_of};
use crate::math::{IVec3, USizeVec3};
use crate::voxel::{brick_in_grid, brick_of, grid_half, grid_slot, lemma_local_index, local_index};

verus! {

/// `h` clamped into `lo..=hi`.
pub open spec fn clamp(h: int, lo: int, hi: int) -> int {
    if h < lo {
        lo
    } else if h > hi {
        hi
    } else {
        h
    }
}

/// The column of index `i`: `(i % size_x - half_x, i / size_x - half_z)`.
pub open spec fn column_x(i: int, size_x: int, half_x: int) -> int {
    i % size_x - half_x
}

/// See [`column_x`].
pub open spec fn column_z(i: int, size_x: int, half_z: int) -> int {
    i / size_x - half_z
}

/// The voxel at `(x, y, z)` is below the clamped terrain height of column `c` of the chunk
/// that starts at column `start` and has the given heights.
pub open spec fn filled_by(
    heights: Seq<i32>,
    start: int,
    size_x: int,
    half_x: int,
    half_y: int,
    half_z: int,
    c: int,
    pos: IVec3,
) -> bool {
    &&& 0 <= c < heights.len()
    &&& pos.x == column_x(start + c, size_x, half_x)
    &&& pos.z == column_z(start + c, size_x, half_z)
    &&& -half_y <= pos.y < clamp(heights[c] as int, -half_y, half_y - 1)
}

/// The voxel at height `y` of column `c` of the chunk starting at column `start` has
/// coordinates that fit `i32` and lies inside a grid of the given size.
pub open spec fn column_voxel_in_grid(
    size: USizeVec3,
    start: int,
    size_x: int,
    half_x: int,
    half_z: int,
    c: int,
    y: int,
) -> bool {
    let x = column_x(start + c, size_x, half_x);
    let z = column_z(start + c, size_x, half_z);
    &&& i32::MIN <= x <= i32::MAX
    &&& i32::MIN <= z <= i32::MAX
    &&& brick_in_grid(size, brick_of(IVec3 { x: x as i32, y: y as i32, z: z as i32 }))
}

/// Every column of the chunk, at every height in `-half_y..half_y`, lies inside the world's
/// grid.
pub open spec fn chunk_in_grid(
    world: World,
    heights: Seq<i32>,
    start: int,
    size_x: int,
    half_x: int,
    half_y: int,
    half_z: int,
) -> bool {
    forall|c: int, y: int|
        0 <= c < heights.len() && -half_y <= y < half_y ==> #[trigger] column_voxel_in_grid(
            world.grid_spec().size,
            start,
            size_x,
            half_x,
            half_z,
            c,
            y,
        )
}

/// The voxels a fill sets in column `i` of height `h`: from `-half_y` up to the height
/// clamped into `-half_y..=half_y - 1`, bottom first.
pub open spec fn column_voxels(
    h: i32,
    i: int,
    size_x: int,
    half_x: int,
    half_y: int,
    half_z: int,
) -> Seq<IVec3> {
    Seq::new(
        (clamp(h as int, -half_y, half_y - 1) + half_y) as nat,
        |j: int|
            IVec3 {
                x: column_x(i, size_x, half_x) as i32,
                y: (j - half_y) as i32,
                z: column_z(i, size_x, half_z) as i32,
            },
    )
}

/// The voxels a fill of the chunk starting at column `start` sets, column by column.
pub open spec fn chunk_voxels(
    heights: Seq<i32>,
    start: int,
    size_x: int,
    half_x: int,
    half_y: int,
    half_z: int,
) -> Seq<IVec3>
    decreases heights.len(),
{
    if heights.len() == 0 {
        Seq::empty()
    } else {
        chunk_voxels(heights.drop_last(), start, size_x, half_x, half_y, half_z) + column_voxels(
            heights.last(),
            start + heights.len() - 1,
            size_x,
            half_x,
            half_y,
            half_z,
        )
    }
}

/// `e` is the edit of setting voxel `v`: it carries the slot of the voxel's brick, the brick
/// with the voxel set, and the brick's two downsampled levels.
pub open spec fn records_voxel(e: Edit, size: USizeVec3, v: IVec3) -> bool {
    match e {
        Edit::Assign { grid, map8, map4, map2 } => {
            &&& grid == grid_slot(size, brick_of(v))
            &&& mask_bit(map8.mask@, local_index(v))
            &&& is_downsample_of(map4.mask@, 4, 2, map8.mask@, 8)
            &&& is_downsample_of(map2.mask@, 2, 1, map4.mask@, 4)
        },
        Edit::Clear { .. } => false,
    }
}

/// After the first `n` edits come exactly one edit for each voxel of `vs`, in order.
pub open spec fn records_voxels(edits: Seq<Edit>, n: int, size: USizeVec3, vs: Seq<IVec3>) -> bool {
    &&& 0 <= n
    &&& edits.len() == n + vs.len()
    &&& forall|i: int| 0 <= i < vs.len() ==> records_voxel(edits[n + i], size, #[trigger] vs[i])
}

/// One more edit, for voxel `v`, extends the recorded voxels by `v`.
proof fn lemma_records_push(
    edits: Seq<Edit>,
    after: Seq<Edit>,
    n: int,
    size: USizeVec3,
    vs: Seq<IVec3>,
    v: IVec3,
)
    requires
        records_voxels(edits, n, size, vs),
        after.len() == edits.len() + 1,
        after.drop_last() == edits,
        records_voxel(after.last(), size, v),
    ensures
        records_voxels(after, n, size, vs.push(v)),
{
    assert forall|i: int| 0 <= i < vs.push(v).len() implies records_voxel(
        after[n + i],
        size,
        #[trigger] vs.push(v)[i],
    ) by {
        if i < vs.len() {
            assert(after[n + i] == edits[n + i]);
            assert(vs.push(v)[i] == vs[i]);
        }
    }
}

/// Sets, for every column of the chunk starting at column `chunk_start`, the voxels from
/// `-half_y` up to its height clamped into `-half_y..=half_y - 1`.
pub fn fill_chunk(
    world: &mut World,
    chunk_start: usize,
    heights: &Vec<i32>,
    size_x: usize,
    half_x: i32,
    half_y: i32,
    half_z: i32,
)
    requires
        old(world).grid_spec().wf(),
        size_x > 0,
        half_y >= 1,
        chunk_start + heights@.len() <= usize::MAX,
        chunk_in_grid(
            *old(world),
            heights@,
            chunk_start as int,
            size_x as int,
            half_x as int,
            half_y as int,
            half_z as int,
        ),
    ensures
        final(world).grid_spec().wf(),
        final(world).grid_spec().size == old(world).grid_spec().size,
        final(world).edits().subrange(0, old(world).edits().len() as int) == old(world).edits(),
        records_voxels(
            final(world).edits(),
            old(world).edits().len() as int,
            old(world).grid_spec().size,
            chunk_voxels(
                heights@,
                chunk_start as int,
                size_x as int,
                half_x as int,
                half_y as int,
                half_z as int,
            ),
        ),
        forall|q: IVec3|
            brick_in_grid(old(world).grid_spec().size, brick_of(q))
                ==> #[trigger] final(world).grid_spec().voxel(q) == (old(world).grid_spec().voxel(q)
                || exists|c: int|
                filled_by(
                    heights@,
                    chunk_start as int,
                    size_x as int,
                    half_x as int,
                    half_y as int,
                    half_z as int,
                    c,
                    q,
                )),
{
    let ghost start_world = *world;
    let ghost size = world.grid_spec().size;
    let mut offset: usize = 0;
    while offset < heights.len()
        invariant
            offset <= heights@.len(),
            world.edits().subrange(0, start_world.edits().len() as int) == start_world.edits(),
            records_voxels(
                world.edits(),
                start_world.edits().len() as int,
                size,
                chunk_voxels(
                    heights@.take(offset as int),
                    chunk_start as int,
                    size_x as int,
                    half_x as int,
                    half_y as int,
                    half_z as int,
                ),
            ),
            world.grid_spec().wf(),
            world.grid_spec().size == size,
            size == start_world.grid_spec().size,
            size_x > 0,
            half_y >= 1,
            chunk_start + heights@.len() <= usize::MAX,
            chunk_in_grid(
                start_world,
                heights@,
                chunk_start as int,
                size_x as int,
                half_x as int,
                half_y as int,
                half_z as int,
            ),
            forall|q: IVec3|
                brick_in_grid(size, brick_of(q)) ==> #[trigger] world.grid_spec().voxel(q) == (
                start_world.grid_spec().voxel(q) || exists|c: int|
                    0 <= c < offset && filled_by(
                        heights@,
                        chunk_start as int,
                        size_x as int,
                        half_x as int,
                        half_y as int,
                        half_z as int,
                        c,
                        q,
                    )),
        decreases heights@.len() - offset,
    {
        let i = chunk_start + offset;
        let height = heights[offset];
        let top = if height < -half_y {
            -half_y
        } else if height > half_y - 1 {
            half_y - 1
        } else {
            height
        };
        proof {
            assert(0 <= i % size_x < size_x);
            assert(i / size_x <= i);
            assert(chunk_in_grid(
                start_world,
                heights@,
                chunk_start as int,
                size_x as int,
                half_x as int,
                half_y as int,
                half_z as int,
            ));
            assert(column_voxel_in_grid(
                size,
                chunk_start as int,
                size_x as int,
                half_x as int,
                half_z as int,
                offset as int,
                -half_y as int,
            ));
        }
        let x = ((i % size_x) as i64 - half_x as i64) as i32;
        let z = ((i / size_x) as i64 - half_z as i64) as i32;
        let mut y = -half_y;
        while y < top
            invariant
                -half_y <= y <= top,
                top <= half_y - 1,
                world.edits().subrange(0, start_world.edits().len() as int)
                    == start_world.edits(),
                records_voxels(
                    world.edits(),
                    start_world.edits().len() as int,
                    size,
                    chunk_voxels(
                        heights@.take(offset as int),
                        chunk_start as int,
                        size_x as int,
                        half_x as int,
                        half_y as int,
                        half_z as int,
                    ) + column_voxels(
                        heights@[offset as int],
                        chunk_start + offset,
                        size_x as int,
                        half_x as int,
                        half_y as int,
                        half_z as int,
                    ).take(y + half_y),
                ),
                offset < heights@.len(),
                world.grid_spec().wf(),
                world.grid_spec().size == size,
                size == start_world.grid_spec().size,
                x == column_x(chunk_start + offset, size_x as int, half_x as int),
                z == column_z(chunk_start + offset, size_x as int, half_z as int),
                top == clamp(heights@[offset as int] as int, -half_y as int, half_y - 1),
                chunk_in_grid(
                    start_world,
                    heights@,
                    chunk_start as int,
                    size_x as int,
                    half_x as int,
                    half_y as int,
                    half_z as int,
                ),
                forall|q: IVec3|
                    brick_in_grid(size, brick_of(q)) ==> #[trigger] world.grid_spec().voxel(q) == (
                    start_world.grid_spec().voxel(q) || (exists|c: int|
                        0 <= c < offset && filled_by(
                            heights@,
                            chunk_start as int,
                            size_x as int,
                            half_x as int,
                            half_y as int,
                            half_z as int,
                            c,
                            q,
                        )) || (q.x == x && q.z == z && -half_y <= q.y < y)),
            decreases top - y,
        {
            let pos = IVec3::new(x, y, z);
            proof {
                assert(column_voxel_in_grid(
                    size,
                    chunk_start as int,
                    size_x as int,
                    half_x as int,
                    half_z as int,
                    offset as int,
                    y as int,
                ));
                crate::voxel::lemma_voxel_slots(size, pos, pos);
            }
            let ghost eb = world.edits();
            let ghost gb = world.grid_spec();
            world.set_voxel(pos, true);
            proof {
                let n = start_world.edits().len() as int;
                let done = chunk_voxels(
                    heights@.take(offset as int),
                    chunk_start as int,
                    size_x as int,
                    half_x as int,
                    half_y as int,
                    half_z as int,
                );
                let col = column_voxels(
                    heights@[offset as int],
                    chunk_start + offset,
                    size_x as int,
                    half_x as int,
                    half_y as int,
                    half_z as int,
                );
                assert(world.edits().drop_last() == eb);
                lemma_local_index(pos);
                lemma_mask_with(
                    gb.grid@[grid_slot(size, brick_of(pos))].mask@,
                    local_index(pos),
                    local_index(pos),
                );
                assert(records_voxel(world.edits().last(), size, pos));
                assert(col[y + half_y] == pos);
                lemma_records_push(eb, world.edits(), n, size, done + col.take(y + half_y), pos);
                assert((done + col.take(y + half_y)).push(pos) =~= done + col.take(y + 1 + half_y));
                assert(world.edits().subrange(0, n) =~= eb.subrange(0, n));
            }
            y = y + 1;
        }
        proof {
            assert forall|q: IVec3|
                brick_in_grid(size, brick_of(q)) implies #[trigger] world.grid_spec().voxel(q) == (
                start_world.grid_spec().voxel(q) || exists|c: int|
                    0 <= c < offset + 1 && filled_by(
                        heights@,
                        chunk_start as int,
                        size_x as int,
                        half_x as int,
                        half_y as int,
                        half_z as int,
                        c,
                        q,
                    )) by {
                if q.x == x && q.z == z && -half_y <= q.y < top {
                    assert(filled_by(
                        heights@,
                        chunk_start as int,
                        size_x as int,
                        half_x as int,
                        half_y as int,
                        half_z as int,
                        offset as int,
                        q,
                    ));
                }
                if exists|c: int|
                    0 <= c < offset + 1 && filled_by(
                        heights@,
                        chunk_start as int,
                        size_x as int,
                        half_x as int,
                        half_y as int,
                        half_z as int,
                        c,
                        q,
                    ) {
                    let c = choose|c: int|
                        0 <= c < offset + 1 && filled_by(
                            heights@,
                            chunk_start as int,
                            size_x as int,
                            half_x as int,
                            half_y as int,
                            half_z as int,
                            c,
                            q,
                        );
                    if c < offset {
                        assert(exists|c2: int|
                            0 <= c2 < offset && filled_by(
                                heights@,
                                chunk_start as int,
                                size_x as int,
                                half_x as int,
                                half_y as int,
                                half_z as int,
                                c2,
                                q,
                            ));
                    }
                }
            }
        }
        proof {
            let t1 = heights@.take(offset + 1);
            assert(t1.drop_last() =~= heights@.take(offset as int));
            assert(t1.last() == heights@[offset as int]);
            let col = column_voxels(
                heights@[offset as int],
                chunk_start + offset,
                size_x as int,
                half_x as int,
                half_y as int,
                half_z as int,
            );
            assert(col.take(top + half_y) =~= col);
        }
        offset = offset + 1;
    }
    proof {
        assert(heights@.take(heights@.len() as int) =~= heights@);
    }
}


/// The brick coordinate of a voxel coordinate in `-8h..8h` lies in `-h..h`.
proof fn lemma_brick_range(v: int, h: int)
    requires
        h >= 0,
        -8 * h <= v < 8 * h,
    ensures
        -h <= v / 8 < h,
{
}

/// Every voxel of column `c` of a chunk laid over a world of even size, at a height inside
/// the world, lies in the world's grid.
proof fn lemma_world_column_in_grid(size: USizeVec3, start: int, c: int, y: int)
    requires
        size.x % 2 == 0,
        size.y % 2 == 0,
        size.z % 2 == 0,
        8 * size.x <= i32::MAX,
        8 * size.y <= i32::MAX,
        8 * size.z <= i32::MAX,
        0 <= start + c < (8 * size.x) * (8 * size.z),
        -4 * size.y <= y < 4 * size.y,
    ensures
        column_voxel_in_grid(size, start, 8 * size.x, 4 * size.x, 4 * size.z, c, y),
{
    let sx = 8 * size.x;
    let i = start + c;
    let x = column_x(i, sx, 4 * size.x);
    let z = column_z(i, sx, 4 * size.z);
    assert(0 <= i % sx < sx);
    assert(0 <= i / sx < 8 * size.z) by (nonlinear_arith)
        requires
            0 <= i < sx * (8 * size.z),
            sx > 0,
    ;
    assert(grid_half(size.x) == size.x / 2);
    assert(grid_half(size.y) == size.y / 2);
    assert(grid_half(size.z) == size.z / 2);
    lemma_brick_range(x, (size.x / 2) as int);
    lemma_brick_range(y, (size.y / 2) as int);
    lemma_brick_range(z, (size.z / 2) as int);
}

/// The voxel at `q` is below the clamped height of column `c` of the chunk that starts at
/// column `start` of a whole world of the given size.
pub open spec fn world_filled_by(heights: Seq<i32>, start: int, size: USizeVec3, c: int, q: IVec3) -> bool {
    filled_by(heights, start, 8 * size.x, 4 * size.x, 4 * size.y, 4 * size.z, c, q)
}

/// Fills the chunk of columns that starts at column `chunk_start` of the whole world: the
/// world's `8 * size.x` by `8 * size.z` columns, centred on the origin, are numbered row by
/// row, and every column gets the voxels from the bottom of the world, `-4 * size.y`, up to
/// its height clamped below the top of the world.
pub fn fill_world_chunk(world: &mut World, chunk_start: usize, heights: &Vec<i32>)
    requires
        old(world).grid_spec().wf(),
        8 * old(world).grid_spec().size.x <= i32::MAX,
        8 * old(world).grid_spec().size.y <= i32::MAX,
        8 * old(world).grid_spec().size.z <= i32::MAX,
        (8 * old(world).grid_spec().size.x) * (8 * old(world).grid_spec().size.z) <= usize::MAX,
        chunk_start + heights@.len() <= (8 * old(world).grid_spec().size.x) * (8 * old(
            world,
        ).grid_spec().size.z),
        heights@.len() > 0 ==> old(world).grid_spec().size.x % 2 == 0 && old(
            world,
        ).grid_spec().size.y % 2 == 0 && old(world).grid_spec().size.z % 2 == 0 && old(
            world,
        ).grid_spec().size.y > 0,
    ensures
        final(world).grid_spec().wf(),
        final(world).grid_spec().size == old(world).grid_spec().size,
        final(world).edits().subrange(0, old(world).edits().len() as int) == old(world).edits(),
        records_voxels(
            final(world).edits(),
            old(world).edits().len() as int,
            old(world).grid_spec().size,
            chunk_voxels(
                heights@,
                chunk_start as int,
                8 * old(world).grid_spec().size.x,
                4 * old(world).grid_spec().size.x,
                4 * old(world).grid_spec().size.y,
                4 * old(world).grid_spec().size.z,
            ),
        ),
        forall|q: IVec3|
            brick_in_grid(old(world).grid_spec().size, brick_of(q))
                ==> #[trigger] final(world).grid_spec().voxel(q) == (old(world).grid_spec().voxel(q)
                || exists|c: int|
                world_filled_by(heights@, chunk_start as int, old(world).grid_spec().size, c, q)),
{
    if heights.len() == 0 {
        proof {
            assert(world.edits().subrange(0, world.edits().len() as int) =~= world.edits());
        }
        return;
    }
    let size = world.grid_size();
    proof {
        if size.x == 0 {
            assert((8 * size.x) * (8 * size.z) == 0) by (nonlinear_arith)
                requires
                    size.x == 0,
            ;
        }
    }
    let ghost w0 = *world;
    let size_x = size.x * 8;
    let half_x = (size.x * 4) as i32;
    let half_y = (size.y * 4) as i32;
    let half_z = (size.z * 4) as i32;
    proof {
        assert forall|c: int, y: int|
            0 <= c < heights@.len() && -half_y <= y < half_y implies #[trigger] column_voxel_in_grid(
            size,
            chunk_start as int,
            size_x as int,
            half_x as int,
            half_z as int,
            c,
            y,
        ) by {
            lemma_world_column_in_grid(size, chunk_start as int, c, y);
        }
    }
    fill_chunk(world, chunk_start, heights, size_x, half_x, half_y, half_z);
    proof {
        assert forall|q: IVec3| brick_in_grid(size, brick_of(q)) implies #[trigger] world.grid_spec().voxel(q)
            == (w0.grid_spec().voxel(q) || exists|c: int|
            world_filled_by(heights@, chunk_start as int, size, c, q)) by {
            if exists|c: int|
                filled_by(
                    heights@,
                    chunk_start as int,
                    size_x as int,
                    half_x as int,
                    half_y as int,
                    half_z as int,
                    c,
                    q,
                ) {
                let c = choose|c: int|
                    filled_by(
                        heights@,
                        chunk_start as int,
                        size_x as int,
                        half_x as int,
                        half_y as int,
                        half_z as int,
                        c,
                        q,
                    );
                assert(world_filled_by(heights@, chunk_start as int, size, c, q));
            }
            if exists|c: int| world_filled_by(heights@, chunk_start as int, size, c, q) {
                let c = choose|c: int| world_filled_by(heights@, chunk_start as int, size, c, q);
                assert(filled_by(
                    heights@,
                    chunk_start as int,
                    size_x as int,
                    half_x as int,
                    half_y as int,
                    half_z as int,
                    c,
                    q,
                ));
            }
        }
    }
}

/// Clamping keeps a value inside `lo..=hi`: a value inside is kept, one below becomes `lo`
/// and one above becomes `hi`.
pub proof fn lemma_clamp(h: int, lo: int, hi: int)
    requires
        lo <= hi,
    ensures
        lo <= clamp(h, lo, hi) <= hi,
        lo <= h <= hi ==> clamp(h, lo, hi) == h,
        h < lo ==> clamp(h, lo, hi) == lo,
        h > hi ==> clamp(h, lo, hi) == hi,
{
}

/// Columns are numbered row by row: column `i` of a row of `size_x` columns is
/// `(x, z)` with `i == (x + half_x) + (z + half_z) * size_x` and `x + half_x` in `0..size_x`.
pub proof fn lemma_column_numbering(i: int, size_x: int, half_x: int, half_z: int)
    requires
        0 <= i,
        size_x > 0,
    ensures
        0 <= column_x(i, size_x, half_x) + half_x < size_x,
        i == (column_x(i, size_x, half_x) + half_x) + (column_z(i, size_x, half_z) + half_z)
            * size_x,
{
    vstd::arithmetic::div_mod::lemma_fundamental_div_mod(i, size_x);
    vstd::arithmetic::mul::lemma_mul_is_commutative(i / size_x, size_x);
}

} // verus!
