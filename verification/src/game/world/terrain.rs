//! Terrain columns: which material each voxel below the surface gets, and filling a column of
//! the brick grid while mirroring every edit into the GPU world. The surface height itself
//! comes from fractal noise sampled in floating point outside this library.
use vstd::prelude::*;
use crate::game::render::gpu_world::GpuWorld;
use crate::game::world::DefaultMaterials;
use crate::game::world::brick_grid::{BrickGrid, BrickMap, brick_within, cube_size};
use crate::game::world::material::MaterialId;
use crate::math::IVec3;
use crate::voxel::{brick_of, grid_slot};

verus! {

/// Sea level of the terrain.
pub const SEA_LEVEL: i32 = 0;

/// The material of the voxel at height `y` of a column whose surface is at `max_y`: snow
/// caps above the snow line, sand near sea level, gravel under water, and grass over dirt
/// elsewhere, with stone deeper down.
pub open spec fn terrain_material_spec(
    m: DefaultMaterials,
    max_y: int,
    y: int,
    snow_line: int,
) -> MaterialId {
    let depth = max_y - y;
    if max_y >= snow_line {
        if depth == 1 {
            m.snow
        } else {
            m.stone
        }
    } else if max_y <= 2 && max_y >= -3 {
        if depth < 4 {
            m.sand
        } else {
            m.stone
        }
    } else if max_y < -3 {
        if depth < 3 {
            m.gravel
        } else {
            m.stone
        }
    } else {
        if depth == 1 {
            m.grass
        } else if depth < 5 {
            m.dirt
        } else {
            m.stone
        }
    }
}

/// The layers of a terrain column, with the thresholds as numbers (sea level is 0), for the
/// voxel `depth = max_y - y` below the surface `max_y`:
/// - at or above the snow line, snow on top (depth 1) and stone below it;
/// - otherwise, on a shoreline surface from 3 below to 2 above sea level, sand down to depth
///   3 and stone below;
/// - otherwise, on a surface more than 3 below sea level, gravel down to depth 2 and stone
///   below;
/// - otherwise grass on top, dirt down to depth 4 and stone below.
pub proof fn lemma_terrain_layers(m: DefaultMaterials, max_y: int, y: int, snow_line: int)
    ensures
        ({
            let depth = max_y - y;
            let mat = terrain_material_spec(m, max_y, y, snow_line);
            &&& max_y >= snow_line ==> (depth == 1 ==> mat == m.snow) && (depth != 1 ==> mat
                == m.stone)
            &&& max_y < snow_line && -3 <= max_y <= 2 ==> (depth < 4 ==> mat == m.sand) && (
            depth >= 4 ==> mat == m.stone)
            &&& max_y < snow_line && max_y < -3 ==> (depth < 3 ==> mat == m.gravel) && (depth
                >= 3 ==> mat == m.stone)
            &&& max_y < snow_line && max_y > 2 ==> (depth == 1 ==> mat == m.grass) && (depth
                != 1 && depth < 5 ==> mat == m.dirt) && (depth >= 5 ==> mat == m.stone)
        }),
{
}

/// The material at height `y` of a column whose surface is at `max_y`.
pub fn terrain_material(materials: &DefaultMaterials, max_y: i32, y: i32, snow_line: i32) -> (m:
    MaterialId)
    requires
        i32::MIN <= max_y - y <= i32::MAX,
    ensures
        m == terrain_material_spec(*materials, max_y as int, y as int, snow_line as int),
{
    let depth_from_surface = max_y - y;
    if max_y >= snow_line {
        if depth_from_surface == 1 {
            materials.snow
        } else if depth_from_surface < 5 {
            materials.stone
        } else {
            materials.stone
        }
    } else if max_y <= SEA_LEVEL + 2 && max_y >= SEA_LEVEL - 3 {
        if depth_from_surface < 4 {
            materials.sand
        } else {
            materials.stone
        }
    } else if max_y < SEA_LEVEL - 3 {
        if depth_from_surface < 3 {
            materials.gravel
        } else {
            materials.stone
        }
    } else {
        if depth_from_surface == 1 {
            materials.grass
        } else if depth_from_surface < 5 {
            materials.dirt
        } else {
            materials.stone
        }
    }
}

/// What a grid voxel holds after `m` was written to it.
pub open spec fn written(m: MaterialId) -> Option<MaterialId> {
    if m@ == 0 {
        None
    } else {
        Some(m)
    }
}

/// The top of the terrain part of a column: the surface, but not above the grid.
pub open spec fn terrain_top(max_y: int, half: int) -> int {
    if max_y < half {
        max_y
    } else {
        half
    }
}

/// The number of voxels a column fill writes: terrain from `-half` to its top, then water
/// from the surface up to sea level.
pub open spec fn column_writes(max_y: int, half: int) -> int {
    (if terrain_top(max_y, half) > -half {
        terrain_top(max_y, half) + half
    } else {
        0
    }) + (if max_y < 0 {
        -max_y
    } else {
        0
    })
}

/// The grid voxel at `q` after filling the column `(x, z)` with surface `max_y`.
pub open spec fn column_voxel(
    old_voxel: Option<MaterialId>,
    m: DefaultMaterials,
    x: int,
    z: int,
    max_y: int,
    half: int,
    snow_line: int,
    q: IVec3,
) -> Option<MaterialId> {
    if q.x == x && q.z == z && -half <= q.y < terrain_top(max_y, half) {
        written(terrain_material_spec(m, max_y, q.y as int, snow_line))
    } else if q.x == x && q.z == z && max_y <= q.y < 0 {
        written(m.water)
    } else {
        old_voxel
    }
}

/// What a column fill leaves at voxel `q`, with the numbers: in column `(x, z)`, a voxel from
/// `-half` up to below both the surface `max_y` and the grid's top `half` holds its terrain
/// material (nothing where that is air), a voxel from the surface up to below sea level 0
/// holds water, and every other voxel keeps what it had.
pub proof fn lemma_column_contents(
    old_voxel: Option<MaterialId>,
    m: DefaultMaterials,
    x: int,
    z: int,
    max_y: int,
    half: int,
    snow_line: int,
    q: IVec3,
)
    ensures
        ({
            let v = column_voxel(old_voxel, m, x, z, max_y, half, snow_line, q);
            let mat = terrain_material_spec(m, max_y, q.y as int, snow_line);
            let in_column = q.x == x && q.z == z;
            &&& in_column && -half <= q.y && q.y < max_y && q.y < half ==> v == if mat@ == 0 {
                None
            } else {
                Some(mat)
            }
            &&& in_column && max_y <= q.y < 0 ==> v == if m.water@ == 0 {
                None
            } else {
                Some(m.water)
            }
            &&& !in_column ==> v == old_voxel
            &&& in_column && (q.y < -half || q.y >= max_y || q.y >= half) && !(max_y <= q.y < 0)
                ==> v == old_voxel
        }),
{
}

/// The end of the heights a column fill writes: the terrain top, or sea level when the
/// surface lies below it (the water then reaches from the surface up to sea level).
pub open spec fn column_end(max_y: int, half: int) -> int {
    if max_y < 0 {
        0
    } else {
        terrain_top(max_y, half)
    }
}

/// The grid slot of the brick that holds voxel `(x, y, z)`, in a grid of `s`³ bricks.
pub open spec fn column_slot(s: usize, x: i32, z: i32, y: int) -> int {
    grid_slot(cube_size(s), brick_of(IVec3 { x, y: y as i32, z }))
}

/// Grid cell `k` holds one of the voxels `(x, y, z)` with `lo <= y < hi`.
pub open spec fn column_cell(s: usize, x: i32, z: i32, lo: int, hi: int, k: u32) -> bool {
    exists|y: int| lo <= y < hi && #[trigger] column_slot(s, x, z, y) == k
}

/// The command and the map slot of grid cell `k` are the same in `w` as in `w0`.
pub open spec fn unchanged_cell(w: GpuWorld, w0: GpuWorld, k: u32) -> bool {
    &&& w.pending().contains_key(k) == w0.pending().contains_key(k)
    &&& w0.pending().contains_key(k) ==> w.pending()[k] == w0.pending()[k]
    &&& w.grid_map().contains_key(k) == w0.grid_map().contains_key(k)
    &&& w0.grid_map().contains_key(k) ==> w.grid_map()[k] == w0.grid_map()[k]
}

/// After the voxels `(x, y, z)` with `lo <= y < hi` were written to `grid` and every edit was
/// applied to `w`, starting from `w0`: the map slots stay distinct, the command of every
/// written cell sets it to the cell's brick, and every other cell is as it was in `w0`.
pub open spec fn column_mirrored(
    w: GpuWorld,
    w0: GpuWorld,
    grid: BrickGrid,
    s: usize,
    x: i32,
    z: i32,
    lo: int,
    hi: int,
) -> bool {
    &&& w.slots_distinct()
    &&& forall|k: u32| #[trigger]
        column_cell(s, x, z, lo, hi, k) ==> w.mirrors(k, grid.grid@[k as int])
    &&& forall|k: u32| #[trigger]
        unchanged_cell(w, w0, k) || column_cell(s, x, z, lo, hi, k)
}

/// Writing one more voxel `(x, y, z)` and applying its edit keeps the column mirrored.
proof fn lemma_column_step(
    wb: GpuWorld,
    w1: GpuWorld,
    w0: GpuWorld,
    gb: BrickGrid,
    g1: BrickGrid,
    s: usize,
    x: i32,
    z: i32,
    lo: int,
    y: int,
    brick: BrickMap,
)
    requires
        column_mirrored(wb, w0, gb, s, x, z, lo, y),
        lo <= y,
        gb.grid@.len() <= 0x1_0000_0000,
        forall|yy: int| lo <= yy <= y ==> 0 <= #[trigger] column_slot(s, x, z, yy) < gb.grid@.len(),
        g1.grid@ == gb.grid@.update(column_slot(s, x, z, y), brick),
        w1.slots_distinct(),
        w1.mirrors(column_slot(s, x, z, y) as u32, brick),
        forall|k: u32, b: BrickMap|
            k != column_slot(s, x, z, y) as u32 && wb.mirrors(k, b) && w1.slots_distinct()
                ==> #[trigger] w1.mirrors(k, b),
        forall|k: u32|
            k != column_slot(s, x, z, y) as u32 ==> #[trigger] unchanged_cell(w1, wb, k),
    ensures
        column_mirrored(w1, w0, g1, s, x, z, lo, y + 1),
{
    let slot = column_slot(s, x, z, y);
    let g = slot as u32;
    assert(0 <= column_slot(s, x, z, y) < gb.grid@.len());
    assert(g as int == slot);
    assert forall|k: u32| #[trigger] column_cell(s, x, z, lo, y + 1, k) implies w1.mirrors(
        k,
        g1.grid@[k as int],
    ) by {
        if k == g {
            assert(g1.grid@[k as int] == brick);
        } else {
            let yy = choose|yy: int| lo <= yy < y + 1 && #[trigger] column_slot(s, x, z, yy) == k;
            assert(yy != y);
            assert(k as int != slot);
            assert(g1.grid@[k as int] == gb.grid@[k as int]);
            assert(column_cell(s, x, z, lo, y, k));
            assert(wb.mirrors(k, gb.grid@[k as int]));
            assert(w1.mirrors(k, gb.grid@[k as int]));
        }
    }
    assert forall|k: u32| #[trigger]
        unchanged_cell(w1, w0, k) || column_cell(s, x, z, lo, y + 1, k) by {
        if k == g {
            assert(lo <= y < y + 1 && column_slot(s, x, z, y) == k);
            assert(column_cell(s, x, z, lo, y + 1, k));
        } else if !column_cell(s, x, z, lo, y + 1, k) {
            if column_cell(s, x, z, lo, y, k) {
                let yy = choose|yy: int| lo <= yy < y && #[trigger] column_slot(s, x, z, yy) == k;
                assert(column_cell(s, x, z, lo, y + 1, k));
            }
            assert(unchanged_cell(wb, w0, k));
            assert(unchanged_cell(w1, wb, k));
        }
    }
}

/// One voxel `(x, y, z)` of the column written to the grid and its edit applied to the GPU
/// world keep the column mirrored, when the grid and the map slots fit `u32` indices.
proof fn lemma_fill_step(
    wb: GpuWorld,
    w1: GpuWorld,
    w0: GpuWorld,
    gb: BrickGrid,
    g1: BrickGrid,
    g0: BrickGrid,
    x: i32,
    z: i32,
    half: int,
    y: int,
    pos: IVec3,
)
    requires
        pos == (IVec3 { x, y: y as i32, z }),
        -half <= y < half,
        i32::MIN <= y <= i32::MAX,
        gb.wf(),
        gb.size == g0.size,
        gb.grid@.len() == g0.grid@.len(),
        forall|yy: int|
            -half <= yy < half ==> #[trigger] brick_within(
                g0.size,
                brick_of(IVec3 { x, y: yy as i32, z }),
            ),
        ({
            let slot = grid_slot(cube_size(gb.size), brick_of(pos));
            &&& g1.grid@ == gb.grid@.update(slot, g1.grid@[slot])
            &&& w1.mirrors(slot as u32, g1.grid@[slot])
            &&& forall|k: u32, b: BrickMap|
                k != slot as u32 && wb.mirrors(k, b) && w1.slots_distinct()
                    ==> #[trigger] w1.mirrors(k, b)
            &&& w1.grid_map() == wb.grid_map().insert(slot as u32, w1.grid_map()[slot as u32])
            &&& w1.pending().dom() == wb.pending().dom().insert(slot as u32)
            &&& forall|k: u32|
                k != slot as u32 && #[trigger] wb.pending().contains_key(k) ==> w1.pending()[k]
                    == wb.pending()[k]
        }),
        w1.maps().capacity >= wb.maps().capacity,
        wb.slots_distinct() && w1.maps().capacity <= 0x1_0000_0000 ==> w1.slots_distinct(),
        w0.slots_distinct() && g0.grid@.len() <= 0x1_0000_0000 && wb.maps().capacity
            <= 0x1_0000_0000 ==> column_mirrored(wb, w0, gb, g0.size, x, z, -half, y),
    ensures
        w0.slots_distinct() && g0.grid@.len() <= 0x1_0000_0000 && w1.maps().capacity
            <= 0x1_0000_0000 ==> column_mirrored(w1, w0, g1, g0.size, x, z, -half, y + 1),
{
    if w0.slots_distinct() && g0.grid@.len() <= 0x1_0000_0000 && w1.maps().capacity
        <= 0x1_0000_0000 {
        let s = g0.size;
        assert(gb.grid@.len() == gb.grid.len());
        assert forall|yy: int| -half <= yy <= y implies 0 <= #[trigger] column_slot(s, x, z, yy)
            < gb.grid@.len() by {
            crate::game::world::brick_grid::lemma_within_grid(
                s,
                brick_of(IVec3 { x, y: yy as i32, z }),
            );
        }
        let slot = column_slot(s, x, z, y);
        assert(slot == grid_slot(cube_size(gb.size), brick_of(pos)));
        assert forall|k: u32| k != slot as u32 implies #[trigger] unchanged_cell(w1, wb, k) by {}
        lemma_column_step(wb, w1, w0, gb, g1, s, x, z, -half, y, g1.grid@[slot]);
    }
}

/// Fills the column `(x, z)` of the grid: every voxel from `-half` up to the surface `max_y`
/// (but not above `half`) gets its terrain material, and when the surface is below sea level
/// the voxels from the surface up to sea level get water. Every edit is applied to the GPU
/// world as it is made.
pub fn fill_column(
    grid: &mut BrickGrid,
    world: &mut GpuWorld,
    materials: &DefaultMaterials,
    x: i32,
    z: i32,
    max_y: i32,
    half: i32,
    snow_line: i32,
)
    requires
        old(grid).wf(),
        old(world).wf(),
        half >= 0,
        max_y >= -half,
        max_y + half <= i32::MAX,
        forall|y: int|
            -half <= y < half ==> #[trigger] brick_within(
                old(grid).size,
                brick_of(IVec3 { x, y: y as i32, z }),
            ),
        2 * old(world).maps().capacity <= usize::MAX,
        4 * (old(world).maps().size + column_writes(max_y as int, half as int)) <= usize::MAX,
        2 * old(world).palletes().capacity <= usize::MAX,
        4 * (old(world).palletes().size + column_writes(max_y as int, half as int))
            <= usize::MAX,
    ensures
        final(grid).wf(),
        final(grid).size == old(grid).size,
        final(world).wf(),
        old(world).slots_distinct() && old(grid).grid@.len() <= 0x1_0000_0000
            && final(world).maps().capacity <= 0x1_0000_0000 ==> column_mirrored(
            *final(world),
            *old(world),
            *final(grid),
            old(grid).size,
            x,
            z,
            -half as int,
            column_end(max_y as int, half as int),
        ),
        forall|q: IVec3|
            brick_within(old(grid).size, brick_of(q)) ==> #[trigger] final(grid).voxel(q)
                == column_voxel(
                old(grid).voxel(q),
                *materials,
                x as int,
                z as int,
                max_y as int,
                half as int,
                snow_line as int,
                q,
            ),
{
    let ghost g0 = *grid;
    let ghost w0 = *world;
    proof {
        assert forall|k: u32| #[trigger]
            unchanged_cell(w0, w0, k) || column_cell(g0.size, x, z, -half as int, -half as int, k)
            by {}
    }
    let top = if max_y < half {
        max_y
    } else {
        half
    };
    let mut y = -half;
    while y < top
        invariant
            -half <= y,
            y <= top || top < -half,
            top == terrain_top(max_y as int, half as int),
            half >= 0,
            max_y >= -half,
            max_y + half <= i32::MAX,
            grid.wf(),
            grid.size == g0.size,
            grid.grid@.len() == g0.grid@.len(),
            world.wf(),
            forall|yy: int|
                -half <= yy < half ==> #[trigger] brick_within(
                    g0.size,
                    brick_of(IVec3 { x, y: yy as i32, z }),
                ),
            budget_ok(*world, w0, (y + half) as int, column_writes(max_y as int, half as int)),
            forall|q: IVec3|
                brick_within(g0.size, brick_of(q)) ==> #[trigger] grid.voxel(q) == if q.x == x
                    && q.z == z && -half <= q.y < y {
                    written(terrain_material_spec(*materials, max_y as int, q.y as int, snow_line as int))
                } else {
                    g0.voxel(q)
                },
            w0.slots_distinct() && g0.grid@.len() <= 0x1_0000_0000 && world.maps().capacity
                <= 0x1_0000_0000 ==> column_mirrored(
                *world,
                w0,
                *grid,
                g0.size,
                x,
                z,
                -half as int,
                y as int,
            ),
        decreases top - y,
    {
        let mat = terrain_material(materials, max_y, y, snow_line);
        let pos = IVec3::new(x, y, z);
        proof {
            assert(brick_within(g0.size, brick_of(IVec3 { x, y: y as i32, z })));
            assert(grid.grid@.len() == grid.grid.len());
            crate::game::world::brick_grid::lemma_within_grid(grid.size, brick_of(pos));
        }
        let ghost wb = *world;
        let ghost gb = *grid;
        let edit = grid.set_voxel(pos, mat);
        proof {
            lemma_budget_step(*world, w0, (y + half) as int, column_writes(max_y as int, half as int));
        }
        world.apply(edit);
        proof {
            lemma_fill_step(wb, *world, w0, gb, *grid, g0, x, z, half as int, y as int, pos);
        }
        y = y + 1;
    }
    if max_y < SEA_LEVEL {
        let mut wy = max_y;
        while wy < SEA_LEVEL
            invariant
                max_y <= wy <= 0,
                max_y < 0,
                top == max_y,
                half >= 0,
                max_y >= -half,
                grid.wf(),
                grid.size == g0.size,
                grid.grid@.len() == g0.grid@.len(),
                world.wf(),
                forall|yy: int|
                    -half <= yy < half ==> #[trigger] brick_within(
                        g0.size,
                        brick_of(IVec3 { x, y: yy as i32, z }),
                    ),
                budget_ok(
                    *world,
                    w0,
                    (max_y + half) + (wy - max_y),
                    column_writes(max_y as int, half as int),
                ),
                forall|q: IVec3|
                    brick_within(g0.size, brick_of(q)) ==> #[trigger] grid.voxel(q) == if q.x
                        == x && q.z == z && -half <= q.y < max_y {
                        written(
                            terrain_material_spec(
                                *materials,
                                max_y as int,
                                q.y as int,
                                snow_line as int,
                            ),
                        )
                    } else if q.x == x && q.z == z && max_y <= q.y < wy {
                        written(materials.water)
                    } else {
                        g0.voxel(q)
                    },
                w0.slots_distinct() && g0.grid@.len() <= 0x1_0000_0000 && world.maps().capacity
                    <= 0x1_0000_0000 ==> column_mirrored(
                    *world,
                    w0,
                    *grid,
                    g0.size,
                    x,
                    z,
                    -half as int,
                    wy as int,
                ),
            decreases 0 - wy,
        {
            let pos = IVec3::new(x, wy, z);
            proof {
                assert(brick_within(g0.size, brick_of(IVec3 { x, y: wy as i32, z })));
                assert(grid.grid@.len() == grid.grid.len());
            crate::game::world::brick_grid::lemma_within_grid(grid.size, brick_of(pos));
            }
            let ghost wb = *world;
            let ghost gb = *grid;
            let edit = grid.set_voxel(pos, materials.water);
            proof {
                lemma_budget_step(
                    *world,
                    w0,
                    (max_y + half) + (wy - max_y),
                    column_writes(max_y as int, half as int),
                );
            }
            world.apply(edit);
            proof {
                lemma_fill_step(wb, *world, w0, gb, *grid, g0, x, z, half as int, wy as int, pos);
            }
            wy = wy + 1;
        }
    }
}

/// After `k` of the `n` edits of a column, the allocators of `w` stay within what the
/// remaining edits may need: `w` grew from `w0` by at most `k` allocations and its capacities
/// stay at most double its allocation counts (or their start values).
pub open spec fn budget_ok(w: GpuWorld, w0: GpuWorld, k: int, n: int) -> bool {
    &&& 0 <= k <= n
    &&& w.maps().size <= w0.maps().size + k
    &&& w.palletes().size <= w0.palletes().size + k
    &&& w.maps().capacity <= w0.maps().capacity || w.maps().capacity <= 2 * w.maps().size
    &&& w.palletes().capacity <= w0.palletes().capacity || w.palletes().capacity <= 2
        * w.palletes().size
    &&& 2 * w0.maps().capacity <= usize::MAX
    &&& 4 * (w0.maps().size + n) <= usize::MAX
    &&& 2 * w0.palletes().capacity <= usize::MAX
    &&& 4 * (w0.palletes().size + n) <= usize::MAX
}

/// Within the budget, one more edit can be applied without overflowing an allocator.
proof fn lemma_budget_step(w: GpuWorld, w0: GpuWorld, k: int, n: int)
    requires
        budget_ok(w, w0, k, n),
        k < n,
        w.wf(),
    ensures
        w.can_allocate(),
{
}

} // verus!
