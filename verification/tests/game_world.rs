use rtxel::game::render::command::{UnpackCommand, UnpackCommandEncoder, encode_commands};
use rtxel::game::render::pipeline::extract_commands;
use rtxel::game::render::gpu_world::GpuWorld;
use rtxel::game::world::DefaultMaterials;
use rtxel::game::world::brick_grid::{BrickGrid, BrickMap, Edit};
use rtxel::game::world::dda::Raycast;
use rtxel::game::world::material::{MaterialId, MaterialManager};
use rtxel::game::world::terrain::{fill_column, terrain_material};
use rtxel::math::{IVec3, UVec3};

fn materials() -> (MaterialManager<&'static str>, DefaultMaterials) {
    let mut m = MaterialManager::new();
    let d = DefaultMaterials {
        dirt: m.register("dirt"),
        grass: m.register("grass"),
        stone: m.register("stone"),
        sand: m.register("sand"),
        snow: m.register("snow"),
        water: m.register("water"),
        gravel: m.register("gravel"),
    };
    (m, d)
}

#[test]
fn register_hands_out_ids_from_one() {
    let (mut m, d) = materials();
    assert_eq!(d.dirt.id(), 1);
    assert_eq!(d.gravel.id(), 7);
    assert!(m.take_dirty());
    assert!(!m.take_dirty());
    assert_eq!(m.materials.len(), 7);
    assert_eq!(MaterialId::default(), MaterialId::air());
    assert_eq!(MaterialId::air().id(), 0);
}

#[test]
fn get_voxel_reads_back_set_voxel() {
    let (_, d) = materials();
    let mut g = BrickGrid::new(4);
    let p = IVec3::new(-3, 5, 12);
    assert_eq!(g.get_voxel(p), None);
    let edit = g.set_voxel(p, d.stone);
    assert_eq!(g.get_voxel(p), Some(d.stone));
    assert_eq!(g.get_voxel(IVec3::new(-3, 5, 13)), None);
    match edit {
        Edit::Assign { grid_idx, brick } => {
            // brick (-1, 0, 1) shifted by 2 -> (1, 2, 3)
            assert_eq!(grid_idx, 1 + 2 * 4 + 3 * 16);
            assert_eq!(brick.count(), 1);
        }
        Edit::Clear { .. } => panic!("expected a set edit"),
    }
    g.set_voxel(p, MaterialId::air());
    assert_eq!(g.get_voxel(p), None);
}

#[test]
fn get_voxel_outside_the_grid_is_none() {
    let g = BrickGrid::new(2);
    assert_eq!(g.get_voxel(IVec3::new(8, 0, 0)), None);
    assert_eq!(g.get_voxel(IVec3::new(0, -9, 0)), None);
}

#[test]
fn brick_map_uniform_material() {
    let (_, d) = materials();
    let mut b = BrickMap::new();
    assert!(b.is_empty());
    assert_eq!(b.uniform_material(), None);
    b.set(UVec3::new(0, 0, 0), d.sand);
    b.set(UVec3::new(7, 7, 7), d.sand);
    assert_eq!(b.uniform_material(), Some(d.sand));
    assert_eq!(b.count(), 2);
    b.set(UVec3::new(1, 0, 0), d.dirt);
    assert_eq!(b.uniform_material(), None);
    assert_eq!(b.get_material(UVec3::new(1, 0, 0)), d.dirt);
    b.clear(UVec3::new(1, 0, 0));
    assert!(!b.get(UVec3::new(1, 0, 0)));
    assert_eq!(b.uniform_material(), Some(d.sand));
}

#[test]
fn encoder_writes_words_and_offsets() {
    let mut e = UnpackCommandEncoder::new();
    e.write_command(UnpackCommand::Clear { grid_idx: 4 });
    e.write_command(UnpackCommand::SetUniform { grid_idx: 1, map_idx: 2, material_idx: 3, mask: [9; 16] });
    e.write_command(UnpackCommand::Clear { grid_idx: 5 });
    let (data, offsets) = e.finish();
    assert_eq!(offsets, vec![0, 2, 22]);
    assert_eq!(data.len(), 24);
    assert_eq!(&data[0..2], &[UnpackCommandEncoder::OP_CLEAR, 4]);
    assert_eq!(&data[2..6], &[UnpackCommandEncoder::OP_SET_UNIFORM, 1, 2, 3]);
    assert_eq!(data[21], 9);
    assert_eq!(&data[22..24], &[0, 5]);
}

#[test]
fn encode_commands_matches_the_encoder() {
    let cs = vec![
        UnpackCommand::Clear { grid_idx: 4 },
        UnpackCommand::SetUniform { grid_idx: 1, map_idx: 2, material_idx: 3, mask: [9; 16] },
        UnpackCommand::Clear { grid_idx: 5 },
    ];
    let (data, offsets) = encode_commands(&cs);
    assert_eq!(offsets, vec![0, 2, 22]);
    assert_eq!(data.len(), 24);
    assert_eq!(&data[22..24], &[0, 5]);
    let (data, offsets) = encode_commands(&Vec::new());
    assert!(data.is_empty() && offsets.is_empty());
}

#[test]
fn extract_takes_and_encodes_pending_commands() {
    let (_, d) = materials();
    let mut grid = BrickGrid::new(2);
    let mut w = GpuWorld::new(4);
    let e = grid.set_voxel(IVec3::new(0, 0, 0), d.snow);
    w.apply(e);
    let (n, data, offsets) = extract_commands(&mut w);
    assert_eq!(n, 1);
    assert_eq!(offsets, vec![0]);
    // a uniform command: opcode, grid 7, map 0, the material, then the 16 mask words
    assert_eq!(data.len(), 20);
    assert_eq!(&data[0..4], &[UnpackCommandEncoder::OP_SET_UNIFORM, 7, 0, d.snow.id() as u32]);
    let (n, data, offsets) = extract_commands(&mut w);
    assert_eq!(n, 0);
    assert!(data.is_empty() && offsets.is_empty());
}

#[test]
fn encoder_writes_pallete_commands() {
    let mut e = UnpackCommandEncoder::new();
    e.write_command(UnpackCommand::SetPallete {
        grid_idx: 1,
        map_idx: 2,
        pallete_idx: 3,
        mask: [7; 16],
        pallete: [8; 512],
    });
    let (data, offsets) = e.finish();
    assert_eq!(offsets, vec![0]);
    assert_eq!(data.len(), 4 + 16 + 512);
    assert_eq!(data[0], UnpackCommandEncoder::OP_SET_PALLETE);
    assert_eq!(data[19], 7);
    assert_eq!(data[20], 8);
}

#[test]
fn gpu_world_uniform_and_pallete_commands() {
    let (_, d) = materials();
    let mut grid = BrickGrid::new(2);
    let mut w = GpuWorld::new(1);
    let e = grid.set_voxel(IVec3::new(0, 0, 0), d.snow);
    w.apply(e);
    let e = grid.set_voxel(IVec3::new(1, 0, 0), d.sand);
    w.apply(e);
    let (n, cmds) = w.drain_commands();
    assert_eq!(n, 1);
    match &cmds[0] {
        UnpackCommand::SetPallete { grid_idx, map_idx, pallete_idx, pallete, .. } => {
            assert_eq!((*grid_idx, *map_idx, *pallete_idx), (7, 0, 0));
            assert_eq!(pallete[0], d.snow.id() as u32);
            assert_eq!(pallete[1], d.sand.id() as u32);
            assert_eq!(pallete[2], 0);
        }
        _ => panic!("expected a pallete command"),
    }
    let e = grid.set_voxel(IVec3::new(-1, 0, 0), d.stone);
    w.apply(e);
    assert_eq!(w.map_capacity(), 2);
    assert_eq!(w.pallete_capacity(), 4);
    let (_, cmds) = w.drain_commands();
    match &cmds[0] {
        UnpackCommand::SetUniform { grid_idx, map_idx, material_idx, .. } => {
            assert_eq!((*grid_idx, *map_idx, *material_idx), (6, 1, d.stone.id() as u32));
        }
        _ => panic!("expected a uniform command"),
    }
    w.apply(Edit::Clear { grid_idx: 6 });
    w.apply(Edit::Clear { grid_idx: 3 });
    let (n, cmds) = w.drain_commands();
    assert_eq!(n, 1);
    assert!(matches!(cmds[0], UnpackCommand::Clear { grid_idx: 6 }));
}

#[test]
fn terrain_materials_by_depth() {
    let (_, d) = materials();
    assert_eq!(terrain_material(&d, 50, 49, 40), d.snow);
    assert_eq!(terrain_material(&d, 50, 45, 40), d.stone);
    assert_eq!(terrain_material(&d, 1, -2, 40), d.sand);
    assert_eq!(terrain_material(&d, 1, -3, 40), d.stone);
    assert_eq!(terrain_material(&d, -10, -12, 40), d.gravel);
    assert_eq!(terrain_material(&d, -10, -13, 40), d.stone);
    assert_eq!(terrain_material(&d, 10, 9, 40), d.grass);
    assert_eq!(terrain_material(&d, 10, 6, 40), d.dirt);
    assert_eq!(terrain_material(&d, 10, 5, 40), d.stone);
}

#[test]
fn fill_column_puts_terrain_and_water() {
    let (_, d) = materials();
    let mut grid = BrickGrid::new(2);
    let mut w = GpuWorld::new(8);
    fill_column(&mut grid, &mut w, &d, 3, -2, -5, 8, 6);
    assert_eq!(grid.get_voxel(IVec3::new(3, -8, -2)), Some(d.stone));
    assert_eq!(grid.get_voxel(IVec3::new(3, -6, -2)), Some(d.gravel));
    assert_eq!(grid.get_voxel(IVec3::new(3, -5, -2)), Some(d.water));
    assert_eq!(grid.get_voxel(IVec3::new(3, -1, -2)), Some(d.water));
    assert_eq!(grid.get_voxel(IVec3::new(3, 0, -2)), None);
    assert_eq!(grid.get_voxel(IVec3::new(4, -6, -2)), None);
    // the whole column lies in brick (0, -1, -1), slot 1, and its mixed materials make the GPU
    // world send one pallete command for it in the first map and pallete slots
    let (n, cmds) = w.drain_commands();
    assert_eq!(n, 1);
    match &cmds[0] {
        UnpackCommand::SetPallete { grid_idx, map_idx, pallete_idx, mask, pallete } => {
            assert_eq!((*grid_idx, *map_idx, *pallete_idx), (1, 0, 0));
            assert_eq!(*mask, grid.grid[1].mask);
            // voxel (3, -8 + 8, -2 + 8) of the brick is its index 3 + 0 * 8 + 6 * 64
            assert_eq!(pallete[3 + 6 * 64], d.stone.id() as u32);
            assert_eq!(pallete[3 + 7 * 8 + 6 * 64], d.water.id() as u32);
        }
        _ => panic!("expected a pallete command"),
    }
}

#[test]
fn raycast_borrows_the_grid() {
    let g = BrickGrid::new(2);
    let r = Raycast::new(&g);
    assert_eq!(r.grid.size, 2);
}
