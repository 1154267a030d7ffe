use rtxel::client::command::Command;
use rtxel::client::generator::{fill_chunk, fill_world_chunk};
use rtxel::client::gpu_world::GPUWorld;
use rtxel::client::map::{Map2, Map4, Map8, VoxelMap};
use rtxel::client::world::{Edit, Grid, World};
use rtxel::math::{IVec3, USizeVec3, UVec3};

#[test]
fn grid_index_centres_the_grid() {
    let g = Grid::new(USizeVec3::new(4, 4, 4));
    assert_eq!(g.grid.len(), 64);
    assert_eq!(g.idx(IVec3::new(-2, -2, -2)), 0);
    assert_eq!(g.idx(IVec3::new(0, 0, 0)), 2 + 2 * 4 + 2 * 16);
    assert_eq!(g.idx(IVec3::new(1, 1, 1)), 63);
}

#[test]
fn set_voxel_records_an_edit_with_downsampled_maps() {
    let mut w = World::new(USizeVec3::new(2, 2, 2));
    assert_eq!(w.grid_volume(), 8);
    w.set_voxel(IVec3::new(-1, 0, 3), true);
    let edits = w.drain_edits();
    assert_eq!(edits.len(), 1);
    match edits[0] {
        Edit::Assign { grid, map8, map4, map2 } => {
            // brick (-1, 0, 0) -> shifted (0, 1, 1)
            assert_eq!(grid, 0 + 1 * 2 + 1 * 4);
            assert!(map8.get(UVec3::new(7, 0, 3)));
            assert!(map4.is_empty());
            assert!(map2.is_empty());
        }
        Edit::Clear { .. } => panic!("expected a set edit"),
    }
    assert!(w.drain_edits().is_empty());
}

#[test]
fn set_voxel_then_clear_it() {
    let mut w = World::new(USizeVec3::new(2, 2, 2));
    w.set_voxel(IVec3::new(0, 0, 0), true);
    w.set_voxel(IVec3::new(0, 0, 0), false);
    let edits = w.drain_edits();
    assert_eq!(edits.len(), 2);
    match edits[1] {
        Edit::Assign { map8, .. } => assert!(map8.is_empty()),
        Edit::Clear { .. } => panic!("expected a set edit"),
    }
}

#[test]
fn fill_chunk_fills_columns_up_to_clamped_height() {
    let mut w = World::new(USizeVec3::new(2, 2, 2));
    // a 16 x 16 world, half sizes 8; two columns: (-8, -8) and (-7, -8)
    fill_chunk(&mut w, 0, &vec![-6, 100], 16, 8, 8, 8);
    let edits = w.drain_edits();
    // -8..-6 is 2 voxels, -8..7 (clamped) is 15 voxels
    assert_eq!(edits.len(), 17);
    let last = edits.last().unwrap();
    match last {
        Edit::Assign { map8, .. } => {
            assert!(map8.get(UVec3::new(1, 0, 0)));
            assert!(map8.get(UVec3::new(1, 6, 0)));
            assert!(!map8.get(UVec3::new(1, 7, 0)));
            assert!(!map8.get(UVec3::new(0, 0, 0)));
        }
        Edit::Clear { .. } => panic!("expected a set edit"),
    }
}

#[test]
fn fill_world_chunk_lays_columns_over_the_world() {
    let mut w = World::new(USizeVec3::new(2, 2, 2));
    // the world is 16 x 16 columns from -8 to 7, 16 voxels high from -8 to 7; columns 16 and
    // 17 are (-8, -7) and (-7, -7)
    fill_world_chunk(&mut w, 16, &vec![-100, 0]);
    let edits = w.drain_edits();
    // the first column is clamped to the bottom and gets nothing, the second gets -8..0
    assert_eq!(edits.len(), 8);
    match edits.last().unwrap() {
        Edit::Assign { grid, map8, .. } => {
            // brick (-1, -1, -1) at slot 0; voxel (-7, -1, -7) is local (1, 7, 1)
            assert_eq!(*grid, 0);
            assert!(map8.get(UVec3::new(1, 7, 1)));
            assert!(map8.get(UVec3::new(1, 0, 1)));
            assert!(!map8.get(UVec3::new(0, 0, 1)));
        }
        Edit::Clear { .. } => panic!("expected a set edit"),
    }
}

#[test]
fn gpu_world_assigns_slots_and_frees_them() {
    let mut g = GPUWorld::new(4);
    let m8 = Map8::new();
    g.apply(Edit::Assign { grid: 5, map8: m8, map4: Map4::default(), map2: Map2::default() });
    g.apply(Edit::Assign { grid: 6, map8: m8, map4: Map4::default(), map2: Map2::default() });
    g.apply(Edit::Assign { grid: 5, map8: m8, map4: Map4::default(), map2: Map2::default() });
    let mut cmds = g.drain_commands();
    cmds.sort_by_key(|c| c.grid);
    assert_eq!(cmds.len(), 2);
    assert_eq!(cmds[0], Command::set(5, 0, m8.mask, [0; 2], [0; 1]));
    assert_eq!(cmds[1], Command::set(6, 1, m8.mask, [0; 2], [0; 1]));
    g.apply(Edit::Clear { grid: 5 });
    g.apply(Edit::Assign { grid: 7, map8: m8, map4: Map4::default(), map2: Map2::default() });
    let mut cmds = g.drain_commands();
    cmds.sort_by_key(|c| c.grid);
    assert_eq!(cmds[0], Command::clear(5));
    // the freed slot 0 is handed out again
    assert_eq!(cmds[1].map, 0);
    assert!(g.drain_commands().is_empty());
}

#[test]
fn gpu_world_knows_when_no_slot_is_left() {
    let mut g = GPUWorld::new(1);
    let m8 = Map8::new();
    let assign = |grid: usize| Edit::Assign { grid, map8: m8, map4: Map4::default(), map2: Map2::default() };
    assert!(g.can_apply(&assign(3)));
    g.apply(assign(3));
    // cell 3 keeps its slot, a second cell finds none left
    assert!(g.can_apply(&assign(3)));
    assert!(!g.can_apply(&assign(4)));
    assert!(g.can_apply(&Edit::Clear { grid: 4 }));
}

#[test]
fn commands_carry_their_fields() {
    let c = Command::clear(9);
    assert_eq!(c.action, Command::ACTION_CLEAR);
    assert_eq!(c.grid, 9);
    let s = Command::set(1, 2, [3; 16], [4; 2], [5; 1]);
    assert_eq!(s.action, Command::ACTION_SET);
    assert_eq!((s.grid, s.map, s.mask8[15], s.mask4[1], s.mask2[0]), (1, 2, 3, 4, 5));
}
