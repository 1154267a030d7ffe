use rtxel::client::map::{Map2, Map4, Map8, VoxelMap};
use rtxel::math::{IVec3, USizeVec3, UVec3, flatten};

#[test]
fn euclid_division_rounds_down() {
    let p = IVec3::new(-1, 9, -8);
    let b = p.div_euclid(IVec3::splat(8));
    let r = p.rem_euclid(IVec3::splat(8));
    assert_eq!(b, IVec3::new(-1, 1, -1));
    assert_eq!(r, IVec3::new(7, 1, 0));
}

#[test]
fn flatten_is_row_major() {
    let i = flatten(USizeVec3::new(1, 2, 3), USizeVec3::new(4, 5, 6));
    assert_eq!(i, 1 + 2 * 4 + 3 * 20);
    assert_eq!(USizeVec3::new(2, 3, 4).element_product(), 24);
}

#[test]
fn map_set_get_clear() {
    let mut m = Map8::new();
    assert!(m.is_empty());
    m.set(UVec3::new(1, 2, 3));
    assert!(m.get(UVec3::new(1, 2, 3)));
    assert!(!m.get(UVec3::new(2, 2, 3)));
    assert!(!m.is_empty());
    let idx = 1 + 2 * 8 + 3 * 64;
    assert_eq!(m.mask[idx / 32], 1u32 << (idx % 32));
    m.clear(UVec3::new(1, 2, 3));
    assert!(!m.get(UVec3::new(1, 2, 3)));
    assert!(m.is_empty());
}

#[test]
fn map_word_and_bit() {
    assert_eq!(<Map8 as VoxelMap>::word(37), 1);
    assert_eq!(<Map8 as VoxelMap>::bit(37), 1 << 5);
}

#[test]
fn downsample_needs_half_of_the_block() {
    let mut m = Map8::new();
    // four of the eight voxels of the block at (0, 0, 0)
    m.set(UVec3::new(0, 0, 0));
    m.set(UVec3::new(1, 0, 0));
    m.set(UVec3::new(0, 1, 0));
    m.set(UVec3::new(1, 1, 1));
    // three of the eight voxels of the block at (1, 0, 0)
    m.set(UVec3::new(2, 0, 0));
    m.set(UVec3::new(3, 0, 0));
    m.set(UVec3::new(2, 1, 0));
    let m4: Map4 = m.downsample();
    assert!(m4.get(UVec3::new(0, 0, 0)));
    assert!(!m4.get(UVec3::new(1, 0, 0)));
    assert_eq!(m4.mask, [1, 0]);
    let m2: Map2 = m4.downsample();
    assert!(m2.is_empty());
}

#[test]
fn downsample_of_full_map_is_full() {
    let mut m = Map8::new();
    for z in 0..8 {
        for y in 0..8 {
            for x in 0..8 {
                m.set(UVec3::new(x, y, z));
            }
        }
    }
    let m4: Map4 = m.downsample();
    assert_eq!(m4.mask, [u32::MAX, u32::MAX]);
    let m2: Map2 = m4.downsample();
    assert_eq!(m2.mask, [0xFF]);
}

#[test]
fn default_maps_are_empty() {
    assert_eq!(Map8::default(), Map8::new());
    assert!(Map4::default().is_empty());
    assert!(Map2::default().is_empty());
}
