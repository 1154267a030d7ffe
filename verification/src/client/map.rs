//! Cubic voxel volumes stored as bit masks, and their downsampling.
use vstd::prelude::*;
use crate::bitmask::{lemma_mask_with, lemma_zero_mask, mask_bit, mask_is_zero, mask_with, mask_without, test_bit};
use crate::math::{UVec3, USizeVec3, cube_index, flatten, lemma_flat_index_bounds, lemma_flat_index_injective};

verus! {

/// Index of the voxel at `pos` inside a cube of side `s`.
pub open spec fn voxel_index(pos: UVec3, s: int) -> int {
    cube_index(pos.x as int, pos.y as int, pos.z as int, s)
}

/// 1 when bit `i` of the mask is set, else 0.
pub open spec fn bit01(mask: Seq<u32>, i: int) -> int {
    if mask_bit(mask, i) {
        1
    } else {
        0
    }
}

/// How many of the eight voxels of the 2x2x2 block at `(2x, 2y, 2z)` are set, in a cube of
/// side `s`.
pub open spec fn children_set(mask: Seq<u32>, s: int, x: int, y: int, z: int) -> int {
    bit01(mask, cube_index(2 * x, 2 * y, 2 * z, s))
    + bit01(mask, cube_index(2 * x + 1, 2 * y, 2 * z, s))
    + bit01(mask, cube_index(2 * x, 2 * y + 1, 2 * z, s))
    + bit01(mask, cube_index(2 * x + 1, 2 * y + 1, 2 * z, s))
    + bit01(mask, cube_index(2 * x, 2 * y, 2 * z + 1, s))
    + bit01(mask, cube_index(2 * x + 1, 2 * y, 2 * z + 1, s))
    + bit01(mask, cube_index(2 * x, 2 * y + 1, 2 * z + 1, s))
    + bit01(mask, cube_index(2 * x + 1, 2 * y + 1, 2 * z + 1, s))
}

/// A downsampled voxel is set when at least half of the eight voxels it covers are set.
pub open spec fn downsampled(mask: Seq<u32>, s: int, x: int, y: int, z: int) -> bool {
    children_set(mask, s, x, y, z) >= 4
}

/// `(x1, y1, z1)` comes before `(x2, y2, z2)` when walking z-major, then y, then x.
pub open spec fn walked_before(x1: int, y1: int, z1: int, x2: int, y2: int, z2: int) -> bool {
    z1 < z2 || (z1 == z2 && (y1 < y2 || (y1 == y2 && x1 < x2)))
}

/// A cube of `SIZE`³ voxels stored as a bit mask of `WORDS` words: voxel `(x, y, z)` is bit
/// `x + y * SIZE + z * SIZE²`.
pub trait VoxelMap: Sized {
    /// Side length of the cube.
    const SIZE: u32;
    /// Number of voxels, `SIZE`³.
    const VOLUME: u32;
    /// Number of 32-bit words of the mask, `VOLUME / 32` rounded up.
    const WORDS: usize;

    /// The words of the mask.
    spec fn mask_seq(&self) -> Seq<u32>;

    /// The constants agree with each other and with the mask.
    proof fn lemma_shape(&self)
        ensures
            Self::SIZE >= 1,
            Self::VOLUME == Self::SIZE * Self::SIZE * Self::SIZE,
            Self::WORDS * 32 >= Self::VOLUME,
            Self::WORDS * 32 < Self::VOLUME + 32,
            Self::WORDS * 32 <= 0x1_0000,
            self.mask_seq().len() == Self::WORDS,
    ;

    /// A cube with no voxel set.
    fn empty() -> (m: Self)
        ensures
            m.mask_seq().len() == Self::WORDS,
            mask_is_zero(m.mask_seq()),
    ;

    /// The words of the mask.
    fn mask(&self) -> (m: &[u32])
        ensures
            m@ == self.mask_seq(),
    ;

    /// The words of the mask, for writing.
    fn mask_mut(&mut self) -> (m: &mut [u32])
        ensures
            m@ == old(self).mask_seq(),
            final(self).mask_seq() == final(m)@,
    ;

    /// Index of the word that holds voxel `idx`.
    fn word(idx: usize) -> (w: usize)
        ensures
            w == idx / 32,
    {
        idx / 32
    }

    /// The bit of its word that stands for voxel `idx`.
    fn bit(idx: usize) -> (b: u32)
        ensures
            b == 1u32 << ((idx % 32) as u32),
    {
        1u32 << ((idx % 32) as u32)
    }

    /// Whether the voxel at `pos` is set.
    fn get(&self, pos: UVec3) -> (r: bool)
        requires
            voxel_index(pos, Self::SIZE as int) < 32 * Self::WORDS,
        ensures
            r == mask_bit(self.mask_seq(), voxel_index(pos, Self::SIZE as int)),
    {
        proof {
            self.lemma_shape();
        }
        let idx = flatten(pos.as_usizevec3(), USizeVec3::splat(Self::SIZE as usize));
        test_bit(self.mask(), idx)
    }

    /// Sets the voxel at `pos`.
    fn set(&mut self, pos: UVec3)
        requires
            voxel_index(pos, Self::SIZE as int) < 32 * Self::WORDS,
        ensures
            final(self).mask_seq() == mask_with(
                old(self).mask_seq(),
                voxel_index(pos, Self::SIZE as int),
            ),
    {
        proof {
            self.lemma_shape();
        }
        let idx = flatten(pos.as_usizevec3(), USizeVec3::splat(Self::SIZE as usize));
        let w = Self::word(idx);
        let b = Self::bit(idx);
        let m = self.mask_mut();
        m[w] = m[w] | b;
    }

    /// Clears the voxel at `pos`.
    fn clear(&mut self, pos: UVec3)
        requires
            voxel_index(pos, Self::SIZE as int) < 32 * Self::WORDS,
        ensures
            final(self).mask_seq() == mask_without(
                old(self).mask_seq(),
                voxel_index(pos, Self::SIZE as int),
            ),
    {
        proof {
            self.lemma_shape();
        }
        let idx = flatten(pos.as_usizevec3(), USizeVec3::splat(Self::SIZE as usize));
        let w = Self::word(idx);
        let b = Self::bit(idx);
        let m = self.mask_mut();
        m[w] = m[w] & !b;
    }

    /// Whether no voxel is set.
    fn is_empty(&self) -> (r: bool)
        ensures
            r == mask_is_zero(self.mask_seq()),
    {
        let m = self.mask();
        let mut i: usize = 0;
        while i < m.len()
            invariant
                i <= m@.len(),
                m@ == self.mask_seq(),
                forall|w: int| 0 <= w < i ==> m@[w] == 0,
            decreases m@.len() - i,
        {
            if m[i] != 0 {
                return false;
            }
            i = i + 1;
        }
        true
    }

    /// How many of the eight voxels of the 2x2x2 block at `(2x, 2y, 2z)` are set.
    fn children_count(&self, x: u32, y: u32, z: u32) -> (c: u32)
        requires
            2 * x + 1 < Self::SIZE,
            2 * y + 1 < Self::SIZE,
            2 * z + 1 < Self::SIZE,
        ensures
            c == children_set(self.mask_seq(), Self::SIZE as int, x as int, y as int, z as int),
    {
        proof {
            self.lemma_shape();
        }
        let ghost s = Self::SIZE as int;
        let mut count: u32 = 0;
        let mut d: u32 = 0;
        while d < 8
            invariant
                self.mask_seq().len() == Self::WORDS,
                Self::WORDS * 32 >= Self::VOLUME,
                Self::VOLUME == Self::SIZE * Self::SIZE * Self::SIZE,
                2 * x + 1 < Self::SIZE,
                2 * y + 1 < Self::SIZE,
                2 * z + 1 < Self::SIZE,
                s == Self::SIZE,
                d <= 8,
                count <= d,
                count == partial_children(self.mask_seq(), s, x as int, y as int, z as int, d as int),
            decreases 8 - d,
        {
            let dx = d % 2;
            let dy = (d / 2) % 2;
            let dz = d / 4;
            let cp = UVec3::new(x * 2 + dx, y * 2 + dy, z * 2 + dz);
            proof {
                lemma_flat_index_bounds(cp.x as int, cp.y as int, cp.z as int, s, s, s);
            }
            if self.get(cp) {
                count = count + 1;
            }
            d = d + 1;
        }
        proof {
            reveal_with_fuel(partial_children, 9);
        }
        count
    }

}

/// A cube of half the side whose voxel `(x, y, z)` is set exactly when at least four of the
/// eight voxels at `(2x + dx, 2y + dy, 2z + dz)` of this cube are set.
pub fn downsample_map<S: VoxelMap, M: VoxelMap>(src_map: &S) -> (out: M)
    requires
        M::SIZE * 2 == S::SIZE,
    ensures
        out.mask_seq().len() == M::WORDS,
            forall|x: int, y: int, z: int|
                0 <= x < M::SIZE && 0 <= y < M::SIZE && 0 <= z < M::SIZE ==> #[trigger] mask_bit(
                    out.mask_seq(),
                    cube_index(x, y, z, M::SIZE as int),
                ) == downsampled(src_map.mask_seq(), S::SIZE as int, x, y, z),
            forall|i: int|
                M::VOLUME <= i < 32 * M::WORDS ==> !#[trigger] mask_bit(out.mask_seq(), i),
    {
        let mut out = M::empty();
        proof {
            out.lemma_shape();
            src_map.lemma_shape();
        }
        let m = M::SIZE;
        let ghost ms = m as int;
        let ghost src = src_map.mask_seq();
        proof {
            assert forall|i: int| 0 <= i < 32 * M::WORDS implies !#[trigger] mask_bit(
                out.mask_seq(),
                i,
            ) by {
                lemma_zero_mask(out.mask_seq(), i);
            }
            assert forall|x1: int, y1: int, z1: int|
                0 <= x1 < ms && 0 <= y1 < ms && 0 <= z1 < ms implies !#[trigger] mask_bit(
                    out.mask_seq(),
                    cube_index(x1, y1, z1, ms),
                ) by {
                lemma_flat_index_bounds(x1, y1, z1, ms, ms, ms);
                lemma_zero_mask(out.mask_seq(), cube_index(x1, y1, z1, ms));
            }
        }
        let mut z: u32 = 0;
        while z < m
            invariant
                z <= m,
                m == M::SIZE,
                ms == m,
                M::SIZE * 2 == S::SIZE,
                src == src_map.mask_seq(),
                out.mask_seq().len() == M::WORDS,
                M::VOLUME == M::SIZE * M::SIZE * M::SIZE,
                M::WORDS * 32 >= M::VOLUME,
                forall|i: int|
                    M::VOLUME <= i < 32 * M::WORDS ==> !#[trigger] mask_bit(out.mask_seq(), i),
                forall|x1: int, y1: int, z1: int|
                    0 <= x1 < ms && 0 <= y1 < ms && 0 <= z1 < ms ==> #[trigger] mask_bit(
                        out.mask_seq(),
                        cube_index(x1, y1, z1, ms),
                    ) == (walked_before(x1, y1, z1, 0, 0, z as int) && downsampled(
                        src,
                        2 * ms,
                        x1,
                        y1,
                        z1,
                    )),
            decreases m - z,
        {
            let mut y: u32 = 0;
            while y < m
                invariant
                    z < m,
                    y <= m,
                    m == M::SIZE,
                    ms == m,
                    M::SIZE * 2 == S::SIZE,
                    src == src_map.mask_seq(),
                    out.mask_seq().len() == M::WORDS,
                    M::VOLUME == M::SIZE * M::SIZE * M::SIZE,
                    M::WORDS * 32 >= M::VOLUME,
                    forall|i: int|
                        M::VOLUME <= i < 32 * M::WORDS ==> !#[trigger] mask_bit(
                            out.mask_seq(),
                            i,
                        ),
                    forall|x1: int, y1: int, z1: int|
                        0 <= x1 < ms && 0 <= y1 < ms && 0 <= z1 < ms ==> #[trigger] mask_bit(
                            out.mask_seq(),
                            cube_index(x1, y1, z1, ms),
                        ) == (walked_before(x1, y1, z1, 0, y as int, z as int) && downsampled(
                            src,
                            2 * ms,
                            x1,
                            y1,
                            z1,
                        )),
                decreases m - y,
            {
                let mut x: u32 = 0;
                while x < m
                    invariant
                        z < m,
                        y < m,
                        x <= m,
                        m == M::SIZE,
                        ms == m,
                        M::SIZE * 2 == S::SIZE,
                        src == src_map.mask_seq(),
                        out.mask_seq().len() == M::WORDS,
                        M::VOLUME == M::SIZE * M::SIZE * M::SIZE,
                        M::WORDS * 32 >= M::VOLUME,
                        forall|i: int|
                            M::VOLUME <= i < 32 * M::WORDS ==> !#[trigger] mask_bit(
                                out.mask_seq(),
                                i,
                            ),
                        forall|x1: int, y1: int, z1: int|
                            0 <= x1 < ms && 0 <= y1 < ms && 0 <= z1 < ms ==> #[trigger] mask_bit(
                                out.mask_seq(),
                                cube_index(x1, y1, z1, ms),
                            ) == (walked_before(x1, y1, z1, x as int, y as int, z as int)
                                && downsampled(src, 2 * ms, x1, y1, z1)),
                    decreases m - x,
                {
                    let count = src_map.children_count(x, y, z);
                    if count >= 4 {
                        let ghost before = out.mask_seq();
                        let ghost i = cube_index(x as int, y as int, z as int, ms);
                        proof {
                            lemma_flat_index_bounds(x as int, y as int, z as int, ms, ms, ms);
                        }
                        out.set(UVec3::new(x, y, z));
                        proof {
                            assert forall|k: int|
                                M::VOLUME <= k < 32 * M::WORDS implies !#[trigger] mask_bit(
                                    out.mask_seq(),
                                    k,
                                ) by {
                                lemma_mask_with(before, i, k);
                            }
                            assert forall|x1: int, y1: int, z1: int|
                                0 <= x1 < ms && 0 <= y1 < ms && 0 <= z1 < ms implies #[trigger] mask_bit(
                                    out.mask_seq(),
                                    cube_index(x1, y1, z1, ms),
                                ) == (walked_before(x1, y1, z1, x + 1, y as int, z as int)
                                    && downsampled(src, 2 * ms, x1, y1, z1)) by {
                                let k = cube_index(x1, y1, z1, ms);
                                lemma_flat_index_bounds(x1, y1, z1, ms, ms, ms);
                                lemma_mask_with(before, i, k);
                                if k == i {
                                    lemma_flat_index_injective(
                                        x1,
                                        y1,
                                        z1,
                                        x as int,
                                        y as int,
                                        z as int,
                                        ms,
                                        ms,
                                        ms,
                                    );
                                }
                            }
                        }
                    }
                    x = x + 1;
                }
                y = y + 1;
            }
            z = z + 1;
        }
        out
    }

/// Number of set voxels among the first `d` of the eight in the 2x2x2 block at
/// `(2x, 2y, 2z)`, taken in the order x, then y, then z.
pub open spec fn partial_children(mask: Seq<u32>, s: int, x: int, y: int, z: int, d: int) -> int
    decreases d,
{
    if d <= 0 {
        0
    } else {
        partial_children(mask, s, x, y, z, d - 1) + bit01(
            mask,
            cube_index(2 * x + (d - 1) % 2, 2 * y + ((d - 1) / 2) % 2, 2 * z + (d - 1) / 4, s),
        )
    }
}

/// 8x8x8 volume of voxels represented compactly using a bitmask.
#[derive(Debug, Clone, Copy, PartialEq, Eq, Hash)]
pub struct Map8 {
    pub mask: [u32; 16],
}

/// 4x4x4 volume of voxels represented compactly using a bitmask.
#[derive(Debug, Clone, Copy, PartialEq, Eq, Hash)]
pub struct Map4 {
    pub mask: [u32; 2],
}

/// 2x2x2 volume of voxels represented compactly using a bitmask.
#[derive(Debug, Clone, Copy, PartialEq, Eq, Hash)]
pub struct Map2 {
    pub mask: [u32; 1],
}

impl Map8 {
    /// Creates an empty map.
    pub fn new() -> (m: Map8)
        ensures
            m.mask@ == Seq::new(16, |i: int| 0u32),
    {
        Map8 { mask: [0; 16] }
    }
}

impl Default for Map8 {
    fn default() -> (m: Map8)
        ensures
            m.mask@ == Seq::new(16, |i: int| 0u32),
    {
        Map8::new()
    }
}

impl Default for Map4 {
    fn default() -> (m: Map4)
        ensures
            m.mask@ == Seq::new(2, |i: int| 0u32),
    {
        Map4 { mask: [0; 2] }
    }
}

impl Default for Map2 {
    fn default() -> (m: Map2)
        ensures
            m.mask@ == Seq::new(1, |i: int| 0u32),
    {
        Map2 { mask: [0; 1] }
    }
}

impl Map8 {
    /// A map of half the side whose voxel `(x, y, z)` is set exactly when at least four of the
    /// eight voxels at `(2x + dx, 2y + dy, 2z + dz)` of this map are set.
    pub fn downsample<M: VoxelMap>(&self) -> (out: M)
        requires
            M::SIZE * 2 == Self::SIZE,
        ensures
            out.mask_seq().len() == M::WORDS,
            forall|x: int, y: int, z: int|
                0 <= x < M::SIZE && 0 <= y < M::SIZE && 0 <= z < M::SIZE ==> #[trigger] mask_bit(
                    out.mask_seq(),
                    cube_index(x, y, z, M::SIZE as int),
                ) == downsampled(self.mask_seq(), Self::SIZE as int, x, y, z),
            forall|i: int|
                M::VOLUME <= i < 32 * M::WORDS ==> !#[trigger] mask_bit(out.mask_seq(), i),
    {
        downsample_map::<Map8, M>(self)
    }
}

impl VoxelMap for Map8 {
    const SIZE: u32 = 8;
    const VOLUME: u32 = 512;
    const WORDS: usize = 16;

    open spec fn mask_seq(&self) -> Seq<u32> {
        self.mask@
    }

    proof fn lemma_shape(&self) {
        assert(Self::VOLUME == Self::SIZE * Self::SIZE * Self::SIZE) by (nonlinear_arith);
    }

    fn empty() -> (m: Map8) {
        Map8::new()
    }

    fn mask(&self) -> (m: &[u32]) {
        &self.mask
    }

    fn mask_mut(&mut self) -> (m: &mut [u32]) {
        &mut self.mask
    }
}

impl Map4 {
    /// A map of half the side whose voxel `(x, y, z)` is set exactly when at least four of the
    /// eight voxels at `(2x + dx, 2y + dy, 2z + dz)` of this map are set.
    pub fn downsample<M: VoxelMap>(&self) -> (out: M)
        requires
            M::SIZE * 2 == Self::SIZE,
        ensures
            out.mask_seq().len() == M::WORDS,
            forall|x: int, y: int, z: int|
                0 <= x < M::SIZE && 0 <= y < M::SIZE && 0 <= z < M::SIZE ==> #[trigger] mask_bit(
                    out.mask_seq(),
                    cube_index(x, y, z, M::SIZE as int),
                ) == downsampled(self.mask_seq(), Self::SIZE as int, x, y, z),
            forall|i: int|
                M::VOLUME <= i < 32 * M::WORDS ==> !#[trigger] mask_bit(out.mask_seq(), i),
    {
        downsample_map::<Map4, M>(self)
    }
}

impl VoxelMap for Map4 {
    const SIZE: u32 = 4;
    const VOLUME: u32 = 64;
    const WORDS: usize = 2;

    open spec fn mask_seq(&self) -> Seq<u32> {
        self.mask@
    }

    proof fn lemma_shape(&self) {
        assert(Self::VOLUME == Self::SIZE * Self::SIZE * Self::SIZE) by (nonlinear_arith);
    }

    fn empty() -> (m: Map4) {
        Map4 { mask: [0; 2] }
    }

    fn mask(&self) -> (m: &[u32]) {
        &self.mask
    }

    fn mask_mut(&mut self) -> (m: &mut [u32]) {
        &mut self.mask
    }
}

impl Map2 {
    /// A map of half the side whose voxel `(x, y, z)` is set exactly when at least four of the
    /// eight voxels at `(2x + dx, 2y + dy, 2z + dz)` of this map are set.
    pub fn downsample<M: VoxelMap>(&self) -> (out: M)
        requires
            M::SIZE * 2 == Self::SIZE,
        ensures
            out.mask_seq().len() == M::WORDS,
            forall|x: int, y: int, z: int|
                0 <= x < M::SIZE && 0 <= y < M::SIZE && 0 <= z < M::SIZE ==> #[trigger] mask_bit(
                    out.mask_seq(),
                    cube_index(x, y, z, M::SIZE as int),
                ) == downsampled(self.mask_seq(), Self::SIZE as int, x, y, z),
            forall|i: int|
                M::VOLUME <= i < 32 * M::WORDS ==> !#[trigger] mask_bit(out.mask_seq(), i),
    {
        downsample_map::<Map2, M>(self)
    }
}

impl VoxelMap for Map2 {
    const SIZE: u32 = 2;
    const VOLUME: u32 = 8;
    const WORDS: usize = 1;

    open spec fn mask_seq(&self) -> Seq<u32> {
        self.mask@
    }

    proof fn lemma_shape(&self) {
        assert(Self::VOLUME == Self::SIZE * Self::SIZE * Self::SIZE) by (nonlinear_arith);
    }

    fn empty() -> (m: Map2) {
        Map2 { mask: [0; 1] }
    }

    fn mask(&self) -> (m: &[u32]) {
        &self.mask
    }

    fn mask_mut(&mut self) -> (m: &mut [u32]) {
        &mut self.mask
    }
}

/// The dimensions of the three map kinds.
pub proof fn lemma_map_dims()
    ensures
        Map8::SIZE == 8 && Map8::VOLUME == 512 && Map8::WORDS == 16,
        Map4::SIZE == 4 && Map4::VOLUME == 64 && Map4::WORDS == 2,
        Map2::SIZE == 2 && Map2::VOLUME == 8 && Map2::WORDS == 1,
{
}

/// A voxel `(x, y, z)` of the half-resolution map is set exactly when at least four of the
/// eight voxels `(2x + dx, 2y + dy, 2z + dz)` of the source map, with `dx`, `dy` and `dz` each
/// 0 or 1, are set.
pub proof fn lemma_downsampled_block(mask: Seq<u32>, s: int, x: int, y: int, z: int)
    ensures
        downsampled(mask, s, x, y, z) <==> (if mask_bit(mask, cube_index(2 * x, 2 * y, 2 * z, s)) { 1int } else { 0int })
            + (if mask_bit(mask, cube_index(2 * x + 1, 2 * y, 2 * z, s)) { 1int } else { 0int })
            + (if mask_bit(mask, cube_index(2 * x, 2 * y + 1, 2 * z, s)) { 1int } else { 0int })
            + (if mask_bit(mask, cube_index(2 * x + 1, 2 * y + 1, 2 * z, s)) { 1int } else { 0int })
            + (if mask_bit(mask, cube_index(2 * x, 2 * y, 2 * z + 1, s)) { 1int } else { 0int })
            + (if mask_bit(mask, cube_index(2 * x + 1, 2 * y, 2 * z + 1, s)) { 1int } else { 0int })
            + (if mask_bit(mask, cube_index(2 * x, 2 * y + 1, 2 * z + 1, s)) { 1int } else { 0int })
            + (if mask_bit(mask, cube_index(2 * x + 1, 2 * y + 1, 2 * z + 1, s)) { 1int } else { 0int }) >= 4,
{
}

} // verus!
