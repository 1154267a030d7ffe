//! Small integer vector types used for voxel, brick and grid coordinates.
use vstd::prelude::*;

verus! {

/// A three-component vector of signed 32-bit integers.
#[derive(Debug, Clone, Copy, PartialEq, Eq, Hash)]
pub struct IVec3 {
    pub x: i32,
    pub y: i32,
    pub z: i32,
}

/// A three-component vector of unsigned 32-bit integers.
#[derive(Debug, Clone, Copy, PartialEq, Eq, Hash)]
pub struct UVec3 {
    pub x: u32,
    pub y: u32,
    pub z: u32,
}

/// A three-component vector of `usize` values.
#[derive(Debug, Clone, Copy, PartialEq, Eq, Hash)]
pub struct USizeVec3 {
    pub x: usize,
    pub y: usize,
    pub z: usize,
}

/// Row-major index of `(x, y, z)` in a box whose rows are `sx` long and whose slices are
/// `sx * sy` large.
pub open spec fn flat_index(x: int, y: int, z: int, sx: int, sy: int) -> int {
    x + y * sx + z * (sx * sy)
}

/// The index of `(x, y, z)` in a cube of side `s`.
pub open spec fn cube_index(x: int, y: int, z: int, s: int) -> int {
    flat_index(x, y, z, s, s)
}

/// Euclidean quotient, as `i32::div_euclid` computes it (the remainder is never negative).
pub open spec fn div_euclid(a: int, b: int) -> int {
    a / b
}

/// Euclidean remainder, as `i32::rem_euclid` computes it.
pub open spec fn rem_euclid(a: int, b: int) -> int {
    a % b
}

/// Within a box of size `(sx, sy, _)`, different in-box coordinates have different indices,
/// and every index of an in-box coordinate is below the box volume.
pub proof fn lemma_flat_index_bounds(x: int, y: int, z: int, sx: int, sy: int, sz: int)
    requires
        0 <= x < sx,
        0 <= y < sy,
        0 <= z < sz,
    ensures
        0 <= flat_index(x, y, z, sx, sy) < sx * sy * sz,
{
    assert(0 <= y * sx <= (sy - 1) * sx) by (nonlinear_arith)
        requires
            0 <= y < sy,
            0 < sx,
    ;
    assert(0 <= z * (sx * sy) <= (sz - 1) * (sx * sy)) by (nonlinear_arith)
        requires
            0 <= z < sz,
            0 < sx,
            0 < sy,
    ;
    assert((sy - 1) * sx + sx == sy * sx) by (nonlinear_arith);
    assert((sz - 1) * (sx * sy) + sx * sy == sx * sy * sz) by (nonlinear_arith);
}

/// Two in-box coordinates with the same index are the same coordinate.
pub proof fn lemma_flat_index_injective(
    x1: int,
    y1: int,
    z1: int,
    x2: int,
    y2: int,
    z2: int,
    sx: int,
    sy: int,
    sz: int,
)
    requires
        0 <= x1 < sx,
        0 <= y1 < sy,
        0 <= z1 < sz,
        0 <= x2 < sx,
        0 <= y2 < sy,
        0 <= z2 < sz,
        flat_index(x1, y1, z1, sx, sy) == flat_index(x2, y2, z2, sx, sy),
    ensures
        x1 == x2 && y1 == y2 && z1 == z2,
{
    let a = sx * sy;
    lemma_flat_index_bounds(x1, y1, 0, sx, sy, 1);
    lemma_flat_index_bounds(x2, y2, 0, sx, sy, 1);
    assert(sx * sy * 1 == a) by (nonlinear_arith)
        requires a == sx * sy;
    let r1 = x1 + y1 * sx;
    let r2 = x2 + y2 * sx;
    assert(z1 == z2) by (nonlinear_arith)
        requires
            r1 + z1 * a == r2 + z2 * a,
            0 <= r1 < a,
            0 <= r2 < a,
    ;
    assert(y1 == y2) by (nonlinear_arith)
        requires
            x1 + y1 * sx == x2 + y2 * sx,
            0 <= x1 < sx,
            0 <= x2 < sx,
    ;
}

impl IVec3 {
    /// Builds a vector from its components.
    pub fn new(x: i32, y: i32, z: i32) -> (v: IVec3)
        ensures
            v.x == x && v.y == y && v.z == z,
    {
        IVec3 { x, y, z }
    }

    /// A vector with all components equal to `v`.
    pub fn splat(v: i32) -> (r: IVec3)
        ensures
            r.x == v && r.y == v && r.z == v,
    {
        IVec3 { x: v, y: v, z: v }
    }

    /// Component-wise sum.
    pub fn plus(self, rhs: IVec3) -> (r: IVec3)
        requires
            i32::MIN <= self.x + rhs.x <= i32::MAX,
            i32::MIN <= self.y + rhs.y <= i32::MAX,
            i32::MIN <= self.z + rhs.z <= i32::MAX,
        ensures
            r.x == self.x + rhs.x,
            r.y == self.y + rhs.y,
            r.z == self.z + rhs.z,
    {
        IVec3 { x: self.x + rhs.x, y: self.y + rhs.y, z: self.z + rhs.z }
    }

    /// Component-wise Euclidean division.
    pub fn div_euclid(self, rhs: IVec3) -> (r: IVec3)
        requires
            rhs.x > 0 && rhs.y > 0 && rhs.z > 0,
        ensures
            r.x == div_euclid(self.x as int, rhs.x as int),
            r.y == div_euclid(self.y as int, rhs.y as int),
            r.z == div_euclid(self.z as int, rhs.z as int),
    {
        IVec3 {
            x: euclid_quotient(self.x, rhs.x),
            y: euclid_quotient(self.y, rhs.y),
            z: euclid_quotient(self.z, rhs.z),
        }
    }

    /// Component-wise Euclidean remainder; every component of the result lies in `0..rhs`.
    pub fn rem_euclid(self, rhs: IVec3) -> (r: IVec3)
        requires
            rhs.x > 0 && rhs.y > 0 && rhs.z > 0,
        ensures
            r.x == rem_euclid(self.x as int, rhs.x as int),
            r.y == rem_euclid(self.y as int, rhs.y as int),
            r.z == rem_euclid(self.z as int, rhs.z as int),
    {
        IVec3 {
            x: euclid_remainder(self.x, rhs.x),
            y: euclid_remainder(self.y, rhs.y),
            z: euclid_remainder(self.z, rhs.z),
        }
    }

    /// Reinterprets every component as `u32`, as an `as` cast does.
    pub fn as_uvec3(self) -> (r: UVec3)
        ensures
            r.x == self.x as u32,
            r.y == self.y as u32,
            r.z == self.z as u32,
    {
        UVec3 { x: self.x as u32, y: self.y as u32, z: self.z as u32 }
    }

    /// Reinterprets every component as `usize`, as an `as` cast does.
    pub fn as_usizevec3(self) -> (r: USizeVec3)
        ensures
            r.x == self.x as usize,
            r.y == self.y as usize,
            r.z == self.z as usize,
    {
        USizeVec3 { x: self.x as usize, y: self.y as usize, z: self.z as usize }
    }
}

fn euclid_quotient(a: i32, b: i32) -> (q: i32)
    requires
        b > 0,
    ensures
        q == div_euclid(a as int, b as int),
{
    proof {
        if a >= 0 {
            vstd::arithmetic::div_mod::lemma_div_pos_is_pos(a as int, b as int);
            vstd::arithmetic::div_mod::lemma_div_is_ordered_by_denominator(a as int, 1, b as int);
        } else {
            vstd::arithmetic::div_mod::lemma_fundamental_div_mod(a as int, b as int);
            assert((a as int) / (b as int) >= a) by (nonlinear_arith)
                requires
                    a < 0,
                    b > 0,
                    (a as int) == b * ((a as int) / (b as int)) + (a as int) % (b as int),
                    0 <= (a as int) % (b as int) < b,
            ;
            assert((a as int) / (b as int) < 0) by (nonlinear_arith)
                requires
                    a < 0,
                    b > 0,
                    (a as int) == b * ((a as int) / (b as int)) + (a as int) % (b as int),
                    0 <= (a as int) % (b as int) < b,
            ;
        }
    }
    a.checked_div_euclid(b).unwrap()
}

fn euclid_remainder(a: i32, b: i32) -> (r: i32)
    requires
        b > 0,
    ensures
        r == rem_euclid(a as int, b as int),
        0 <= r < b,
{
    proof {
        vstd::arithmetic::div_mod::lemma_fundamental_div_mod(a as int, b as int);
    }
    a.checked_rem_euclid(b).unwrap()
}

impl UVec3 {
    /// Builds a vector from its components.
    pub fn new(x: u32, y: u32, z: u32) -> (v: UVec3)
        ensures
            v.x == x && v.y == y && v.z == z,
    {
        UVec3 { x, y, z }
    }

    /// Widens every component to `usize`.
    pub fn as_usizevec3(self) -> (r: USizeVec3)
        ensures
            r.x == self.x as usize,
            r.y == self.y as usize,
            r.z == self.z as usize,
    {
        USizeVec3 { x: self.x as usize, y: self.y as usize, z: self.z as usize }
    }
}

impl USizeVec3 {
    /// Builds a vector from its components.
    pub fn new(x: usize, y: usize, z: usize) -> (v: USizeVec3)
        ensures
            v.x == x && v.y == y && v.z == z,
    {
        USizeVec3 { x, y, z }
    }

    /// A vector with all components equal to `v`.
    pub fn splat(v: usize) -> (r: USizeVec3)
        ensures
            r.x == v && r.y == v && r.z == v,
    {
        USizeVec3 { x: v, y: v, z: v }
    }

    /// Product of the components.
    pub fn element_product(self) -> (r: usize)
        requires
            self.x * self.y <= usize::MAX,
            self.x * self.y * self.z <= usize::MAX,
        ensures
            r == self.x * self.y * self.z,
    {
        self.x * self.y * self.z
    }

    /// Reinterprets every component as `i32`, as an `as` cast does.
    pub fn as_ivec3(self) -> (r: IVec3)
        ensures
            r.x == self.x as i32,
            r.y == self.y as i32,
            r.z == self.z as i32,
    {
        IVec3 { x: self.x as i32, y: self.y as i32, z: self.z as i32 }
    }
}

/// Row-major index of `pos` within a box of the given size.
pub fn flatten(pos: USizeVec3, size: USizeVec3) -> (r: usize)
    requires
        flat_index(pos.x as int, pos.y as int, pos.z as int, size.x as int, size.y as int)
            <= usize::MAX,
    ensures
        r == flat_index(pos.x as int, pos.y as int, pos.z as int, size.x as int, size.y as int),
{
    let ghost t = flat_index(pos.x as int, pos.y as int, pos.z as int, size.x as int, size.y as int);
    assert(pos.y * size.x >= 0 && pos.z * (size.x * size.y) >= 0) by (nonlinear_arith);
    assert(size.x * size.y * pos.z == pos.z * (size.x * size.y)) by (nonlinear_arith);
    let a = pos.y * size.x;
    let b = if pos.z == 0 {
        0
    } else {
        assert(size.x * size.y <= pos.z * (size.x * size.y)) by (nonlinear_arith)
            requires pos.z >= 1, size.x >= 0, size.y >= 0;
        let xy = size.x * size.y;
        pos.z * xy
    };
    pos.x + a + b
}

} // verus!
