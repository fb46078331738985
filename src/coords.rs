use vstd::prelude::*;

use crate::chunk::in_chunk;

verus! {

/// Edge length of a chunk, in voxels.
pub const CHUNK_SIZE: i32 = 16;

/// Smallest chunk coordinate whose voxels all have an `i32` world coordinate.
pub const MIN_CHUNK_COORD: i32 = -134217728;

/// Largest chunk coordinate whose voxels all have an `i32` world coordinate.
pub const MAX_CHUNK_COORD: i32 = 134217727;

/// An integer point: a voxel position, a local position inside a chunk, or a
/// chunk coordinate.
#[derive(Clone, Copy, PartialEq, Eq, Debug, Structural)]
pub struct IVec3 {
    pub x: i32,
    pub y: i32,
    pub z: i32,
}

impl IVec3 {
    pub fn new(x: i32, y: i32, z: i32) -> (r: IVec3)
        ensures
            r == (IVec3 { x, y, z }),
    {
        IVec3 { x, y, z }
    }
}

/// A chunk coordinate whose voxels all have `i32` world coordinates.
pub open spec fn valid_chunk_key(c: IVec3) -> bool {
    &&& MIN_CHUNK_COORD <= c.x <= MAX_CHUNK_COORD
    &&& MIN_CHUNK_COORD <= c.y <= MAX_CHUNK_COORD
    &&& MIN_CHUNK_COORD <= c.z <= MAX_CHUNK_COORD
}

/// `floor(v / 16)`.
pub open spec fn chunk_of(v: int) -> int {
    v / 16
}

/// `v` modulo 16, always in `[0, 16)`.
pub open spec fn local_of(v: int) -> int {
    v % 16
}

pub open spec fn spec_world_to_chunk(p: IVec3) -> IVec3 {
    IVec3 { x: chunk_of(p.x as int) as i32, y: chunk_of(p.y as int) as i32, z: chunk_of(p.z as int) as i32 }
}

pub open spec fn spec_voxel_to_local(p: IVec3) -> IVec3 {
    IVec3 { x: local_of(p.x as int) as i32, y: local_of(p.y as int) as i32, z: local_of(p.z as int) as i32 }
}

/// `floor(v / 16)` on machine integers, negative values included.
pub(crate) fn floor_div16(v: i32) -> (r: i32)
    ensures
        r as int == chunk_of(v as int),
        MIN_CHUNK_COORD <= r <= MAX_CHUNK_COORD,
{
    if v >= 0 {
        let r = v / 16;
        assert(r as int == v as int / 16) by (nonlinear_arith)
            requires
                v >= 0,
                r == v / 16,
        ;
        r
    } else {
        let w: i32 = -(v + 1);
        let q = w / 16;
        assert(-(q as int) - 1 == (v as int) / 16 && q <= 134217727) by (nonlinear_arith)
            requires
                w >= 0,
                q == w / 16,
                v == -(w + 1),
                w <= 2147483647,
        ;
        -q - 1
    }
}

/// `v` modulo 16 on machine integers, in `[0, 16)` for negative values too.
pub(crate) fn rem16(v: i32) -> (r: i32)
    ensures
        r as int == local_of(v as int),
        0 <= r < 16,
{
    let q = floor_div16(v);
    assert(v - 16 * q == (v as int) % 16 && 0 <= v - 16 * q < 16) by (nonlinear_arith)
        requires
            q as int == (v as int) / 16,
    ;
    v - 16 * q
}

proof fn lemma_div_mod16(v: int)
    requires
        i32::MIN <= v <= i32::MAX,
    ensures
        0 <= v % 16 < 16,
        (v / 16) * 16 + v % 16 == v,
        i32::MIN <= v / 16 <= i32::MAX,
{
    assert(0 <= v % 16 < 16 && (v / 16) * 16 + v % 16 == v && i32::MIN <= v / 16 <= i32::MAX) by (nonlinear_arith)
        requires
            i32::MIN <= v <= i32::MAX,
    ;
}

/// Every voxel position, west and south of the origin too, has a local
/// position in `[0, 16)` on each axis, and it lies at that offset from the
/// origin of its chunk.
pub proof fn lemma_voxel_to_local_in_range(p: IVec3)
    ensures
        in_chunk(spec_voxel_to_local(p)),
        spec_world_to_chunk(p).x * 16 + spec_voxel_to_local(p).x == p.x,
        spec_world_to_chunk(p).y * 16 + spec_voxel_to_local(p).y == p.y,
        spec_world_to_chunk(p).z * 16 + spec_voxel_to_local(p).z == p.z,
{
    lemma_div_mod16(p.x as int);
    lemma_div_mod16(p.y as int);
    lemma_div_mod16(p.z as int);
    assert(0 <= p.x % 16 < 16);
    assert(0 <= p.y % 16 < 16);
    assert(0 <= p.z % 16 < 16);
}

} // verus!
