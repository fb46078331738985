use vstd::prelude::*;

use crate::coords::IVec3;
use crate::voxel::VoxelType;

verus! {

/// Number of voxels in a chunk.
pub const CHUNK_VOLUME: usize = 4096;

/// A local position inside a chunk: every axis in `[0, 16)`.
pub open spec fn in_chunk(p: IVec3) -> bool {
    &&& 0 <= p.x < 16
    &&& 0 <= p.y < 16
    &&& 0 <= p.z < 16
}

/// Where a local position is stored: x-major, then y, then z.
pub open spec fn local_index(p: IVec3) -> int {
    p.x * 256 + p.y * 16 + p.z
}

/// The local position stored at index `i`.
pub open spec fn index_pos(i: int) -> IVec3 {
    IVec3 { x: (i / 256) as i32, y: ((i / 16) % 16) as i32, z: (i % 16) as i32 }
}

pub proof fn lemma_index_pos(i: int)
    requires
        0 <= i < 4096,
    ensures
        in_chunk(index_pos(i)),
        local_index(index_pos(i)) == i,
{
    assert(0 <= i / 256 < 16 && 0 <= (i / 16) % 16 < 16 && 0 <= i % 16 < 16
        && (i / 256) * 256 + ((i / 16) % 16) * 16 + i % 16 == i) by (nonlinear_arith)
        requires
            0 <= i < 4096,
    ;
}

pub proof fn lemma_local_index(p: IVec3)
    requires
        in_chunk(p),
    ensures
        0 <= local_index(p) < 4096,
        index_pos(local_index(p)) == p,
{
    let i = local_index(p);
    assert(i / 256 == p.x && (i / 16) % 16 == p.y && i % 16 == p.z) by (nonlinear_arith)
        requires
            in_chunk(p),
            i == p.x * 256 + p.y * 16 + p.z,
    ;
}

/// A cube of 16 x 16 x 16 voxels.
#[derive(Clone, Copy)]
pub struct Chunk {
    pub voxels: [VoxelType; 4096],
}

impl Chunk {
    /// The voxel at a local position; air outside the chunk.
    pub open spec fn voxel_at(&self, p: IVec3) -> VoxelType {
        if in_chunk(p) {
            self.voxels@[local_index(p)]
        } else {
            VoxelType::Air
        }
    }

    /// A chunk of air.
    pub fn empty() -> (c: Chunk)
        ensures
            forall|i: int| 0 <= i < 4096 ==> c.voxels@[i] == VoxelType::Air,
    {
        Chunk { voxels: [VoxelType::Air; 4096] }
    }

    /// The voxel at a local position, or air where the position lies outside the chunk.
    pub fn get_voxel(&self, pos: IVec3) -> (r: VoxelType)
        ensures
            r == self.voxel_at(pos),
    {
        if pos.x < 0 || pos.x >= 16 || pos.y < 0 || pos.y >= 16 || pos.z < 0 || pos.z >= 16 {
            return VoxelType::Air;
        }
        proof {
            lemma_local_index(pos);
        }
        let i = (pos.x * 256 + pos.y * 16 + pos.z) as usize;
        self.voxels[i]
    }

    /// Overwrites the voxel at a local position; does nothing outside the chunk.
    pub fn set_voxel(&mut self, pos: IVec3, voxel: VoxelType)
        ensures
            in_chunk(pos) ==> final(self).voxels@ == old(self).voxels@.update(local_index(pos), voxel),
            !in_chunk(pos) ==> *final(self) == *old(self),
    {
        if pos.x >= 0 && pos.x < 16 && pos.y >= 0 && pos.y < 16 && pos.z >= 0 && pos.z < 16 {
            proof {
                lemma_local_index(pos);
            }
            let i = (pos.x * 256 + pos.y * 16 + pos.z) as usize;
            self.voxels[i] = voxel;
        }
    }
}

} // verus!
