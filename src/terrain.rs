use vstd::prelude::*;

use crate::chunk::{index_pos, lemma_index_pos, Chunk};
use crate::coords::{valid_chunk_key, IVec3};
use crate::voxel::VoxelType;

verus! {

/// The lowest layer of the world: bedrock. Below it lies stone.
pub const WORLD_MIN_Y: i32 = -32;

/// The highest world y that generation fills.
pub const WORLD_MAX_Y: i32 = 96;

pub open spec fn abs_int(v: int) -> int {
    if v < 0 {
        -v
    } else {
        v
    }
}

/// The per-voxel roll in `[0, 100)` that decides which ore a stone voxel holds.
pub open spec fn ore_roll(x: int, y: int, z: int) -> int {
    abs_int(x * 734287 + y * 912931 + z * 1237) % 100
}

/// The stone or ore that fills the world below the surface at `(x, y, z)`.
pub open spec fn stone_variant(x: int, y: int, z: int) -> VoxelType {
    let roll = ore_roll(x, y, z);
    if y < 10 && roll < 2 {
        VoxelType::DiamondOre
    } else if y < 20 && roll < 4 {
        VoxelType::GoldOre
    } else if y < 40 && roll < 7 {
        VoxelType::IronOre
    } else if roll < 12 {
        VoxelType::CoalOre
    } else {
        VoxelType::Stone
    }
}

/// Whether the column at `(x, z)` carries tall grass above its surface.
pub open spec fn has_tall_grass(x: int, z: int) -> bool {
    abs_int(x * 734287 + z * 1237) % 100 >= 95
}

/// A surface height held inside the vertical band of the world.
pub open spec fn clamp_height(h: int) -> int {
    if h < WORLD_MIN_Y + 1 {
        WORLD_MIN_Y + 1
    } else if h > WORLD_MAX_Y - 1 {
        WORLD_MAX_Y - 1
    } else {
        h
    }
}

/// The voxel that generation puts at local position `p` of chunk `key`, where
/// `heights[x * 16 + z]` is the surface height sampled for column `(x, z)`.
pub open spec fn generated_voxel(key: IVec3, heights: Seq<i32>, p: IVec3) -> VoxelType {
    let wx = key.x * 16 + p.x;
    let wy = key.y * 16 + p.y;
    let wz = key.z * 16 + p.z;
    let h = clamp_height(heights[p.x * 16 + p.z] as int);
    if wy > WORLD_MAX_Y {
        VoxelType::Air
    } else if wy == WORLD_MIN_Y {
        VoxelType::Bedrock
    } else if wy < WORLD_MIN_Y {
        VoxelType::Stone
    } else if wy < h {
        stone_variant(wx, wy, wz)
    } else if wy == h {
        VoxelType::Grass
    } else if wy == h + 1 && p.y >= 1 && has_tall_grass(wx, wz) {
        VoxelType::TallGrass
    } else {
        VoxelType::Air
    }
}

fn abs_i64(v: i64) -> (r: i64)
    requires
        v > i64::MIN,
    ensures
        r == abs_int(v as int),
{
    if v < 0 {
        -v
    } else {
        v
    }
}

/// Chooses stone or one of the ores for the world voxel `(x, y, z)`: diamond is
/// rarest and only deep down, then gold, iron and coal.
pub fn select_stone_variant(x: i32, y: i32, z: i32) -> (r: VoxelType)
    ensures
        r == stone_variant(x as int, y as int, z as int),
{
    let hash = abs_i64(x as i64 * 734287 + y as i64 * 912931 + z as i64 * 1237);
    let roll = hash % 100;
    if y < 10 && roll < 2 {
        VoxelType::DiamondOre
    } else if y < 20 && roll < 4 {
        VoxelType::GoldOre
    } else if y < 40 && roll < 7 {
        VoxelType::IronOre
    } else if roll < 12 {
        VoxelType::CoalOre
    } else {
        VoxelType::Stone
    }
}

fn tall_grass_at(x: i32, z: i32) -> (r: bool)
    ensures
        r == has_tall_grass(x as int, z as int),
{
    let hash = abs_i64(x as i64 * 734287 + z as i64 * 1237);
    hash % 100 >= 95
}

/// The range of chunk y coordinates that generation fills: the chunks that
/// hold world y from `WORLD_MIN_Y` to `WORLD_MAX_Y`.
pub fn world_chunk_y_range() -> (r: (i32, i32))
    ensures
        r.0 == WORLD_MIN_Y / 16,
        r.1 == WORLD_MAX_Y / 16,
        r == (-2i32, 6i32),
{
    (-2, 6)
}

/// The voxel at local position `(vx, vy, vz)` of chunk `key`, given the
/// clamped surface height of its column.
fn column_voxel(key: IVec3, heights: &[i32; 256], vx: i32, vy: i32, vz: i32) -> (r: VoxelType)
    requires
        valid_chunk_key(key),
        0 <= vx < 16,
        0 <= vy < 16,
        0 <= vz < 16,
    ensures
        r == generated_voxel(key, heights@, IVec3 { x: vx, y: vy, z: vz }),
{
    let wx = key.x * 16 + vx;
    let wy = key.y * 16 + vy;
    let wz = key.z * 16 + vz;
    let raw = heights[(vx * 16 + vz) as usize];
    let h = if raw < WORLD_MIN_Y + 1 {
        WORLD_MIN_Y + 1
    } else if raw > WORLD_MAX_Y - 1 {
        WORLD_MAX_Y - 1
    } else {
        raw
    };
    if wy > WORLD_MAX_Y {
        VoxelType::Air
    } else if wy == WORLD_MIN_Y {
        VoxelType::Bedrock
    } else if wy < WORLD_MIN_Y {
        VoxelType::Stone
    } else if wy < h {
        select_stone_variant(wx, wy, wz)
    } else if wy == h {
        VoxelType::Grass
    } else if wy == h + 1 && vy >= 1 && tall_grass_at(wx, wz) {
        VoxelType::TallGrass
    } else {
        VoxelType::Air
    }
}

/// Fills chunk `key` from the surface heights of its 256 columns
/// (`heights[x * 16 + z]`, clamped to the world's band): bedrock on the lowest
/// layer and stone below it, stone and ores under the surface, grass on it,
/// and now and then tall grass just above.
pub fn generate_chunk(chunk_key: IVec3, heights: &[i32; 256]) -> (r: Chunk)
    requires
        valid_chunk_key(chunk_key),
    ensures
        forall|i: int|
            0 <= i < 4096 ==> r.voxels@[i] == generated_voxel(chunk_key, heights@, index_pos(i)),
{
    let mut chunk = Chunk::empty();
    let mut i: usize = 0;
    while i < 4096
        invariant
            0 <= i <= 4096,
            valid_chunk_key(chunk_key),
            forall|j: int|
                0 <= j < i ==> chunk.voxels@[j] == generated_voxel(
                    chunk_key,
                    heights@,
                    index_pos(j),
                ),
        decreases 4096 - i,
    {
        proof {
            lemma_index_pos(i as int);
        }
        let vx = (i / 256) as i32;
        let vy = ((i / 16) % 16) as i32;
        let vz = (i % 16) as i32;
        let v = column_voxel(chunk_key, heights, vx, vy, vz);
        chunk.voxels[i] = v;
        i = i + 1;
    }
    chunk
}

/// Generation is a function of the chunk coordinate and the column heights:
/// two chunks generated from the same inputs are identical.
pub proof fn lemma_generation_deterministic(key: IVec3, heights: Seq<i32>, a: Chunk, b: Chunk)
    requires
        forall|i: int| 0 <= i < 4096 ==> a.voxels@[i] == generated_voxel(key, heights, index_pos(i)),
        forall|i: int| 0 <= i < 4096 ==> b.voxels@[i] == generated_voxel(key, heights, index_pos(i)),
    ensures
        a == b,
{
    assert(a.voxels =~= b.voxels);
}

} // verus!
