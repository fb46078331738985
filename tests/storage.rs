use explr::chunk::Chunk;
use explr::coords::IVec3;
use explr::voxel::VoxelType;
use explr::world::VoxelWorld;

#[test]
fn get_voxel_outside_chunk_is_air() {
    let mut c = Chunk::empty();
    c.set_voxel(IVec3::new(0, 0, 0), VoxelType::Stone);
    assert_eq!(c.get_voxel(IVec3::new(0, 0, 0)), VoxelType::Stone);
    assert_eq!(c.get_voxel(IVec3::new(-1, 0, 0)), VoxelType::Air);
    assert_eq!(c.get_voxel(IVec3::new(0, 16, 0)), VoxelType::Air);
    assert_eq!(c.get_voxel(IVec3::new(0, 0, 99)), VoxelType::Air);
}

#[test]
fn set_voxel_outside_chunk_is_ignored() {
    let mut c = Chunk::empty();
    c.set_voxel(IVec3::new(16, 0, 0), VoxelType::Stone);
    c.set_voxel(IVec3::new(0, -1, 0), VoxelType::Stone);
    assert!(c.voxels.iter().all(|v| *v == VoxelType::Air));
}

#[test]
fn set_voxel_overwrites_bedrock() {
    let mut c = Chunk::empty();
    let p = IVec3::new(15, 15, 15);
    c.set_voxel(p, VoxelType::Bedrock);
    c.set_voxel(p, VoxelType::Air);
    assert_eq!(c.get_voxel(p), VoxelType::Air);
    c.set_voxel(p, VoxelType::Dirt);
    assert_eq!(c.voxels[15 * 256 + 15 * 16 + 15], VoxelType::Dirt);
}

#[test]
fn voxel_to_local_wraps_negative_coordinates() {
    assert_eq!(VoxelWorld::voxel_to_local_pos(IVec3::new(-1, 0, 0)), IVec3::new(15, 0, 0));
    assert_eq!(VoxelWorld::voxel_to_local_pos(IVec3::new(-16, -17, 33)), IVec3::new(0, 15, 1));
    assert_eq!(
        VoxelWorld::voxel_to_local_pos(IVec3::new(i32::MIN, i32::MAX, 0)),
        IVec3::new(0, 15, 0)
    );
}

#[test]
fn voxel_to_local_always_in_range() {
    for v in -40..40 {
        let l = VoxelWorld::voxel_to_local_pos(IVec3::new(v, v * 7, -v * 3));
        let c = VoxelWorld::world_to_chunk_pos(IVec3::new(v, v * 7, -v * 3));
        for (local, chunk, world) in [(l.x, c.x, v), (l.y, c.y, v * 7), (l.z, c.z, -v * 3)] {
            assert!((0..16).contains(&local));
            assert_eq!(chunk * 16 + local, world);
        }
    }
}

#[test]
fn world_to_chunk_floors() {
    assert_eq!(VoxelWorld::world_to_chunk_pos(IVec3::new(-1, 15, 16)), IVec3::new(-1, 0, 1));
    assert_eq!(VoxelWorld::world_to_chunk_pos(IVec3::new(-16, -17, 31)), IVec3::new(-1, -2, 1));
}

#[test]
fn hardness_table() {
    assert_eq!(VoxelType::Stone.hardness(), Some(15));
    assert_eq!(VoxelType::Dirt.hardness(), Some(5));
    assert_eq!(VoxelType::Grass.hardness(), Some(6));
    assert_eq!(VoxelType::DiamondOre.hardness(), Some(30));
    assert_eq!(VoxelType::TallGrass.hardness(), Some(0));
    assert_eq!(VoxelType::Bedrock.hardness(), None);
    assert!(VoxelType::Stone.is_opaque_exec());
    assert!(!VoxelType::TallGrass.is_opaque_exec());
    assert!(!VoxelType::Air.is_opaque_exec());
}
