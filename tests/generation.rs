use explr::chunk::Chunk;
use explr::coords::IVec3;
use explr::mesher::{remesh_chunk, Face, QuadKind};
use explr::terrain::{generate_chunk, select_stone_variant, world_chunk_y_range};
use explr::voxel::VoxelType;
use explr::world::VoxelWorld;

fn local(c: &Chunk, x: i32, y: i32, z: i32) -> VoxelType {
    c.get_voxel(IVec3::new(x, y, z))
}

#[test]
fn generation_is_deterministic() {
    let mut heights = [0i32; 256];
    for (i, h) in heights.iter_mut().enumerate() {
        *h = (i as i32 * 37) % 50 - 10;
    }
    for key in [IVec3::new(0, 0, 0), IVec3::new(-3, -1, 7), IVec3::new(5, 1, -2)] {
        let a = generate_chunk(key, &heights);
        let b = generate_chunk(key, &heights);
        assert!(a.voxels == b.voxels);
    }
}

#[test]
fn flat_surface_scenario() {
    let heights = [14i32; 256];
    let c = generate_chunk(IVec3::new(0, 0, 0), &heights);
    assert_eq!(local(&c, 0, 14, 0), VoxelType::Grass);
    let below = local(&c, 0, 13, 0);
    assert!(matches!(
        below,
        VoxelType::Stone | VoxelType::CoalOre | VoxelType::IronOre | VoxelType::GoldOre | VoxelType::DiamondOre
    ));
    assert_eq!(local(&c, 0, 15, 0), VoxelType::Air);

    let mut world = VoxelWorld::new();
    for key in [
        IVec3::new(0, 0, 0),
        IVec3::new(-1, 0, 0),
        IVec3::new(1, 0, 0),
        IVec3::new(0, 0, -1),
        IVec3::new(0, 0, 1),
        IVec3::new(0, -1, 0),
    ] {
        world.insert_chunk(key, generate_chunk(key, &heights));
    }
    let meshed = world.update_chunk_mesh(usize::MAX);
    let mesh = &meshed.iter().find(|(k, _)| *k == IVec3::new(0, 0, 0)).unwrap().1;
    let column: Vec<_> = mesh.collider.iter().filter(|q| q.pos.x == 0 && q.pos.z == 0).collect();
    assert_eq!(column.len(), 1);
    assert_eq!(column[0].pos.y, 14);
    assert_eq!(column[0].kind, QuadKind::Cube(Face::Top));
    for q in mesh.collider.iter().filter(|q| q.kind == QuadKind::Cube(Face::Top)) {
        assert_eq!(q.pos.y, 14);
    }
    for q in mesh.grass_top.iter() {
        assert_eq!(q.pos.y, 14);
    }
    let alone = remesh_chunk(&c, &[None, None, None, None, None, None]);
    assert_eq!(alone.grass_top, mesh.grass_top);
    assert_eq!(mesh.grass_top.len(), 256);
}

#[test]
fn bedrock_floor_and_stone_below() {
    let heights = [0i32; 256];
    let c = generate_chunk(IVec3::new(0, -2, 0), &heights);
    assert_eq!(local(&c, 3, 0, 3), VoxelType::Bedrock);
    assert_eq!(local(&c, 3, 1, 3), select_stone_variant(3, -31, 3));
    let deeper = generate_chunk(IVec3::new(0, -3, 0), &heights);
    assert!(deeper.voxels.iter().all(|v| *v == VoxelType::Stone));
}

#[test]
fn height_is_clamped_to_band() {
    let high = [1000i32; 256];
    let top = generate_chunk(IVec3::new(0, 5, 0), &high);
    assert_eq!(local(&top, 0, 15, 0), VoxelType::Grass);
    let above = generate_chunk(IVec3::new(0, 6, 0), &high);
    assert!(above.voxels.iter().all(|v| *v == VoxelType::Air || *v == VoxelType::TallGrass));
    let low = [-1000i32; 256];
    let floor = generate_chunk(IVec3::new(0, -2, 0), &low);
    assert_eq!(local(&floor, 0, 0, 0), VoxelType::Bedrock);
    assert_eq!(local(&floor, 0, 1, 0), VoxelType::Grass);
    assert_ne!(local(&floor, 0, 2, 0), VoxelType::Grass);
}

#[test]
fn ore_selection_values() {
    assert_eq!(select_stone_variant(0, 13, 0), VoxelType::GoldOre);
    assert_eq!(select_stone_variant(0, 0, 0), VoxelType::DiamondOre);
    assert_eq!(select_stone_variant(1, 50, 0), VoxelType::Stone);
    assert_eq!(select_stone_variant(0, 50, 0), VoxelType::Stone);
}

#[test]
fn chunk_layers_of_the_world() {
    assert_eq!(world_chunk_y_range(), (-2, 6));
}
