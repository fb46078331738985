use explr::chunk::Chunk;
use explr::coords::IVec3;
use explr::mining::{break_time_ms, MiningProgress, HAND_SPEED};
use explr::voxel::VoxelType;
use explr::world::{Interaction, InteractionOutcome, VoxelWorld};

fn solid_chunk(v: VoxelType) -> Chunk {
    let mut c = Chunk::empty();
    for x in 0..16 {
        for y in 0..16 {
            for z in 0..16 {
                c.set_voxel(IVec3::new(x, y, z), v);
            }
        }
    }
    c
}

#[test]
fn edit_on_boundary_marks_both_chunks() {
    let mut w = VoxelWorld::new();
    w.insert_chunk(IVec3::new(0, 0, 0), Chunk::empty());
    w.insert_chunk(IVec3::new(-1, 0, 0), Chunk::empty());
    w.update_chunk_mesh(usize::MAX);
    assert!(!w.needs_mesh(IVec3::new(0, 0, 0)));
    assert!(!w.needs_mesh(IVec3::new(-1, 0, 0)));
    assert!(w.apply_voxel_edit(IVec3::new(0, 5, 5), VoxelType::Stone));
    assert_eq!(w.voxel_at(IVec3::new(0, 5, 5)), VoxelType::Stone);
    assert!(w.needs_mesh(IVec3::new(0, 0, 0)));
    assert!(w.needs_mesh(IVec3::new(-1, 0, 0)));
}

#[test]
fn edit_inside_marks_only_own_chunk() {
    let mut w = VoxelWorld::new();
    w.insert_chunk(IVec3::new(0, 0, 0), Chunk::empty());
    w.insert_chunk(IVec3::new(-1, 0, 0), Chunk::empty());
    w.update_chunk_mesh(usize::MAX);
    assert!(w.apply_voxel_edit(IVec3::new(5, 5, 5), VoxelType::Stone));
    assert!(w.needs_mesh(IVec3::new(0, 0, 0)));
    assert!(!w.needs_mesh(IVec3::new(-1, 0, 0)));
    assert!(!w.apply_voxel_edit(IVec3::new(500, 5, 5), VoxelType::Stone));
}

#[test]
fn inserting_marks_loaded_face_neighbours() {
    let mut w = VoxelWorld::new();
    w.insert_chunk(IVec3::new(0, 0, 0), Chunk::empty());
    w.insert_chunk(IVec3::new(5, 0, 0), Chunk::empty());
    w.update_chunk_mesh(usize::MAX);
    w.insert_chunk(IVec3::new(0, 1, 0), Chunk::empty());
    assert!(w.needs_mesh(IVec3::new(0, 1, 0)));
    assert!(w.needs_mesh(IVec3::new(0, 0, 0)));
    assert!(!w.needs_mesh(IVec3::new(5, 0, 0)));
}

#[test]
fn spawn_list_covers_missing_ring() {
    let mut w = VoxelWorld::new();
    let want = w.spawn_chunks_around_player(IVec3::new(0, 0, 0), 1);
    assert_eq!(want.len(), 3 * 3 * 9);
    w.insert_chunk(IVec3::new(1, 0, -1), Chunk::empty());
    let want = w.spawn_chunks_around_player(IVec3::new(0, 0, 0), 1);
    assert_eq!(want.len(), 3 * 3 * 9 - 1);
    assert!(!want.contains(&IVec3::new(1, 0, -1)));
    assert!(want.contains(&IVec3::new(-1, -2, 1)));
    assert!(want.contains(&IVec3::new(0, 6, 0)));
    assert!(!want.contains(&IVec3::new(0, 7, 0)));
}

#[test]
fn setup_starts_bulk_meshing_and_blocks_streaming() {
    let mut w = VoxelWorld::new();
    let want = w.setup_world(2);
    assert_eq!(want.len(), 5 * 5 * 9);
    assert!(w.initial_meshing);
    assert!(w.spawn_chunks_around_player(IVec3::new(0, 0, 0), 2).is_empty());
    for c in want.iter() {
        w.insert_chunk(*c, Chunk::empty());
    }
    assert!(!w.spawn_player_when_ready(false, IVec3::new(0, 17, 0), true));
    let meshed = w.update_chunk_mesh(0);
    assert_eq!(meshed.len(), 5 * 5 * 9);
    assert!(!w.initial_meshing);
    assert!(w.spawn_player_when_ready(false, IVec3::new(0, 17, 0), true));
    assert!(!w.spawn_player_when_ready(true, IVec3::new(0, 17, 0), true));
    assert!(!w.spawn_player_when_ready(false, IVec3::new(0, 17, 0), false));
    assert!(!w.spawn_player_when_ready(false, IVec3::new(0, 170, 0), true));
}

#[test]
fn steady_meshing_respects_limit() {
    let mut w = VoxelWorld::new();
    for x in 0..5 {
        w.insert_chunk(IVec3::new(x * 3, 0, 0), Chunk::empty());
    }
    assert_eq!(w.update_chunk_mesh(2).len(), 2);
    assert_eq!(w.update_chunk_mesh(2).len(), 2);
    assert_eq!(w.update_chunk_mesh(2).len(), 1);
    assert_eq!(w.update_chunk_mesh(2).len(), 0);
}

#[test]
fn meshing_in_world_consults_neighbours() {
    let mut w = VoxelWorld::new();
    w.insert_chunk(IVec3::new(0, 0, 0), solid_chunk(VoxelType::Stone));
    w.insert_chunk(IVec3::new(1, 0, 0), solid_chunk(VoxelType::Stone));
    let meshed = w.update_chunk_mesh(usize::MAX);
    assert_eq!(meshed.len(), 2);
    for (_, m) in meshed.iter() {
        assert_eq!(m.collider.len(), 5 * 256);
    }
}

#[test]
fn far_chunks_are_removed_in_two_phases() {
    let mut w = VoxelWorld::new();
    w.insert_chunk(IVec3::new(0, 0, 0), Chunk::empty());
    w.insert_chunk(IVec3::new(3, 0, 0), Chunk::empty());
    w.insert_chunk(IVec3::new(0, 7, 0), Chunk::empty());
    w.despawn_far_chunks(IVec3::new(0, 0, 0), 2);
    assert!(w.get_chunk(IVec3::new(0, 0, 0)).is_some());
    assert!(w.get_chunk(IVec3::new(3, 0, 0)).is_none());
    assert!(w.get_chunk(IVec3::new(0, 7, 0)).is_none());
    assert!(!w.needs_mesh(IVec3::new(3, 0, 0)));
    let mut gone = w.apply_chunk_despawns();
    gone.sort_by_key(|c| (c.x, c.y, c.z));
    assert_eq!(gone, vec![IVec3::new(0, 7, 0), IVec3::new(3, 0, 0)]);
    assert!(w.apply_chunk_despawns().is_empty());
}

#[test]
fn reset_empties_index() {
    let mut w = VoxelWorld::new();
    w.insert_chunk(IVec3::new(0, 0, 0), Chunk::empty());
    w.reset_voxel_world();
    assert!(w.get_chunk(IVec3::new(0, 0, 0)).is_none());
    assert!(!w.needs_mesh(IVec3::new(0, 0, 0)));
}

#[test]
fn stone_takes_longer_than_dirt() {
    let stone = break_time_ms(VoxelType::Stone, HAND_SPEED).unwrap();
    let dirt = break_time_ms(VoxelType::Dirt, HAND_SPEED).unwrap();
    assert_eq!(stone, 2250);
    assert_eq!(dirt, 750);
    assert!(stone > dirt);
    assert_eq!(break_time_ms(VoxelType::Bedrock, HAND_SPEED), None);
    assert_eq!(break_time_ms(VoxelType::Stone, 20), Some(1125));
}

#[test]
fn bedrock_never_breaks() {
    let mut p = MiningProgress::new();
    let t = IVec3::new(0, -32, 0);
    for _ in 0..1000 {
        assert!(!p.advance(t, VoxelType::Bedrock, u64::MAX / 2, u32::MAX));
    }
}

#[test]
fn mining_accumulates_and_resets_on_new_target() {
    let mut p = MiningProgress::new();
    let a = IVec3::new(1, 1, 1);
    let b = IVec3::new(2, 1, 1);
    assert!(!p.advance(a, VoxelType::Dirt, 500, HAND_SPEED));
    assert!(!p.advance(b, VoxelType::Dirt, 500, HAND_SPEED));
    assert!(p.advance(b, VoxelType::Dirt, 250, HAND_SPEED));
    assert_eq!(p, MiningProgress::new());
    assert!(p.advance(a, VoxelType::TallGrass, 0, HAND_SPEED));
    p.advance(a, VoxelType::Stone, 100, HAND_SPEED);
    p.reset();
    assert_eq!(p.target, None);
}

#[test]
fn mining_and_placing_in_world() {
    let mut w = VoxelWorld::new();
    w.insert_chunk(IVec3::new(0, 0, 0), solid_chunk(VoxelType::Dirt));
    w.update_chunk_mesh(usize::MAX);
    let mut p = MiningProgress::new();
    let target = IVec3::new(3, 15, 3);
    assert_eq!(w.mine_voxel(&mut p, target, 700, HAND_SPEED), None);
    assert!(!w.needs_mesh(IVec3::new(0, 0, 0)));
    assert_eq!(w.mine_voxel(&mut p, target, 50, HAND_SPEED), Some(VoxelType::Dirt));
    assert_eq!(w.voxel_at(target), VoxelType::Air);
    assert!(w.needs_mesh(IVec3::new(0, 0, 0)));
    assert!(!w.place_voxel(target, VoxelType::Air));
    assert!(w.place_voxel(target, VoxelType::Stone));
    assert!(!w.place_voxel(target, VoxelType::Grass));
    assert_eq!(w.voxel_at(target), VoxelType::Stone);
}

#[test]
fn interaction_frames() {
    let mut w = VoxelWorld::new();
    w.insert_chunk(IVec3::new(0, 0, 0), solid_chunk(VoxelType::Stone));
    let mut p = MiningProgress::new();
    let t = IVec3::new(8, 8, 8);
    assert_eq!(w.player_interact(&mut p, Interaction::Mine(t), 2000, HAND_SPEED), InteractionOutcome::Nothing);
    assert_eq!(w.player_interact(&mut p, Interaction::Idle, 16, HAND_SPEED), InteractionOutcome::Nothing);
    assert_eq!(p, MiningProgress::new());
    assert_eq!(w.player_interact(&mut p, Interaction::Mine(t), 2000, HAND_SPEED), InteractionOutcome::Nothing);
    assert_eq!(
        w.player_interact(&mut p, Interaction::Mine(t), 250, HAND_SPEED),
        InteractionOutcome::Broke(VoxelType::Stone)
    );
    assert_eq!(
        w.player_interact(&mut p, Interaction::Place(t, VoxelType::GoldOre), 16, HAND_SPEED),
        InteractionOutcome::Placed
    );
    assert_eq!(w.voxel_at(t), VoxelType::GoldOre);
    assert_eq!(
        w.player_interact(&mut p, Interaction::Place(IVec3::new(8, 9, 8), VoxelType::Dirt), 16, HAND_SPEED),
        InteractionOutcome::Nothing
    );
}
