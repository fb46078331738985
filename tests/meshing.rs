use explr::chunk::Chunk;
use explr::coords::IVec3;
use explr::geometry::{MeshBuffers, Uv};
use explr::mesher::{remesh_chunk, ChunkMesh, CrossPlane, Face, Material, Quad, QuadKind};
use explr::voxel::VoxelType;

const NONE: [Option<Chunk>; 6] = [None, None, None, None, None, None];

fn cube(p: IVec3, f: Face) -> Quad {
    Quad { pos: p, kind: QuadKind::Cube(f) }
}

fn count(v: &[Quad], q: Quad) -> usize {
    v.iter().filter(|x| **x == q).count()
}

fn all_batches(m: &ChunkMesh) -> Vec<&Vec<Quad>> {
    vec![
        &m.grass_top, &m.grass_side, &m.dirt, &m.stone, &m.coal_ore, &m.iron_ore, &m.gold_ore,
        &m.diamond_ore, &m.bedrock, &m.tall_grass,
    ]
}

#[test]
fn lone_grass_splits_into_three_batches() {
    let mut c = Chunk::empty();
    let p = IVec3::new(4, 5, 6);
    c.set_voxel(p, VoxelType::Grass);
    let m = remesh_chunk(&c, &NONE);
    assert_eq!(m.grass_top, vec![cube(p, Face::Top)]);
    assert_eq!(m.dirt, vec![cube(p, Face::Bottom)]);
    assert_eq!(
        m.grass_side,
        vec![cube(p, Face::East), cube(p, Face::West), cube(p, Face::South), cube(p, Face::North)]
    );
    assert_eq!(m.collider.len(), 6);
    let non_empty = all_batches(&m).iter().filter(|b| !b.is_empty()).count();
    assert_eq!(non_empty, 3);
    let batches = m.render_batches();
    let mats: Vec<Material> = batches.iter().map(|b| b.0).collect();
    assert_eq!(mats, vec![Material::GrassTop, Material::GrassSide, Material::Dirt]);
}

#[test]
fn shared_face_between_stones_is_culled() {
    let mut c = Chunk::empty();
    let a = IVec3::new(3, 3, 3);
    let b = IVec3::new(4, 3, 3);
    c.set_voxel(a, VoxelType::Stone);
    c.set_voxel(b, VoxelType::Stone);
    let m = remesh_chunk(&c, &NONE);
    assert_eq!(count(&m.collider, cube(a, Face::East)), 0);
    assert_eq!(count(&m.collider, cube(b, Face::West)), 0);
    assert_eq!(count(&m.collider, cube(a, Face::West)), 1);
    assert_eq!(m.collider.len(), 10);
    assert_eq!(m.stone.len(), 10);
}

#[test]
fn face_towards_air_drawn_once_with_outward_normal() {
    let mut c = Chunk::empty();
    let a = IVec3::new(7, 7, 7);
    c.set_voxel(a, VoxelType::Dirt);
    let m = remesh_chunk(&c, &NONE);
    assert_eq!(count(&m.collider, cube(a, Face::Top)), 1);
    assert_eq!(m.collider.iter().filter(|q| q.pos == IVec3::new(7, 8, 7)).count(), 0);
    let b = MeshBuffers::from_quads(&m.collider);
    let top = m.collider.iter().position(|q| *q == cube(a, Face::Top)).unwrap();
    for c in 0..4 {
        assert_eq!(b.vertices[4 * top + c].normal, IVec3::new(0, 1, 0));
        assert_eq!(b.vertices[4 * top + c].position.y, 8);
    }
}

#[test]
fn tall_grass_never_hides_a_face() {
    let mut c = Chunk::empty();
    let a = IVec3::new(2, 2, 2);
    let t = IVec3::new(2, 3, 2);
    c.set_voxel(a, VoxelType::Stone);
    c.set_voxel(t, VoxelType::TallGrass);
    let m = remesh_chunk(&c, &NONE);
    assert_eq!(count(&m.collider, cube(a, Face::Top)), 1);
    assert_eq!(m.tall_grass.len(), 4);
    assert_eq!(m.tall_grass[0].kind, QuadKind::Cross(CrossPlane::A));
    assert_eq!(m.sensor.len(), 6);
    assert!(m.sensor.iter().all(|q| q.pos == t));
    assert!(m.collider.iter().all(|q| q.pos == a));
}

#[test]
fn loaded_neighbour_hides_seam_face() {
    let mut a = Chunk::empty();
    let mut b = Chunk::empty();
    a.set_voxel(IVec3::new(15, 0, 0), VoxelType::Stone);
    b.set_voxel(IVec3::new(0, 0, 0), VoxelType::Stone);
    let mut na = NONE;
    na[2] = Some(b);
    let mut nb = NONE;
    nb[3] = Some(a);
    let ma = remesh_chunk(&a, &na);
    let mb = remesh_chunk(&b, &nb);
    assert_eq!(count(&ma.collider, cube(IVec3::new(15, 0, 0), Face::East)), 0);
    assert_eq!(count(&mb.collider, cube(IVec3::new(0, 0, 0), Face::West)), 0);
    let alone = remesh_chunk(&a, &NONE);
    assert_eq!(count(&alone.collider, cube(IVec3::new(15, 0, 0), Face::East)), 1);
}

#[test]
fn remesh_twice_gives_same_geometry() {
    let mut c = Chunk::empty();
    for i in 0..40 {
        let v = [VoxelType::Stone, VoxelType::Grass, VoxelType::TallGrass, VoxelType::CoalOre][i % 4];
        c.set_voxel(IVec3::new((i * 3 % 16) as i32, (i * 5 % 16) as i32, (i * 7 % 16) as i32), v);
    }
    let a = remesh_chunk(&c, &NONE);
    let b = remesh_chunk(&c, &NONE);
    assert_eq!(a.collider, b.collider);
    assert_eq!(a.sensor, b.sensor);
    let ra = a.render_batches();
    let rb = b.render_batches();
    assert_eq!(ra.len(), rb.len());
    for (x, y) in ra.iter().zip(rb.iter()) {
        assert_eq!(x.0, y.0);
        assert_eq!(x.1.vertices, y.1.vertices);
        assert_eq!(x.1.indices, y.1.indices);
    }
}

#[test]
fn empty_chunk_has_no_collider_and_no_batches() {
    let m = remesh_chunk(&Chunk::empty(), &NONE);
    assert!(m.collider_buffers().is_none());
    assert!(m.sensor_buffers().is_none());
    assert!(m.render_batches().is_empty());
}

#[test]
fn only_tall_grass_gives_sensor_but_no_collider() {
    let mut c = Chunk::empty();
    c.set_voxel(IVec3::new(1, 1, 1), VoxelType::TallGrass);
    let m = remesh_chunk(&c, &NONE);
    assert!(m.collider_buffers().is_none());
    let s = m.sensor_buffers().unwrap();
    assert_eq!(s.vertices.len(), 24);
    assert_eq!(s.indices.len(), 36);
}

#[test]
fn quad_buffers_layout() {
    let q = cube(IVec3::new(1, 2, 3), Face::Top);
    let r = cube(IVec3::new(0, 0, 0), Face::North);
    let b = MeshBuffers::from_quads(&vec![q, r]);
    assert_eq!(b.vertices.len(), 8);
    assert_eq!(b.indices, vec![0, 1, 2, 0, 2, 3, 4, 5, 6, 4, 6, 7]);
    let pos: Vec<IVec3> = b.vertices.iter().map(|v| v.position).collect();
    assert_eq!(
        pos,
        vec![
            IVec3::new(1, 3, 3),
            IVec3::new(1, 3, 4),
            IVec3::new(2, 3, 4),
            IVec3::new(2, 3, 3),
            IVec3::new(1, 0, 0),
            IVec3::new(0, 0, 0),
            IVec3::new(0, 1, 0),
            IVec3::new(1, 1, 0),
        ]
    );
    assert_eq!(b.vertices[0].uv, Uv { u: 1, v: 1 });
    assert_eq!(b.vertices[6].uv, Uv { u: 0, v: 0 });
    assert_eq!(b.vertices[5].normal, IVec3::new(0, 0, -1));
}
