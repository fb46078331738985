use vstd::prelude::*;

use crate::chunk::{in_chunk, index_pos, lemma_index_pos, Chunk};
use crate::coords::{local_of, rem16, IVec3};
use crate::voxel::VoxelType;

verus! {

/// The six faces of a cube, in the order in which the mesher tests them.
#[derive(Clone, Copy, PartialEq, Eq, Debug, Structural)]
pub enum Face {
    Top,
    Bottom,
    East,
    West,
    South,
    North,
}

/// The four planes of the crossed quads that draw tall grass.
#[derive(Clone, Copy, PartialEq, Eq, Debug, Structural)]
pub enum CrossPlane {
    A,
    B,
    C,
    D,
}

/// The shape of a quad: one face of the unit cube, or one crossed plane.
#[derive(Clone, Copy, PartialEq, Eq, Debug, Structural)]
pub enum QuadKind {
    Cube(Face),
    Cross(CrossPlane),
}

/// One quad of a chunk's mesh, attached to the voxel at local position `pos`.
#[derive(Clone, Copy, PartialEq, Eq, Debug, Structural)]
pub struct Quad {
    pub pos: IVec3,
    pub kind: QuadKind,
}

/// The render batches of a chunk, one per surface look.
#[derive(Clone, Copy, PartialEq, Eq, Debug, Structural)]
pub enum Material {
    GrassTop,
    GrassSide,
    Dirt,
    Stone,
    CoalOre,
    IronOre,
    GoldOre,
    DiamondOre,
    Bedrock,
    TallGrass,
}

/// The face tested at step `k` of the six.
pub open spec fn face_at(k: int) -> Face {
    if k == 0 {
        Face::Top
    } else if k == 1 {
        Face::Bottom
    } else if k == 2 {
        Face::East
    } else if k == 3 {
        Face::West
    } else if k == 4 {
        Face::South
    } else {
        Face::North
    }
}

pub open spec fn face_index(f: Face) -> int {
    match f {
        Face::Top => 0,
        Face::Bottom => 1,
        Face::East => 2,
        Face::West => 3,
        Face::South => 4,
        Face::North => 5,
    }
}

/// The outward unit normal of a face.
pub open spec fn face_offset(f: Face) -> IVec3 {
    match f {
        Face::Top => IVec3 { x: 0, y: 1, z: 0 },
        Face::Bottom => IVec3 { x: 0, y: -1i32, z: 0 },
        Face::East => IVec3 { x: 1, y: 0, z: 0 },
        Face::West => IVec3 { x: -1i32, y: 0, z: 0 },
        Face::South => IVec3 { x: 0, y: 0, z: 1 },
        Face::North => IVec3 { x: 0, y: 0, z: -1i32 },
    }
}

/// The face on the other side of a shared face.
pub open spec fn opposite(f: Face) -> Face {
    match f {
        Face::Top => Face::Bottom,
        Face::Bottom => Face::Top,
        Face::East => Face::West,
        Face::West => Face::East,
        Face::South => Face::North,
        Face::North => Face::South,
    }
}

/// The position one step from `p` through face `f`.
pub open spec fn step(p: IVec3, f: Face) -> IVec3 {
    IVec3 {
        x: (p.x + face_offset(f).x) as i32,
        y: (p.y + face_offset(f).y) as i32,
        z: (p.z + face_offset(f).z) as i32,
    }
}

/// A position one step outside a chunk, seen from the neighbouring chunk.
pub open spec fn wrap_local(q: IVec3) -> IVec3 {
    IVec3 {
        x: local_of(q.x as int) as i32,
        y: local_of(q.y as int) as i32,
        z: local_of(q.z as int) as i32,
    }
}

/// The voxel across face `f` of local position `p`: from the chunk itself, or
/// from the neighbouring chunk on that side (`neighbors[face_index(f)]`); a
/// neighbour that is not loaded counts as air.
pub open spec fn adjacent_voxel(chunk: Chunk, neighbors: Seq<Option<Chunk>>, p: IVec3, f: Face) -> VoxelType {
    let q = step(p, f);
    if in_chunk(q) {
        chunk.voxel_at(q)
    } else {
        match neighbors[face_index(f)] {
            Some(n) => n.voxel_at(wrap_local(q)),
            None => VoxelType::Air,
        }
    }
}

/// A face of an opaque voxel is drawn when what lies across it does not hide it.
pub open spec fn face_visible(chunk: Chunk, neighbors: Seq<Option<Chunk>>, p: IVec3, f: Face) -> bool {
    &&& chunk.voxel_at(p).is_opaque()
    &&& !adjacent_voxel(chunk, neighbors, p, f).is_opaque()
}

/// The batch that a drawn face of voxel `v` goes to: grass shows its top,
/// dirt underneath and its own sides; every other opaque voxel has one batch.
pub open spec fn face_material(v: VoxelType, f: Face) -> Option<Material> {
    match v {
        VoxelType::Grass => if f == Face::Top {
            Some(Material::GrassTop)
        } else if f == Face::Bottom {
            Some(Material::Dirt)
        } else {
            Some(Material::GrassSide)
        },
        VoxelType::Dirt => Some(Material::Dirt),
        VoxelType::Stone => Some(Material::Stone),
        VoxelType::CoalOre => Some(Material::CoalOre),
        VoxelType::IronOre => Some(Material::IronOre),
        VoxelType::GoldOre => Some(Material::GoldOre),
        VoxelType::DiamondOre => Some(Material::DiamondOre),
        VoxelType::Bedrock => Some(Material::Bedrock),
        _ => None,
    }
}

pub open spec fn opt_quad(b: bool, q: Quad) -> Seq<Quad> {
    if b {
        seq![q]
    } else {
        Seq::empty()
    }
}

pub open spec fn cube_quad(p: IVec3, f: Face) -> Quad {
    Quad { pos: p, kind: QuadKind::Cube(f) }
}

/// The drawn faces of the voxel at `p` among the first `k` of the six.
pub open spec fn visible_faces(chunk: Chunk, neighbors: Seq<Option<Chunk>>, p: IVec3, k: nat) -> Seq<Quad>
    decreases k,
{
    if k == 0 {
        Seq::empty()
    } else {
        let f = face_at(k - 1);
        visible_faces(chunk, neighbors, p, (k - 1) as nat) + opt_quad(
            face_visible(chunk, neighbors, p, f),
            cube_quad(p, f),
        )
    }
}

/// The drawn faces of the voxel at `p` among the first `k`, that go to batch `m`.
pub open spec fn visible_faces_of(
    chunk: Chunk,
    neighbors: Seq<Option<Chunk>>,
    p: IVec3,
    m: Material,
    k: nat,
) -> Seq<Quad>
    decreases k,
{
    if k == 0 {
        Seq::empty()
    } else {
        let f = face_at(k - 1);
        visible_faces_of(chunk, neighbors, p, m, (k - 1) as nat) + opt_quad(
            face_visible(chunk, neighbors, p, f) && face_material(chunk.voxel_at(p), f) == Some(m),
            cube_quad(p, f),
        )
    }
}

/// The first `k` faces of the full cube at `p`, drawn or not.
pub open spec fn all_faces(p: IVec3, k: nat) -> Seq<Quad>
    decreases k,
{
    if k == 0 {
        Seq::empty()
    } else {
        all_faces(p, (k - 1) as nat).push(cube_quad(p, face_at(k - 1)))
    }
}

pub open spec fn cross_quads(p: IVec3) -> Seq<Quad> {
    seq![
        Quad { pos: p, kind: QuadKind::Cross(CrossPlane::A) },
        Quad { pos: p, kind: QuadKind::Cross(CrossPlane::B) },
        Quad { pos: p, kind: QuadKind::Cross(CrossPlane::C) },
        Quad { pos: p, kind: QuadKind::Cross(CrossPlane::D) },
    ]
}

/// Collision faces of the voxel stored at index `i`.
pub open spec fn collider_of_voxel(chunk: Chunk, neighbors: Seq<Option<Chunk>>, i: int) -> Seq<Quad> {
    visible_faces(chunk, neighbors, index_pos(i), 6)
}

/// Render quads of batch `m` for the voxel stored at index `i`.
pub open spec fn batch_of_voxel(chunk: Chunk, neighbors: Seq<Option<Chunk>>, m: Material, i: int) -> Seq<Quad> {
    let p = index_pos(i);
    if chunk.voxel_at(p) == VoxelType::TallGrass {
        if m == Material::TallGrass {
            cross_quads(p)
        } else {
            Seq::empty()
        }
    } else {
        visible_faces_of(chunk, neighbors, p, m, 6)
    }
}

/// Sensor faces of the voxel stored at index `i`: the whole cube, for tall grass.
pub open spec fn sensor_of_voxel(chunk: Chunk, i: int) -> Seq<Quad> {
    let p = index_pos(i);
    if chunk.voxel_at(p) == VoxelType::TallGrass {
        all_faces(p, 6)
    } else {
        Seq::empty()
    }
}

/// Collision faces of the first `n` voxels, in storage order.
pub open spec fn collider_upto(chunk: Chunk, neighbors: Seq<Option<Chunk>>, n: nat) -> Seq<Quad>
    decreases n,
{
    if n == 0 {
        Seq::empty()
    } else {
        collider_upto(chunk, neighbors, (n - 1) as nat) + collider_of_voxel(chunk, neighbors, n - 1)
    }
}

/// Render quads of batch `m` for the first `n` voxels, in storage order.
pub open spec fn batch_upto(chunk: Chunk, neighbors: Seq<Option<Chunk>>, m: Material, n: nat) -> Seq<Quad>
    decreases n,
{
    if n == 0 {
        Seq::empty()
    } else {
        batch_upto(chunk, neighbors, m, (n - 1) as nat) + batch_of_voxel(chunk, neighbors, m, n - 1)
    }
}

/// Sensor faces of the first `n` voxels, in storage order.
pub open spec fn sensor_upto(chunk: Chunk, n: nat) -> Seq<Quad>
    decreases n,
{
    if n == 0 {
        Seq::empty()
    } else {
        sensor_upto(chunk, (n - 1) as nat) + sensor_of_voxel(chunk, n - 1)
    }
}

pub proof fn lemma_no_visible_faces(chunk: Chunk, neighbors: Seq<Option<Chunk>>, p: IVec3, m: Material, k: nat)
    requires
        !chunk.voxel_at(p).is_opaque(),
    ensures
        visible_faces(chunk, neighbors, p, k) == Seq::<Quad>::empty(),
        visible_faces_of(chunk, neighbors, p, m, k) == Seq::<Quad>::empty(),
    decreases k,
{
    if k > 0 {
        lemma_no_visible_faces(chunk, neighbors, p, m, (k - 1) as nat);
        assert(visible_faces(chunk, neighbors, p, k) =~= Seq::<Quad>::empty());
        assert(visible_faces_of(chunk, neighbors, p, m, k) =~= Seq::<Quad>::empty());
    }
}

/// The quads of one chunk: the faces that the collider is built from, the
/// sensor faces of tall grass, and one render batch per material.
pub struct ChunkMesh {
    pub collider: Vec<Quad>,
    pub sensor: Vec<Quad>,
    pub grass_top: Vec<Quad>,
    pub grass_side: Vec<Quad>,
    pub dirt: Vec<Quad>,
    pub stone: Vec<Quad>,
    pub coal_ore: Vec<Quad>,
    pub iron_ore: Vec<Quad>,
    pub gold_ore: Vec<Quad>,
    pub diamond_ore: Vec<Quad>,
    pub bedrock: Vec<Quad>,
    pub tall_grass: Vec<Quad>,
}

impl ChunkMesh {
    /// The render batch of material `m`.
    pub open spec fn batch(&self, m: Material) -> Seq<Quad> {
        match m {
            Material::GrassTop => self.grass_top@,
            Material::GrassSide => self.grass_side@,
            Material::Dirt => self.dirt@,
            Material::Stone => self.stone@,
            Material::CoalOre => self.coal_ore@,
            Material::IronOre => self.iron_ore@,
            Material::GoldOre => self.gold_ore@,
            Material::DiamondOre => self.diamond_ore@,
            Material::Bedrock => self.bedrock@,
            Material::TallGrass => self.tall_grass@,
        }
    }

    /// What meshing `chunk` between `neighbors` gives, in storage order.
    pub open spec fn is_mesh_of(&self, chunk: Chunk, neighbors: Seq<Option<Chunk>>) -> bool {
        &&& self.collider@ == collider_upto(chunk, neighbors, 4096)
        &&& self.sensor@ == sensor_upto(chunk, 4096)
        &&& forall|m: Material| #[trigger] self.batch(m) == batch_upto(chunk, neighbors, m, 4096)
    }

    fn new() -> (r: ChunkMesh)
        ensures
            r.collider@ == Seq::<Quad>::empty(),
            r.sensor@ == Seq::<Quad>::empty(),
            forall|m: Material| #[trigger] r.batch(m) == Seq::<Quad>::empty(),
    {
        ChunkMesh {
            collider: Vec::new(),
            sensor: Vec::new(),
            grass_top: Vec::new(),
            grass_side: Vec::new(),
            dirt: Vec::new(),
            stone: Vec::new(),
            coal_ore: Vec::new(),
            iron_ore: Vec::new(),
            gold_ore: Vec::new(),
            diamond_ore: Vec::new(),
            bedrock: Vec::new(),
            tall_grass: Vec::new(),
        }
    }

    fn push_batch(&mut self, m: Material, q: Quad)
        ensures
            final(self).collider@ == old(self).collider@,
            final(self).sensor@ == old(self).sensor@,
            final(self).batch(m) == old(self).batch(m).push(q),
            forall|m2: Material| m2 != m ==> #[trigger] final(self).batch(m2) == old(self).batch(m2),
    {
        match m {
            Material::GrassTop => self.grass_top.push(q),
            Material::GrassSide => self.grass_side.push(q),
            Material::Dirt => self.dirt.push(q),
            Material::Stone => self.stone.push(q),
            Material::CoalOre => self.coal_ore.push(q),
            Material::IronOre => self.iron_ore.push(q),
            Material::GoldOre => self.gold_ore.push(q),
            Material::DiamondOre => self.diamond_ore.push(q),
            Material::Bedrock => self.bedrock.push(q),
            Material::TallGrass => self.tall_grass.push(q),
        }
    }
}

fn face_at_exec(k: usize) -> (f: Face)
    requires
        k < 6,
    ensures
        f == face_at(k as int),
{
    if k == 0 {
        Face::Top
    } else if k == 1 {
        Face::Bottom
    } else if k == 2 {
        Face::East
    } else if k == 3 {
        Face::West
    } else if k == 4 {
        Face::South
    } else {
        Face::North
    }
}

fn face_material_exec(v: VoxelType, f: Face) -> (r: Option<Material>)
    ensures
        r == face_material(v, f),
{
    match v {
        VoxelType::Grass => if f == Face::Top {
            Some(Material::GrassTop)
        } else if f == Face::Bottom {
            Some(Material::Dirt)
        } else {
            Some(Material::GrassSide)
        },
        VoxelType::Dirt => Some(Material::Dirt),
        VoxelType::Stone => Some(Material::Stone),
        VoxelType::CoalOre => Some(Material::CoalOre),
        VoxelType::IronOre => Some(Material::IronOre),
        VoxelType::GoldOre => Some(Material::GoldOre),
        VoxelType::DiamondOre => Some(Material::DiamondOre),
        VoxelType::Bedrock => Some(Material::Bedrock),
        _ => None,
    }
}

/// The voxel across face `f` of local position `p`.
fn adjacent(chunk: &Chunk, neighbors: &[Option<Chunk>; 6], p: IVec3, f: Face) -> (r: VoxelType)
    requires
        in_chunk(p),
    ensures
        r == adjacent_voxel(*chunk, neighbors@, p, f),
{
    let (dx, dy, dz, k): (i32, i32, i32, usize) = match f {
        Face::Top => (0, 1, 0, 0),
        Face::Bottom => (0, -1, 0, 1),
        Face::East => (1, 0, 0, 2),
        Face::West => (-1, 0, 0, 3),
        Face::South => (0, 0, 1, 4),
        Face::North => (0, 0, -1, 5),
    };
    let q = IVec3 { x: p.x + dx, y: p.y + dy, z: p.z + dz };
    assert(q == step(p, f));
    if q.x >= 0 && q.x < 16 && q.y >= 0 && q.y < 16 && q.z >= 0 && q.z < 16 {
        chunk.get_voxel(q)
    } else {
        match &neighbors[k] {
            Some(n) => {
                let local = IVec3 { x: rem16(q.x), y: rem16(q.y), z: rem16(q.z) };
                n.get_voxel(local)
            },
            None => VoxelType::Air,
        }
    }
}

/// Appends the drawn faces of the opaque voxel at `p` to the collider and to
/// their batches.
fn emit_opaque_voxel(mesh: &mut ChunkMesh, chunk: &Chunk, neighbors: &[Option<Chunk>; 6], p: IVec3, v: VoxelType)
    requires
        in_chunk(p),
        v == chunk.voxel_at(p),
        v.is_opaque(),
    ensures
        final(mesh).collider@ == old(mesh).collider@ + visible_faces(*chunk, neighbors@, p, 6),
        final(mesh).sensor@ == old(mesh).sensor@,
        forall|m: Material| #[trigger] final(mesh).batch(m) == old(mesh).batch(m) + visible_faces_of(*chunk, neighbors@, p, m, 6),
{
    let ghost m0 = *mesh;
    let ghost c0 = mesh.collider@;
    let ghost s0 = mesh.sensor@;
    let mut k: usize = 0;
    while k < 6
        invariant
            k <= 6,
            in_chunk(p),
            v == chunk.voxel_at(p),
            v.is_opaque(),
            mesh.collider@ == c0 + visible_faces(*chunk, neighbors@, p, k as nat),
            mesh.sensor@ == s0,
            forall|m: Material| #[trigger] mesh.batch(m) == m0.batch(m) + visible_faces_of(*chunk, neighbors@, p, m, k as nat),
        decreases 6 - k,
    {
        let f = face_at_exec(k);
        let q = Quad { pos: p, kind: QuadKind::Cube(f) };
        let n = adjacent(chunk, neighbors, p, f);
        let ghost prev = *mesh;
        if !n.is_opaque_exec() {
            mesh.collider.push(q);
            let mat = face_material_exec(v, f);
            match mat {
                Some(m) => mesh.push_batch(m, q),
                None => {},
            }
        }
        proof {
            let k1 = (k + 1) as nat;
            assert(visible_faces(*chunk, neighbors@, p, k1) == visible_faces(*chunk, neighbors@, p, k as nat)
                + opt_quad(face_visible(*chunk, neighbors@, p, f), q));
            assert(mesh.collider@ =~= c0 + visible_faces(*chunk, neighbors@, p, k1));
            assert forall|m: Material| #[trigger] mesh.batch(m) == m0.batch(m) + visible_faces_of(*chunk, neighbors@, p, m, k1) by {
                let prefix = visible_faces_of(*chunk, neighbors@, p, m, k as nat);
                let cond = face_visible(*chunk, neighbors@, p, f) && face_material(v, f) == Some(m);
                assert(visible_faces_of(*chunk, neighbors@, p, m, k1) == prefix + opt_quad(cond, q));
                assert(prev.batch(m) == m0.batch(m) + prefix);
                if cond {
                    assert(mesh.batch(m) == prev.batch(m).push(q));
                    assert(mesh.batch(m) =~= m0.batch(m) + (prefix + opt_quad(cond, q)));
                } else {
                    assert(mesh.batch(m) == prev.batch(m));
                    assert(mesh.batch(m) =~= m0.batch(m) + (prefix + opt_quad(cond, q)));
                }
            }
        }
        k = k + 1;
    }
}

/// Appends the crossed quads of tall grass at `p` to its batch and the whole
/// cube around it to the sensor faces.
fn emit_tall_grass(mesh: &mut ChunkMesh, p: IVec3)
    ensures
        final(mesh).collider@ == old(mesh).collider@,
        final(mesh).sensor@ == old(mesh).sensor@ + all_faces(p, 6),
        final(mesh).batch(Material::TallGrass) == old(mesh).batch(Material::TallGrass) + cross_quads(p),
        forall|m: Material| m != Material::TallGrass ==> #[trigger] final(mesh).batch(m) == old(mesh).batch(m),
{
    let ghost m0 = *mesh;
    let ghost t0 = mesh.tall_grass@;
    mesh.tall_grass.push(Quad { pos: p, kind: QuadKind::Cross(CrossPlane::A) });
    mesh.tall_grass.push(Quad { pos: p, kind: QuadKind::Cross(CrossPlane::B) });
    mesh.tall_grass.push(Quad { pos: p, kind: QuadKind::Cross(CrossPlane::C) });
    mesh.tall_grass.push(Quad { pos: p, kind: QuadKind::Cross(CrossPlane::D) });
    assert(mesh.tall_grass@ =~= t0 + cross_quads(p));
    let ghost m1 = *mesh;
    let ghost s0 = mesh.sensor@;
    let mut k: usize = 0;
    while k < 6
        invariant
            k <= 6,
            mesh.sensor@ == s0 + all_faces(p, k as nat),
            mesh.collider@ == m0.collider@,
            forall|m: Material| #[trigger] mesh.batch(m) == m1.batch(m),
        decreases 6 - k,
    {
        let f = face_at_exec(k);
        let ghost before = *mesh;
        mesh.sensor.push(Quad { pos: p, kind: QuadKind::Cube(f) });
        assert forall|m: Material| #[trigger] mesh.batch(m) == m1.batch(m) by {
            assert(mesh.batch(m) == before.batch(m));
        }
        assert(mesh.sensor@ =~= s0 + all_faces(p, (k + 1) as nat));
        k = k + 1;
    }
}

/// Meshes a chunk by face culling. Each opaque voxel draws the faces whose
/// neighbour (in the chunk, or in the loaded neighbouring chunk
/// `neighbors[face_index(f)]`; air when that is not loaded) is air or tall
/// grass; each drawn face goes to the collider and to the batch of its
/// material. Tall grass draws four crossed quads and a full sensor cube.
pub fn remesh_chunk(chunk: &Chunk, neighbors: &[Option<Chunk>; 6]) -> (r: ChunkMesh)
    ensures
        r.is_mesh_of(*chunk, neighbors@),
        r.wf(),
{
    let mut mesh = ChunkMesh::new();
    let mut i: usize = 0;
    while i < 4096
        invariant
            i <= 4096,
            mesh.collider@ == collider_upto(*chunk, neighbors@, i as nat),
            mesh.sensor@ == sensor_upto(*chunk, i as nat),
            forall|m: Material| #[trigger] mesh.batch(m) == batch_upto(*chunk, neighbors@, m, i as nat),
        decreases 4096 - i,
    {
        proof {
            lemma_index_pos(i as int);
        }
        let p = IVec3 { x: (i / 256) as i32, y: ((i / 16) % 16) as i32, z: (i % 16) as i32 };
        assert(p == index_pos(i as int));
        let v = chunk.voxels[i];
        assert(v == chunk.voxel_at(p));
        if v == VoxelType::TallGrass {
            emit_tall_grass(&mut mesh, p);
            proof {
                lemma_no_visible_faces(*chunk, neighbors@, p, Material::TallGrass, 6);
            }
        } else if v.is_opaque_exec() {
            emit_opaque_voxel(&mut mesh, chunk, neighbors, p, v);
        } else {
            proof {
                assert forall|m: Material| #[trigger] visible_faces_of(*chunk, neighbors@, p, m, 6) == Seq::<Quad>::empty() by {
                    lemma_no_visible_faces(*chunk, neighbors@, p, m, 6);
                }
                lemma_no_visible_faces(*chunk, neighbors@, p, Material::TallGrass, 6);
            }
        }
        proof {
            let n1 = (i + 1) as nat;
            assert(collider_upto(*chunk, neighbors@, n1) == collider_upto(*chunk, neighbors@, i as nat)
                + collider_of_voxel(*chunk, neighbors@, i as int));
            assert(mesh.collider@ =~= collider_upto(*chunk, neighbors@, n1));
            assert(sensor_upto(*chunk, n1) == sensor_upto(*chunk, i as nat) + sensor_of_voxel(*chunk, i as int));
            assert(mesh.sensor@ =~= sensor_upto(*chunk, n1));
            assert forall|m: Material| #[trigger] mesh.batch(m) == batch_upto(*chunk, neighbors@, m, n1) by {
                assert(batch_upto(*chunk, neighbors@, m, n1) == batch_upto(*chunk, neighbors@, m, i as nat)
                    + batch_of_voxel(*chunk, neighbors@, m, i as int));
                assert(mesh.batch(m) =~= batch_upto(*chunk, neighbors@, m, n1));
            }
        }
        i = i + 1;
    }
    proof {
        lemma_mesh_wf(mesh, *chunk, neighbors@);
    }
    mesh
}

pub open spec fn quads_in_chunk(s: Seq<Quad>) -> bool {
    forall|j: int| 0 <= j < s.len() ==> in_chunk(#[trigger] s[j].pos)
}

/// The most quads that meshing one chunk puts in one list.
pub const MAX_CHUNK_QUADS: usize = 24576;

pub proof fn lemma_voxel_faces_bounded(chunk: Chunk, neighbors: Seq<Option<Chunk>>, p: IVec3, m: Material, k: nat)
    requires
        in_chunk(p),
    ensures
        visible_faces(chunk, neighbors, p, k).len() <= k,
        visible_faces_of(chunk, neighbors, p, m, k).len() <= k,
        all_faces(p, k).len() == k,
        quads_in_chunk(visible_faces(chunk, neighbors, p, k)),
        quads_in_chunk(visible_faces_of(chunk, neighbors, p, m, k)),
        quads_in_chunk(all_faces(p, k)),
    decreases k,
{
    if k > 0 {
        lemma_voxel_faces_bounded(chunk, neighbors, p, m, (k - 1) as nat);
    }
}

/// Every list of a chunk's mesh holds at most six quads per voxel, all inside the chunk.
pub proof fn lemma_mesh_bounded(chunk: Chunk, neighbors: Seq<Option<Chunk>>, m: Material, n: nat)
    requires
        n <= 4096,
    ensures
        collider_upto(chunk, neighbors, n).len() <= 6 * n,
        batch_upto(chunk, neighbors, m, n).len() <= 6 * n,
        sensor_upto(chunk, n).len() <= 6 * n,
        quads_in_chunk(collider_upto(chunk, neighbors, n)),
        quads_in_chunk(batch_upto(chunk, neighbors, m, n)),
        quads_in_chunk(sensor_upto(chunk, n)),
    decreases n,
{
    if n > 0 {
        let i = n - 1;
        lemma_mesh_bounded(chunk, neighbors, m, (n - 1) as nat);
        lemma_index_pos(i);
        let p = index_pos(i);
        lemma_voxel_faces_bounded(chunk, neighbors, p, m, 6);
        let a = collider_upto(chunk, neighbors, (n - 1) as nat);
        let b = collider_of_voxel(chunk, neighbors, i);
        assert(quads_in_chunk(a + b)) by {
            assert forall|j: int| 0 <= j < (a + b).len() implies in_chunk(#[trigger] (a + b)[j].pos) by {
                if j >= a.len() {
                    assert((a + b)[j] == b[j - a.len()]);
                }
            }
        }
        let a2 = batch_upto(chunk, neighbors, m, (n - 1) as nat);
        let b2 = batch_of_voxel(chunk, neighbors, m, i);
        assert(quads_in_chunk(a2 + b2)) by {
            assert forall|j: int| 0 <= j < (a2 + b2).len() implies in_chunk(#[trigger] (a2 + b2)[j].pos) by {
                if j >= a2.len() {
                    assert((a2 + b2)[j] == b2[j - a2.len()]);
                }
            }
        }
        let a3 = sensor_upto(chunk, (n - 1) as nat);
        let b3 = sensor_of_voxel(chunk, i);
        assert(quads_in_chunk(a3 + b3)) by {
            assert forall|j: int| 0 <= j < (a3 + b3).len() implies in_chunk(#[trigger] (a3 + b3)[j].pos) by {
                if j >= a3.len() {
                    assert((a3 + b3)[j] == b3[j - a3.len()]);
                }
            }
        }
    }
}

impl ChunkMesh {
    /// Every list holds at most `MAX_CHUNK_QUADS` quads, all inside the chunk.
    pub open spec fn wf(&self) -> bool {
        &&& self.collider@.len() <= MAX_CHUNK_QUADS
        &&& self.sensor@.len() <= MAX_CHUNK_QUADS
        &&& quads_in_chunk(self.collider@)
        &&& quads_in_chunk(self.sensor@)
        &&& forall|m: Material| #[trigger] self.batch(m).len() <= MAX_CHUNK_QUADS && quads_in_chunk(self.batch(m))
    }
}

pub proof fn lemma_mesh_wf(mesh: ChunkMesh, chunk: Chunk, neighbors: Seq<Option<Chunk>>)
    requires
        mesh.is_mesh_of(chunk, neighbors),
    ensures
        mesh.wf(),
{
    lemma_mesh_bounded(chunk, neighbors, Material::Stone, 4096);
    assert forall|m: Material| #[trigger] mesh.batch(m).len() <= MAX_CHUNK_QUADS && quads_in_chunk(mesh.batch(m)) by {
        lemma_mesh_bounded(chunk, neighbors, m, 4096);
    }
}

} // verus!
