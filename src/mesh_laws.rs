use vstd::prelude::*;
use vstd::seq_lib::{lemma_multiset_commutative, to_multiset_build, to_multiset_contains};

use crate::chunk::{in_chunk, index_pos, lemma_index_pos, lemma_local_index, local_index, Chunk};
use crate::coords::{valid_chunk_key, IVec3};
use crate::geometry::quad_normal;
use crate::mesher::{
    adjacent_voxel, collider_upto, cube_quad, face_at, face_index, face_offset, face_visible,
    opposite, opt_quad, step, visible_faces, wrap_local, ChunkMesh, Face, Quad, QuadKind,
    batch_of_voxel, batch_upto, collider_of_voxel, face_material, lemma_no_visible_faces, Material,
    visible_faces_of,
};
use crate::voxel::VoxelType;
use crate::world::{key_of, neighbor_chunks, ChunkKey};

verus! {

broadcast use vstd::multiset::group_multiset_axioms;

/// How many times quad `x` occurs in `s`.
pub open spec fn occurrences(s: Seq<Quad>, x: Quad) -> nat {
    s.to_multiset().count(x)
}

/// `x` is a drawn face of the voxel at `p` among the first `k` of the six.
pub open spec fn is_visible_face_among(chunk: Chunk, neighbors: Seq<Option<Chunk>>, p: IVec3, k: int, x: Quad) -> bool {
    &&& x.pos == p
    &&& x.kind is Cube
    &&& face_index(x.kind->Cube_0) < k
    &&& face_visible(chunk, neighbors, p, x.kind->Cube_0)
}

proof fn lemma_face_index_at(f: Face)
    ensures
        face_at(face_index(f)) == f,
        0 <= face_index(f) < 6,
{
}

proof fn lemma_occurrences_opt(b: bool, q: Quad, x: Quad)
    ensures
        occurrences(opt_quad(b, q), x) == if b && x == q {
            1nat
        } else {
            0nat
        },
{
    to_multiset_contains(Seq::<Quad>::empty(), x);
    if b {
        assert(seq![q] =~= Seq::<Quad>::empty().push(q));
        to_multiset_build(Seq::<Quad>::empty(), q);
    }
}

proof fn lemma_visible_faces_occurrences(chunk: Chunk, neighbors: Seq<Option<Chunk>>, p: IVec3, k: nat, x: Quad)
    requires
        k <= 6,
    ensures
        occurrences(visible_faces(chunk, neighbors, p, k), x) == if is_visible_face_among(chunk, neighbors, p, k as int, x) {
            1nat
        } else {
            0nat
        },
    decreases k,
{
    if k == 0 {
        to_multiset_contains(Seq::<Quad>::empty(), x);
    } else {
        let f = face_at(k - 1);
        let prev = visible_faces(chunk, neighbors, p, (k - 1) as nat);
        let last = opt_quad(face_visible(chunk, neighbors, p, f), cube_quad(p, f));
        lemma_visible_faces_occurrences(chunk, neighbors, p, (k - 1) as nat, x);
        lemma_occurrences_opt(face_visible(chunk, neighbors, p, f), cube_quad(p, f), x);
        lemma_multiset_commutative(prev, last);
        if x.kind is Cube {
            lemma_face_index_at(x.kind->Cube_0);
        }
        assert(face_index(f) == k - 1);
    }
}

/// How often quad `x` occurs in the collision faces of the first `n` voxels:
/// once when it is a drawn cube face of one of them, else never.
proof fn lemma_collider_occurrences(chunk: Chunk, neighbors: Seq<Option<Chunk>>, n: nat, x: Quad)
    requires
        n <= 4096,
    ensures
        occurrences(collider_upto(chunk, neighbors, n), x) == if in_chunk(x.pos) && local_index(x.pos) < n
            && is_visible_face_among(chunk, neighbors, x.pos, 6, x) {
            1nat
        } else {
            0nat
        },
    decreases n,
{
    if n == 0 {
        to_multiset_contains(Seq::<Quad>::empty(), x);
    } else {
        let i = n - 1;
        let p = index_pos(i);
        lemma_index_pos(i);
        let prev = collider_upto(chunk, neighbors, (n - 1) as nat);
        let last = visible_faces(chunk, neighbors, p, 6);
        lemma_collider_occurrences(chunk, neighbors, (n - 1) as nat, x);
        lemma_visible_faces_occurrences(chunk, neighbors, p, 6, x);
        lemma_multiset_commutative(prev, last);
        if in_chunk(x.pos) {
            lemma_local_index(x.pos);
        }
    }
}

/// Face culling: a face of a voxel occurs in the chunk's collision faces once
/// when the voxel is opaque and what lies across the face (in the chunk, or in
/// the loaded neighbouring chunk; air when that is not loaded) is air or tall
/// grass, and never otherwise.
pub proof fn lemma_face_culling(chunk: Chunk, neighbors: Seq<Option<Chunk>>, p: IVec3, f: Face)
    requires
        in_chunk(p),
    ensures
        occurrences(collider_upto(chunk, neighbors, 4096), cube_quad(p, f)) == if face_visible(chunk, neighbors, p, f) {
            1nat
        } else {
            0nat
        },
{
    lemma_collider_occurrences(chunk, neighbors, 4096, cube_quad(p, f));
    lemma_local_index(p);
    lemma_face_index_at(f);
}

proof fn lemma_step_back(p: IVec3, f: Face)
    requires
        i32::MIN < p.x < i32::MAX,
        i32::MIN < p.y < i32::MAX,
        i32::MIN < p.z < i32::MAX,
    ensures
        step(step(p, f), opposite(f)) == p,
        opposite(opposite(f)) == f,
{
}

/// Two opaque voxels of one chunk that share a face: neither side of that
/// face is drawn.
pub proof fn lemma_shared_face_hidden(chunk: Chunk, neighbors: Seq<Option<Chunk>>, p: IVec3, f: Face)
    requires
        in_chunk(p),
        in_chunk(step(p, f)),
        chunk.voxel_at(p).is_opaque(),
        chunk.voxel_at(step(p, f)).is_opaque(),
    ensures
        occurrences(collider_upto(chunk, neighbors, 4096), cube_quad(p, f)) == 0,
        occurrences(collider_upto(chunk, neighbors, 4096), cube_quad(step(p, f), opposite(f))) == 0,
{
    lemma_step_back(p, f);
    lemma_face_culling(chunk, neighbors, p, f);
    lemma_face_culling(chunk, neighbors, step(p, f), opposite(f));
}

/// An opaque voxel next to air: the face between them is drawn exactly once,
/// on the opaque side, with the normal pointing towards the air; the air side
/// draws nothing.
pub proof fn lemma_exposed_face_drawn_once(chunk: Chunk, neighbors: Seq<Option<Chunk>>, p: IVec3, f: Face)
    requires
        in_chunk(p),
        chunk.voxel_at(p).is_opaque(),
        adjacent_voxel(chunk, neighbors, p, f) == VoxelType::Air,
    ensures
        occurrences(collider_upto(chunk, neighbors, 4096), cube_quad(p, f)) == 1,
        quad_normal(cube_quad(p, f).kind) == face_offset(f),
        in_chunk(step(p, f)) ==> occurrences(
            collider_upto(chunk, neighbors, 4096),
            cube_quad(step(p, f), opposite(f)),
        ) == 0,
{
    lemma_face_culling(chunk, neighbors, p, f);
    if in_chunk(step(p, f)) {
        lemma_face_culling(chunk, neighbors, step(p, f), opposite(f));
    }
}

/// Two opaque voxels on either side of the seam between two loaded chunks,
/// each meshed against its loaded neighbours: neither chunk draws the face
/// they share.
pub proof fn lemma_seam_face_hidden(
    chunks: Map<ChunkKey, Chunk>,
    c: IVec3,
    f: Face,
    p: IVec3,
    a: ChunkMesh,
    b: ChunkMesh,
)
    requires
        valid_chunk_key(c),
        valid_chunk_key(step(c, f)),
        chunks.contains_key(key_of(c)),
        chunks.contains_key(key_of(step(c, f))),
        in_chunk(p),
        !in_chunk(step(p, f)),
        chunks[key_of(c)].voxel_at(p).is_opaque(),
        chunks[key_of(step(c, f))].voxel_at(wrap_local(step(p, f))).is_opaque(),
        a.is_mesh_of(chunks[key_of(c)], neighbor_chunks(chunks, c)),
        b.is_mesh_of(chunks[key_of(step(c, f))], neighbor_chunks(chunks, step(c, f))),
    ensures
        occurrences(a.collider@, cube_quad(p, f)) == 0,
        occurrences(b.collider@, cube_quad(wrap_local(step(p, f)), opposite(f))) == 0,
{
    let q = wrap_local(step(p, f));
    let c2 = step(c, f);
    lemma_step_back(c, f);
    lemma_face_index_at(f);
    lemma_face_index_at(opposite(f));
    assert(neighbor_chunks(chunks, c)[face_index(f)] == Some(chunks[key_of(c2)]));
    assert(neighbor_chunks(chunks, c2)[face_index(opposite(f))] == Some(chunks[key_of(c)]));
    assert(in_chunk(q) && !in_chunk(step(q, opposite(f))) && wrap_local(step(q, opposite(f))) == p) by {
        match f {
            Face::Top => {},
            Face::Bottom => {},
            Face::East => {},
            Face::West => {},
            Face::South => {},
            Face::North => {},
        }
    }
    lemma_face_culling(chunks[key_of(c)], neighbor_chunks(chunks, c), p, f);
    lemma_face_culling(chunks[key_of(c2)], neighbor_chunks(chunks, c2), q, opposite(f));
}

/// No neighbouring chunk is loaded.
pub open spec fn no_neighbors() -> Seq<Option<Chunk>> {
    Seq::new(6, |k: int| None::<Chunk>)
}

/// Every voxel of `chunk` but the one at `p` is air.
pub open spec fn alone_in_chunk(chunk: Chunk, p: IVec3) -> bool {
    forall|i: int| 0 <= i < 4096 && i != local_index(p) ==> chunk.voxels@[i] == VoxelType::Air
}

proof fn lemma_alone_upto(chunk: Chunk, neighbors: Seq<Option<Chunk>>, p: IVec3, m: Material, n: nat)
    requires
        in_chunk(p),
        alone_in_chunk(chunk, p),
        chunk.voxel_at(p).is_opaque(),
        n <= 4096,
    ensures
        collider_upto(chunk, neighbors, n) == if n > local_index(p) {
            visible_faces(chunk, neighbors, p, 6)
        } else {
            Seq::<Quad>::empty()
        },
        batch_upto(chunk, neighbors, m, n) == if n > local_index(p) {
            visible_faces_of(chunk, neighbors, p, m, 6)
        } else {
            Seq::<Quad>::empty()
        },
    decreases n,
{
    lemma_local_index(p);
    if n > 0 {
        let i = n - 1;
        lemma_alone_upto(chunk, neighbors, p, m, (n - 1) as nat);
        lemma_index_pos(i);
        let q = index_pos(i);
        if i == local_index(p) {
            assert(q == p);
            assert(collider_upto(chunk, neighbors, n) =~= visible_faces(chunk, neighbors, p, 6));
            assert(batch_upto(chunk, neighbors, m, n) =~= visible_faces_of(chunk, neighbors, p, m, 6));
        } else {
            assert(chunk.voxel_at(q) == VoxelType::Air);
            lemma_no_visible_faces(chunk, neighbors, q, m, 6);
            assert(collider_of_voxel(chunk, neighbors, i) == Seq::<Quad>::empty());
            assert(batch_of_voxel(chunk, neighbors, m, i) == Seq::<Quad>::empty());
            assert(collider_upto(chunk, neighbors, n) =~= collider_upto(chunk, neighbors, (n - 1) as nat));
            assert(batch_upto(chunk, neighbors, m, n) =~= batch_upto(chunk, neighbors, m, (n - 1) as nat));
        }
    }
}

/// A lone grass voxel, with nothing around it and no neighbouring chunk
/// loaded, draws six faces in three batches: its top in the grass-top batch,
/// its bottom in the dirt batch, its four sides in the grass-side batch.
pub proof fn lemma_lone_grass_faces(chunk: Chunk, p: IVec3, mesh: ChunkMesh)
    requires
        in_chunk(p),
        chunk.voxel_at(p) == VoxelType::Grass,
        alone_in_chunk(chunk, p),
        mesh.is_mesh_of(chunk, no_neighbors()),
    ensures
        mesh.batch(Material::GrassTop) == seq![cube_quad(p, Face::Top)],
        mesh.batch(Material::Dirt) == seq![cube_quad(p, Face::Bottom)],
        mesh.batch(Material::GrassSide) == seq![
            cube_quad(p, Face::East),
            cube_quad(p, Face::West),
            cube_quad(p, Face::South),
            cube_quad(p, Face::North),
        ],
        forall|m: Material|
            m != Material::GrassTop && m != Material::Dirt && m != Material::GrassSide ==> #[trigger] mesh.batch(m).len() == 0,
        mesh.collider@.len() == 6,
{
    let nb = no_neighbors();
    lemma_local_index(p);
    assert forall|f: Face| face_visible(chunk, nb, p, f) by {
        let q = step(p, f);
        if in_chunk(q) {
            lemma_local_index(q);
            assert(local_index(q) != local_index(p));
        }
    }
    reveal_with_fuel(visible_faces, 7);
    reveal_with_fuel(visible_faces_of, 7);
    assert forall|m: Material| #[trigger] mesh.batch(m) == visible_faces_of(chunk, nb, p, m, 6) by {
        lemma_alone_upto(chunk, nb, p, m, 4096);
    }
    lemma_alone_upto(chunk, nb, p, Material::Stone, 4096);
    assert(mesh.batch(Material::GrassTop) =~= seq![cube_quad(p, Face::Top)]);
    assert(mesh.batch(Material::Dirt) =~= seq![cube_quad(p, Face::Bottom)]);
    assert(mesh.batch(Material::GrassSide) =~= seq![
        cube_quad(p, Face::East),
        cube_quad(p, Face::West),
        cube_quad(p, Face::South),
        cube_quad(p, Face::North),
    ]);
    assert forall|m: Material|
        m != Material::GrassTop && m != Material::Dirt && m != Material::GrassSide implies #[trigger] mesh.batch(m).len() == 0 by {
        assert(mesh.batch(m) =~= Seq::<Quad>::empty());
    }
}

/// Meshing is a function of the chunk and its neighbours: meshing an
/// unchanged chunk twice gives the same collision faces, sensor faces and
/// render batches, and so the same vertex and triangle counts.
pub proof fn lemma_remesh_idempotent(chunk: Chunk, neighbors: Seq<Option<Chunk>>, a: ChunkMesh, b: ChunkMesh)
    requires
        a.is_mesh_of(chunk, neighbors),
        b.is_mesh_of(chunk, neighbors),
    ensures
        a.collider@ == b.collider@,
        a.sensor@ == b.sensor@,
        forall|m: Material| #[trigger] a.batch(m) == b.batch(m),
{
    assert forall|m: Material| #[trigger] a.batch(m) == b.batch(m) by {
        assert(a.batch(m) == batch_upto(chunk, neighbors, m, 4096));
        assert(b.batch(m) == batch_upto(chunk, neighbors, m, 4096));
    }
}

} // verus!
