use vstd::prelude::*;

use crate::chunk::in_chunk;
use crate::coords::IVec3;
use crate::mesher::{quads_in_chunk, ChunkMesh, CrossPlane, Face, Material, Quad, QuadKind, MAX_CHUNK_QUADS};

verus! {

/// A texture coordinate at a corner of the unit square.
#[derive(Clone, Copy, PartialEq, Eq, Debug, Structural)]
pub struct Uv {
    pub u: u8,
    pub v: u8,
}

/// One vertex of a chunk mesh, in the chunk's own frame. A cube face carries
/// its outward normal; a crossed quad carries the zero normal.
#[derive(Clone, Copy, PartialEq, Eq, Debug, Structural)]
pub struct Vertex {
    pub position: IVec3,
    pub normal: IVec3,
    pub uv: Uv,
}

/// Vertex and triangle index buffers: four vertices and two triangles per quad.
pub struct MeshBuffers {
    pub vertices: Vec<Vertex>,
    pub indices: Vec<u32>,
}

pub open spec fn v3(x: i32, y: i32, z: i32) -> IVec3 {
    IVec3 { x, y, z }
}

/// The corners of a quad of the given shape, as offsets in the unit cube.
pub open spec fn corner_offsets(kind: QuadKind) -> Seq<IVec3> {
    match kind {
        QuadKind::Cube(Face::Top) => seq![v3(0, 1, 0), v3(0, 1, 1), v3(1, 1, 1), v3(1, 1, 0)],
        QuadKind::Cube(Face::Bottom) => seq![v3(0, 0, 1), v3(0, 0, 0), v3(1, 0, 0), v3(1, 0, 1)],
        QuadKind::Cube(Face::East) => seq![v3(1, 0, 1), v3(1, 0, 0), v3(1, 1, 0), v3(1, 1, 1)],
        QuadKind::Cube(Face::West) => seq![v3(0, 0, 0), v3(0, 0, 1), v3(0, 1, 1), v3(0, 1, 0)],
        QuadKind::Cube(Face::South) => seq![v3(0, 0, 1), v3(1, 0, 1), v3(1, 1, 1), v3(0, 1, 1)],
        QuadKind::Cube(Face::North) => seq![v3(1, 0, 0), v3(0, 0, 0), v3(0, 1, 0), v3(1, 1, 0)],
        QuadKind::Cross(CrossPlane::A) => seq![v3(0, 0, 0), v3(1, 0, 1), v3(1, 1, 1), v3(0, 1, 0)],
        QuadKind::Cross(CrossPlane::B) => seq![v3(1, 0, 1), v3(0, 0, 0), v3(0, 1, 0), v3(1, 1, 1)],
        QuadKind::Cross(CrossPlane::C) => seq![v3(1, 0, 0), v3(0, 0, 1), v3(0, 1, 1), v3(1, 1, 0)],
        QuadKind::Cross(CrossPlane::D) => seq![v3(0, 0, 1), v3(1, 0, 0), v3(1, 1, 0), v3(0, 1, 1)],
    }
}

/// The normal that every vertex of a quad carries.
pub open spec fn quad_normal(kind: QuadKind) -> IVec3 {
    match kind {
        QuadKind::Cube(Face::Top) => v3(0, 1, 0),
        QuadKind::Cube(Face::Bottom) => v3(0, -1i32, 0),
        QuadKind::Cube(Face::East) => v3(1, 0, 0),
        QuadKind::Cube(Face::West) => v3(-1i32, 0, 0),
        QuadKind::Cube(Face::South) => v3(0, 0, 1),
        QuadKind::Cube(Face::North) => v3(0, 0, -1i32),
        QuadKind::Cross(_) => v3(0, 0, 0),
    }
}

/// The fixed texture rectangle: the same four corners on every quad.
pub open spec fn corner_uvs() -> Seq<Uv> {
    seq![Uv { u: 1, v: 1 }, Uv { u: 0, v: 1 }, Uv { u: 0, v: 0 }, Uv { u: 1, v: 0 }]
}

/// Corner `c` of quad `q`.
pub open spec fn quad_vertex(q: Quad, c: int) -> Vertex {
    let o = corner_offsets(q.kind)[c];
    Vertex {
        position: v3((q.pos.x + o.x) as i32, (q.pos.y + o.y) as i32, (q.pos.z + o.z) as i32),
        normal: quad_normal(q.kind),
        uv: corner_uvs()[c],
    }
}

/// The two triangles of a quad, as offsets from its first vertex.
pub open spec fn triangle_pattern() -> Seq<int> {
    seq![0, 1, 2, 0, 2, 3]
}

/// Where index `t` of the two triangles of quad `j` is stored.
pub open spec fn index_slot(j: int, t: int) -> int {
    6 * j + t
}

/// The buffers that draw `quads`, quad `j` at vertices `4j .. 4j + 4`.
pub open spec fn buffers_of(b: MeshBuffers, quads: Seq<Quad>) -> bool {
    &&& b.vertices@.len() == 4 * quads.len()
    &&& b.indices@.len() == 6 * quads.len()
    &&& forall|j: int, c: int|
        0 <= j < quads.len() && 0 <= c < 4 ==> b.vertices@[4 * j + c] == quad_vertex(quads[j], c)
    &&& forall|j: int, t: int|
        0 <= j < quads.len() && 0 <= t < 6 ==> #[trigger] b.indices@[index_slot(j, t)] == 4 * j
            + triangle_pattern()[t]
}

fn corners(kind: QuadKind) -> (r: [IVec3; 4])
    ensures
        r@ == corner_offsets(kind),
{
    let r = match kind {
        QuadKind::Cube(Face::Top) => [IVec3::new(0, 1, 0), IVec3::new(0, 1, 1), IVec3::new(1, 1, 1), IVec3::new(1, 1, 0)],
        QuadKind::Cube(Face::Bottom) => [IVec3::new(0, 0, 1), IVec3::new(0, 0, 0), IVec3::new(1, 0, 0), IVec3::new(1, 0, 1)],
        QuadKind::Cube(Face::East) => [IVec3::new(1, 0, 1), IVec3::new(1, 0, 0), IVec3::new(1, 1, 0), IVec3::new(1, 1, 1)],
        QuadKind::Cube(Face::West) => [IVec3::new(0, 0, 0), IVec3::new(0, 0, 1), IVec3::new(0, 1, 1), IVec3::new(0, 1, 0)],
        QuadKind::Cube(Face::South) => [IVec3::new(0, 0, 1), IVec3::new(1, 0, 1), IVec3::new(1, 1, 1), IVec3::new(0, 1, 1)],
        QuadKind::Cube(Face::North) => [IVec3::new(1, 0, 0), IVec3::new(0, 0, 0), IVec3::new(0, 1, 0), IVec3::new(1, 1, 0)],
        QuadKind::Cross(CrossPlane::A) => [IVec3::new(0, 0, 0), IVec3::new(1, 0, 1), IVec3::new(1, 1, 1), IVec3::new(0, 1, 0)],
        QuadKind::Cross(CrossPlane::B) => [IVec3::new(1, 0, 1), IVec3::new(0, 0, 0), IVec3::new(0, 1, 0), IVec3::new(1, 1, 1)],
        QuadKind::Cross(CrossPlane::C) => [IVec3::new(1, 0, 0), IVec3::new(0, 0, 1), IVec3::new(0, 1, 1), IVec3::new(1, 1, 0)],
        QuadKind::Cross(CrossPlane::D) => [IVec3::new(0, 0, 1), IVec3::new(1, 0, 0), IVec3::new(1, 1, 0), IVec3::new(0, 1, 1)],
    };
    assert(r@ =~= corner_offsets(kind));
    r
}

fn normal_of(kind: QuadKind) -> (r: IVec3)
    ensures
        r == quad_normal(kind),
{
    match kind {
        QuadKind::Cube(Face::Top) => IVec3::new(0, 1, 0),
        QuadKind::Cube(Face::Bottom) => IVec3::new(0, -1, 0),
        QuadKind::Cube(Face::East) => IVec3::new(1, 0, 0),
        QuadKind::Cube(Face::West) => IVec3::new(-1, 0, 0),
        QuadKind::Cube(Face::South) => IVec3::new(0, 0, 1),
        QuadKind::Cube(Face::North) => IVec3::new(0, 0, -1),
        QuadKind::Cross(_) => IVec3::new(0, 0, 0),
    }
}

impl MeshBuffers {
    /// Appends the four vertices and two triangles of one quad.
    fn add_face(&mut self, q: Quad)
        requires
            in_chunk(q.pos),
            old(self).vertices@.len() + 4 <= u32::MAX,
        ensures
            final(self).vertices@ == old(self).vertices@ + seq![
                quad_vertex(q, 0),
                quad_vertex(q, 1),
                quad_vertex(q, 2),
                quad_vertex(q, 3),
            ],
            final(self).indices@ == old(self).indices@ + seq![
                old(self).vertices@.len() as u32,
                (old(self).vertices@.len() + 1) as u32,
                (old(self).vertices@.len() + 2) as u32,
                old(self).vertices@.len() as u32,
                (old(self).vertices@.len() + 2) as u32,
                (old(self).vertices@.len() + 3) as u32,
            ],
    {
        let start = self.vertices.len() as u32;
        let cs = corners(q.kind);
        let normal = normal_of(q.kind);
        let uvs = [Uv { u: 1, v: 1 }, Uv { u: 0, v: 1 }, Uv { u: 0, v: 0 }, Uv { u: 1, v: 0 }];
        let ghost v0 = self.vertices@;
        let ghost i0 = self.indices@;
        let mut c: usize = 0;
        while c < 4
            invariant
                c <= 4,
                in_chunk(q.pos),
                cs@ == corner_offsets(q.kind),
                normal == quad_normal(q.kind),
                uvs@ == corner_uvs(),
                self.indices@ == i0,
                self.vertices@.len() == v0.len() + c,
                forall|k: int| 0 <= k < v0.len() ==> self.vertices@[k] == v0[k],
                forall|k: int| 0 <= k < c ==> self.vertices@[v0.len() + k] == quad_vertex(q, k),
            decreases 4 - c,
        {
            let o = cs[c];
            let position = IVec3::new(q.pos.x + o.x, q.pos.y + o.y, q.pos.z + o.z);
            self.vertices.push(Vertex { position, normal, uv: uvs[c] });
            c = c + 1;
        }
        assert(self.vertices@ =~= v0 + seq![
            quad_vertex(q, 0),
            quad_vertex(q, 1),
            quad_vertex(q, 2),
            quad_vertex(q, 3),
        ]);
        self.indices.push(start);
        self.indices.push(start + 1);
        self.indices.push(start + 2);
        self.indices.push(start);
        self.indices.push(start + 2);
        self.indices.push(start + 3);
    }

    /// The vertex and index buffers that draw `quads`, in order.
    pub fn from_quads(quads: &Vec<Quad>) -> (r: MeshBuffers)
        requires
            quads@.len() <= MAX_CHUNK_QUADS,
            quads_in_chunk(quads@),
        ensures
            buffers_of(r, quads@),
    {
        let mut b = MeshBuffers { vertices: Vec::new(), indices: Vec::new() };
        let mut j: usize = 0;
        while j < quads.len()
            invariant
                j <= quads@.len() <= MAX_CHUNK_QUADS,
                quads_in_chunk(quads@),
                buffers_of(b, quads@.subrange(0, j as int)),
            decreases quads@.len() - j,
        {
            let q = quads[j];
            let ghost bv = b.vertices@;
            let ghost bi = b.indices@;
            b.add_face(q);
            proof {
                let s1 = quads@.subrange(0, j + 1);
                let s0 = quads@.subrange(0, j as int);
                assert forall|jj: int, c: int| 0 <= jj < s1.len() && 0 <= c < 4 implies b.vertices@[4 * jj + c] == quad_vertex(s1[jj], c) by {
                    if jj < j {
                        assert(s1[jj] == s0[jj]);
                        assert(b.vertices@[4 * jj + c] == bv[4 * jj + c]);
                    } else {
                        assert(s1[jj] == q);
                    }
                }
                assert forall|jj: int, t: int| 0 <= jj < s1.len() && 0 <= t < 6 implies b.indices@[index_slot(jj, t)] == 4 * jj + triangle_pattern()[t] by {
                    if jj < j {
                        assert(b.indices@[index_slot(jj, t)] == bi[index_slot(jj, t)]);
                    }
                }
            }
            j = j + 1;
        }
        assert(quads@.subrange(0, quads@.len() as int) =~= quads@);
        b
    }
}

/// The material batches in drawing order.
pub open spec fn material_at(k: int) -> Material {
    if k == 0 {
        Material::GrassTop
    } else if k == 1 {
        Material::GrassSide
    } else if k == 2 {
        Material::Dirt
    } else if k == 3 {
        Material::Stone
    } else if k == 4 {
        Material::CoalOre
    } else if k == 5 {
        Material::IronOre
    } else if k == 6 {
        Material::GoldOre
    } else if k == 7 {
        Material::DiamondOre
    } else if k == 8 {
        Material::Bedrock
    } else {
        Material::TallGrass
    }
}

/// The materials among the first `k` whose batch holds a quad, in drawing order.
pub open spec fn drawn_materials(mesh: ChunkMesh, k: nat) -> Seq<Material>
    decreases k,
{
    if k == 0 {
        Seq::empty()
    } else {
        let m = material_at(k - 1);
        if mesh.batch(m).len() > 0 {
            drawn_materials(mesh, (k - 1) as nat).push(m)
        } else {
            drawn_materials(mesh, (k - 1) as nat)
        }
    }
}

fn material_at_exec(k: usize) -> (m: Material)
    requires
        k < 10,
    ensures
        m == material_at(k as int),
{
    if k == 0 {
        Material::GrassTop
    } else if k == 1 {
        Material::GrassSide
    } else if k == 2 {
        Material::Dirt
    } else if k == 3 {
        Material::Stone
    } else if k == 4 {
        Material::CoalOre
    } else if k == 5 {
        Material::IronOre
    } else if k == 6 {
        Material::GoldOre
    } else if k == 7 {
        Material::DiamondOre
    } else if k == 8 {
        Material::Bedrock
    } else {
        Material::TallGrass
    }
}

impl ChunkMesh {
    /// The quads of the render batch of material `m`.
    pub fn batch_quads(&self, m: Material) -> (r: &Vec<Quad>)
        ensures
            r@ == self.batch(m),
    {
        match m {
            Material::GrassTop => &self.grass_top,
            Material::GrassSide => &self.grass_side,
            Material::Dirt => &self.dirt,
            Material::Stone => &self.stone,
            Material::CoalOre => &self.coal_ore,
            Material::IronOre => &self.iron_ore,
            Material::GoldOre => &self.gold_ore,
            Material::DiamondOre => &self.diamond_ore,
            Material::Bedrock => &self.bedrock,
            Material::TallGrass => &self.tall_grass,
        }
    }

    /// One render sub-mesh per material whose batch holds a quad, in drawing
    /// order; empty batches give none.
    pub fn render_batches(&self) -> (r: Vec<(Material, MeshBuffers)>)
        requires
            self.wf(),
        ensures
            r@.len() == drawn_materials(*self, 10).len(),
            forall|i: int| 0 <= i < r@.len() ==> (#[trigger] r@[i]).0 == drawn_materials(*self, 10)[i]
                && buffers_of(r@[i].1, self.batch(r@[i].0)),
    {
        let mut out: Vec<(Material, MeshBuffers)> = Vec::new();
        let mut k: usize = 0;
        while k < 10
            invariant
                k <= 10,
                self.wf(),
                out@.len() == drawn_materials(*self, k as nat).len(),
                forall|i: int| 0 <= i < out@.len() ==> (#[trigger] out@[i]).0 == drawn_materials(*self, k as nat)[i]
                    && buffers_of(out@[i].1, self.batch(out@[i].0)),
            decreases 10 - k,
        {
            let m = material_at_exec(k);
            let quads = self.batch_quads(m);
            if quads.len() > 0 {
                assert(quads@.len() <= MAX_CHUNK_QUADS && quads_in_chunk(quads@));
                let b = MeshBuffers::from_quads(quads);
                out.push((m, b));
            }
            k = k + 1;
        }
        out
    }

    /// The buffers that the chunk's collider is built from, or `None` when no
    /// face was drawn and the chunk has no collider.
    pub fn collider_buffers(&self) -> (r: Option<MeshBuffers>)
        requires
            self.wf(),
        ensures
            self.collider@.len() == 0 <==> r is None,
            r matches Some(b) ==> buffers_of(b, self.collider@),
    {
        if self.collider.len() == 0 {
            None
        } else {
            Some(MeshBuffers::from_quads(&self.collider))
        }
    }

    /// The buffers of the non-blocking sensor around tall grass, or `None`
    /// when the chunk holds none.
    pub fn sensor_buffers(&self) -> (r: Option<MeshBuffers>)
        requires
            self.wf(),
        ensures
            self.sensor@.len() == 0 <==> r is None,
            r matches Some(b) ==> buffers_of(b, self.sensor@),
    {
        if self.sensor.len() == 0 {
            None
        } else {
            Some(MeshBuffers::from_quads(&self.sensor))
        }
    }
}

/// The buffers of a list of quads are determined by the list: two buffers
/// built from the same quads hold the same vertices and the same triangles.
pub proof fn lemma_buffers_determined(a: MeshBuffers, b: MeshBuffers, quads: Seq<Quad>)
    requires
        buffers_of(a, quads),
        buffers_of(b, quads),
    ensures
        a.vertices@ == b.vertices@,
        a.indices@ == b.indices@,
{
    assert forall|k: int| 0 <= k < a.vertices@.len() implies a.vertices@[k] == b.vertices@[k] by {
        let j = k / 4;
        let c = k % 4;
        assert(0 <= j < quads.len() && 0 <= c < 4 && k == 4 * j + c) by (nonlinear_arith)
            requires
                0 <= k < 4 * quads.len(),
                j == k / 4,
                c == k % 4,
        ;
        assert(a.vertices@[4 * j + c] == quad_vertex(quads[j], c));
        assert(b.vertices@[4 * j + c] == quad_vertex(quads[j], c));
    }
    assert forall|k: int| 0 <= k < a.indices@.len() implies a.indices@[k] == b.indices@[k] by {
        let j = k / 6;
        let t = k % 6;
        assert(0 <= j < quads.len() && 0 <= t < 6 && k == index_slot(j, t)) by (nonlinear_arith)
            requires
                0 <= k < 6 * quads.len(),
                j == k / 6,
                t == k % 6,
        ;
    }
    assert(a.vertices@ =~= b.vertices@);
    assert(a.indices@ =~= b.indices@);
}

} // verus!
