use std::collections::{BTreeMap, BTreeSet};
use vstd::prelude::*;
use vstd::std_specs::btree::{spec_btree_keys_iter, spec_keys_iter};
use vstd::std_specs::iter::IteratorSpec;

use crate::chunk::{in_chunk, local_index, Chunk};
use crate::coords::{
    floor_div16, rem16, spec_voxel_to_local, spec_world_to_chunk, valid_chunk_key, IVec3,
    MAX_CHUNK_COORD, MIN_CHUNK_COORD,
};
use crate::mesher::{face_at, remesh_chunk, step, ChunkMesh};
use crate::mining::{mining_step, MiningProgress};
use crate::voxel::VoxelType;

verus! {

broadcast use vstd::std_specs::btree::group_btree_axioms, vstd::laws_cmp::group_laws_cmp;

/// A chunk coordinate as the index keys it.
pub type ChunkKey = (i32, i32, i32);

pub open spec fn key_of(c: IVec3) -> ChunkKey {
    (c.x, c.y, c.z)
}

pub open spec fn pos_of(k: ChunkKey) -> IVec3 {
    IVec3 { x: k.0, y: k.1, z: k.2 }
}

/// The loaded chunks by coordinate, the chunks whose mesh is stale, and the
/// chunks taken out of the index whose derived geometry still awaits teardown.
pub struct VoxelWorld {
    /// At most one chunk per coordinate.
    pub chunks: BTreeMap<ChunkKey, Chunk>,
    /// Loaded chunks whose mesh must be rebuilt.
    pub dirty: BTreeSet<ChunkKey>,
    /// Chunks already out of the index whose geometry the host still has to tear down.
    pub pending_despawn: Vec<IVec3>,
    /// Set while the first meshing of a new world runs unbounded.
    pub initial_meshing: bool,
}

impl VoxelWorld {
    /// Every key is a valid chunk coordinate, and only loaded chunks are dirty.
    pub open spec fn wf(&self) -> bool {
        &&& forall|k: ChunkKey| #[trigger] self.chunks@.contains_key(k) ==> valid_chunk_key(pos_of(k))
        &&& self.dirty@.subset_of(self.chunks@.dom())
    }

    /// Whether chunk `c` is in the index.
    pub open spec fn loaded(&self, c: IVec3) -> bool {
        self.chunks@.contains_key(key_of(c))
    }

    /// Whether chunk `c` waits for a new mesh.
    pub open spec fn stale(&self, c: IVec3) -> bool {
        self.dirty@.contains(key_of(c))
    }

    /// An empty world.
    pub fn new() -> (r: VoxelWorld)
        ensures
            r.wf(),
            r.chunks@ == Map::<ChunkKey, Chunk>::empty(),
            r.dirty@ == Set::<ChunkKey>::empty(),
            r.pending_despawn@ == Seq::<IVec3>::empty(),
            !r.initial_meshing,
    {
        VoxelWorld { chunks: BTreeMap::new(), dirty: BTreeSet::new(), pending_despawn: Vec::new(), initial_meshing: false }
    }

    /// The chunk that holds the voxel at a world voxel position: `floor(p / 16)` on each axis.
    pub fn world_to_chunk_pos(voxel_pos: IVec3) -> (r: IVec3)
        ensures
            r == spec_world_to_chunk(voxel_pos),
            valid_chunk_key(r),
    {
        IVec3 { x: floor_div16(voxel_pos.x), y: floor_div16(voxel_pos.y), z: floor_div16(voxel_pos.z) }
    }

    /// The local position of a world voxel inside its chunk: each axis modulo
    /// 16, in `[0, 16)` also west and south of the origin.
    pub fn voxel_to_local_pos(voxel_pos: IVec3) -> (r: IVec3)
        ensures
            r == spec_voxel_to_local(voxel_pos),
            in_chunk(r),
    {
        IVec3 { x: rem16(voxel_pos.x), y: rem16(voxel_pos.y), z: rem16(voxel_pos.z) }
    }

    /// The loaded chunk at coordinate `c`, if any.
    pub fn get_chunk(&self, c: IVec3) -> (r: Option<&Chunk>)
        ensures
            r matches Some(ch) ==> self.loaded(c) && *ch == self.chunks@[key_of(c)],
            r is None ==> !self.loaded(c),
    {
        self.chunks.get(&(c.x, c.y, c.z))
    }

    /// Whether chunk `c` waits for a new mesh.
    pub fn needs_mesh(&self, c: IVec3) -> (r: bool)
        ensures
            r == self.stale(c),
    {
        self.dirty.contains(&(c.x, c.y, c.z))
    }

    /// Marks chunk `c` stale if it is loaded.
    fn mark_dirty(&mut self, c: IVec3)
        requires
            old(self).wf(),
        ensures
            final(self).wf(),
            final(self).chunks@ == old(self).chunks@,
            final(self).pending_despawn@ == old(self).pending_despawn@,
            final(self).initial_meshing == old(self).initial_meshing,
            final(self).dirty@ == if old(self).loaded(c) {
                old(self).dirty@.insert(key_of(c))
            } else {
                old(self).dirty@
            },
    {
        let k = (c.x, c.y, c.z);
        if self.chunks.contains_key(&k) {
            self.dirty.insert(k);
        }
    }

    /// Empties the index.
    pub fn reset_voxel_world(&mut self)
        requires
            old(self).wf(),
        ensures
            final(self).wf(),
            final(self).chunks@ == Map::<ChunkKey, Chunk>::empty(),
            final(self).dirty@ == Set::<ChunkKey>::empty(),
            final(self).pending_despawn@ == old(self).pending_despawn@,
            final(self).initial_meshing == old(self).initial_meshing,
    {
        self.chunks.clear();
        self.dirty.clear();
    }
}

pub open spec fn offset_key(c: IVec3, dx: int, dy: int, dz: int) -> ChunkKey {
    ((c.x + dx) as i32, (c.y + dy) as i32, (c.z + dz) as i32)
}

/// The chunks that share the face of chunk `c` on which local position `l`
/// lies: one per axis on which `l` is 0 or 15.
pub open spec fn boundary_neighbors(c: IVec3, l: IVec3) -> Set<ChunkKey> {
    Set::new(
        |k: ChunkKey|
            {
                ||| l.x == 0 && k == offset_key(c, -1, 0, 0)
                ||| l.x == 15 && k == offset_key(c, 1, 0, 0)
                ||| l.y == 0 && k == offset_key(c, 0, -1, 0)
                ||| l.y == 15 && k == offset_key(c, 0, 1, 0)
                ||| l.z == 0 && k == offset_key(c, 0, 0, -1)
                ||| l.z == 15 && k == offset_key(c, 0, 0, 1)
            },
    )
}

/// The six chunks that share a face with chunk `c`.
pub open spec fn face_neighbors(c: IVec3) -> Set<ChunkKey> {
    Set::new(
        |k: ChunkKey|
            {
                ||| k == offset_key(c, 1, 0, 0)
                ||| k == offset_key(c, -1, 0, 0)
                ||| k == offset_key(c, 0, 0, 1)
                ||| k == offset_key(c, 0, 0, -1)
                ||| k == offset_key(c, 0, 1, 0)
                ||| k == offset_key(c, 0, -1, 0)
            },
    )
}

/// `dirty` with every loaded chunk of `ks` added.
pub open spec fn with_loaded(dirty: Set<ChunkKey>, chunks: Map<ChunkKey, Chunk>, ks: Set<ChunkKey>) -> Set<ChunkKey> {
    dirty.union(ks.intersect(chunks.dom()))
}

/// `after` is `before` with `voxel` written at world voxel position `p`, when
/// its chunk is loaded: that chunk and each loaded chunk that shares the face
/// the voxel lies on are stale. When the chunk is not loaded, nothing changes.
pub open spec fn edit_applied(before: VoxelWorld, after: VoxelWorld, p: IVec3, voxel: VoxelType) -> bool {
    let c = spec_world_to_chunk(p);
    let l = spec_voxel_to_local(p);
    let k = key_of(c);
    &&& after.pending_despawn@ == before.pending_despawn@
    &&& after.initial_meshing == before.initial_meshing
    &&& if before.loaded(c) {
        &&& after.chunks@.dom() == before.chunks@.dom()
        &&& forall|k2: ChunkKey| k2 != k ==> #[trigger] after.chunks@[k2] == before.chunks@[k2]
        &&& after.chunks@[k].voxels@ == before.chunks@[k].voxels@.update(local_index(l), voxel)
        &&& after.dirty@ == with_loaded(before.dirty@.insert(k), before.chunks@, boundary_neighbors(c, l))
    } else {
        &&& after.chunks@ == before.chunks@
        &&& after.dirty@ == before.dirty@
    }
}

/// The voxel at world voxel position `p`; air where its chunk is not loaded.
pub open spec fn world_voxel(chunks: Map<ChunkKey, Chunk>, p: IVec3) -> VoxelType {
    let k = key_of(spec_world_to_chunk(p));
    if chunks.contains_key(k) {
        chunks[k].voxel_at(spec_voxel_to_local(p))
    } else {
        VoxelType::Air
    }
}

impl VoxelWorld {
    /// After an edit at local position `local` of chunk `chunk_pos`, marks stale
    /// each loaded chunk that shares the face the edited voxel lies on.
    pub fn mark_neighbor_chunks(&mut self, chunk_pos: IVec3, local: IVec3)
        requires
            old(self).wf(),
            valid_chunk_key(chunk_pos),
        ensures
            final(self).wf(),
            final(self).chunks@ == old(self).chunks@,
            final(self).pending_despawn@ == old(self).pending_despawn@,
            final(self).initial_meshing == old(self).initial_meshing,
            final(self).dirty@ == with_loaded(old(self).dirty@, old(self).chunks@, boundary_neighbors(chunk_pos, local)),
    {
        let ghost d0 = self.dirty@;
        let c = chunk_pos;
        if local.x == 0 {
            self.mark_dirty(IVec3::new(c.x - 1, c.y, c.z));
        } else if local.x == 15 {
            self.mark_dirty(IVec3::new(c.x + 1, c.y, c.z));
        }
        if local.y == 0 {
            self.mark_dirty(IVec3::new(c.x, c.y - 1, c.z));
        } else if local.y == 15 {
            self.mark_dirty(IVec3::new(c.x, c.y + 1, c.z));
        }
        if local.z == 0 {
            self.mark_dirty(IVec3::new(c.x, c.y, c.z - 1));
        } else if local.z == 15 {
            self.mark_dirty(IVec3::new(c.x, c.y, c.z + 1));
        }
        assert(self.dirty@ =~= with_loaded(d0, self.chunks@, boundary_neighbors(chunk_pos, local)));
    }

    /// Marks stale each loaded chunk that shares a face with chunk `c`.
    fn mark_face_neighbors(&mut self, c: IVec3)
        requires
            old(self).wf(),
            valid_chunk_key(c),
        ensures
            final(self).wf(),
            final(self).chunks@ == old(self).chunks@,
            final(self).pending_despawn@ == old(self).pending_despawn@,
            final(self).initial_meshing == old(self).initial_meshing,
            final(self).dirty@ == with_loaded(old(self).dirty@, old(self).chunks@, face_neighbors(c)),
    {
        let ghost d0 = self.dirty@;
        self.mark_dirty(IVec3::new(c.x + 1, c.y, c.z));
        self.mark_dirty(IVec3::new(c.x - 1, c.y, c.z));
        self.mark_dirty(IVec3::new(c.x, c.y, c.z + 1));
        self.mark_dirty(IVec3::new(c.x, c.y, c.z - 1));
        self.mark_dirty(IVec3::new(c.x, c.y + 1, c.z));
        self.mark_dirty(IVec3::new(c.x, c.y - 1, c.z));
        assert(self.dirty@ =~= with_loaded(d0, self.chunks@, face_neighbors(c)));
    }

    /// Puts a freshly generated chunk into the index at `c`, marks it stale,
    /// and marks stale each loaded chunk that shares a face with it, so that
    /// the seam between them is meshed again.
    pub fn insert_chunk(&mut self, c: IVec3, chunk: Chunk)
        requires
            old(self).wf(),
            valid_chunk_key(c),
        ensures
            final(self).wf(),
            final(self).chunks@ == old(self).chunks@.insert(key_of(c), chunk),
            final(self).dirty@ == with_loaded(
                old(self).dirty@.insert(key_of(c)),
                old(self).chunks@,
                face_neighbors(c),
            ),
            final(self).pending_despawn@ == old(self).pending_despawn@,
            final(self).initial_meshing == old(self).initial_meshing,
    {
        let ghost m0 = self.chunks@;
        let ghost d0 = self.dirty@;
        self.chunks.insert((c.x, c.y, c.z), chunk);
        self.dirty.insert((c.x, c.y, c.z));
        self.mark_face_neighbors(c);
        proof {
            assert(!face_neighbors(c).contains(key_of(c)));
            assert(with_loaded(d0.insert(key_of(c)), self.chunks@, face_neighbors(c)) =~= with_loaded(
                d0.insert(key_of(c)),
                m0,
                face_neighbors(c),
            ));
        }
    }

    /// Writes `voxel` at world voxel position `voxel_pos` when its chunk is
    /// loaded, then marks that chunk stale together with each loaded chunk
    /// that shares the face the voxel lies on. Returns whether the chunk was loaded.
    pub fn apply_voxel_edit(&mut self, voxel_pos: IVec3, voxel: VoxelType) -> (r: bool)
        requires
            old(self).wf(),
        ensures
            final(self).wf(),
            r == old(self).loaded(spec_world_to_chunk(voxel_pos)),
            edit_applied(*old(self), *final(self), voxel_pos, voxel),
    {
        let c = VoxelWorld::world_to_chunk_pos(voxel_pos);
        let l = VoxelWorld::voxel_to_local_pos(voxel_pos);
        let k = (c.x, c.y, c.z);
        let ghost w0 = *self;
        match self.chunks.remove(&k) {
            Some(mut chunk) => {
                chunk.set_voxel(l, voxel);
                self.chunks.insert(k, chunk);
                self.dirty.insert(k);
                self.mark_neighbor_chunks(c, l);
                assert(self.chunks@.dom() =~= w0.chunks@.dom());
                assert(edit_applied(w0, *self, voxel_pos, voxel));
                true
            },
            None => {
                assert(self.chunks@ =~= w0.chunks@);
                false
            },
        }
    }
}

impl VoxelWorld {
    /// The stale chunk coordinates, each once.
    fn dirty_keys(&self) -> (r: Vec<ChunkKey>)
        ensures
            r@.to_set() == self.dirty@,
            r@.no_duplicates(),
    {
        let mut out: Vec<ChunkKey> = Vec::new();
        for k in it: self.dirty.iter()
            invariant
                out@ == it.seq().take(it.index() as int).unref(),
                it.seq() == spec_btree_keys_iter(&self.dirty).remaining(),
        {
            out.push(*k);
        }
        assert(out@ =~= spec_btree_keys_iter(&self.dirty).remaining().unref());
        out
    }
}

/// Chunk `c` lies in the retained volume around `center`: within `view_distance`
/// on the horizontal axes, and in the band of chunk layers that generation fills.
pub open spec fn in_view(center: IVec3, view_distance: int, c: IVec3) -> bool {
    &&& -view_distance <= c.x - center.x <= view_distance
    &&& -view_distance <= c.z - center.z <= view_distance
    &&& -2 <= c.y <= 6
}

/// The loaded chunks that lie outside the retained volume.
pub open spec fn far_chunks(chunks: Map<ChunkKey, Chunk>, center: IVec3, view_distance: int) -> Set<IVec3> {
    Set::new(|c: IVec3| chunks.contains_key(key_of(c)) && !in_view(center, view_distance, c))
}

/// The keys of the chunks inside the retained volume.
pub open spec fn near_keys(center: IVec3, view_distance: int) -> Set<ChunkKey> {
    Set::new(|k: ChunkKey| in_view(center, view_distance, pos_of(k)))
}

impl VoxelWorld {
    /// The loaded chunk coordinates, each once.
    fn loaded_keys(&self) -> (r: Vec<ChunkKey>)
        ensures
            r@.to_set() == self.chunks@.dom(),
            r@.no_duplicates(),
    {
        let mut out: Vec<ChunkKey> = Vec::new();
        for k in it: self.chunks.keys()
            invariant
                out@ == it.seq().take(it.index() as int).unref(),
                it.seq() == spec_keys_iter(&self.chunks).remaining(),
        {
            out.push(*k);
        }
        assert(out@ =~= spec_keys_iter(&self.chunks).remaining().unref());
        out
    }

    /// Takes every loaded chunk outside the retained volume around
    /// `player_chunk` out of the index, drops its stale mark, and queues its
    /// coordinate for teardown by `apply_chunk_despawns`.
    pub fn despawn_far_chunks(&mut self, player_chunk: IVec3, view_distance: i32)
        requires
            old(self).wf(),
        ensures
            final(self).wf(),
            final(self).chunks@ == old(self).chunks@.restrict(near_keys(player_chunk, view_distance as int)),
            final(self).dirty@ == old(self).dirty@.intersect(near_keys(player_chunk, view_distance as int)),
            final(self).initial_meshing == old(self).initial_meshing,
            final(self).pending_despawn@.len() >= old(self).pending_despawn@.len(),
            final(self).pending_despawn@.subrange(0, old(self).pending_despawn@.len() as int)
                == old(self).pending_despawn@,
            ({
                let queued = final(self).pending_despawn@.subrange(
                    old(self).pending_despawn@.len() as int,
                    final(self).pending_despawn@.len() as int,
                );
                &&& queued.no_duplicates()
                &&& queued.to_set() == far_chunks(old(self).chunks@, player_chunk, view_distance as int)
            }),
    {
        let ghost c0 = self.chunks@;
        let ghost d0 = self.dirty@;
        let ghost queue0 = self.pending_despawn@;
        let ghost near = near_keys(player_chunk, view_distance as int);
        let keys = self.loaded_keys();
        let ghost mut removed: Seq<IVec3> = Seq::empty();
        let mut i: usize = 0;
        while i < keys.len()
            invariant
                i <= keys@.len(),
                near == near_keys(player_chunk, view_distance as int),
                keys@.to_set() == c0.dom(),
                keys@.no_duplicates(),
                forall|k: ChunkKey| #[trigger] c0.contains_key(k) ==> valid_chunk_key(pos_of(k)),
                d0.subset_of(c0.dom()),
                self.initial_meshing == old(self).initial_meshing,
                self.chunks@ == c0.restrict(
                    Set::new(|k: ChunkKey| c0.contains_key(k) && (near.contains(k) || !keys@.take(i as int).contains(k))),
                ),
                self.dirty@ == d0.intersect(
                    Set::new(|k: ChunkKey| near.contains(k) || !keys@.take(i as int).contains(k)),
                ),
                self.pending_despawn@ == queue0 + removed,
                removed.no_duplicates(),
                removed.to_set() == Set::new(
                    |c: IVec3| keys@.take(i as int).contains(key_of(c)) && !near.contains(key_of(c)),
                ),
            decreases keys@.len() - i,
        {
            let k = keys[i];
            let c = IVec3::new(k.0, k.1, k.2);
            let ghost before = keys@.take(i as int);
            assert(keys@.take(i + 1) == before.push(k));
            let ghost old_removed = removed;
            let is_near = -(view_distance as i64) <= c.x as i64 - player_chunk.x as i64
                && c.x as i64 - player_chunk.x as i64 <= view_distance as i64
                && -(view_distance as i64) <= c.z as i64 - player_chunk.z as i64
                && c.z as i64 - player_chunk.z as i64 <= view_distance as i64
                && -2 <= c.y && c.y <= 6;
            assert(is_near == near.contains(k));
            if !is_near {
                self.chunks.remove(&k);
                self.dirty.remove(&k);
                self.pending_despawn.push(c);
                proof {
                    removed = removed.push(c);
                    assert(!before.contains(k)) by {
                        if before.contains(k) {
                            let j = choose|j: int| 0 <= j < before.len() && before[j] == k;
                            assert(keys@[j] == keys@[i as int]);
                        }
                    }
                    assert(!old_removed.contains(c)) by {
                        if old_removed.contains(c) {
                            assert(old_removed.to_set().contains(c));
                        }
                    }
                }
            }
            proof {
                let after = keys@.take(i + 1);
                assert forall|k2: ChunkKey| after.contains(k2) <==> (before.contains(k2) || k2 == k) by {
                    if after.contains(k2) {
                        let j = choose|j: int| 0 <= j < after.len() && after[j] == k2;
                        if j < before.len() {
                            assert(before[j] == k2);
                        }
                    }
                    if before.contains(k2) {
                        let j = choose|j: int| 0 <= j < before.len() && before[j] == k2;
                        assert(after[j] == k2);
                    }
                    if k2 == k {
                        assert(after[i as int] == k2);
                    }
                }
                assert forall|c2: IVec3| removed.contains(c2) <==> (old_removed.contains(c2) || (!is_near && c2 == c)) by {
                    if !is_near {
                        if removed.contains(c2) {
                            let j = choose|j: int| 0 <= j < removed.len() && removed[j] == c2;
                            if j < old_removed.len() {
                                assert(old_removed[j] == c2);
                            }
                        }
                        if old_removed.contains(c2) {
                            let j = choose|j: int| 0 <= j < old_removed.len() && old_removed[j] == c2;
                            assert(removed[j] == c2);
                        }
                        if c2 == c {
                            assert(removed[old_removed.len() as int] == c2);
                        }
                    }
                }
                assert forall|c2: IVec3| key_of(c2) == k implies c2 == c by {}
                assert(self.chunks@ =~= c0.restrict(
                    Set::new(|k2: ChunkKey| c0.contains_key(k2) && (near.contains(k2) || !after.contains(k2))),
                ));
                assert(self.dirty@ =~= d0.intersect(
                    Set::new(|k2: ChunkKey| near.contains(k2) || !after.contains(k2)),
                ));
                assert(self.pending_despawn@ =~= queue0 + removed);
                assert forall|c2: IVec3| #[trigger] removed.to_set().contains(c2) == (after.contains(key_of(c2))
                    && !near.contains(key_of(c2))) by {
                    assert(old_removed.to_set().contains(c2) == old_removed.contains(c2));
                    assert(removed.to_set().contains(c2) == removed.contains(c2));
                }
                assert(removed.to_set() =~= Set::new(
                    |c2: IVec3| after.contains(key_of(c2)) && !near.contains(key_of(c2)),
                ));
            }
            i = i + 1;
        }
        proof {
            assert(keys@.take(keys@.len() as int) =~= keys@);
            assert(self.chunks@ =~= c0.restrict(near));
            assert(self.dirty@ =~= d0.intersect(near));
            assert(self.pending_despawn@.subrange(0, queue0.len() as int) =~= queue0);
            assert(self.pending_despawn@.subrange(queue0.len() as int, self.pending_despawn@.len() as int) =~= removed);
            assert(removed.to_set() =~= far_chunks(c0, player_chunk, view_distance as int));
        }
    }

    /// Hands over the coordinates queued for teardown, oldest first, and empties the queue.
    pub fn apply_chunk_despawns(&mut self) -> (r: Vec<IVec3>)
        requires
            old(self).wf(),
        ensures
            final(self).wf(),
            r@ == old(self).pending_despawn@,
            final(self).pending_despawn@ == Seq::<IVec3>::empty(),
            final(self).chunks@ == old(self).chunks@,
            final(self).dirty@ == old(self).dirty@,
            final(self).initial_meshing == old(self).initial_meshing,
    {
        let mut out: Vec<IVec3> = Vec::new();
        std::mem::swap(&mut out, &mut self.pending_despawn);
        out
    }
}

/// Scan order of the chunks around the player: by y, then x, then z.
pub open spec fn scan_before(a: IVec3, b: IVec3) -> bool {
    ||| a.y < b.y
    ||| a.y == b.y && a.x < b.x
    ||| a.y == b.y && a.x == b.x && a.z < b.z
}

/// The retained volume around `center` lies within the valid chunk coordinates.
pub open spec fn view_fits(center: IVec3, view_distance: int) -> bool {
    &&& 0 <= view_distance
    &&& MIN_CHUNK_COORD <= center.x - view_distance
    &&& center.x + view_distance <= MAX_CHUNK_COORD
    &&& MIN_CHUNK_COORD <= center.z - view_distance
    &&& center.z + view_distance <= MAX_CHUNK_COORD
}

impl VoxelWorld {
    /// The chunks of the retained volume around `player_chunk` that are not
    /// loaded yet, each once: the ones to generate and insert next. While the
    /// initial bulk meshing runs, none.
    pub fn spawn_chunks_around_player(&self, player_chunk: IVec3, view_distance: i32) -> (r: Vec<IVec3>)
        requires
            self.wf(),
            view_fits(player_chunk, view_distance as int),
        ensures
            self.initial_meshing ==> r@.len() == 0,
            !self.initial_meshing ==> {
                &&& r@.no_duplicates()
                &&& forall|c: IVec3| #[trigger] r@.contains(c) <==> in_view(player_chunk, view_distance as int, c) && !self.loaded(c)
            },
            forall|j: int| 0 <= j < r@.len() ==> valid_chunk_key(#[trigger] r@[j]),
    {
        let mut out: Vec<IVec3> = Vec::new();
        if self.initial_meshing {
            return out;
        }
        let ghost vd = view_distance as int;
        let ghost center = player_chunk;
        let x_lo = player_chunk.x - view_distance;
        let x_hi = player_chunk.x + view_distance;
        let z_lo = player_chunk.z - view_distance;
        let z_hi = player_chunk.z + view_distance;
        let mut y: i32 = -2;
        while y <= 6
            invariant
                -2 <= y <= 7,
                view_fits(center, vd),
                vd == view_distance,
                x_lo == center.x - vd,
                x_hi == center.x + vd,
                z_lo == center.z - vd,
                z_hi == center.z + vd,
                forall|i: int, j: int| 0 <= i < j < out@.len() ==> scan_before(#[trigger] out@[i], #[trigger] out@[j]),
                forall|j: int| 0 <= j < out@.len() ==> scan_before(#[trigger] out@[j], IVec3 { x: x_lo, y, z: z_lo }),
                forall|j: int| 0 <= j < out@.len() ==> valid_chunk_key(#[trigger] out@[j]),
                forall|c: IVec3| #[trigger] out@.contains(c) <==> in_view(center, vd, c) && !self.loaded(c) && c.y < y,
            decreases 7 - y,
        {
            let mut x: i32 = x_lo;
            while x <= x_hi
                invariant
                    -2 <= y <= 6,
                    x_lo <= x <= x_hi + 1,
                    view_fits(center, vd),
                    vd == view_distance,
                    x_lo == center.x - vd,
                    x_hi == center.x + vd,
                    z_lo == center.z - vd,
                    z_hi == center.z + vd,
                    forall|i: int, j: int| 0 <= i < j < out@.len() ==> scan_before(#[trigger] out@[i], #[trigger] out@[j]),
                    forall|j: int| 0 <= j < out@.len() ==> scan_before(#[trigger] out@[j], IVec3 { x, y, z: z_lo }),
                    forall|j: int| 0 <= j < out@.len() ==> valid_chunk_key(#[trigger] out@[j]),
                    forall|c: IVec3| #[trigger] out@.contains(c) <==> in_view(center, vd, c) && !self.loaded(c)
                        && (c.y < y || (c.y == y && c.x < x)),
                decreases x_hi + 1 - x,
            {
                let mut z: i32 = z_lo;
                while z <= z_hi
                    invariant
                        -2 <= y <= 6,
                        x_lo <= x <= x_hi,
                        z_lo <= z <= z_hi + 1,
                        view_fits(center, vd),
                        vd == view_distance,
                        x_lo == center.x - vd,
                        x_hi == center.x + vd,
                        z_lo == center.z - vd,
                        z_hi == center.z + vd,
                        forall|i: int, j: int| 0 <= i < j < out@.len() ==> scan_before(#[trigger] out@[i], #[trigger] out@[j]),
                        forall|j: int| 0 <= j < out@.len() ==> scan_before(#[trigger] out@[j], IVec3 { x, y, z }),
                        forall|j: int| 0 <= j < out@.len() ==> valid_chunk_key(#[trigger] out@[j]),
                        forall|c: IVec3| #[trigger] out@.contains(c) <==> in_view(center, vd, c) && !self.loaded(c)
                            && (c.y < y || (c.y == y && c.x < x) || (c.y == y && c.x == x && c.z < z)),
                    decreases z_hi + 1 - z,
                {
                    let c = IVec3::new(x, y, z);
                    let ghost before = out@;
                    if !self.chunks.contains_key(&(x, y, z)) {
                        out.push(c);
                    }
                    proof {
                        assert forall|c2: IVec3| #[trigger] out@.contains(c2) <==> (before.contains(c2) || (!self.loaded(c) && c2 == c)) by {
                            if out@.contains(c2) {
                                let j = choose|j: int| 0 <= j < out@.len() && out@[j] == c2;
                                if j < before.len() {
                                    assert(before[j] == c2);
                                }
                            }
                            if before.contains(c2) {
                                let j = choose|j: int| 0 <= j < before.len() && before[j] == c2;
                                assert(out@[j] == c2);
                            }
                            if !self.loaded(c) && c2 == c {
                                assert(out@[before.len() as int] == c2);
                            }
                        }
                    }
                    z = z + 1;
                }
                x = x + 1;
            }
            y = y + 1;
        }
        proof {
            assert forall|i: int, j: int| 0 <= i < out@.len() && 0 <= j < out@.len() && i != j implies out@[i] != out@[j] by {
                if i < j {
                    assert(scan_before(out@[i], out@[j]));
                } else {
                    assert(scan_before(out@[j], out@[i]));
                }
            }
        }
        out
    }
}

/// The loaded chunks across the six faces of chunk `c`, in face order.
pub open spec fn neighbor_chunks(chunks: Map<ChunkKey, Chunk>, c: IVec3) -> Seq<Option<Chunk>> {
    Seq::new(
        6,
        |k: int|
            {
                let n = key_of(step(c, face_at(k)));
                if chunks.contains_key(n) {
                    Some(chunks[n])
                } else {
                    None
                }
            },
    )
}

/// How many stale chunks one meshing pass takes: all of them during the
/// initial bulk meshing, else at most `limit`.
pub open spec fn mesh_budget(initial: bool, stale: nat, limit: nat) -> nat {
    if initial || stale <= limit {
        stale
    } else {
        limit
    }
}

impl VoxelWorld {
    fn neighbors_of(&self, c: IVec3) -> (r: [Option<Chunk>; 6])
        requires
            valid_chunk_key(c),
        ensures
            r@ == neighbor_chunks(self.chunks@, c),
    {
        let keys = [
            (c.x, c.y + 1, c.z),
            (c.x, c.y - 1, c.z),
            (c.x + 1, c.y, c.z),
            (c.x - 1, c.y, c.z),
            (c.x, c.y, c.z + 1),
            (c.x, c.y, c.z - 1),
        ];
        let mut r: [Option<Chunk>; 6] = [None, None, None, None, None, None];
        let mut k: usize = 0;
        while k < 6
            invariant
                k <= 6,
                valid_chunk_key(c),
                forall|j: int| 0 <= j < 6 ==> #[trigger] keys@[j] == key_of(step(c, face_at(j))),
                forall|j: int| 0 <= j < k ==> #[trigger] r@[j] == neighbor_chunks(self.chunks@, c)[j],
            decreases 6 - k,
        {
            let found = match self.chunks.get(&keys[k]) {
                Some(ch) => Some(*ch),
                None => None,
            };
            r[k] = found;
            k = k + 1;
        }
        assert(r@ =~= neighbor_chunks(self.chunks@, c));
        r
    }

    /// Meshes stale chunks against their loaded neighbours and clears their
    /// stale marks: all of them during the initial bulk meshing, which then
    /// ends, and at most `limit` otherwise. Returns each meshed coordinate
    /// with its new mesh, which replaces the old one whole.
    pub fn update_chunk_mesh(&mut self, limit: usize) -> (r: Vec<(IVec3, ChunkMesh)>)
        requires
            old(self).wf(),
        ensures
            final(self).wf(),
            final(self).chunks@ == old(self).chunks@,
            final(self).pending_despawn@ == old(self).pending_despawn@,
            !final(self).initial_meshing,
            r@.len() == mesh_budget(old(self).initial_meshing, old(self).dirty@.len(), limit as nat),
            forall|i: int, j: int| 0 <= i < j < r@.len() ==> (#[trigger] r@[i]).0 != (#[trigger] r@[j]).0,
            forall|j: int|
                0 <= j < r@.len() ==> {
                    let c = (#[trigger] r@[j]).0;
                    &&& old(self).dirty@.contains(key_of(c))
                    &&& r@[j].1.is_mesh_of(old(self).chunks@[key_of(c)], neighbor_chunks(old(self).chunks@, c))
                    &&& r@[j].1.wf()
                },
            forall|k: ChunkKey| #[trigger] final(self).dirty@.contains(k) <==> old(self).dirty@.contains(k)
                && !(exists|j: int| 0 <= j < r@.len() && key_of(#[trigger] r@[j].0) == k),
    {
        let keys = self.dirty_keys();
        proof {
            keys@.unique_seq_to_set();
        }
        let n = if self.initial_meshing || keys.len() <= limit {
            keys.len()
        } else {
            limit
        };
        let ghost d0 = self.dirty@;
        let mut out: Vec<(IVec3, ChunkMesh)> = Vec::new();
        let mut i: usize = 0;
        while i < n
            invariant
                n <= keys@.len(),
                i <= n,
                keys@.to_set() == d0,
                keys@.no_duplicates(),
                self.wf(),
                self.chunks@ == old(self).chunks@,
                self.pending_despawn@ == old(self).pending_despawn@,
                self.dirty@ == d0,
                d0 == old(self).dirty@,
                out@.len() == i,
                forall|j: int| 0 <= j < i ==> key_of((#[trigger] out@[j]).0) == keys@[j],
                forall|j: int|
                    0 <= j < i ==> {
                        let c = (#[trigger] out@[j]).0;
                        &&& d0.contains(key_of(c))
                        &&& out@[j].1.is_mesh_of(self.chunks@[key_of(c)], neighbor_chunks(self.chunks@, c))
                        &&& out@[j].1.wf()
                    },
            decreases n - i,
        {
            let k = keys[i];
            assert(keys@.to_set().contains(k));
            let c = IVec3::new(k.0, k.1, k.2);
            let chunk = match self.chunks.get(&k) {
                Some(ch) => *ch,
                None => Chunk::empty(),
            };
            let neighbors = self.neighbors_of(c);
            let mesh = remesh_chunk(&chunk, &neighbors);
            out.push((c, mesh));
            i = i + 1;
        }
        let mut j: usize = 0;
        while j < n
            invariant
                j <= n <= keys@.len(),
                out@.len() == n,
                forall|t: int| 0 <= t < n ==> key_of((#[trigger] out@[t]).0) == keys@[t],
                self.wf(),
                self.chunks@ == old(self).chunks@,
                self.pending_despawn@ == old(self).pending_despawn@,
                d0 == old(self).dirty@,
                keys@.to_set() == d0,
                forall|k: ChunkKey| #[trigger] self.dirty@.contains(k) <==> d0.contains(k)
                    && !(exists|t: int| 0 <= t < j && keys@[t] == k),
            decreases n - j,
        {
            let k = keys[j];
            self.dirty.remove(&k);
            proof {
                assert forall|k2: ChunkKey| #[trigger] self.dirty@.contains(k2) <==> d0.contains(k2)
                    && !(exists|t: int| 0 <= t < j + 1 && keys@[t] == k2) by {
                    if k2 == k {
                        assert(keys@[j as int] == k2);
                    }
                    if exists|t: int| 0 <= t < j + 1 && keys@[t] == k2 {
                        let t = choose|t: int| 0 <= t < j + 1 && keys@[t] == k2;
                        if t < j {
                        } else {
                            assert(k2 == k);
                        }
                    }
                }
            }
            j = j + 1;
        }
        self.initial_meshing = false;
        proof {
            assert forall|k: ChunkKey| #[trigger] self.dirty@.contains(k) <==> d0.contains(k)
                && !(exists|t: int| 0 <= t < out@.len() && key_of(#[trigger] out@[t].0) == k) by {
                if exists|t: int| 0 <= t < n && keys@[t] == k {
                    let t = choose|t: int| 0 <= t < n && keys@[t] == k;
                    assert(key_of(out@[t].0) == k);
                }
                if exists|t: int| 0 <= t < out@.len() && key_of(#[trigger] out@[t].0) == k {
                    let t = choose|t: int| 0 <= t < out@.len() && key_of(#[trigger] out@[t].0) == k;
                    assert(keys@[t] == k);
                }
            }
            assert forall|a: int, b: int| 0 <= a < b < out@.len() implies (#[trigger] out@[a]).0 != (#[trigger] out@[b]).0 by {
                assert(key_of(out@[a].0) == keys@[a]);
                assert(key_of(out@[b].0) == keys@[b]);
            }
        }
        out
    }

    /// Whether the player may be spawned now: the initial bulk meshing is
    /// over, no player exists yet, and the chunk under the spawn point is
    /// loaded and already has its collider.
    pub fn spawn_player_when_ready(&self, player_exists: bool, spawn_voxel: IVec3, spawn_chunk_has_collider: bool) -> (r: bool)
        ensures
            r == (!self.initial_meshing && !player_exists && self.loaded(spec_world_to_chunk(spawn_voxel))
                && spawn_chunk_has_collider),
    {
        if self.initial_meshing || player_exists {
            return false;
        }
        let c = VoxelWorld::world_to_chunk_pos(spawn_voxel);
        self.chunks.contains_key(&(c.x, c.y, c.z)) && spawn_chunk_has_collider
    }
}

impl VoxelWorld {
    /// The voxel at world voxel position `p`; air where its chunk is not loaded.
    pub fn voxel_at(&self, p: IVec3) -> (r: VoxelType)
        ensures
            r == world_voxel(self.chunks@, p),
    {
        let c = VoxelWorld::world_to_chunk_pos(p);
        match self.chunks.get(&(c.x, c.y, c.z)) {
            Some(chunk) => chunk.get_voxel(VoxelWorld::voxel_to_local_pos(p)),
            None => VoxelType::Air,
        }
    }

    /// Mines the voxel at world voxel position `target` for `dt_ms` more
    /// milliseconds. When it breaks, it becomes air (with the chunks around
    /// it marked stale) and is returned.
    pub fn mine_voxel(&mut self, progress: &mut MiningProgress, target: IVec3, dt_ms: u64, tool_speed: u32) -> (r: Option<VoxelType>)
        requires
            old(self).wf(),
        ensures
            final(self).wf(),
            ({
                let v = world_voxel(old(self).chunks@, target);
                let step = mining_step(*old(progress), target, v, dt_ms as int, tool_speed as int);
                &&& *final(progress) == step.0
                &&& r == if step.1 { Some(v) } else { None }
                &&& if step.1 {
                    edit_applied(*old(self), *final(self), target, VoxelType::Air)
                } else {
                    &&& final(self).chunks@ == old(self).chunks@
                    &&& final(self).dirty@ == old(self).dirty@
                    &&& final(self).pending_despawn@ == old(self).pending_despawn@
                    &&& final(self).initial_meshing == old(self).initial_meshing
                }
            }),
    {
        let v = self.voxel_at(target);
        if progress.advance(target, v, dt_ms, tool_speed) {
            self.apply_voxel_edit(target, VoxelType::Air);
            Some(v)
        } else {
            None
        }
    }

    /// Places `voxel` at world voxel position `p` when it is not air and the
    /// voxel there is air in a loaded chunk. Returns whether it was placed.
    pub fn place_voxel(&mut self, p: IVec3, voxel: VoxelType) -> (r: bool)
        requires
            old(self).wf(),
        ensures
            final(self).wf(),
            r == (voxel != VoxelType::Air && old(self).loaded(spec_world_to_chunk(p))
                && world_voxel(old(self).chunks@, p) == VoxelType::Air),
            r ==> edit_applied(*old(self), *final(self), p, voxel),
            !r ==> final(self).chunks@ == old(self).chunks@ && final(self).dirty@ == old(self).dirty@
                && final(self).pending_despawn@ == old(self).pending_despawn@
                && final(self).initial_meshing == old(self).initial_meshing,
    {
        if voxel == VoxelType::Air {
            return false;
        }
        let c = VoxelWorld::world_to_chunk_pos(p);
        if !self.chunks.contains_key(&(c.x, c.y, c.z)) {
            return false;
        }
        if self.voxel_at(p) != VoxelType::Air {
            return false;
        }
        self.apply_voxel_edit(p, voxel)
    }
}

impl VoxelWorld {
    /// Starts a world: empties the index, enters the initial bulk meshing, and
    /// returns every chunk of the retained volume around the origin, each
    /// once, to be generated and inserted.
    pub fn setup_world(&mut self, view_distance: i32) -> (r: Vec<IVec3>)
        requires
            old(self).wf(),
            view_fits(IVec3 { x: 0, y: 0, z: 0 }, view_distance as int),
        ensures
            final(self).wf(),
            final(self).chunks@ == Map::<ChunkKey, Chunk>::empty(),
            final(self).dirty@ == Set::<ChunkKey>::empty(),
            final(self).pending_despawn@ == old(self).pending_despawn@,
            final(self).initial_meshing,
            r@.no_duplicates(),
            forall|c: IVec3| #[trigger] r@.contains(c) <==> in_view(IVec3 { x: 0, y: 0, z: 0 }, view_distance as int, c),
            forall|j: int| 0 <= j < r@.len() ==> valid_chunk_key(#[trigger] r@[j]),
    {
        self.reset_voxel_world();
        self.initial_meshing = false;
        let wanted = self.spawn_chunks_around_player(IVec3::new(0, 0, 0), view_distance);
        self.initial_meshing = true;
        wanted
    }
}

/// What the player does this frame with the voxel under the cursor.
#[derive(Clone, Copy, PartialEq, Eq, Debug, Structural)]
pub enum Interaction {
    /// No mouse button is held.
    Idle,
    /// The mining button is held on the voxel at this world position.
    Mine(IVec3),
    /// The placing button was clicked; the voxel goes at this world position.
    Place(IVec3, VoxelType),
}

/// What came of an interaction.
#[derive(Clone, Copy, PartialEq, Eq, Debug, Structural)]
pub enum InteractionOutcome {
    Nothing,
    Broke(VoxelType),
    Placed,
}

impl VoxelWorld {
    /// One frame of block interaction: letting go loses the mining progress,
    /// mining advances it (and breaks the voxel when done), placing puts a
    /// voxel into air.
    pub fn player_interact(&mut self, progress: &mut MiningProgress, action: Interaction, dt_ms: u64, tool_speed: u32) -> (r: InteractionOutcome)
        requires
            old(self).wf(),
        ensures
            final(self).wf(),
            match action {
                Interaction::Idle => {
                    &&& *final(progress) == (MiningProgress { target: None, elapsed_ms: 0 })
                    &&& r == InteractionOutcome::Nothing
                    &&& *final(self) == *old(self)
                },
                Interaction::Mine(target) => {
                    let v = world_voxel(old(self).chunks@, target);
                    let step = mining_step(*old(progress), target, v, dt_ms as int, tool_speed as int);
                    &&& *final(progress) == step.0
                    &&& r == if step.1 { InteractionOutcome::Broke(v) } else { InteractionOutcome::Nothing }
                    &&& step.1 ==> edit_applied(*old(self), *final(self), target, VoxelType::Air)
                    &&& !step.1 ==> final(self).chunks@ == old(self).chunks@ && final(self).dirty@ == old(self).dirty@
                },
                Interaction::Place(p, voxel) => {
                    let placed = voxel != VoxelType::Air && old(self).loaded(spec_world_to_chunk(p))
                        && world_voxel(old(self).chunks@, p) == VoxelType::Air;
                    &&& *final(progress) == *old(progress)
                    &&& r == if placed { InteractionOutcome::Placed } else { InteractionOutcome::Nothing }
                    &&& placed ==> edit_applied(*old(self), *final(self), p, voxel)
                    &&& !placed ==> final(self).chunks@ == old(self).chunks@ && final(self).dirty@ == old(self).dirty@
                },
            },
    {
        match action {
            Interaction::Idle => {
                progress.reset();
                InteractionOutcome::Nothing
            },
            Interaction::Mine(target) => match self.mine_voxel(progress, target, dt_ms, tool_speed) {
                Some(v) => InteractionOutcome::Broke(v),
                None => InteractionOutcome::Nothing,
            },
            Interaction::Place(p, voxel) => {
                if self.place_voxel(p, voxel) {
                    InteractionOutcome::Placed
                } else {
                    InteractionOutcome::Nothing
                }
            },
        }
    }
}

} // verus!
