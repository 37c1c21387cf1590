//! The world render system: submits chunks for meshing, drains completed
//! meshes into a cache keyed by chunk origin (last write per key wins), and
//! merges the whole cache into one flat vertex/index buffer pair, rebasing
//! indices so the pair is drawable with a single indexed call.

use vstd::prelude::*;
use vstd::arithmetic::div_mod::lemma_mod_multiples_vanish;
use crate::block_position::BlockPosition;
use crate::chunk::{Chunk, ChunkView};
use crate::mesh::{spec_mesh_wf, Mesh, MeshVertex, MeshView};
use crate::mesher::{
    spec_meshes_wf, spec_neighbor_views, spec_neighbors_wf, spec_origin_in_mesh_bounds,
    spec_published, ChunkMesher,
};
use crate::world::{lemma_world_chunk_at_key, World};

verus! {

/// Failure of building or drawing the terrain.
#[derive(Debug, Clone, Copy, PartialEq, Eq, Structural)]
pub enum WorldRenderError {
    CouldNotBuildTerrainMesh,
}

/// The cached entries that a vector of origin/mesh pairs stands for.
pub open spec fn spec_cache_views(v: Seq<(BlockPosition, Mesh)>) -> Seq<(BlockPosition, MeshView)> {
    v.map(|_i: int, pr: (BlockPosition, Mesh)| (pr.0, pr.1@))
}

/// Whether some cache entry carries the key.
pub open spec fn spec_cache_has_key(c: Seq<(BlockPosition, MeshView)>, k: BlockPosition) -> bool {
    exists|i: int| 0 <= i < c.len() && (#[trigger] c[i]).0 == k
}

/// The place of the entry carrying the key (meaningful under unique keys).
pub open spec fn spec_cache_index(c: Seq<(BlockPosition, MeshView)>, k: BlockPosition) -> int {
    choose|i: int| 0 <= i < c.len() && (#[trigger] c[i]).0 == k
}

/// No two cache entries share a key.
pub open spec fn spec_unique_keys(c: Seq<(BlockPosition, MeshView)>) -> bool {
    forall|i: int, j: int|
        0 <= i < j < c.len() ==> (#[trigger] c[i]).0 != (#[trigger] c[j]).0
}

/// The cache after one insert: the entry with the key is overwritten in
/// place, or a new entry is appended.
pub open spec fn spec_cache_insert(
    c: Seq<(BlockPosition, MeshView)>,
    k: BlockPosition,
    m: MeshView,
) -> Seq<(BlockPosition, MeshView)> {
    if spec_cache_has_key(c, k) {
        c.update(spec_cache_index(c, k), (k, m))
    } else {
        c.push((k, m))
    }
}

/// The cache after inserting a whole batch of drained meshes, in order.
pub open spec fn spec_insert_all(
    c: Seq<(BlockPosition, MeshView)>,
    q: Seq<(BlockPosition, MeshView)>,
) -> Seq<(BlockPosition, MeshView)>
    decreases q.len(),
{
    if q.len() == 0 {
        c
    } else {
        spec_cache_insert(spec_insert_all(c, q.drop_last()), q.last().0, q.last().1)
    }
}

/// Under unique keys, an entry's own place is the place its key resolves to.
pub proof fn lemma_cache_index_of(c: Seq<(BlockPosition, MeshView)>, k: BlockPosition, i: int)
    requires
        spec_unique_keys(c),
        0 <= i < c.len(),
        c[i].0 == k,
    ensures
        spec_cache_has_key(c, k),
        spec_cache_index(c, k) == i,
{
    assert(spec_cache_has_key(c, k));
    let j = spec_cache_index(c, k);
    assert(0 <= j < c.len() && c[j].0 == k);
}

/// Idempotent cache replace: submitting the same key twice leaves exactly
/// one entry for it, equal to what inserting only the second mesh leaves.
pub proof fn lemma_cache_replace_idempotent(
    c: Seq<(BlockPosition, MeshView)>,
    k: BlockPosition,
    m1: MeshView,
    m2: MeshView,
)
    requires
        spec_unique_keys(c),
    ensures
        spec_cache_insert(spec_cache_insert(c, k, m1), k, m2) == spec_cache_insert(c, k, m2),
        spec_unique_keys(spec_cache_insert(c, k, m2)),
        spec_cache_has_key(spec_cache_insert(c, k, m2), k),
{
    if spec_cache_has_key(c, k) {
        let i = spec_cache_index(c, k);
        assert(0 <= i < c.len() && c[i].0 == k);
        let c1 = c.update(i, (k, m1));
        assert(spec_unique_keys(c1));
        lemma_cache_index_of(c1, k, i);
        assert(c1.update(i, (k, m2)) =~= c.update(i, (k, m2)));
        lemma_cache_index_of(c.update(i, (k, m2)), k, i);
        assert(spec_unique_keys(c.update(i, (k, m2))));
    } else {
        let c1 = c.push((k, m1));
        assert(spec_unique_keys(c1));
        lemma_cache_index_of(c1, k, c.len() as int);
        assert(c1.update(c.len() as int, (k, m2)) =~= c.push((k, m2)));
        assert(spec_unique_keys(c.push((k, m2))));
        lemma_cache_index_of(c.push((k, m2)), k, c.len() as int);
    }
}

/// The merged vertex buffer: every cached mesh's vertices, in cache order.
pub open spec fn spec_merge_vertices(c: Seq<(BlockPosition, MeshView)>) -> Seq<MeshVertex>
    decreases c.len(),
{
    if c.len() == 0 {
        Seq::empty()
    } else {
        spec_merge_vertices(c.drop_last()) + c.last().1.vertices
    }
}

/// The merged index buffer: every cached mesh's indices, each mesh's
/// indices rebased by the vertex count merged before it.
pub open spec fn spec_merge_indices(c: Seq<(BlockPosition, MeshView)>) -> Seq<u32>
    decreases c.len(),
{
    if c.len() == 0 {
        Seq::empty()
    } else {
        spec_merge_indices(c.drop_last()) + c.last().1.indices.map(
            |_i: int, v: u32| (v + spec_merge_vertices(c.drop_last()).len()) as u32,
        )
    }
}

/// A cache prefix never merges to more vertices than the whole cache.
pub proof fn lemma_merge_prefix_bound(c: Seq<(BlockPosition, MeshView)>, i: int)
    requires
        0 <= i <= c.len(),
    ensures
        spec_merge_vertices(c.take(i)).len() <= spec_merge_vertices(c).len(),
    decreases c.len() - i,
{
    if i == c.len() {
        assert(c.take(i) =~= c);
    } else {
        lemma_merge_prefix_bound(c, i + 1);
        assert(c.take(i + 1).drop_last() =~= c.take(i));
        assert(c.take(i + 1).last() == c[i]);
    }
}

/// Index validity of the merged buffers: when every cached mesh is well
/// formed and the merged vertices fit the u32 index space, every merged
/// index refers to a merged vertex that exists, and the merged index count
/// stays a multiple of six.
pub proof fn lemma_merge_wf(c: Seq<(BlockPosition, MeshView)>)
    requires
        spec_meshes_wf(c),
        spec_merge_vertices(c).len() <= u32::MAX,
    ensures
        spec_merge_indices(c).len() % 6 == 0,
        forall|i: int|
            0 <= i < spec_merge_indices(c).len() ==> (#[trigger] spec_merge_indices(c)[i] as int)
                < spec_merge_vertices(c).len(),
    decreases c.len(),
{
    if c.len() > 0 {
        let d = c.drop_last();
        assert(spec_meshes_wf(d)) by {
            assert(forall|i: int| 0 <= i < d.len() ==> d[i] == #[trigger] c[i]);
        }
        assert(spec_merge_vertices(d).len() <= spec_merge_vertices(c).len());
        lemma_merge_wf(d);
        let last = c.last().1;
        assert(spec_mesh_wf(last)) by {
            assert(c[c.len() - 1] == c.last());
        }
        lemma_mod_multiples_vanish(
            last.normals.len() as int,
            spec_merge_indices(d).len() as int,
            6,
        );
        assert((spec_merge_indices(d).len() + 6 * last.normals.len()) % 6 == spec_merge_indices(
            d,
        ).len() % 6);
        assert forall|i: int|
            0 <= i < spec_merge_indices(c).len() implies (#[trigger] spec_merge_indices(c)[i]
            as int) < spec_merge_vertices(c).len() by {
            if i >= spec_merge_indices(d).len() {
                let j = i - spec_merge_indices(d).len();
                assert((last.indices[j] as int) < last.vertices.len());
            }
        }
    }
}

/// Orchestrates meshing and drawing of a world: a mesher, a per-chunk mesh
/// cache, and the merged flat buffers staged for upload.
pub struct WorldRenderSystem {
    chunk_mesher: ChunkMesher,
    opaque_chunk_meshes: Vec<(BlockPosition, Mesh)>,
    opaque_chunk_vertex_buffer: Vec<MeshVertex>,
    opaque_chunk_index_buffer: Vec<u32>,
}

/// Every chunk of the world sits inside the mesh coordinate bound.
pub open spec fn spec_world_meshable(w: World) -> bool {
    forall|i: int|
        0 <= i < w.spec_chunks().len() ==> spec_origin_in_mesh_bounds(
            (#[trigger] w.spec_chunks()[i]).origin,
        )
}

/// The origin of the neighbor chunk gathered at place `k` of the snapshot
/// list: one chunk dimension away along +z, -z, +x, -x, +y, -y in turn.
pub open spec fn spec_chunk_neighbor_origin(o: BlockPosition, k: int) -> BlockPosition {
    if k == 0 {
        BlockPosition { x: o.x, y: o.y, z: (o.z + 16) as i32 }
    } else if k == 1 {
        BlockPosition { x: o.x, y: o.y, z: (o.z - 16) as i32 }
    } else if k == 2 {
        BlockPosition { x: (o.x + 16) as i32, y: o.y, z: o.z }
    } else if k == 3 {
        BlockPosition { x: (o.x - 16) as i32, y: o.y, z: o.z }
    } else if k == 4 {
        BlockPosition { x: o.x, y: (o.y + 16) as i32, z: o.z }
    } else {
        BlockPosition { x: o.x, y: (o.y - 16) as i32, z: o.z }
    }
}

/// The neighbor snapshots the world supplies for a chunk at `o`.
pub open spec fn spec_world_neighbor_views(w: World, o: BlockPosition) -> Seq<Option<ChunkView>> {
    Seq::new(
        6,
        |k: int|
            if w.spec_as_map().contains_key(spec_chunk_neighbor_origin(o, k)) {
                Some(w.spec_as_map()[spec_chunk_neighbor_origin(o, k)])
            } else {
                None
            },
    )
}

/// What meshing the first `n` chunks of the world publishes, in order.
pub open spec fn spec_world_published_upto(w: World, n: int) -> Seq<(BlockPosition, MeshView)>
    decreases n,
{
    if n <= 0 {
        Seq::empty()
    } else {
        spec_world_published_upto(w, n - 1) + spec_published(
            w.spec_chunks()[n - 1],
            spec_world_neighbor_views(w, w.spec_chunks()[n - 1].origin),
        )
    }
}

/// An owned snapshot of the world's chunk at an origin, if one is loaded.
fn neighbor_snapshot(world: &World, origin: BlockPosition) -> (r: Option<Chunk>)
    requires
        world.wf(),
    ensures
        r is Some <==> world.spec_as_map().contains_key(origin),
        r matches Some(c) ==> c@ == world.spec_as_map()[origin],
    {
    match world.get_chunk(origin) {
        Some(chunk) => Some(chunk.snapshot()),
        None => None,
    }
}

impl WorldRenderSystem {
    /// The meshes completed but not yet drained.
    pub closed spec fn spec_queue(self) -> Seq<(BlockPosition, MeshView)> {
        self.chunk_mesher@
    }

    /// The cached per-chunk meshes, keyed by chunk origin.
    pub closed spec fn spec_cache(self) -> Seq<(BlockPosition, MeshView)> {
        spec_cache_views(self.opaque_chunk_meshes@)
    }

    /// The staged merged vertex buffer.
    pub closed spec fn spec_vertex_buffer(self) -> Seq<MeshVertex> {
        self.opaque_chunk_vertex_buffer@
    }

    /// The staged merged index buffer.
    pub closed spec fn spec_index_buffer(self) -> Seq<u32> {
        self.opaque_chunk_index_buffer@
    }

    /// Cache keys unique, all meshes well formed, the merged buffers exactly
    /// the merge of the cache, and the merge inside the u32 index space.
    pub open spec fn wf(self) -> bool {
        &&& spec_unique_keys(self.spec_cache())
        &&& spec_meshes_wf(self.spec_cache())
        &&& spec_meshes_wf(self.spec_queue())
        &&& spec_merge_vertices(self.spec_cache()).len() <= u32::MAX
        &&& self.spec_vertex_buffer() == spec_merge_vertices(self.spec_cache())
        &&& self.spec_index_buffer() == spec_merge_indices(self.spec_cache())
    }

    /// A render system with no meshes yet.
    pub fn new() -> (s: Self)
        ensures
            s.wf(),
            s.spec_queue() == Seq::<(BlockPosition, MeshView)>::empty(),
            s.spec_cache() == Seq::<(BlockPosition, MeshView)>::empty(),
    {
        let s = WorldRenderSystem {
            chunk_mesher: ChunkMesher::new(),
            opaque_chunk_meshes: Vec::new(),
            opaque_chunk_vertex_buffer: Vec::new(),
            opaque_chunk_index_buffer: Vec::new(),
        };
        proof {
            assert(s.spec_cache() =~= Seq::<(BlockPosition, MeshView)>::empty());
            assert(spec_merge_vertices(s.spec_cache()) =~= Seq::<MeshVertex>::empty());
            assert(spec_merge_indices(s.spec_cache()) =~= Seq::<u32>::empty());
        }
        s
    }

    /// Inserts one drained mesh into the cache: a recomputed chunk replaces
    /// its stale entry exactly, a new chunk appends.
    fn cache_insert(&mut self, origin: BlockPosition, mesh: Mesh)
        requires
            spec_unique_keys(old(self).spec_cache()),
            spec_meshes_wf(old(self).spec_cache()),
            spec_mesh_wf(mesh@),
        ensures
            final(self).spec_cache() == spec_cache_insert(old(self).spec_cache(), origin, mesh@),
            spec_unique_keys(final(self).spec_cache()),
            spec_meshes_wf(final(self).spec_cache()),
            final(self).spec_queue() == old(self).spec_queue(),
            final(self).spec_vertex_buffer() == old(self).spec_vertex_buffer(),
            final(self).spec_index_buffer() == old(self).spec_index_buffer(),
    {
        let ghost old_cache = self.spec_cache();
        let mut i: usize = 0;
        while i < self.opaque_chunk_meshes.len()
            invariant
                self == old(self),
                old_cache == self.spec_cache(),
                spec_unique_keys(old_cache),
                spec_meshes_wf(old_cache),
                spec_mesh_wf(mesh@),
                i <= self.opaque_chunk_meshes.len(),
                forall|j: int| 0 <= j < i ==> (#[trigger] old_cache[j]).0 != origin,
            decreases self.opaque_chunk_meshes.len() - i,
        {
            if self.opaque_chunk_meshes[i].0 == origin {
                proof {
                    lemma_cache_index_of(old_cache, origin, i as int);
                }
                let slot = vstd::std_specs::vec::vec_index_mut(&mut self.opaque_chunk_meshes, i);
                *slot = (origin, mesh);
                proof {
                    assert(self.spec_cache() =~= old_cache.update(i as int, (origin, mesh@)));
                }
                return ;
            }
            i = i + 1;
        }
        assert(!spec_cache_has_key(old_cache, origin));
        self.opaque_chunk_meshes.push((origin, mesh));
        proof {
            assert(self.spec_cache() =~= old_cache.push((origin, mesh@)));
        }
    }

    /// Rewrites the merged buffers from the whole cache: vertices
    /// concatenated in cache order, each mesh's indices rebased by the
    /// vertex count written before it.
    pub fn write_meshes(&mut self)
        requires
            spec_meshes_wf(old(self).spec_cache()),
            spec_merge_vertices(old(self).spec_cache()).len() <= u32::MAX,
        ensures
            final(self).spec_cache() == old(self).spec_cache(),
            final(self).spec_queue() == old(self).spec_queue(),
            final(self).spec_vertex_buffer() == spec_merge_vertices(old(self).spec_cache()),
            final(self).spec_index_buffer() == spec_merge_indices(old(self).spec_cache()),
    {
        let ghost cache = self.spec_cache();
        self.opaque_chunk_vertex_buffer.clear();
        self.opaque_chunk_index_buffer.clear();
        proof {
            assert(spec_merge_vertices(cache.take(0)) =~= Seq::<MeshVertex>::empty());
            assert(spec_merge_indices(cache.take(0)) =~= Seq::<u32>::empty());
        }
        let mut index_offset: u32 = 0;
        let mut i: usize = 0;
        while i < self.opaque_chunk_meshes.len()
            invariant
                cache == self.spec_cache(),
                spec_meshes_wf(cache),
                spec_merge_vertices(cache).len() <= u32::MAX,
                i <= self.opaque_chunk_meshes.len(),
                cache.len() == self.opaque_chunk_meshes.len(),
                self.spec_vertex_buffer() == spec_merge_vertices(cache.take(i as int)),
                self.spec_index_buffer() == spec_merge_indices(cache.take(i as int)),
                index_offset == spec_merge_vertices(cache.take(i as int)).len(),
                self.spec_queue() == old(self).spec_queue(),
                self.opaque_chunk_meshes == old(self).opaque_chunk_meshes,
            decreases self.opaque_chunk_meshes.len() - i,
        {
            proof {
                lemma_merge_prefix_bound(cache, i + 1);
                assert(cache.take(i + 1).drop_last() =~= cache.take(i as int));
                assert(cache.take(i + 1).last() == cache[i as int]);
            }
            let ghost prev_vertices = spec_merge_vertices(cache.take(i as int));
            let entry_vertices_len: usize;
            {
                let entry = &self.opaque_chunk_meshes[i];
                let vertices = entry.1.vertices();
                entry_vertices_len = vertices.len();
                let mut j: usize = 0;
                while j < vertices.len()
                    invariant
                        j <= vertices.len(),
                        vertices@ == cache[i as int].1.vertices,
                        0 <= i < cache.len(),
                        self.spec_vertex_buffer() == prev_vertices + cache[
                            i as int
                        ].1.vertices.take(j as int),
                        self.spec_index_buffer() == spec_merge_indices(cache.take(i as int)),
                        self.spec_queue() == old(self).spec_queue(),
                        cache == self.spec_cache(),
                        self.opaque_chunk_meshes == old(self).opaque_chunk_meshes,
                    decreases vertices.len() - j,
                {
                    let v = *vstd::slice::slice_index_get(vertices, j);
                    self.opaque_chunk_vertex_buffer.push(v);
                    proof {
                        assert(self.spec_vertex_buffer() =~= prev_vertices + cache[
                            i as int
                        ].1.vertices.take(j + 1));
                    }
                    j = j + 1;
                }
                proof {
                    assert(cache[i as int].1.vertices.take(
                        cache[i as int].1.vertices.len() as int,
                    ) =~= cache[i as int].1.vertices);
                }
            }
            {
                let entry = &self.opaque_chunk_meshes[i];
                let indicies = entry.1.indicies();
                proof {
                    assert(spec_mesh_wf(cache[i as int].1));
                    lemma_merge_prefix_bound(cache, i + 1);
                }
                let mut j: usize = 0;
                while j < indicies.len()
                    invariant
                        j <= indicies.len(),
                        indicies@ == cache[i as int].1.indices,
                        0 <= i < cache.len(),
                        spec_mesh_wf(cache[i as int].1),
                        index_offset == spec_merge_vertices(cache.take(i as int)).len(),
                        index_offset + cache[i as int].1.vertices.len() <= u32::MAX,
                        self.spec_vertex_buffer() == spec_merge_vertices(cache.take(i as int))
                            + cache[i as int].1.vertices,
                        self.spec_index_buffer() == spec_merge_indices(cache.take(i as int))
                            + cache[i as int].1.indices.take(j as int).map(
                            |_n: int, v: u32| (v + spec_merge_vertices(
                                cache.take(i as int),
                            ).len()) as u32,
                        ),
                        self.spec_queue() == old(self).spec_queue(),
                        cache == self.spec_cache(),
                        self.opaque_chunk_meshes == old(self).opaque_chunk_meshes,
                    decreases indicies.len() - j,
                {
                    let idx = *vstd::slice::slice_index_get(indicies, j);
                    assert((idx as int) < cache[i as int].1.vertices.len());
                    self.opaque_chunk_index_buffer.push(idx + index_offset);
                    proof {
                        assert(self.spec_index_buffer() =~= spec_merge_indices(
                            cache.take(i as int),
                        ) + cache[i as int].1.indices.take(j + 1).map(
                            |_n: int, v: u32| (v + spec_merge_vertices(
                                cache.take(i as int),
                            ).len()) as u32,
                        ));
                    }
                    j = j + 1;
                }
                proof {
                    assert(cache[i as int].1.indices.take(cache[i as int].1.indices.len() as int)
                        =~= cache[i as int].1.indices);
                }
            }
            proof {
                lemma_merge_prefix_bound(cache, i + 1);
                assert(self.spec_vertex_buffer() =~= spec_merge_vertices(cache.take(i + 1)));
                assert(self.spec_index_buffer() =~= spec_merge_indices(cache.take(i + 1)));
            }
            index_offset = index_offset + entry_vertices_len as u32;
            i = i + 1;
        }
        proof {
            assert(cache.take(cache.len() as int) =~= cache);
        }
    }

    /// Submits every loaded chunk of the world for background meshing,
    /// each with snapshots of its up-to-six axis neighbors.
    pub fn build_chunk_meshes(&mut self, world: &World)
        requires
            old(self).wf(),
            world.wf(),
            spec_world_meshable(*world),
        ensures
            final(self).wf(),
            final(self).spec_cache() == old(self).spec_cache(),
            final(self).spec_vertex_buffer() == old(self).spec_vertex_buffer(),
            final(self).spec_index_buffer() == old(self).spec_index_buffer(),
            final(self).spec_queue() == old(self).spec_queue() + spec_world_published_upto(
                *world,
                world.spec_chunks().len() as int,
            ),
    {
        let ghost old_queue = self.spec_queue();
        let mut i: usize = 0;
        while i < world.chunk_count()
            invariant
                world.wf(),
                spec_world_meshable(*world),
                i <= world.spec_chunks().len(),
                spec_unique_keys(self.spec_cache()),
                spec_meshes_wf(self.spec_cache()),
                spec_meshes_wf(self.spec_queue()),
                spec_merge_vertices(self.spec_cache()).len() <= u32::MAX,
                self.spec_cache() == old(self).spec_cache(),
                self.spec_vertex_buffer() == old(self).spec_vertex_buffer(),
                self.spec_index_buffer() == old(self).spec_index_buffer(),
                self.wf(),
                self.spec_queue() == old_queue + spec_world_published_upto(*world, i as int),
            decreases world.spec_chunks().len() - i,
        {
            let chunk = world.chunk_at(i).snapshot();
            let chunk_origin_position = chunk.origin_position();
            assert(chunk_origin_position == world.spec_chunks()[i as int].origin);
            assert(spec_origin_in_mesh_bounds(chunk_origin_position));

            let mut neighbor_chunks: Vec<Option<Chunk>> = Vec::new();
            neighbor_chunks.push(neighbor_snapshot(world, chunk_origin_position.offset(0, 0, 16)));
            neighbor_chunks.push(
                neighbor_snapshot(world, chunk_origin_position.offset(0, 0, -16)),
            );
            neighbor_chunks.push(neighbor_snapshot(world, chunk_origin_position.offset(16, 0, 0)));
            neighbor_chunks.push(
                neighbor_snapshot(world, chunk_origin_position.offset(-16, 0, 0)),
            );
            neighbor_chunks.push(neighbor_snapshot(world, chunk_origin_position.offset(0, 16, 0)));
            neighbor_chunks.push(
                neighbor_snapshot(world, chunk_origin_position.offset(0, -16, 0)),
            );
            proof {
                let nv = spec_neighbor_views(neighbor_chunks@);
                let wv = spec_world_neighbor_views(*world, chunk_origin_position);
                assert forall|k: int| 0 <= k < 6 implies nv[k] == wv[k] by {
                    let no = spec_chunk_neighbor_origin(chunk_origin_position, k);
                    if world.spec_as_map().contains_key(no) {
                        lemma_world_chunk_at_key(*world, no);
                    }
                }
                assert(nv =~= wv);
                assert(spec_neighbors_wf(nv)) by {
                    assert forall|k: int|
                        0 <= k < nv.len() implies (#[trigger] nv[k] matches Some(n) ==> n.wf())
                        by {
                        let no = spec_chunk_neighbor_origin(chunk_origin_position, k);
                        if world.spec_as_map().contains_key(no) {
                            lemma_world_chunk_at_key(*world, no);
                        }
                    }
                }
            }
            self.chunk_mesher.begin_meshing_chunk(chunk, neighbor_chunks);
            proof {
                assert(self.spec_queue() =~= old_queue + spec_world_published_upto(
                    *world,
                    i + 1,
                ));
            }
            i = i + 1;
        }
    }

    /// Accepts a chunk mesh completed outside this system (for example on a
    /// worker thread) into the completion queue; the next update folds it
    /// into the cache.
    pub fn submit_chunk_mesh(&mut self, origin: BlockPosition, mesh: Mesh)
        requires
            old(self).wf(),
            spec_mesh_wf(mesh@),
        ensures
            final(self).wf(),
            final(self).spec_cache() == old(self).spec_cache(),
            final(self).spec_vertex_buffer() == old(self).spec_vertex_buffer(),
            final(self).spec_index_buffer() == old(self).spec_index_buffer(),
            final(self).spec_queue() == old(self).spec_queue() + seq![(origin, mesh@)],
    {
        self.chunk_mesher.publish_completed_mesh(origin, mesh);
    }

    /// The cache the pending drain will leave: every completed mesh folded
    /// into the cache, last write per chunk origin winning.
    pub open spec fn spec_pending_cache(self) -> Seq<(BlockPosition, MeshView)> {
        spec_insert_all(self.spec_cache(), self.spec_queue())
    }

    /// Drains all meshes completed since the last call, folds them into the
    /// cache (a recomputed chunk replaces its old mesh, no duplication), and
    /// rewrites the merged buffers when anything arrived. Returns whether
    /// the merged buffers changed.
    pub fn update_chunk_meshes(&mut self) -> (changed: bool)
        requires
            old(self).wf(),
            spec_merge_vertices(old(self).spec_pending_cache()).len() <= u32::MAX,
        ensures
            final(self).wf(),
            final(self).spec_cache() == old(self).spec_pending_cache(),
            final(self).spec_queue() == Seq::<(BlockPosition, MeshView)>::empty(),
            changed == (old(self).spec_queue().len() != 0),
    {
        let ghost old_cache = self.spec_cache();
        let ghost q = self.spec_queue();
        let mut chunk_meshes = self.chunk_mesher.ready_chunk_meshes();
        if chunk_meshes.is_empty() {
            proof {
                assert(chunk_meshes@.map(
                    |_i: int, pr: (BlockPosition, Mesh)| (pr.0, pr.1@),
                ).len() == 0);
                assert(spec_insert_all(old_cache, q) == old_cache);
            }
            return false;
        }
        let ghost qlen = q.len();
        let drained_len: usize = chunk_meshes.len();
        proof {
            assert(drained_len == chunk_meshes@.len());
            assert(qlen == chunk_meshes@.map(
                |_i: int, pr: (BlockPosition, Mesh)| (pr.0, pr.1@),
            ).len());
        }
        let mut n: usize = 0;
        while chunk_meshes.len() > 0
            invariant
                n <= qlen,
                qlen <= usize::MAX,
                n + chunk_meshes@.len() == qlen,
                chunk_meshes@.map(|_i: int, pr: (BlockPosition, Mesh)| (pr.0, pr.1@))
                    == q.subrange(n as int, qlen as int),
                qlen == q.len(),
                spec_meshes_wf(q),
                spec_unique_keys(self.spec_cache()),
                spec_meshes_wf(self.spec_cache()),
                self.spec_cache() == spec_insert_all(old_cache, q.take(n as int)),
                self.spec_queue() == Seq::<(BlockPosition, MeshView)>::empty(),
                self.spec_vertex_buffer() == old(self).spec_vertex_buffer(),
                self.spec_index_buffer() == old(self).spec_index_buffer(),
            decreases chunk_meshes.len(),
        {
            proof {
                assert(q.subrange(n as int, qlen as int).len() == chunk_meshes@.len());
                assert(chunk_meshes@.map(|_i: int, pr: (BlockPosition, Mesh)| (pr.0, pr.1@))[0]
                    == q[n as int]);
                assert(spec_mesh_wf(q[n as int].1));
            }
            let ghost pre_meshes = chunk_meshes@;
            let pr = chunk_meshes.remove(0);
            assert(pr.1@ == q[n as int].1);
            self.cache_insert(pr.0, pr.1);
            proof {
                assert(q.take(n + 1).drop_last() =~= q.take(n as int));
                assert(q.take(n + 1).last() == q[n as int]);
                let f = |_i: int, pr2: (BlockPosition, Mesh)| (pr2.0, pr2.1@);
                assert forall|j: int|
                    0 <= j < chunk_meshes@.len() implies chunk_meshes@.map(f)[j] == q.subrange(
                    n + 1,
                    qlen as int,
                )[j] by {
                    assert(chunk_meshes@[j] == pre_meshes[j + 1]);
                    assert(pre_meshes.map(f)[j + 1] == q.subrange(n as int, qlen as int)[j + 1]);
                }
                assert(chunk_meshes@.map(f) =~= q.subrange(n + 1, qlen as int));
            }
            n = n + 1;
        }
        proof {
            assert(q.subrange(n as int, qlen as int).len() == 0);
            assert(n == qlen);
            assert(q.take(n as int) =~= q);
        }
        self.write_meshes();
        true
    }

    /// The staged merged vertex buffer, ready for upload.
    pub fn vertex_buffer(&self) -> (r: &[MeshVertex])
        ensures
            r@ == self.spec_vertex_buffer(),
    {
        self.opaque_chunk_vertex_buffer.as_slice()
    }

    /// The staged merged index buffer, ready for upload.
    pub fn index_buffer(&self) -> (r: &[u32])
        ensures
            r@ == self.spec_index_buffer(),
    {
        self.opaque_chunk_index_buffer.as_slice()
    }

    /// How many indices one indexed draw of the merged buffers consumes.
    pub fn index_count(&self) -> (r: usize)
        ensures
            r == self.spec_index_buffer().len(),
    {
        self.opaque_chunk_index_buffer.len()
    }

    /// How many chunks currently hold an entry in the mesh cache.
    pub fn cached_mesh_count(&self) -> (r: usize)
        ensures
            r == self.spec_cache().len(),
    {
        self.opaque_chunk_meshes.len()
    }
}

} // verus!
