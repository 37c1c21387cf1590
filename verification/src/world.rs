//! The world: a sparse mapping from chunk origins to chunks.
//!
//! Chunks are stored with unique, aligned origins; every lookup resolves a
//! world position to its owning chunk by the position's chunk origin. An
//! absent chunk and an air block both read as `None`: the world never fails,
//! it only reports presence or absence.

use vstd::prelude::*;
use crate::block::Block;
use crate::block_position::{spec_to_chunk_local, spec_to_chunk_origin, BlockPosition};
use crate::chunk::{spec_local_index, Chunk, ChunkView};
use crate::direction::{spec_direction_at, Direction};
use crate::mesher::spec_neighbor_position;

verus! {

/// The map that a sequence of chunks stands for: later entries win, though
/// with unique origins each origin appears once.
pub open spec fn spec_map_of(s: Seq<ChunkView>) -> Map<BlockPosition, ChunkView>
    decreases s.len(),
{
    if s.len() == 0 {
        Map::empty()
    } else {
        spec_map_of(s.drop_last()).insert(s.last().origin, s.last())
    }
}

/// No two chunks of the sequence share an origin.
pub open spec fn spec_unique_origins(s: Seq<ChunkView>) -> bool {
    forall|i: int, j: int|
        0 <= i < j < s.len() ==> (#[trigger] s[i]).origin != (#[trigger] s[j]).origin
}

/// An origin is a key of the chunk map exactly when some chunk has it.
pub proof fn lemma_map_of_domain(s: Seq<ChunkView>, o: BlockPosition)
    ensures
        spec_map_of(s).contains_key(o) <==> exists|i: int|
            0 <= i < s.len() && (#[trigger] s[i]).origin == o,
    decreases s.len(),
{
    if s.len() > 0 {
        let d = s.drop_last();
        lemma_map_of_domain(d, o);
        if spec_map_of(s).contains_key(o) {
            if o == s.last().origin {
                assert(s[s.len() - 1].origin == o);
            } else {
                let i = choose|i: int| 0 <= i < d.len() && (#[trigger] d[i]).origin == o;
                assert(s[i].origin == o);
            }
        }
        if exists|i: int| 0 <= i < s.len() && (#[trigger] s[i]).origin == o {
            let i = choose|i: int| 0 <= i < s.len() && (#[trigger] s[i]).origin == o;
            if i < s.len() - 1 {
                assert(d[i].origin == o);
            }
        }
    }
}

/// With unique origins, the map sends each chunk's origin to that chunk.
pub proof fn lemma_map_of_index(s: Seq<ChunkView>, i: int)
    requires
        spec_unique_origins(s),
        0 <= i < s.len(),
    ensures
        spec_map_of(s).contains_key(s[i].origin),
        spec_map_of(s)[s[i].origin] == s[i],
    decreases s.len(),
{
    let d = s.drop_last();
    if i < s.len() - 1 {
        assert(forall|j: int| 0 <= j < d.len() ==> d[j] == s[j]);
        lemma_map_of_index(d, i);
        assert(s[i].origin != s.last().origin);
    }
}

/// Replacing the chunk at one place, origin kept, updates the map at that
/// origin alone.
pub proof fn lemma_map_of_update(s: Seq<ChunkView>, i: int, c: ChunkView)
    requires
        spec_unique_origins(s),
        0 <= i < s.len(),
        s[i].origin == c.origin,
    ensures
        spec_map_of(s.update(i, c)) == spec_map_of(s).insert(c.origin, c),
    decreases s.len(),
{
    let o = c.origin;
    let d = s.drop_last();
    let su = s.update(i, c);
    if i == s.len() - 1 {
        assert(su.drop_last() =~= d);
        assert(su.last() == c);
        assert(spec_map_of(d).insert(o, s.last()).insert(o, c) =~= spec_map_of(d).insert(o, c));
    } else {
        assert(su.drop_last() =~= d.update(i, c));
        assert(su.last() == s.last());
        assert(forall|j: int| 0 <= j < d.len() ==> d[j] == s[j]);
        lemma_map_of_update(d, i, c);
        assert(s[i].origin != s.last().origin);
        assert(spec_map_of(d).insert(o, c).insert(s.last().origin, s.last()) =~= spec_map_of(
            d,
        ).insert(s.last().origin, s.last()).insert(o, c));
        assert(spec_map_of(su) == spec_map_of(d.update(i, c)).insert(s.last().origin, s.last()));
    }
}

/// A sparse voxel world: chunks keyed by their origin position.
pub struct World {
    chunks: Vec<Chunk>,
}

impl World {
    /// The chunks as mathematical values, in storage order.
    pub closed spec fn spec_chunks(self) -> Seq<ChunkView> {
        self.chunks@.map(|_i: int, c: Chunk| c@)
    }

    /// The chunk map this world stands for.
    pub open spec fn spec_as_map(self) -> Map<BlockPosition, ChunkView> {
        spec_map_of(self.spec_chunks())
    }

    /// Every chunk is well formed, keyed by a unique origin.
    pub open spec fn wf(self) -> bool {
        &&& forall|i: int|
            0 <= i < self.spec_chunks().len() ==> (#[trigger] self.spec_chunks()[i]).wf()
        &&& spec_unique_origins(self.spec_chunks())
    }

    /// The block visible at a position: `None` when the owning chunk is not
    /// loaded or the block is air, the block otherwise.
    pub open spec fn spec_block_at(self, position: BlockPosition) -> Option<Block> {
        let o = spec_to_chunk_origin(position);
        if self.spec_as_map().contains_key(o) {
            self.spec_as_map()[o].visible_block_at(position)
        } else {
            None
        }
    }

    /// A world with no chunks.
    pub fn new() -> (w: World)
        ensures
            w.wf(),
            w.spec_chunks() == Seq::<ChunkView>::empty(),
            w.spec_as_map() == Map::<BlockPosition, ChunkView>::empty(),
    {
        let w = World { chunks: Vec::new() };
        proof {
            assert(w.spec_chunks() =~= Seq::<ChunkView>::empty());
        }
        w
    }

    /// How many chunks are loaded.
    pub fn chunk_count(&self) -> (r: usize)
        ensures
            r == self.spec_chunks().len(),
    {
        self.chunks.len()
    }

    /// The chunk at a storage index.
    pub fn chunk_at(&self, i: usize) -> (r: &Chunk)
        requires
            i < self.spec_chunks().len(),
        ensures
            r@ == self.spec_chunks()[i as int],
    {
        &self.chunks[i]
    }

    /// The storage index of the chunk with the given origin, if any.
    fn find_chunk_index(&self, origin: BlockPosition) -> (r: Option<usize>)
        ensures
            r matches Some(i) ==> i < self.spec_chunks().len() && self.spec_chunks()[
                i as int
            ].origin == origin,
            r is None ==> forall|i: int|
                0 <= i < self.spec_chunks().len() ==> (#[trigger] self.spec_chunks()[i]).origin
                    != origin,
    {
        let mut i: usize = 0;
        while i < self.chunks.len()
            invariant
                i <= self.chunks.len(),
                forall|j: int|
                    0 <= j < i ==> (#[trigger] self.spec_chunks()[j]).origin != origin,
            decreases self.chunks.len() - i,
        {
            if self.chunks[i].origin_position() == origin {
                return Some(i);
            }
            i = i + 1;
        }
        None
    }

    /// The loaded chunk with the given origin, if any.
    pub fn get_chunk(&self, origin: BlockPosition) -> (r: Option<&Chunk>)
        requires
            self.wf(),
        ensures
            r is Some <==> self.spec_as_map().contains_key(origin),
            r matches Some(c) ==> c@ == self.spec_as_map()[origin],
    {
        proof {
            lemma_map_of_domain(self.spec_chunks(), origin);
        }
        match self.find_chunk_index(origin) {
            Some(i) => {
                proof {
                    lemma_map_of_index(self.spec_chunks(), i as int);
                }
                Some(&self.chunks[i])
            },
            None => None,
        }
    }

    /// Adds a chunk, replacing any chunk already stored at the same origin.
    pub fn insert_chunk(&mut self, chunk: Chunk)
        requires
            old(self).wf(),
            chunk@.wf(),
        ensures
            final(self).wf(),
            final(self).spec_as_map() == old(self).spec_as_map().insert(chunk@.origin, chunk@),
            final(self).spec_chunks().len() <= old(self).spec_chunks().len() + 1,
    {
        let ghost old_chunks = self.spec_chunks();
        let origin = chunk.origin_position();
        match self.find_chunk_index(origin) {
            Some(i) => {
                proof {
                    lemma_map_of_update(old_chunks, i as int, chunk@);
                }
                let slot = vstd::std_specs::vec::vec_index_mut(&mut self.chunks, i);
                *slot = chunk;
                proof {
                    assert(self.spec_chunks() =~= old_chunks.update(i as int, chunk@));
                }
            },
            None => {
                self.chunks.push(chunk);
                proof {
                    assert(self.spec_chunks() =~= old_chunks.push(chunk@));
                    assert(self.spec_chunks().drop_last() =~= old_chunks);
                }
            },
        }
    }

    /// Writes a block through to the owning chunk; a position in an
    /// unloaded chunk is ignored.
    pub fn set_block_at_position(&mut self, position: BlockPosition, block: Block)
        requires
            old(self).wf(),
        ensures
            final(self).wf(),
            old(self).spec_as_map().contains_key(spec_to_chunk_origin(position))
                ==> final(self).spec_as_map() == old(self).spec_as_map().insert(
                spec_to_chunk_origin(position),
                (ChunkView {
                    origin: spec_to_chunk_origin(position),
                    blocks: old(self).spec_as_map()[spec_to_chunk_origin(position)].blocks.update(
                        spec_local_index(spec_to_chunk_local(position)),
                        block,
                    ),
                }),
            ),
            !old(self).spec_as_map().contains_key(spec_to_chunk_origin(position))
                ==> final(self).spec_as_map() == old(self).spec_as_map(),
    {
        let ghost old_chunks = self.spec_chunks();
        let origin = position.to_chunk_origin();
        proof {
            lemma_map_of_domain(old_chunks, spec_to_chunk_origin(position));
        }
        match self.find_chunk_index(origin) {
            Some(i) => {
                proof {
                    lemma_map_of_index(old_chunks, i as int);
                }
                let slot = vstd::std_specs::vec::vec_index_mut(&mut self.chunks, i);
                slot.set_block_at_position(position, block);
                proof {
                    assert(self.spec_chunks() =~= old_chunks.update(i as int, slot@));
                    lemma_map_of_update(old_chunks, i as int, slot@);
                }
            },
            None => {},
        }
    }

    /// Reads the block at a position from the loaded chunks.
    /// An unloaded chunk and an air block both give `None`; otherwise the
    /// block is returned.
    pub fn get_block_at_position(&self, position: BlockPosition) -> (r: Option<Block>)
        requires
            self.wf(),
        ensures
            r == self.spec_block_at(position),
    {
        let origin = position.to_chunk_origin();
        match self.get_chunk(origin) {
            Some(chunk) => {
                proof {
                    lemma_chunk_containing_origin(*self, position);
                }
                match chunk.get_block_at_position(position) {
                    Ok(block) => block,
                    Err(_) => None,
                }
            },
            None => None,
        }
    }

    /// The 6 neighbor blocks of a position, in the fixed [`Direction`]
    /// order; absent chunks and air both read as `None`.
    pub fn get_neighbors(&self, position: BlockPosition) -> (r: Vec<(Direction, Option<Block>)>)
        requires
            self.wf(),
            i32::MIN + 1 <= position.x <= i32::MAX - 1,
            i32::MIN + 1 <= position.y <= i32::MAX - 1,
            i32::MIN + 1 <= position.z <= i32::MAX - 1,
        ensures
            r@.len() == 6,
            forall|k: int|
                0 <= k < 6 ==> #[trigger] r@[k] == (
                    spec_direction_at(k),
                    self.spec_block_at(spec_neighbor_position(position, spec_direction_at(k))),
                ),
    {
        let mut neighbors: Vec<(Direction, Option<Block>)> = Vec::new();
        let mut k: usize = 0;
        while k < 6
            invariant
                self.wf(),
                i32::MIN + 1 <= position.x <= i32::MAX - 1,
                i32::MIN + 1 <= position.y <= i32::MAX - 1,
                i32::MIN + 1 <= position.z <= i32::MAX - 1,
                k <= 6,
                neighbors@.len() == k,
                forall|k2: int|
                    0 <= k2 < k ==> #[trigger] neighbors@[k2] == (
                        spec_direction_at(k2),
                        self.spec_block_at(
                            spec_neighbor_position(position, spec_direction_at(k2)),
                        ),
                    ),
            decreases 6 - k,
        {
            let direction = Direction::from_index(k);
            let unit = direction.unit_offset();
            let neighbor_position = position.offset(unit.0, unit.1, unit.2);
            assert(neighbor_position == spec_neighbor_position(
                position,
                spec_direction_at(k as int),
            ));
            let block = self.get_block_at_position(neighbor_position);
            neighbors.push((direction, block));
            k = k + 1;
        }
        neighbors
    }
}

/// In a well-formed world, the chunk stored under any key is well formed
/// and keyed by its own origin.
pub proof fn lemma_world_chunk_at_key(w: World, o: BlockPosition)
    requires
        w.wf(),
        w.spec_as_map().contains_key(o),
    ensures
        w.spec_as_map()[o].origin == o,
        w.spec_as_map()[o].wf(),
{
    lemma_map_of_domain(w.spec_chunks(), o);
    let i = choose|i: int| 0 <= i < w.spec_chunks().len() && (#[trigger] w.spec_chunks()[
        i
    ]).origin == o;
    lemma_map_of_index(w.spec_chunks(), i);
}

/// Chunk-origin invariant: whenever the world holds a chunk at the origin of
/// a position `p`, that chunk's own origin is exactly `p`'s chunk origin.
pub proof fn lemma_chunk_containing_origin(w: World, p: BlockPosition)
    requires
        w.wf(),
        w.spec_as_map().contains_key(spec_to_chunk_origin(p)),
    ensures
        w.spec_as_map()[spec_to_chunk_origin(p)].origin == spec_to_chunk_origin(p),
        w.spec_as_map()[spec_to_chunk_origin(p)].contains_position(p),
        w.spec_as_map()[spec_to_chunk_origin(p)].wf(),
{
    lemma_world_chunk_at_key(w, spec_to_chunk_origin(p));
}

} // verus!
