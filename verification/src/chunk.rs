//! A chunk: a fixed-size cubic region of blocks, the unit of meshing.
//!
//! A chunk owns a `16 x 16 x 16` array of blocks, linearized as
//! `x + y * 16 + z * 256`, and an origin that is always aligned to the chunk
//! grid. All access goes through world positions; the chunk converts them to
//! local indices itself.

use vstd::prelude::*;
use crate::block::Block;
use crate::block_position::{
    lemma_aligned_headroom, lemma_axis_decomposition, lemma_origin_plus_local, spec_aligned,
    spec_to_chunk_local, spec_to_chunk_origin, BlockPosition,
};
use crate::block_position_range::{
    lemma_cubic_path_bounds, spec_cubic_path, BlockPositionRange, RangeType,
};
use crate::direction::Direction;

verus! {

/// Blocks along the x axis of a chunk.
pub const CHUNK_BLOCK_WIDTH: usize = 16;

/// Blocks along the y axis of a chunk.
pub const CHUNK_BLOCK_HEIGHT: usize = 16;

/// Blocks along the z axis of a chunk.
pub const CHUNK_BLOCK_DEPTH: usize = 16;

/// Blocks in a whole chunk.
pub const CHUNK_SIZE: usize = CHUNK_BLOCK_WIDTH * CHUNK_BLOCK_HEIGHT * CHUNK_BLOCK_DEPTH;

/// Failure of a bounds-checked chunk access.
#[derive(Debug, Clone, Copy, PartialEq, Eq, Structural)]
pub enum ChunkAccessorError {
    /// The queried world position lies in some other chunk.
    PositionNotWithinChunk(BlockPosition),
}

/// The linear index of a chunk-local position.
pub open spec fn spec_local_index(l: BlockPosition) -> int {
    l.x + l.y * 16 + l.z * 256
}

/// The mathematical content of a chunk: its origin and its block sequence.
pub struct ChunkView {
    pub origin: BlockPosition,
    pub blocks: Seq<Block>,
}

impl ChunkView {
    /// A chunk holds exactly [`CHUNK_SIZE`] blocks and sits on the chunk grid.
    pub open spec fn wf(self) -> bool {
        &&& self.blocks.len() == CHUNK_SIZE
        &&& spec_aligned(self.origin)
    }

    /// Whether a world position lies inside this chunk.
    pub open spec fn contains_position(self, p: BlockPosition) -> bool {
        spec_to_chunk_origin(p) == self.origin
    }

    /// The block stored at a world position's local slot (meaningful when the
    /// position lies inside this chunk).
    pub open spec fn block_at(self, p: BlockPosition) -> Block {
        self.blocks[spec_local_index(spec_to_chunk_local(p))]
    }

    /// The block at a world position with air collapsed to `None`.
    pub open spec fn visible_block_at(self, p: BlockPosition) -> Option<Block> {
        if self.block_at(p).spec_is_air() {
            None
        } else {
            Some(self.block_at(p))
        }
    }

    /// What a bounds-checked read returns: an error outside the chunk,
    /// otherwise the block with air collapsed to `None`.
    pub open spec fn spec_get_block(self, p: BlockPosition) -> Result<
        Option<Block>,
        ChunkAccessorError,
    > {
        if !self.contains_position(p) {
            Err(ChunkAccessorError::PositionNotWithinChunk(p))
        } else {
            Ok(self.visible_block_at(p))
        }
    }
}

/// A fixed-size cubic region of blocks anchored at an aligned origin.
pub struct Chunk {
    origin_position: BlockPosition,
    blocks: Vec<Block>,
}

impl View for Chunk {
    type V = ChunkView;

    closed spec fn view(&self) -> ChunkView {
        ChunkView { origin: self.origin_position, blocks: self.blocks@ }
    }
}

/// The local index of any position is in range.
pub proof fn lemma_local_index_in_range(p: BlockPosition)
    ensures
        0 <= spec_local_index(spec_to_chunk_local(p)) < CHUNK_SIZE,
{
    lemma_origin_plus_local(p);
}

impl Chunk {
    /// A fresh chunk at an aligned origin, filled entirely with a solid
    /// stand-in block of id 1.
    pub fn new(origin_position: BlockPosition) -> (c: Self)
        requires
            spec_aligned(origin_position),
        ensures
            c@.origin == origin_position,
            c@.wf(),
            forall|i: int|
                0 <= i < CHUNK_SIZE ==> c@.blocks[i] == (Block { id: 1, state: 0 }),
    {
        let mut blocks: Vec<Block> = Vec::with_capacity(CHUNK_SIZE);
        let mut i: usize = 0;
        while i < CHUNK_SIZE
            invariant
                i <= CHUNK_SIZE,
                blocks@.len() == i,
                forall|j: int| 0 <= j < i ==> blocks@[j] == (Block { id: 1, state: 0 }),
            decreases CHUNK_SIZE - i,
        {
            blocks.push(Block { id: 1, state: 0 });
            i = i + 1;
        }
        Chunk { origin_position, blocks }
    }

    /// The minimum-coordinate corner of this chunk, its key in the world map.
    pub fn origin_position(&self) -> (r: BlockPosition)
        ensures
            r == self@.origin,
    {
        self.origin_position
    }

    /// The chunk-local position that a linear block index stands for.
    pub fn local_block_position(block_index: usize) -> (r: BlockPosition)
        requires
            block_index < CHUNK_SIZE,
        ensures
            0 <= r.x < 16 && 0 <= r.y < 16 && 0 <= r.z < 16,
            spec_local_index(r) == block_index,
    {
        let local_z = block_index / (CHUNK_BLOCK_WIDTH * CHUNK_BLOCK_HEIGHT);
        let block_index = block_index - (local_z * CHUNK_BLOCK_WIDTH * CHUNK_BLOCK_HEIGHT);
        let local_y = block_index / CHUNK_BLOCK_WIDTH;
        let local_x = block_index % CHUNK_BLOCK_WIDTH;
        BlockPosition::new(local_x as i32, local_y as i32, local_z as i32)
    }

    /// The world position of a linear block index inside this chunk.
    pub fn world_block_position(&self, block_index: usize) -> (r: BlockPosition)
        requires
            self@.wf(),
            block_index < CHUNK_SIZE,
        ensures
            self@.contains_position(r),
            spec_local_index(spec_to_chunk_local(r)) == block_index,
    {
        let local = Chunk::local_block_position(block_index);
        proof {
            lemma_aligned_headroom(self.origin_position.x as int);
            lemma_aligned_headroom(self.origin_position.y as int);
            lemma_aligned_headroom(self.origin_position.z as int);
            lemma_axis_decomposition(self.origin_position.x as int, local.x as int);
            lemma_axis_decomposition(self.origin_position.y as int, local.y as int);
            lemma_axis_decomposition(self.origin_position.z as int, local.z as int);
        }
        self.origin_position.offset(local.x, local.y, local.z)
    }

    /// Writes a block at the local slot derived from the world position.
    /// The write is unconditional: the caller is responsible for handing in a
    /// position that belongs to this chunk.
    pub fn set_block_at_position(&mut self, world_position: BlockPosition, block: Block)
        requires
            old(self)@.wf(),
        ensures
            final(self)@.wf(),
            final(self)@.origin == old(self)@.origin,
            final(self)@.blocks == old(self)@.blocks.update(
                spec_local_index(spec_to_chunk_local(world_position)),
                block,
            ),
    {
        proof {
            lemma_local_index_in_range(world_position);
        }
        let chunk_local_position = world_position.to_chunk_local_position();
        assert(0 <= chunk_local_position.x < 16 && 0 <= chunk_local_position.y < 16 && 0
            <= chunk_local_position.z < 16);
        let position_idx = (chunk_local_position.x + (chunk_local_position.y * CHUNK_BLOCK_WIDTH
            as i32) + (chunk_local_position.z * CHUNK_BLOCK_WIDTH as i32 * CHUNK_BLOCK_HEIGHT
            as i32)) as usize;
        assert(position_idx == spec_local_index(spec_to_chunk_local(world_position)));
        self.blocks[position_idx] = block;
    }

    /// Reads the block at a world position.
    /// Returns an error if the position is not within this chunk, `Ok(None)`
    /// for air, and `Ok(Some(block))` otherwise.
    pub fn get_block_at_position(&self, world_position: BlockPosition) -> (r: Result<
        Option<Block>,
        ChunkAccessorError,
    >)
        requires
            self@.wf(),
        ensures
            r == self@.spec_get_block(world_position),
    {
        if !self.is_world_position_within(world_position) {
            return Err(ChunkAccessorError::PositionNotWithinChunk(world_position));
        }
        proof {
            lemma_local_index_in_range(world_position);
        }
        let chunk_local_position = world_position.to_chunk_local_position();
        assert(0 <= chunk_local_position.x < 16 && 0 <= chunk_local_position.y < 16 && 0
            <= chunk_local_position.z < 16);
        let position_idx = (chunk_local_position.x + (chunk_local_position.y * CHUNK_BLOCK_WIDTH
            as i32) + (chunk_local_position.z * CHUNK_BLOCK_WIDTH as i32 * CHUNK_BLOCK_HEIGHT
            as i32)) as usize;
        assert(position_idx == spec_local_index(spec_to_chunk_local(world_position)));
        let block = self.blocks[position_idx];
        if block.is_air() {
            return Ok(None);
        }
        Ok(Some(block))
    }

    /// An independent copy of this chunk, used to hand meshing a stable
    /// snapshot while the original may keep changing.
    pub fn snapshot(&self) -> (c: Chunk)
        ensures
            c@ == self@,
    {
        let mut blocks: Vec<Block> = Vec::with_capacity(self.blocks.len());
        let mut i: usize = 0;
        while i < self.blocks.len()
            invariant
                i <= self.blocks.len(),
                blocks@ == self.blocks@.take(i as int),
            decreases self.blocks.len() - i,
        {
            blocks.push(self.blocks[i]);
            proof {
                assert(blocks@ =~= self.blocks@.take(i + 1));
            }
            i = i + 1;
        }
        let c = Chunk { origin_position: self.origin_position, blocks };
        proof {
            assert(c@.blocks =~= self@.blocks);
        }
        c
    }

    /// Whether a world position lies inside this chunk.
    pub fn is_world_position_within(&self, world_position: BlockPosition) -> (r: bool)
        ensures
            r == self@.contains_position(world_position),
    {
        self.origin_position == world_position.to_chunk_origin()
    }

    /// Walks one face of the chunk from its range start to its range end
    /// and collects the block seen at every visited position, air as
    /// `None`. The positions are those of the cubic walk between the two
    /// corners of the face range.
    #[verifier::rlimit(60)]
    pub fn get_face_blocks(&self, face_direction: Direction) -> (r: Vec<Option<Block>>)
        requires
            self@.wf(),
        ensures
            ({
                let path = spec_cubic_path(
                    spec_face_range_start(self@, face_direction),
                    spec_face_range_end(self@, face_direction),
                );
                &&& r@.len() == path.len()
                &&& forall|k: int|
                    0 <= k < path.len() ==> r@[k] == self@.visible_block_at(#[trigger] path[k])
            }),
    {
        proof {
            lemma_aligned_headroom(self.origin_position.x as int);
            lemma_aligned_headroom(self.origin_position.y as int);
            lemma_aligned_headroom(self.origin_position.z as int);
        }
        let start = match face_direction {
            Direction::North => self.origin_position.offset(0, 0, CHUNK_BLOCK_DEPTH as i32 - 1),
            Direction::South => self.origin_position.offset(0, 0, 0),
            Direction::East => self.origin_position.offset(0, 0, 0),
            Direction::West => self.origin_position.offset(CHUNK_BLOCK_WIDTH as i32 - 1, 0, 0),
            Direction::Up => self.origin_position.offset(0, CHUNK_BLOCK_HEIGHT as i32 - 1, 0),
            Direction::Down => self.origin_position.offset(0, 0, 0),
        };
        let end = match face_direction {
            Direction::North => self.origin_position.offset(
                CHUNK_BLOCK_WIDTH as i32 - 1,
                CHUNK_BLOCK_HEIGHT as i32 - 1,
                CHUNK_BLOCK_DEPTH as i32 - 1,
            ),
            Direction::South => self.origin_position.offset(
                CHUNK_BLOCK_WIDTH as i32 - 1,
                CHUNK_BLOCK_HEIGHT as i32 - 1,
                0,
            ),
            Direction::East => self.origin_position.offset(
                0,
                CHUNK_BLOCK_HEIGHT as i32 - 1,
                CHUNK_BLOCK_DEPTH as i32 - 1,
            ),
            Direction::West => self.origin_position.offset(
                CHUNK_BLOCK_WIDTH as i32 - 1,
                CHUNK_BLOCK_HEIGHT as i32 - 1,
                CHUNK_BLOCK_DEPTH as i32 - 1,
            ),
            Direction::Up => self.origin_position.offset(
                CHUNK_BLOCK_WIDTH as i32 - 1,
                CHUNK_BLOCK_HEIGHT as i32 - 1,
                CHUNK_BLOCK_DEPTH as i32 - 1,
            ),
            Direction::Down => self.origin_position.offset(
                CHUNK_BLOCK_WIDTH as i32 - 1,
                0,
                CHUNK_BLOCK_DEPTH as i32 - 1,
            ),
        };
        assert(start == spec_face_range_start(self@, face_direction));
        assert(end == spec_face_range_end(self@, face_direction));
        let ghost path = spec_cubic_path(start, end);
        let ghost origin = self@.origin;

        let mut face_blocks: Vec<Option<Block>> = Vec::new();
        let mut range = BlockPositionRange::new(start, end, RangeType::Cubic);
        loop
            invariant
                self@.wf(),
                origin == self@.origin,
                range.spec_end() == end,
                path == spec_cubic_path(start, end),
                origin.x <= start.x <= origin.x + 15,
                origin.y <= start.y <= origin.y + 15,
                origin.z <= start.z <= origin.z + 15,
                origin.x <= end.x <= origin.x + 15,
                origin.y <= end.y <= origin.y + 15,
                origin.z <= end.z <= origin.z + 15,
                face_blocks@.len() <= path.len(),
                spec_cubic_path(range.spec_current(), end) == path.subrange(
                    face_blocks@.len() as int,
                    path.len() as int,
                ),
                forall|k: int|
                    0 <= k < face_blocks@.len() ==> face_blocks@[k] == self@.visible_block_at(
                        #[trigger] path[k],
                    ),
            ensures
                face_blocks@.len() == path.len(),
                forall|k: int|
                    0 <= k < path.len() ==> face_blocks@[k] == self@.visible_block_at(
                        #[trigger] path[k],
                    ),
            decreases path.len() - face_blocks@.len(),
        {
            let ghost n = face_blocks@.len() as int;
            let ghost cur = range.spec_current();
            match range.next_position() {
                Some(block_position) => {
                    proof {
                        assert(spec_cubic_path(cur, end) == seq![block_position]
                            + spec_cubic_path(block_position, end));
                        assert(path.subrange(n, path.len() as int)[0] == block_position);
                        assert(path[n] == block_position);
                        assert(spec_cubic_path(block_position, end).len() == path.len() - n - 1);
                        assert forall|j: int|
                            0 <= j < spec_cubic_path(block_position, end).len() implies
                            spec_cubic_path(block_position, end)[j] == path.subrange(
                            n + 1,
                            path.len() as int,
                        )[j] by {
                            assert(spec_cubic_path(block_position, end)[j] == spec_cubic_path(
                                cur,
                                end,
                            )[j + 1]);
                            assert(spec_cubic_path(cur, end)[j + 1] == path.subrange(
                                n,
                                path.len() as int,
                            )[j + 1]);
                        }
                        assert(spec_cubic_path(block_position, end) =~= path.subrange(
                            n + 1,
                            path.len() as int,
                        ));
                        lemma_cubic_path_bounds(start, end);
                        assert(spec_cubic_path(start, end)[n] == block_position);
                        lemma_axis_decomposition(
                            origin.x as int,
                            block_position.x - origin.x,
                        );
                        lemma_axis_decomposition(
                            origin.y as int,
                            block_position.y - origin.y,
                        );
                        lemma_axis_decomposition(
                            origin.z as int,
                            block_position.z - origin.z,
                        );
                        assert(self@.contains_position(block_position));
                    }
                    match self.get_block_at_position(block_position) {
                        Ok(block) => {
                            face_blocks.push(block);
                        },
                        Err(_) => {
                            proof {
                                assert(false);
                            }
                        },
                    }
                },
                None => {
                    proof {
                        assert(spec_cubic_path(cur, end) == Seq::<BlockPosition>::empty());
                        assert(path.subrange(n, path.len() as int).len() == 0);
                    }
                    break ;
                },
            }
        }
        face_blocks
    }
}

/// The first corner of the walk that [`Chunk::get_face_blocks`] makes over
/// a face of the chunk.
pub open spec fn spec_face_range_start(c: ChunkView, d: Direction) -> BlockPosition {
    match d {
        Direction::North => BlockPosition {
            x: c.origin.x,
            y: c.origin.y,
            z: (c.origin.z + 15) as i32,
        },
        Direction::South => c.origin,
        Direction::East => c.origin,
        Direction::West => BlockPosition {
            x: (c.origin.x + 15) as i32,
            y: c.origin.y,
            z: c.origin.z,
        },
        Direction::Up => BlockPosition {
            x: c.origin.x,
            y: (c.origin.y + 15) as i32,
            z: c.origin.z,
        },
        Direction::Down => c.origin,
    }
}

/// The last corner of the walk that [`Chunk::get_face_blocks`] makes over
/// a face of the chunk.
pub open spec fn spec_face_range_end(c: ChunkView, d: Direction) -> BlockPosition {
    match d {
        Direction::North => BlockPosition {
            x: (c.origin.x + 15) as i32,
            y: (c.origin.y + 15) as i32,
            z: (c.origin.z + 15) as i32,
        },
        Direction::South => BlockPosition {
            x: (c.origin.x + 15) as i32,
            y: (c.origin.y + 15) as i32,
            z: c.origin.z,
        },
        Direction::East => BlockPosition {
            x: c.origin.x,
            y: (c.origin.y + 15) as i32,
            z: (c.origin.z + 15) as i32,
        },
        Direction::West => BlockPosition {
            x: (c.origin.x + 15) as i32,
            y: (c.origin.y + 15) as i32,
            z: (c.origin.z + 15) as i32,
        },
        Direction::Up => BlockPosition {
            x: (c.origin.x + 15) as i32,
            y: (c.origin.y + 15) as i32,
            z: (c.origin.z + 15) as i32,
        },
        Direction::Down => BlockPosition {
            x: (c.origin.x + 15) as i32,
            y: c.origin.y,
            z: (c.origin.z + 15) as i32,
        },
    }
}

} // verus!
