use voxelworld::block::Block;
use voxelworld::block_position::BlockPosition;
use voxelworld::chunk::{Chunk, ChunkAccessorError, CHUNK_SIZE};
use voxelworld::direction::Direction;

fn air() -> Block {
    Block { id: 0, state: 0 }
}

#[test]
fn new_chunk_is_filled_with_solid_stand_in_blocks() {
    let chunk = Chunk::new(BlockPosition::new(0, 0, 0));
    assert_eq!(chunk.origin_position(), BlockPosition::new(0, 0, 0));
    let block = chunk
        .get_block_at_position(BlockPosition::new(7, 8, 9))
        .unwrap()
        .unwrap();
    assert_eq!(block.id, 1);
    assert_eq!(block.state, 0);
}

#[test]
fn get_block_outside_chunk_is_an_error() {
    let chunk = Chunk::new(BlockPosition::new(0, 0, 0));
    let queried = BlockPosition::new(16, 0, 0);
    match chunk.get_block_at_position(queried) {
        Err(ChunkAccessorError::PositionNotWithinChunk(p)) => assert_eq!(p, queried),
        _ => panic!("expected a chunk boundary error"),
    }
}

#[test]
fn set_block_to_air_reads_back_as_none() {
    let mut chunk = Chunk::new(BlockPosition::new(-16, 0, 32));
    let p = BlockPosition::new(-16 + 3, 4, 32 + 5);
    chunk.set_block_at_position(p, air());
    assert_eq!(chunk.get_block_at_position(p).unwrap(), None);
    let q = BlockPosition::new(-16 + 3, 4, 32 + 6);
    assert!(chunk.get_block_at_position(q).unwrap().is_some());
}

#[test]
fn set_block_overwrites_one_slot_only() {
    let mut chunk = Chunk::new(BlockPosition::new(0, 0, 0));
    chunk.set_block_at_position(BlockPosition::new(1, 0, 0), Block { id: 9, state: 1 });
    let written = chunk
        .get_block_at_position(BlockPosition::new(1, 0, 0))
        .unwrap()
        .unwrap();
    assert_eq!(written.id, 9);
    let untouched = chunk
        .get_block_at_position(BlockPosition::new(0, 0, 0))
        .unwrap()
        .unwrap();
    assert_eq!(untouched.id, 1);
}

#[test]
fn position_membership_follows_chunk_origin() {
    let chunk = Chunk::new(BlockPosition::new(-16, -16, -16));
    assert!(chunk.is_world_position_within(BlockPosition::new(-1, -1, -1)));
    assert!(!chunk.is_world_position_within(BlockPosition::new(0, -1, -1)));
}

#[test]
fn world_block_position_lies_within_the_chunk() {
    let chunk = Chunk::new(BlockPosition::new(16, 0, -16));
    for idx in [0usize, 1, 255, 4095] {
        let p = chunk.world_block_position(idx);
        assert!(chunk.is_world_position_within(p));
    }
    assert_eq!(chunk.world_block_position(0), BlockPosition::new(16, 0, -16));
    assert_eq!(
        chunk.world_block_position(CHUNK_SIZE - 1),
        BlockPosition::new(16 + 15, 15, -16 + 15)
    );
}

#[test]
fn local_block_position_inverts_the_linear_index() {
    assert_eq!(Chunk::local_block_position(0), BlockPosition::new(0, 0, 0));
    assert_eq!(Chunk::local_block_position(1), BlockPosition::new(1, 0, 0));
    assert_eq!(Chunk::local_block_position(16), BlockPosition::new(0, 1, 0));
    assert_eq!(Chunk::local_block_position(256), BlockPosition::new(0, 0, 1));
    assert_eq!(Chunk::local_block_position(4095), BlockPosition::new(15, 15, 15));
}

#[test]
fn face_blocks_walk_their_face() {
    let chunk = Chunk::new(BlockPosition::new(0, 0, 0));
    for direction in [
        Direction::North,
        Direction::South,
        Direction::East,
        Direction::West,
        Direction::Up,
        Direction::Down,
    ] {
        let blocks = chunk.get_face_blocks(direction);
        assert_eq!(blocks.len(), 30);
        assert!(blocks.iter().all(|b| b.is_some()));
    }
}

#[test]
fn face_blocks_see_air_on_the_face() {
    let mut chunk = Chunk::new(BlockPosition::new(0, 0, 0));
    // The North face walk starts at the origin corner of the z = 15 plane;
    // its first step lands on (1, 0, 15).
    chunk.set_block_at_position(BlockPosition::new(1, 0, 15), air());
    let blocks = chunk.get_face_blocks(Direction::North);
    assert_eq!(blocks[0], None);
    assert!(blocks[1].is_some());
}
