use voxelworld::block::Block;
use voxelworld::block_position::BlockPosition;
use voxelworld::chunk::Chunk;
use voxelworld::direction::Direction;
use voxelworld::world::World;
use voxelworld::worldgen::{generate_world, WorldGenerationSettings};

fn air() -> Block {
    Block { id: 0, state: 0 }
}

#[test]
fn absent_chunk_reads_as_none() {
    let world = World::new();
    assert_eq!(world.get_block_at_position(BlockPosition::new(0, 0, 0)), None);
}

#[test]
fn inserted_chunk_serves_its_blocks() {
    let mut world = World::new();
    world.insert_chunk(Chunk::new(BlockPosition::new(0, 0, 0)));
    assert!(world.get_block_at_position(BlockPosition::new(5, 5, 5)).is_some());
    assert_eq!(world.get_block_at_position(BlockPosition::new(-1, 5, 5)), None);
}

#[test]
fn air_and_absent_collapse_to_none() {
    let mut world = World::new();
    world.insert_chunk(Chunk::new(BlockPosition::new(0, 0, 0)));
    world.set_block_at_position(BlockPosition::new(3, 3, 3), air());
    assert_eq!(world.get_block_at_position(BlockPosition::new(3, 3, 3)), None);
    assert_eq!(world.get_block_at_position(BlockPosition::new(30, 3, 3)), None);
}

#[test]
fn set_block_in_unloaded_chunk_is_ignored() {
    let mut world = World::new();
    world.insert_chunk(Chunk::new(BlockPosition::new(0, 0, 0)));
    world.set_block_at_position(BlockPosition::new(100, 0, 0), Block { id: 7, state: 0 });
    assert_eq!(world.get_block_at_position(BlockPosition::new(100, 0, 0)), None);
    assert!(world.get_block_at_position(BlockPosition::new(1, 1, 1)).is_some());
}

#[test]
fn reinserting_a_chunk_replaces_it() {
    let mut world = World::new();
    world.insert_chunk(Chunk::new(BlockPosition::new(0, 0, 0)));
    let mut emptied = Chunk::new(BlockPosition::new(0, 0, 0));
    emptied.set_block_at_position(BlockPosition::new(2, 2, 2), air());
    world.insert_chunk(emptied);
    assert_eq!(world.chunk_count(), 1);
    assert_eq!(world.get_block_at_position(BlockPosition::new(2, 2, 2)), None);
}

#[test]
fn neighbors_come_in_fixed_direction_order() {
    let mut world = World::new();
    world.insert_chunk(Chunk::new(BlockPosition::new(0, 0, 0)));
    let neighbors = world.get_neighbors(BlockPosition::new(0, 0, 0));
    assert_eq!(neighbors.len(), 6);
    assert!(matches!(neighbors[0].0, Direction::North));
    assert!(matches!(neighbors[1].0, Direction::South));
    assert!(matches!(neighbors[2].0, Direction::East));
    assert!(matches!(neighbors[3].0, Direction::West));
    assert!(matches!(neighbors[4].0, Direction::Up));
    assert!(matches!(neighbors[5].0, Direction::Down));
    // North (0,0,1), West (1,0,0) and Up (0,1,0) stay inside the chunk.
    assert!(neighbors[0].1.is_some());
    assert!(neighbors[3].1.is_some());
    assert!(neighbors[4].1.is_some());
    // South, East and Down leave the only chunk.
    assert_eq!(neighbors[1].1, None);
    assert_eq!(neighbors[2].1, None);
    assert_eq!(neighbors[5].1, None);
}

#[test]
fn generated_world_covers_its_box() {
    let world = generate_world(
        10,
        WorldGenerationSettings { max_width: 1, max_height: 1, max_length: 1 },
    );
    // x in {-1, 0} chunks, y in {0}, z in {-1, 0}: four chunks.
    assert_eq!(world.chunk_count(), 4);
    assert!(world.get_block_at_position(BlockPosition::new(-16, 0, -16)).is_some());
    assert!(world.get_block_at_position(BlockPosition::new(15, 15, 15)).is_some());
    assert!(world.get_block_at_position(BlockPosition::new(-1, 0, -1)).is_some());
    assert_eq!(world.get_block_at_position(BlockPosition::new(16, 0, 0)), None);
    assert_eq!(world.get_block_at_position(BlockPosition::new(0, 16, 0)), None);
    assert_eq!(world.get_block_at_position(BlockPosition::new(0, -1, 0)), None);
}

#[test]
fn generated_world_can_be_empty() {
    let world = generate_world(
        0,
        WorldGenerationSettings { max_width: 0, max_height: 0, max_length: 0 },
    );
    assert_eq!(world.chunk_count(), 0);
}
