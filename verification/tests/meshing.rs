use voxelworld::block::Block;
use voxelworld::block_position::BlockPosition;
use voxelworld::chunk::Chunk;
use voxelworld::direction::Direction;
use voxelworld::mesher::{get_neighbors, mesh_chunk, ChunkMesher};

fn air() -> Block {
    Block { id: 0, state: 0 }
}

fn solid() -> Block {
    Block { id: 1, state: 0 }
}

/// A chunk at `origin` holding only air.
fn empty_chunk(origin: BlockPosition) -> Chunk {
    let mut chunk = Chunk::new(origin);
    for x in 0..16 {
        for y in 0..16 {
            for z in 0..16 {
                chunk.set_block_at_position(
                    origin.offset(x, y, z),
                    air(),
                );
            }
        }
    }
    chunk
}

#[test]
fn isolated_block_meshes_six_quads() {
    let origin = BlockPosition::new(0, 0, 0);
    let mut chunk = empty_chunk(origin);
    chunk.set_block_at_position(BlockPosition::new(5, 5, 5), solid());

    let mesh = mesh_chunk(&chunk, &[]);
    assert_eq!(mesh.vertices().len(), 24);
    assert_eq!(mesh.normals().len(), 6);
    assert_eq!(mesh.indicies().len(), 36);
}

#[test]
fn two_adjacent_blocks_cull_their_shared_face() {
    let origin = BlockPosition::new(0, 0, 0);
    let mut chunk = empty_chunk(origin);
    chunk.set_block_at_position(BlockPosition::new(5, 5, 5), solid());
    chunk.set_block_at_position(BlockPosition::new(6, 5, 5), solid());

    // Ten quads: twelve faces minus the two halves of the shared face.
    let mesh = mesh_chunk(&chunk, &[]);
    assert_eq!(mesh.vertices().len(), 40);
    assert_eq!(mesh.normals().len(), 10);
    assert_eq!(mesh.indicies().len(), 60);
}

#[test]
fn empty_chunk_meshes_nothing() {
    let chunk = empty_chunk(BlockPosition::new(0, 0, 0));
    let mesh = mesh_chunk(&chunk, &[]);
    assert!(mesh.is_empty());
    assert_eq!(mesh.indicies().len(), 0);
}

#[test]
fn chunk_border_block_is_exposed_without_neighbor_chunks() {
    let origin = BlockPosition::new(0, 0, 0);
    let mut chunk = empty_chunk(origin);
    chunk.set_block_at_position(BlockPosition::new(0, 5, 5), solid());
    // The face toward the unloaded chunk at x = -1 is meshed conservatively.
    let mesh = mesh_chunk(&chunk, &[]);
    assert_eq!(mesh.normals().len(), 6);
}

#[test]
fn solid_neighbor_chunk_culls_the_border_face() {
    let origin = BlockPosition::new(0, 0, 0);
    let mut chunk = empty_chunk(origin);
    chunk.set_block_at_position(BlockPosition::new(0, 5, 5), solid());
    let neighbor = Chunk::new(BlockPosition::new(-16, 0, 0));

    let mesh = mesh_chunk(&chunk, &[Some(neighbor)]);
    // The East face (toward x = -1) sees the solid neighbor and is culled.
    assert_eq!(mesh.normals().len(), 5);
}

#[test]
fn meshed_quads_have_valid_indices() {
    let origin = BlockPosition::new(-16, 0, 16);
    let mut chunk = empty_chunk(origin);
    chunk.set_block_at_position(origin.offset(3, 3, 3), solid());
    chunk.set_block_at_position(origin.offset(3, 4, 3), solid());
    chunk.set_block_at_position(origin.offset(15, 15, 15), solid());

    let mesh = mesh_chunk(&chunk, &[]);
    assert_eq!(mesh.indicies().len() % 6, 0);
    let vertex_count = mesh.vertices().len() as u32;
    assert!(mesh.indicies().iter().all(|&i| i < vertex_count));
}

#[test]
fn neighbors_resolve_across_chunks_in_direction_order() {
    let origin = BlockPosition::new(0, 0, 0);
    let chunk = empty_chunk(origin);
    let neighbor = Chunk::new(BlockPosition::new(-16, 0, 0));

    let neighbors = get_neighbors(&chunk, &[Some(neighbor)], BlockPosition::new(0, 5, 5));
    assert_eq!(neighbors.len(), 6);
    assert!(matches!(neighbors[0].0, Direction::North));
    assert!(matches!(neighbors[2].0, Direction::East));
    // Only East (toward x = -1) leaves the chunk into the solid neighbor.
    assert!(neighbors[2].1.is_some());
    assert_eq!(neighbors[0].1, None);
    assert_eq!(neighbors[1].1, None);
    assert_eq!(neighbors[3].1, None);
    assert_eq!(neighbors[4].1, None);
    assert_eq!(neighbors[5].1, None);
}

#[test]
fn mesher_publishes_nonempty_meshes_once() {
    let mut mesher = ChunkMesher::new();
    let origin = BlockPosition::new(0, 0, 0);
    let mut chunk = empty_chunk(origin);
    chunk.set_block_at_position(BlockPosition::new(1, 1, 1), solid());

    mesher.begin_meshing_chunk(chunk, vec![None, None, None, None, None, None]);
    let ready = mesher.ready_chunk_meshes();
    assert_eq!(ready.len(), 1);
    assert_eq!(ready[0].0, origin);
    assert_eq!(ready[0].1.normals().len(), 6);

    let drained_again = mesher.ready_chunk_meshes();
    assert!(drained_again.is_empty());
}

#[test]
fn mesher_does_not_publish_empty_meshes() {
    let mut mesher = ChunkMesher::new();
    let chunk = empty_chunk(BlockPosition::new(0, 0, 0));
    mesher.begin_meshing_chunk(chunk, vec![]);
    assert!(mesher.ready_chunk_meshes().is_empty());
}
