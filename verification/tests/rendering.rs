use voxelworld::block::Block;
use voxelworld::block_position::BlockPosition;
use voxelworld::chunk::Chunk;
use voxelworld::mesher::mesh_chunk;
use voxelworld::render::{WorldRenderError, WorldRenderSystem};
use voxelworld::world::World;
use voxelworld::worldgen::{generate_world, WorldGenerationSettings};

fn air() -> Block {
    Block { id: 0, state: 0 }
}

#[test]
fn fresh_render_system_has_empty_buffers() {
    let system = WorldRenderSystem::new();
    assert_eq!(system.cached_mesh_count(), 0);
    assert_eq!(system.index_count(), 0);
    assert!(system.vertex_buffer().is_empty());
    assert!(system.index_buffer().is_empty());
}

#[test]
fn update_without_meshes_changes_nothing() {
    let mut system = WorldRenderSystem::new();
    assert!(!system.update_chunk_meshes());
    assert_eq!(system.index_count(), 0);
}

#[test]
fn remeshing_a_chunk_twice_leaves_one_cache_entry() {
    let mut world = World::new();
    world.insert_chunk(Chunk::new(BlockPosition::new(0, 0, 0)));

    let mut system = WorldRenderSystem::new();
    system.build_chunk_meshes(&world);
    system.build_chunk_meshes(&world);
    assert!(system.update_chunk_meshes());

    // Both submissions completed, but the cache keys by chunk origin:
    // the second result overwrote the first, no duplication.
    assert_eq!(system.cached_mesh_count(), 1);
    // One fully solid chunk with no neighbors exposes its 6 outer faces:
    // 6 * 16 * 16 quads, 4 vertices and 6 indices each.
    assert_eq!(system.vertex_buffer().len(), 6 * 256 * 4);
    assert_eq!(system.index_count(), 6 * 256 * 6);
}

#[test]
fn drains_arriving_later_replace_the_stale_mesh() {
    let origin = BlockPosition::new(0, 0, 0);
    let mut world = World::new();
    world.insert_chunk(Chunk::new(origin));

    let mut system = WorldRenderSystem::new();
    system.build_chunk_meshes(&world);
    assert!(system.update_chunk_meshes());
    let full_indices = system.index_count();

    // Carve one corner block out and remesh the same chunk.
    world.set_block_at_position(BlockPosition::new(0, 0, 0), air());
    system.build_chunk_meshes(&world);
    assert!(system.update_chunk_meshes());

    assert_eq!(system.cached_mesh_count(), 1);
    // Removing a corner block uncovers 3 faces and removes 3: same count.
    assert_eq!(system.index_count(), full_indices);
    assert!(!system.update_chunk_meshes());
}

#[test]
fn filled_chunk_with_air_pocket_meshes_cavity_and_outer_faces() {
    let origin = BlockPosition::new(0, 0, 0);
    let pocket = BlockPosition::new(8, 8, 8);
    let mut world = World::new();
    world.insert_chunk(Chunk::new(origin));
    world.set_block_at_position(pocket, air());

    let mut system = WorldRenderSystem::new();
    system.build_chunk_meshes(&world);
    assert!(system.update_chunk_meshes());

    // The chunk has no neighbors, so all 6 * 256 outer faces are meshed;
    // the air pocket exposes the 6 inward faces of its cavity; no other
    // interior face survives culling.
    let quads = 6 * 256 + 6;
    assert_eq!(system.vertex_buffer().len(), quads * 4);
    assert_eq!(system.index_count(), quads * 6);

    // Every merged index stays inside the merged vertex buffer.
    let vertex_count = system.vertex_buffer().len() as u32;
    assert!(system.index_buffer().iter().all(|&i| i < vertex_count));
}

#[test]
fn merged_buffers_concatenate_chunks_with_rebased_indices() {
    let mut world = World::new();
    world.insert_chunk(Chunk::new(BlockPosition::new(0, 0, 0)));
    world.insert_chunk(Chunk::new(BlockPosition::new(16, 0, 0)));

    let mut system = WorldRenderSystem::new();
    system.build_chunk_meshes(&world);
    assert!(system.update_chunk_meshes());

    assert_eq!(system.cached_mesh_count(), 2);
    // Two adjacent solid chunks cull the 256 shared faces on both sides:
    // 2 * 6 * 256 - 2 * 256 quads in all.
    let quads = 2 * 6 * 256 - 2 * 256;
    assert_eq!(system.vertex_buffer().len(), quads * 4);
    assert_eq!(system.index_count(), quads * 6);
    let vertex_count = system.vertex_buffer().len() as u32;
    assert!(system.index_buffer().iter().all(|&i| i < vertex_count));
    assert_eq!(system.index_buffer().len() % 6, 0);
}

#[test]
fn generated_world_renders_end_to_end() {
    let world = generate_world(
        7,
        WorldGenerationSettings { max_width: 1, max_height: 1, max_length: 1 },
    );
    let mut system = WorldRenderSystem::new();
    system.build_chunk_meshes(&world);
    assert!(system.update_chunk_meshes());
    assert_eq!(system.cached_mesh_count(), 4);
    let vertex_count = system.vertex_buffer().len() as u32;
    assert!(system.index_buffer().iter().all(|&i| i < vertex_count));
}

#[test]
fn externally_completed_meshes_can_be_submitted() {
    let origin = BlockPosition::new(0, 0, 0);
    let chunk = Chunk::new(origin);
    let mesh = mesh_chunk(&chunk, &[]);

    let mut system = WorldRenderSystem::new();
    system.submit_chunk_mesh(origin, mesh);
    assert!(system.update_chunk_meshes());
    assert_eq!(system.cached_mesh_count(), 1);
    assert_eq!(system.index_count(), 6 * 256 * 6);
}

#[test]
fn render_error_names_the_terrain_mesh() {
    let e = WorldRenderError::CouldNotBuildTerrainMesh;
    assert!(matches!(e, WorldRenderError::CouldNotBuildTerrainMesh));
}
