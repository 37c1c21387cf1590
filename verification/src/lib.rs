//! A voxel world core: blocks grouped into fixed-size chunks, a sparse world
//! of chunks, face-culling chunk meshing, and the bookkeeping that merges
//! per-chunk meshes into one flat vertex/index buffer pair for drawing.

pub mod block;
pub mod block_position;
pub mod block_position_range;
pub mod chunk;
pub mod direction;
pub mod mesh;
pub mod mesher;
pub mod render;
pub mod world;
pub mod worldgen;

pub use block::Block;
pub use block::StateFlags;
pub use block_position::BlockPosition;
