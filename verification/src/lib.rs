//! Chunk-based voxel storage with face culling and greedy mesh generation.
//!
//! The crate models a voxel world as fixed-size cubic chunks. Each chunk
//! stores a sparse map from local positions to block types, may be linked to
//! the six chunks around it, and can be turned into a renderable mesh: the
//! mesher culls faces hidden by opaque neighbors (consulting neighbor chunks
//! across the boundary), optionally merges coplanar same-type faces into
//! larger quads, and projects block textures into atlas pixel rectangles.

pub mod asset_manager;
pub mod block;
pub mod dir;
pub mod filesystem;
pub mod hash;
pub mod log;
pub mod places;
pub mod random;
pub mod chunk;
pub mod chunk_manager;
pub mod greedy;
pub mod mdi_from;
pub mod mesher;
pub mod voxel;
pub mod world;
