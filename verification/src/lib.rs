//! Verified core of a foliage painting tool: density grids split into
//! chunks, per-layer density maps, brush edits and the integer side of
//! foliage placement. Rendering, assets and the ECS wiring live outside.

pub mod dimensions;
pub mod foliage_density;
pub mod foliage_types;
pub mod edit;
pub mod foliage_layer;
pub mod foliage_chunk;
pub mod foliage_chunk_layer;
pub mod foliage_scene;
