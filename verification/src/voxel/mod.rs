//! Chunks of voxels: sixteen sections of 16 x 16 x 16 tiles, stacked along the y axis.

pub mod chunk;
pub mod random;

pub use chunk::{Chunk, ChunkSection};
