//! Worlds made of chunks that hold one cube of 32 x 32 x 32 tiles each.

pub mod chunk;

pub use chunk::{Chunk, ChunkSection};
