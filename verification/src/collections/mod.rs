//! Compact containers: packed integers, palettes and cube maps.

pub mod bitmap;
pub mod cube_map;
pub mod cube_map32;
pub mod hash_pool;
pub mod log2;
pub mod packed_int_vec;
pub mod packing;
pub mod palette_vec;
pub mod pool;
pub mod xorhash;

pub use bitmap::{BitMask2, BitMask2Iterator, BitVec, BitVecIterator};
pub use cube_map::{CubeMap16, CubeMap16IndexIterator, CubeMap16Iterator, CubeMapIndex16};
pub use hash_pool::{HashPool, PoolId, PoolObject};
pub use cube_map32::{CubeMap32, CubeMap32IndexIterator, CubeMap32Iterator, CubeMapIndex32};
pub use packed_int_vec::{PackedIntVec, PackedIntVecIterator};
pub use palette_vec::{PaletteVec, PaletteVecIterator};
pub use pool::Pool;
pub use xorhash::{XorHashMap, XorHashSet, XorHasher};
