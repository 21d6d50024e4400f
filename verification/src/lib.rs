//! Palette-compressed, bit-packed storage for the tiles of a voxel world.
//!
//! The storage has three layers:
//!
//! * [`collections::PackedIntVec`] packs unsigned integers of a fixed width of 1 to 64 bits
//!   into 64-bit cells. [`collections::packing`] holds the layout of the cells and its
//!   theory.
//! * [`collections::PaletteVec`] keeps every distinct value once, in a palette, and stores
//!   for each slot the packed index of its value. The indices widen when the palette
//!   outgrows them.
//! * [`collections::CubeMap16`] and [`collections::CubeMap32`] address the slots of a palette
//!   vector by a position `(x, y, z)` in a cube.
//!
//! On top of them, [`voxel`] and [`world`] build sections and chunks of [`tile::TileState`].
//! [`collections::BitVec`], [`collections::BitMask2`] and [`collections::Pool`] are further
//! containers.
//!
//! Every container has a view (`@`) that says what it holds, and a predicate `wf` that its
//! constructors establish and its methods keep. The contracts are stated over the views.

pub mod collections;
pub mod math;
pub mod tile;
pub mod voxel;
pub mod world;
