//! Sections and chunks of tiles, in cubes of 32 x 32 x 32.

use vstd::prelude::*;

use crate::collections::cube_map32::CubeMap32;
use crate::tile::TileState;

verus! {

/// A 32 x 32 x 32 cube of tiles. It always has its cube, also where every tile is void.
#[derive(Debug)]
pub struct ChunkSection {
    cube: CubeMap32<TileState>,
}

impl ChunkSection {
    /// The cube of the section.
    pub closed spec fn spec_cube(&self) -> CubeMap32<TileState> {
        self.cube
    }

    /// The cube is well formed.
    pub open spec fn wf(&self) -> bool {
        self.spec_cube().wf()
    }

    /// A section filled with `tile_state`.
    #[inline]
    pub fn filled(tile_state: TileState) -> (section: ChunkSection)
        ensures
            section.wf(),
            section.spec_cube()@ == Seq::new(32768, |i: int| tile_state),
            section.spec_cube().palette_vec().palette() == seq![tile_state],
    {
        ChunkSection { cube: CubeMap32::filled(tile_state) }
    }

    /// The cube of the section.
    #[inline]
    pub fn cube(&self) -> (cube: &CubeMap32<TileState>)
        ensures
            *cube == self.spec_cube(),
    {
        &self.cube
    }
}

impl Default for ChunkSection {
    /// A section filled with the void tile.
    #[inline]
    fn default() -> (section: ChunkSection)
        ensures
            section.wf(),
            section.spec_cube()@ == Seq::new(32768, |i: int| TileState::spec_void()),
            section.spec_cube().palette_vec().palette() == seq![TileState::spec_void()],
    {
        ChunkSection::filled(TileState::void())
    }
}

/// A chunk of one section.
#[derive(Debug)]
pub struct Chunk {
    sections: [ChunkSection; 1],
}

impl Chunk {
    /// The sections of the chunk.
    pub closed spec fn spec_sections(&self) -> Seq<ChunkSection> {
        self.sections@
    }

    /// The chunk has its one section, and it is well formed.
    pub open spec fn wf(&self) -> bool {
        &&& self.spec_sections().len() == 1
        &&& self.spec_sections()[0].wf()
    }

    /// The sections of the chunk.
    #[inline]
    pub fn sections(&self) -> (sections: &[ChunkSection; 1])
        ensures
            sections@ == self.spec_sections(),
    {
        &self.sections
    }
}

impl Default for Chunk {
    /// A chunk whose section is filled with the void tile.
    #[inline]
    fn default() -> (chunk: Chunk)
        ensures
            chunk.wf(),
            chunk.spec_sections()[0].spec_cube()@ == Seq::new(
                32768,
                |i: int| TileState::spec_void(),
            ),
    {
        Chunk { sections: [ChunkSection::filled(TileState::void())] }
    }
}

} // verus!
