//! Sections and chunks of tiles.

use vstd::prelude::*;
use vstd::arithmetic::power2::{lemma2_to64, pow2};
use vstd::laws_eq::obeys_concrete_eq;

use crate::collections::cube_map::{lemma_index16_from, CubeMap16, CubeMapIndex16};
use crate::collections::palette_vec::{
    index_width_for, lemma_index_width_for, lemma_index_width_steps, lemma_palette_with,
    palette_after, palette_of,
};
use crate::tile::{TileId, TileState};
use crate::voxel::random::{draw_many, thread_rng};

verus! {

/// The number of tiles in a section.
pub const SECTION_LEN: usize = 4096;

/// The number of outcomes of one draw of a random tile.
pub const TILE_DRAWS: usize = 363;

/// The kind of tile that a draw stands for. Of the 363 draws one gives the void tile, 360
/// give tile 1, one gives tile 2 and one gives tile 3.
pub open spec fn spec_tile_for_draw(draw: usize) -> TileId {
    if draw == 0 {
        TileId(0)
    } else if draw <= 360 {
        TileId(1)
    } else if draw == 361 {
        TileId(2)
    } else {
        TileId(3)
    }
}

/// The kind of tile that a draw stands for.
pub fn tile_for_draw(draw: usize) -> (id: TileId)
    requires
        draw < TILE_DRAWS,
    ensures
        id == spec_tile_for_draw(draw),
{
    if draw == 0 {
        TileId(0)
    } else if draw <= 360 {
        TileId(1)
    } else if draw == 361 {
        TileId(2)
    } else {
        TileId(3)
    }
}

/// The tiles that a sequence of draws stands for, in order.
pub open spec fn tiles_for_draws(draws: Seq<usize>) -> Seq<TileState> {
    Seq::new(
        draws.len(),
        |i: int| TileState::spec_new(spec_tile_for_draw(draws[i])),
    )
}

/// A 16 x 16 x 16 slab of tiles. A section that holds nothing but void tiles can do without
/// a cube: it is then empty.
#[derive(Debug)]
pub struct ChunkSection {
    cube: Option<CubeMap16<TileState>>,
}

impl ChunkSection {
    /// The cube of the section, if it has one.
    pub closed spec fn spec_cube(&self) -> Option<CubeMap16<TileState>> {
        self.cube
    }

    /// The cube, if there is one, is well formed.
    pub open spec fn wf(&self) -> bool {
        self.spec_cube() matches Some(cube) ==> cube.wf()
    }

    /// The palette of the cube; where there is no cube, the palette that the cube starts
    /// with when it is made: the void tile alone.
    pub open spec fn palette(&self) -> Seq<TileState> {
        match self.spec_cube() {
            Some(cube) => cube.palette_vec().palette(),
            None => seq![TileState::spec_void()],
        }
    }

    /// The index width of the cube; where there is no cube, the four bits that the cube
    /// starts with when it is made.
    pub open spec fn index_width(&self) -> nat {
        match self.spec_cube() {
            Some(cube) => cube.palette_vec().index_width(),
            None => 4,
        }
    }

    /// The 4096 tiles of the section, by cube index: void tiles where there is no cube.
    pub open spec fn tiles(&self) -> Seq<TileState> {
        match self.spec_cube() {
            Some(cube) => cube@,
            None => Seq::new(4096, |i: int| TileState::spec_void()),
        }
    }

    /// The empty section: all void, without a cube.
    #[inline]
    pub fn void() -> (section: ChunkSection)
        ensures
            section.spec_cube() is None,
    {
        ChunkSection { cube: None }
    }

    /// A section filled with `tile_state`. Filling with a void tile allocates no cube.
    #[inline]
    pub fn filled(tile_state: TileState) -> (section: ChunkSection)
        ensures
            section.wf(),
            section.spec_cube() is None <==> tile_state.spec_id() == TileId(0),
            section.tiles() == Seq::new(4096, |i: int| tile_state),
            section.palette() == seq![tile_state],
            section.index_width() == 4,
    {
        proof {
            TileState::lemma_fields(tile_state, TileState::spec_void());
        }
        if tile_state.is_void() {
            let section = ChunkSection::void();
            section
        } else {
            ChunkSection { cube: Some(CubeMap16::filled(tile_state)) }
        }
    }

    /// The section whose tiles are the ones that `draws` stand for, in cube index order.
    pub fn from_draws(draws: &Vec<usize>) -> (section: ChunkSection)
        requires
            draws@.len() == 4096,
            forall|i: int| 0 <= i < 4096 ==> draws@[i] < TILE_DRAWS,
        ensures
            section.wf(),
            section.spec_cube() is Some,
            section.tiles() == tiles_for_draws(draws@),
            section.palette() == palette_of(tiles_for_draws(draws@)),
            section.index_width() == index_width_for(4, section.palette().len()),
    {
        let mut tiles: Vec<TileState> = Vec::with_capacity(SECTION_LEN);
        let mut index: usize = 0;
        while index < SECTION_LEN
            invariant
                index <= SECTION_LEN,
                draws@.len() == 4096,
                forall|i: int| 0 <= i < 4096 ==> draws@[i] < TILE_DRAWS,
                tiles@.len() == index,
                forall|i: int|
                    0 <= i < index ==> tiles@[i] == TileState::spec_new(
                        spec_tile_for_draw(draws@[i]),
                    ),
            decreases SECTION_LEN - index,
        {
            tiles.push(TileState::new(tile_for_draw(draws[index])));
            index += 1;
        }
        proof {
            TileState::lemma_obeys_concrete_eq();
        }
        ChunkSection { cube: Some(CubeMap16::from_iter(tiles.into_iter())) }
    }

    /// A section of random tiles, each drawn as [`spec_tile_for_draw`] says.
    #[inline]
    pub fn randomized() -> (section: ChunkSection)
        ensures
            section.wf(),
            section.spec_cube() is Some,
            forall|i: int|
                0 <= i < 4096 ==> is_drawn_tile(#[trigger] section.tiles()[i]),
    {
        let mut rng = thread_rng();
        let draws = draw_many(&mut rng, SECTION_LEN, TILE_DRAWS);
        ChunkSection::from_draws(&draws)
    }

    /// Sets every tile to the one that its draw stands for. An empty section gets its cube
    /// first, whatever is drawn.
    pub fn set_draws(&mut self, draws: &Vec<usize>)
        requires
            old(self).wf(),
            draws@.len() == 4096,
            forall|i: int| 0 <= i < 4096 ==> draws@[i] < TILE_DRAWS,
        ensures
            final(self).wf(),
            final(self).spec_cube() is Some,
            final(self).tiles() == tiles_for_draws(draws@),
            final(self).palette() == palette_after(old(self).palette(), tiles_for_draws(draws@)),
            final(self).index_width() == index_width_for(
                old(self).index_width(),
                final(self).palette().len(),
            ),
    {
        proof {
            TileState::lemma_obeys_concrete_eq();
            old(self).lemma_index_width();
        }
        let ghost tiles = tiles_for_draws(draws@);
        let mut index: usize = 0;
        while index < SECTION_LEN
            invariant
                index <= SECTION_LEN,
                draws@.len() == 4096,
                forall|i: int| 0 <= i < 4096 ==> draws@[i] < TILE_DRAWS,
                tiles == tiles_for_draws(draws@),
                obeys_concrete_eq::<TileState>(),
                old(self).wf(),
                1 <= old(self).index_width() <= 64,
                old(self).palette().len() <= pow2(old(self).index_width()),
                self.wf(),
                index > 0 ==> self.spec_cube() is Some,
                self.tiles().len() == 4096,
                forall|i: int|
                    0 <= i < index ==> self.tiles()[i] == TileState::spec_new(
                        spec_tile_for_draw(draws@[i]),
                    ),
                self.palette() == palette_after(
                    old(self).palette(),
                    tiles.subrange(0, index as int),
                ),
                old(self).palette().len() <= self.palette().len(),
                self.index_width() == index_width_for(
                    old(self).index_width(),
                    self.palette().len(),
                ),
            decreases SECTION_LEN - index,
        {
            let tile = TileState::new(tile_for_draw(draws[index]));
            let ghost palette_before = self.palette();
            proof {
                lemma_index16_from(index, 0, 0, 0);
                lemma_palette_with(palette_before, tile);
                assert(tiles.subrange(0, index + 1).drop_last() =~= tiles.subrange(
                    0,
                    index as int,
                ));
            }
            let cube = self.cube_mut();
            cube.set(CubeMapIndex16::from(index), tile);
            proof {
                self.lemma_index_width();
                lemma_index_width_steps(
                    old(self).index_width(),
                    palette_before.len(),
                    self.palette().len(),
                );
            }
            index += 1;
        }
        assert(tiles.subrange(0, 4096) =~= tiles);
    }

    /// The index width of a well-formed section is between 1 and 64 bits and addresses its
    /// palette, which has far fewer entries than a `usize` can count.
    pub proof fn lemma_index_width(&self)
        requires
            self.wf(),
        ensures
            1 <= self.index_width() <= 64,
            1 <= self.palette().len() <= pow2(self.index_width()),
            self.palette().len() <= usize::MAX,
            index_width_for(self.index_width(), self.palette().len()) == self.index_width(),
    {
        lemma2_to64();
        match self.spec_cube() {
            Some(cube) => {
                cube.palette_vec().lemma_wf();
                assert(cube.palette_vec().indices()[0] < cube.palette_vec().palette().len());
            },
            None => {},
        }
        lemma_index_width_for(self.index_width(), self.palette().len());
    }

    /// Sets every tile to a random one, each drawn as [`spec_tile_for_draw`] says.
    #[inline]
    pub fn randomize(&mut self)
        requires
            old(self).wf(),
        ensures
            final(self).wf(),
            final(self).spec_cube() is Some,
            forall|i: int|
                0 <= i < 4096 ==> is_drawn_tile(#[trigger] final(self).tiles()[i]),
    {
        let mut rng = thread_rng();
        let draws = draw_many(&mut rng, SECTION_LEN, TILE_DRAWS);
        self.set_draws(&draws);
    }

    /// Sets every tile to `tile_state`. Filling with a void tile gives the cube up.
    #[inline]
    pub fn fill(&mut self, tile_state: TileState)
        requires
            old(self).wf(),
        ensures
            final(self).wf(),
            final(self).spec_cube() is None <==> tile_state.spec_id() == TileId(0),
            final(self).tiles() == Seq::new(4096, |i: int| tile_state),
            final(self).palette() == seq![tile_state],
            final(self).index_width() == if tile_state.spec_id() == TileId(0) {
                4
            } else {
                old(self).index_width()
            },
    {
        proof {
            TileState::lemma_fields(tile_state, TileState::spec_void());
        }
        if tile_state.is_void() {
            self.cube = None;
        } else {
            self.cube_mut().fill(tile_state);
        }
    }

    /// The cube of the section, if it has one.
    #[inline]
    pub fn cube(&self) -> (cube: Option<&CubeMap16<TileState>>)
        ensures
            cube == match self.spec_cube() {
                Some(held) => Some(&held),
                None => None,
            },
    {
        self.cube.as_ref()
    }

    /// The cube of the section, for writing. An empty section gets a cube of void tiles
    /// first: from here on it is no longer empty.
    #[inline]
    pub fn cube_mut(&mut self) -> (cube: &mut CubeMap16<TileState>)
        requires
            old(self).wf(),
        ensures
            cube.wf(),
            cube@ == old(self).tiles(),
            old(self).spec_cube() matches Some(held) ==> *cube == held,
            cube.palette_vec().palette() == old(self).palette(),
            cube.palette_vec().index_width() == old(self).index_width(),
            final(self).spec_cube() == Some(*final(cube)),
    {
        if self.cube.is_none() {
            self.cube = Some(CubeMap16::default())
        }
        self.cube.as_mut().unwrap()
    }

    /// Whether the section has no cube.
    #[inline]
    pub fn is_empty(&self) -> (empty: bool)
        ensures
            empty == (self.spec_cube() is None),
    {
        self.cube.is_none()
    }
}

impl Default for ChunkSection {
    /// The empty section.
    #[inline]
    fn default() -> (section: ChunkSection)
        ensures
            section.spec_cube() is None,
    {
        ChunkSection { cube: None }
    }
}

/// A column of sixteen sections, stacked along the y axis: 16 x 256 x 16 tiles.
#[derive(Debug)]
pub struct Chunk {
    sections: [ChunkSection; 16],
}

impl Chunk {
    /// The sixteen sections, from the lowest up.
    pub closed spec fn spec_sections(&self) -> Seq<ChunkSection> {
        self.sections@
    }

    /// Every section is well formed.
    pub open spec fn wf(&self) -> bool {
        &&& self.spec_sections().len() == 16
        &&& forall|i: int| 0 <= i < 16 ==> (#[trigger] self.spec_sections()[i]).wf()
    }

    /// A chunk whose two lowest sections hold random tiles, under fourteen empty sections.
    #[inline]
    pub fn randomized() -> (chunk: Chunk)
        ensures
            chunk.wf(),
            forall|i: int| 0 <= i < 2 ==> (#[trigger] chunk.spec_sections()[i]).spec_cube() is Some,
            forall|i: int, j: int|
                0 <= i < 2 && 0 <= j < 4096 ==> is_drawn_tile(
                    #[trigger] chunk.spec_sections()[i].tiles()[j],
                ),
            forall|i: int|
                2 <= i < 16 ==> (#[trigger] chunk.spec_sections()[i]).spec_cube() is None,
    {
        Chunk {
            sections: [
                ChunkSection::randomized(),
                ChunkSection::randomized(),
                ChunkSection::void(),
                ChunkSection::void(),
                ChunkSection::void(),
                ChunkSection::void(),
                ChunkSection::void(),
                ChunkSection::void(),
                ChunkSection::void(),
                ChunkSection::void(),
                ChunkSection::void(),
                ChunkSection::void(),
                ChunkSection::void(),
                ChunkSection::void(),
                ChunkSection::void(),
                ChunkSection::void(),
            ],
        }
    }

    /// A chunk whose every tile is `tile_state`. Filling with a void tile allocates no cube.
    #[inline]
    pub fn filled(tile_state: TileState) -> (chunk: Chunk)
        ensures
            chunk.wf(),
            forall|i: int|
                0 <= i < 16 ==> (#[trigger] chunk.spec_sections()[i]).tiles() == Seq::new(
                    4096,
                    |j: int| tile_state,
                ),
            forall|i: int|
                0 <= i < 16 ==> ((#[trigger] chunk.spec_sections()[i]).spec_cube() is None
                    <==> tile_state.spec_id() == TileId(0)),
    {
        Chunk {
            sections: [
                ChunkSection::filled(tile_state),
                ChunkSection::filled(tile_state),
                ChunkSection::filled(tile_state),
                ChunkSection::filled(tile_state),
                ChunkSection::filled(tile_state),
                ChunkSection::filled(tile_state),
                ChunkSection::filled(tile_state),
                ChunkSection::filled(tile_state),
                ChunkSection::filled(tile_state),
                ChunkSection::filled(tile_state),
                ChunkSection::filled(tile_state),
                ChunkSection::filled(tile_state),
                ChunkSection::filled(tile_state),
                ChunkSection::filled(tile_state),
                ChunkSection::filled(tile_state),
                ChunkSection::filled(tile_state),
            ],
        }
    }

    /// Sets every tile of every section to `tile_state`. Filling with a void tile gives
    /// every cube up.
    #[inline]
    pub fn fill(&mut self, tile_state: TileState)
        requires
            old(self).wf(),
        ensures
            final(self).wf(),
            forall|i: int|
                0 <= i < 16 ==> (#[trigger] final(self).spec_sections()[i]).tiles() == Seq::new(
                    4096,
                    |j: int| tile_state,
                ),
            forall|i: int|
                0 <= i < 16 ==> ((#[trigger] final(self).spec_sections()[i]).spec_cube() is None
                    <==> tile_state.spec_id() == TileId(0)),
    {
        let mut index: usize = 0;
        while index < 16
            invariant
                index <= 16,
                self.wf(),
                forall|i: int|
                    0 <= i < index ==> (#[trigger] self.spec_sections()[i]).tiles() == Seq::new(
                        4096,
                        |j: int| tile_state,
                    ),
                forall|i: int|
                    0 <= i < index ==> ((#[trigger] self.spec_sections()[i]).spec_cube() is None
                        <==> tile_state.spec_id() == TileId(0)),
            decreases 16 - index,
        {
            self.sections[index].fill(tile_state);
            index += 1;
        }
    }

    /// Sets every tile of the eight lowest sections to a random one. The eight sections
    /// above them stay as they are.
    #[inline]
    pub fn randomize(&mut self)
        requires
            old(self).wf(),
        ensures
            final(self).wf(),
            forall|i: int|
                0 <= i < 8 ==> (#[trigger] final(self).spec_sections()[i]).spec_cube() is Some,
            forall|i: int, j: int|
                0 <= i < 8 && 0 <= j < 4096 ==> is_drawn_tile(
                    #[trigger] final(self).spec_sections()[i].tiles()[j],
                ),
            forall|i: int|
                8 <= i < 16 ==> #[trigger] final(self).spec_sections()[i] == old(
                    self,
                ).spec_sections()[i],
    {
        let mut index: usize = 0;
        while index < 8
            invariant
                index <= 8,
                self.wf(),
                forall|i: int|
                    0 <= i < index ==> (#[trigger] self.spec_sections()[i]).spec_cube() is Some,
                forall|i: int, j: int|
                    0 <= i < index && 0 <= j < 4096 ==> is_drawn_tile(
                        #[trigger] self.spec_sections()[i].tiles()[j],
                    ),
                forall|i: int|
                    8 <= i < 16 ==> #[trigger] self.spec_sections()[i] == old(
                        self,
                    ).spec_sections()[i],
            decreases 8 - index,
        {
            self.sections[index].randomize();
            index += 1;
        }
    }

    /// The sixteen sections, from the lowest up.
    #[inline]
    pub fn sections(&self) -> (sections: &[ChunkSection; 16])
        ensures
            sections@ == self.spec_sections(),
    {
        &self.sections
    }

    /// The sixteen sections, for writing.
    #[inline]
    pub fn sections_mut(&mut self) -> (sections: &mut [ChunkSection; 16])
        ensures
            sections@ == old(self).spec_sections(),
            final(self).spec_sections() == final(sections)@,
    {
        &mut self.sections
    }
}

impl Default for Chunk {
    /// A chunk of sixteen empty sections.
    #[inline]
    fn default() -> (chunk: Chunk)
        ensures
            chunk.wf(),
            forall|i: int|
                0 <= i < 16 ==> (#[trigger] chunk.spec_sections()[i]).spec_cube() is None,
    {
        proof {
            TileState::lemma_fields(TileState::spec_void(), TileState::spec_void());
        }
        Chunk::filled(TileState::void())
    }
}

/// Whether a draw can give `tile`: it is tile 0, 1, 2 or 3 in the default format.
pub open spec fn is_drawn_tile(tile: TileState) -> bool {
    exists|draw: usize|
        draw < TILE_DRAWS && tile == TileState::spec_new(#[trigger] spec_tile_for_draw(draw))
}

} // verus!
