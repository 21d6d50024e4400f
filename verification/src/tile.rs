//! Tile identifiers and per-voxel tile state.

use vstd::prelude::*;
use vstd::laws_eq::obeys_concrete_eq;
use vstd::std_specs::cmp::PartialEqSpecImpl;

verus! {

/// Identifies a kind of tile. Identifier zero is the void tile: nothing is there.
#[derive(Copy, Clone, Debug, PartialEq, Eq, Structural, Hash)]
pub struct TileId(pub u64);

impl TileId {
    /// The identifier of the void tile.
    #[inline]
    pub fn void() -> (id: TileId)
        ensures
            id == TileId(0),
    {
        TileId(0)
    }
}

impl Default for TileId {
    /// The identifier of the void tile.
    #[inline]
    fn default() -> (id: TileId)
        ensures
            id == TileId(0),
    {
        TileId(0)
    }
}

/// How the state bits of a tile are laid out.
#[derive(Copy, Clone, Debug, PartialEq, Eq, Structural, Hash)]
pub enum TileStateFormat {
    /// The tile has no state beyond its kind.
    NoFormat,
}

impl Default for TileStateFormat {
    #[inline]
    fn default() -> (format: TileStateFormat)
        ensures
            format == TileStateFormat::NoFormat,
    {
        TileStateFormat::NoFormat
    }
}

/// The six faces of a tile.
#[derive(Copy, Clone, Debug)]
pub enum TileFace {
    Front,
    Back,
    Right,
    Left,
    Top,
    Bottom,
}

/// What one voxel holds: the kind of tile and the format of its state.
#[derive(Copy, Clone, Debug, Hash)]
pub struct TileState {
    id: TileId,
    format: TileStateFormat,
}

impl PartialEqSpecImpl for TileState {
    open spec fn obeys_eq_spec() -> bool {
        true
    }

    open spec fn eq_spec(&self, other: &TileState) -> bool {
        *self == *other
    }
}

impl PartialEq for TileState {
    #[inline]
    fn eq(&self, other: &TileState) -> (equal: bool) {
        self.id == other.id && self.format == other.format
    }
}

impl Eq for TileState {

}

impl Default for TileState {
    /// The void tile.
    #[inline]
    fn default() -> (state: TileState)
        ensures
            state == TileState::spec_void(),
    {
        TileState { id: TileId(0), format: TileStateFormat::NoFormat }
    }
}

impl TileState {
    /// The kind of tile.
    pub closed spec fn spec_id(&self) -> TileId {
        self.id
    }

    /// The format of the tile's state.
    pub closed spec fn spec_format(&self) -> TileStateFormat {
        self.format
    }

    /// The void tile: identifier zero, no state.
    pub closed spec fn spec_void() -> TileState {
        TileState { id: TileId(0), format: TileStateFormat::NoFormat }
    }

    /// The tile of kind `id` with the default format.
    pub closed spec fn spec_new(id: TileId) -> TileState {
        TileState { id, format: TileStateFormat::NoFormat }
    }

    /// A tile state is its identifier and its format, and nothing more.
    pub proof fn lemma_fields(a: TileState, b: TileState)
        ensures
            (a.spec_id() == b.spec_id() && a.spec_format() == b.spec_format()) <==> a == b,
            TileState::spec_void().spec_id() == TileId(0),
            TileState::spec_void().spec_format() == TileStateFormat::NoFormat,
            TileState::spec_void() == TileState::spec_new(TileId(0)),
            forall|id: TileId| #[trigger] TileState::spec_new(id).spec_id() == id,
            forall|id: TileId|
                #[trigger] TileState::spec_new(id).spec_format() == TileStateFormat::NoFormat,
    {
    }

    /// `==` on tile states is equality of the values.
    pub proof fn lemma_obeys_concrete_eq()
        ensures
            obeys_concrete_eq::<TileState>(),
    {
        reveal(obeys_concrete_eq);
    }

    /// The void tile.
    #[inline]
    pub fn void() -> (state: TileState)
        ensures
            state == TileState::spec_void(),
    {
        TileState { id: TileId::void(), format: TileStateFormat::NoFormat }
    }

    /// A tile of kind `id` with the default format.
    #[inline]
    pub fn new(id: TileId) -> (state: TileState)
        ensures
            state == TileState::spec_new(id),
            state.spec_id() == id,
            state.spec_format() == TileStateFormat::NoFormat,
    {
        TileState { id, format: TileStateFormat::NoFormat }
    }

    /// A tile of kind `id` with state in `format`.
    #[inline]
    pub fn with_format(id: TileId, format: TileStateFormat) -> (state: TileState)
        ensures
            state.spec_id() == id,
            state.spec_format() == format,
    {
        TileState { id, format }
    }

    /// The kind of tile.
    #[inline]
    pub fn id(&self) -> (id: TileId)
        ensures
            id == self.spec_id(),
    {
        self.id
    }

    /// Whether this is a void tile: one whose identifier is zero.
    #[inline]
    pub fn is_void(&self) -> (void: bool)
        ensures
            void == (self.spec_id() == TileId(0)),
    {
        self.id == TileId::void()
    }
}

} // verus!
