use dth::tile::{TileId, TileState};
use dth::world::{Chunk, ChunkSection};

#[test]
fn world_section_always_has_its_cube() {
    let section = ChunkSection::filled(TileState::void());
    assert_eq!(32768, section.cube().palette().len());
    assert_eq!(1, section.cube().palette().palette_len());
    assert!(section.cube().get((31, 31, 31).into()).is_void());
    let section = ChunkSection::filled(TileState::new(TileId(6)));
    assert_eq!(TileId(6), section.cube().get((0, 31, 0).into()).id());
    let section = ChunkSection::default();
    assert!(section.cube().get((0, 0, 0).into()).is_void());
}

#[test]
fn world_chunk_has_one_section() {
    let chunk = Chunk::default();
    assert_eq!(1, chunk.sections().len());
    assert!(chunk.sections()[0].cube().get((1, 2, 3).into()).is_void());
}
