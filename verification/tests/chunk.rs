use dth::collections::CubeMapIndex16;
use dth::tile::{TileId, TileState};
use dth::voxel::chunk::tile_for_draw;
use dth::voxel::{Chunk, ChunkSection};

#[test]
fn void_section_has_no_cube() {
    let section = ChunkSection::void();
    assert!(section.is_empty());
    assert!(section.cube().is_none());
    let section = ChunkSection::default();
    assert!(section.is_empty());
}

#[test]
fn filling_with_void_allocates_nothing() {
    let section = ChunkSection::filled(TileState::void());
    assert!(section.is_empty());
    assert!(section.cube().is_none());
}

#[test]
fn filling_with_a_tile_allocates_the_cube() {
    let section = ChunkSection::filled(TileState::new(TileId(4)));
    assert!(!section.is_empty());
    let cube = section.cube().unwrap();
    assert_eq!(1, cube.palette().palette_len());
    assert_eq!(TileId(4), cube.get((0, 0, 0).into()).id());
    assert_eq!(TileId(4), cube.get((15, 15, 15).into()).id());
}

#[test]
fn cube_mut_makes_a_void_section_hold_a_cube() {
    let mut section = ChunkSection::void();
    {
        let cube = section.cube_mut();
        assert_eq!(1, cube.palette().palette_len());
        assert!(cube.get((8, 8, 8).into()).is_void());
        cube.set((8, 8, 8).into(), TileState::new(TileId(2)));
    }
    assert!(!section.is_empty());
    let cube = section.cube().unwrap();
    assert_eq!(TileId(2), cube.get((8, 8, 8).into()).id());
    assert!(cube.get((8, 8, 9).into()).is_void());
    assert_eq!(2, cube.palette().palette_len());
}

#[test]
fn cube_mut_keeps_the_cube_that_is_there() {
    let mut section = ChunkSection::filled(TileState::new(TileId(4)));
    section.cube_mut().set((1, 1, 1).into(), TileState::new(TileId(5)));
    section.cube_mut().set((2, 2, 2).into(), TileState::new(TileId(6)));
    let cube = section.cube().unwrap();
    assert_eq!(TileId(5), cube.get((1, 1, 1).into()).id());
    assert_eq!(TileId(6), cube.get((2, 2, 2).into()).id());
    assert_eq!(TileId(4), cube.get((3, 3, 3).into()).id());
}

#[test]
fn a_section_that_has_a_cube_keeps_it_when_all_is_void_again() {
    let mut section = ChunkSection::void();
    section.cube_mut().set((0, 0, 0).into(), TileState::new(TileId(1)));
    section.cube_mut().set((0, 0, 0).into(), TileState::void());
    assert!(!section.is_empty());
}

#[test]
fn section_fill_with_void_gives_the_cube_up() {
    let mut section = ChunkSection::filled(TileState::new(TileId(4)));
    section.fill(TileState::void());
    assert!(section.is_empty());
    section.fill(TileState::new(TileId(9)));
    assert!(!section.is_empty());
    assert_eq!(TileId(9), section.cube().unwrap().get((5, 5, 5).into()).id());
    assert_eq!(1, section.cube().unwrap().palette().palette_len());
}

#[test]
fn draws_stand_for_four_kinds_of_tile() {
    assert_eq!(TileId(0), tile_for_draw(0));
    assert_eq!(TileId(1), tile_for_draw(1));
    assert_eq!(TileId(1), tile_for_draw(200));
    assert_eq!(TileId(1), tile_for_draw(360));
    assert_eq!(TileId(2), tile_for_draw(361));
    assert_eq!(TileId(3), tile_for_draw(362));
    let mut counts = [0usize; 4];
    for draw in 0..363 {
        counts[tile_for_draw(draw).0 as usize] += 1;
    }
    assert_eq!([1, 360, 1, 1], counts);
}

#[test]
fn section_from_draws_holds_the_tiles_drawn() {
    let draws: Vec<usize> = (0..4096usize).map(|i| (i * 31) % 363).collect();
    let section = ChunkSection::from_draws(&draws);
    let cube = section.cube().unwrap();
    for (number, draw) in draws.iter().enumerate() {
        assert_eq!(tile_for_draw(*draw), cube.get(CubeMapIndex16::from(number)).id());
    }
    assert_eq!(4, cube.palette().palette_len());
}

#[test]
fn section_from_draws_of_one_kind() {
    let draws = vec![361usize; 4096];
    let section = ChunkSection::from_draws(&draws);
    assert!(!section.is_empty());
    assert_eq!(1, section.cube().unwrap().palette().palette_len());
    let draws = vec![0usize; 4096];
    let section = ChunkSection::from_draws(&draws);
    assert!(!section.is_empty());
    assert!(section.cube().unwrap().get((0, 0, 0).into()).is_void());
}

#[test]
fn set_draws_overwrites_every_tile() {
    let draws: Vec<usize> = (0..4096usize).map(|i| 362 - (i % 363)).collect();
    let mut section = ChunkSection::void();
    section.set_draws(&draws);
    let cube = section.cube().unwrap();
    for (number, draw) in draws.iter().enumerate() {
        assert_eq!(tile_for_draw(*draw), cube.get(CubeMapIndex16::from(number)).id());
    }
    // The cube started as void tiles, so the void tile is the first palette entry.
    assert_eq!(4, cube.palette().palette_len());

    let mut section = ChunkSection::filled(TileState::new(TileId(9)));
    section.set_draws(&vec![5usize; 4096]);
    let cube = section.cube().unwrap();
    assert_eq!(TileId(1), cube.get((4, 4, 4).into()).id());
    assert_eq!(2, cube.palette().palette_len());
}

fn count_tiles(section: &ChunkSection) -> [usize; 4] {
    let mut counts = [0usize; 4];
    let cube = section.cube().unwrap();
    let mut iter = cube.iter();
    while let Some(tile) = iter.next() {
        assert!(tile.id().0 < 4);
        counts[tile.id().0 as usize] += 1;
    }
    counts
}

#[test]
fn randomized_section_draws_every_tile() {
    let section = ChunkSection::randomized();
    assert!(!section.is_empty());
    let counts = count_tiles(&section);
    assert_eq!(4096, counts.iter().sum::<usize>());
    // Tile 1 has 360 of the 363 draws: a section without it, or of nothing else, does not
    // come out of 4096 draws.
    assert!(counts[1] > 3000);
    assert!(counts[1] < 4096);
}

#[test]
fn randomize_overwrites_a_section() {
    let mut section = ChunkSection::filled(TileState::new(TileId(9)));
    section.randomize();
    let counts = count_tiles(&section);
    assert!(counts[1] > 3000);
    let mut section = ChunkSection::void();
    section.randomize();
    assert!(!section.is_empty());
    assert!(count_tiles(&section)[1] > 3000);
}

#[test]
fn chunk_filled_with_void_allocates_nothing() {
    let chunk = Chunk::filled(TileState::void());
    assert_eq!(16, chunk.sections().len());
    for section in chunk.sections().iter() {
        assert!(section.is_empty());
    }
    let chunk = Chunk::default();
    for section in chunk.sections().iter() {
        assert!(section.is_empty());
    }
}

#[test]
fn chunk_filled_with_a_tile() {
    let chunk = Chunk::filled(TileState::new(TileId(3)));
    for section in chunk.sections().iter() {
        assert_eq!(TileId(3), section.cube().unwrap().get((0, 15, 0).into()).id());
    }
}

#[test]
fn chunk_fill_and_sections_mut() {
    let mut chunk = Chunk::default();
    chunk.fill(TileState::new(TileId(2)));
    for section in chunk.sections().iter() {
        assert!(!section.is_empty());
    }
    chunk.sections_mut()[5].fill(TileState::void());
    chunk.sections_mut()[6].cube_mut().set((1, 2, 3).into(), TileState::new(TileId(8)));
    for (number, section) in chunk.sections().iter().enumerate() {
        assert_eq!(number == 5, section.is_empty());
    }
    assert_eq!(TileId(8), chunk.sections()[6].cube().unwrap().get((1, 2, 3).into()).id());
    chunk.fill(TileState::void());
    for section in chunk.sections().iter() {
        assert!(section.is_empty());
    }
}

#[test]
fn chunk_randomized_fills_the_two_lowest_sections() {
    let chunk = Chunk::randomized();
    for (number, section) in chunk.sections().iter().enumerate() {
        assert_eq!(number >= 2, section.is_empty());
    }
    assert!(count_tiles(&chunk.sections()[0])[1] > 3000);
    assert!(count_tiles(&chunk.sections()[1])[1] > 3000);
}

#[test]
fn chunk_randomize_fills_the_eight_lowest_sections() {
    let mut chunk = Chunk::default();
    chunk.sections_mut()[12].fill(TileState::new(TileId(7)));
    chunk.randomize();
    for (number, section) in chunk.sections().iter().enumerate() {
        assert_eq!(number >= 8 && number != 12, section.is_empty());
    }
    for number in 0..8 {
        assert!(count_tiles(&chunk.sections()[number])[1] > 3000);
    }
    assert_eq!(TileId(7), chunk.sections()[12].cube().unwrap().get((0, 0, 0).into()).id());
}
