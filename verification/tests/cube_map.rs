use dth::collections::{CubeMap16, CubeMap32, CubeMapIndex16, CubeMapIndex32};
use dth::tile::{TileId, TileState};

#[test]
fn index16_round_trip() {
    for x in 0..16usize {
        for y in 0..16usize {
            for z in 0..16usize {
                let index = CubeMapIndex16::from((x, y, z));
                assert_eq!(x, index.x());
                assert_eq!(y, index.y());
                assert_eq!(z, index.z());
                let position: (usize, usize, usize) = index.into();
                assert_eq!((x, y, z), position);
                assert_eq!(CubeMapIndex16::from((y << 8) | (z << 4) | x), index);
            }
        }
    }
}

#[test]
fn index16_bit_layout() {
    let index = CubeMapIndex16::from((5usize, 3usize, 9usize));
    assert_eq!(CubeMapIndex16::from(0x395usize), index);
    let index = CubeMapIndex16::from(0xABCusize);
    assert_eq!(0xC, index.x());
    assert_eq!(0xA, index.y());
    assert_eq!(0xB, index.z());
    assert_eq!(CubeMapIndex16::from(0usize), CubeMapIndex16::default());
}

#[test]
fn index16_from_number_round_trip() {
    for number in 0..4096usize {
        let index = CubeMapIndex16::from(number);
        assert_eq!(CubeMapIndex16::from((index.x(), index.y(), index.z())), index);
    }
}

#[test]
fn index32_round_trip() {
    for x in 0..32usize {
        for y in 0..32usize {
            for z in 0..32usize {
                let index = CubeMapIndex32::from((x, y, z));
                assert_eq!(x, index.x());
                assert_eq!(y, index.y());
                assert_eq!(z, index.z());
                let position: (usize, usize, usize) = index.into();
                assert_eq!((x, y, z), position);
                assert_eq!(CubeMapIndex32::from((y << 10) | (z << 5) | x), index);
            }
        }
    }
}

#[test]
fn index32_bit_layout() {
    let index = CubeMapIndex32::from((5usize, 3usize, 9usize));
    assert_eq!(CubeMapIndex32::from((3usize << 10) | (9 << 5) | 5), index);
    assert_eq!(CubeMapIndex32::from(3365usize), index);
}

#[test]
fn write_one_tile_into_a_void_cube() {
    let mut cube = CubeMap16::filled(TileState::void());
    cube.set((5, 3, 9).into(), TileState::new(TileId(7)));
    assert_eq!(TileId(7), cube.get((5, 3, 9).into()).id());
    assert_eq!(TileState::void(), *cube.get((0, 0, 0).into()));
    assert_eq!(2, cube.palette().palette_len());
}

#[test]
fn filled_cube16_is_cheap() {
    let cube = CubeMap16::filled(3u8);
    assert_eq!(4096, cube.palette().len());
    assert_eq!(1, cube.palette().palette_len());
    assert_eq!(15, cube.palette().max_index());
    assert_eq!(3, *cube.get(CubeMapIndex16::from(4095usize)));
}

#[test]
fn default_cube16_holds_the_default_value() {
    let cube: CubeMap16<u32> = CubeMap16::default();
    assert_eq!(0, *cube.get((15, 15, 15).into()));
    assert_eq!(1, cube.palette().palette_len());
}

#[test]
fn cube16_set_changes_one_position() {
    let mut cube = CubeMap16::filled(0u16);
    cube.set((1, 2, 3).into(), 123);
    for x in 0..16usize {
        for y in 0..16usize {
            for z in 0..16usize {
                let expected = if (x, y, z) == (1, 2, 3) { 123 } else { 0 };
                assert_eq!(expected, *cube.get((x, y, z).into()));
            }
        }
    }
}

#[test]
fn cube16_replace_identical_changes_every_equal_slot() {
    let mut cube = CubeMap16::filled(1u8);
    cube.set((0, 0, 0).into(), 2);
    cube.set((15, 15, 15).into(), 2);
    cube.replace_identical((0, 0, 0).into(), 9);
    assert_eq!(9, *cube.get((0, 0, 0).into()));
    assert_eq!(9, *cube.get((15, 15, 15).into()));
    assert_eq!(1, *cube.get((1, 0, 0).into()));
    *cube.get_identical_mut((1, 0, 0).into()) = 4;
    assert_eq!(4, *cube.get((7, 7, 7).into()));
    assert_eq!(9, *cube.get((0, 0, 0).into()));
    assert_eq!(2, cube.palette().palette_len());
}

#[test]
fn cube16_fill_resets() {
    let mut cube = CubeMap16::filled(1u8);
    cube.set((3, 3, 3).into(), 2);
    cube.fill(5);
    assert_eq!(1, cube.palette().palette_len());
    assert_eq!(5, *cube.get((3, 3, 3).into()));
    assert_eq!(4096, cube.palette().len());
}

#[test]
fn cube16_iter_runs_in_index_order() {
    let mut cube = CubeMap16::filled(0usize);
    cube.set(CubeMapIndex16::from(1usize), 1);
    cube.set(CubeMapIndex16::from(4095usize), 4095);
    let mut iter = cube.iter();
    let mut count = 0usize;
    while let Some(value) = iter.next() {
        let expected = match count {
            1 => 1,
            4095 => 4095,
            _ => 0,
        };
        assert_eq!(expected, *value);
        count += 1;
    }
    assert_eq!(4096, count);
}

#[test]
fn cube16_iter_indexed_runs_x_then_z_then_y() {
    let mut cube = CubeMap16::filled(0usize);
    for number in 0..4096usize {
        cube.set(CubeMapIndex16::from(number), number % 40);
    }
    let mut iter = cube.iter_indexed();
    let mut count = 0usize;
    while let Some((index, value)) = iter.next() {
        assert_eq!(CubeMapIndex16::from(count), index);
        assert_eq!(count % 16, index.x());
        assert_eq!((count / 16) % 16, index.z());
        assert_eq!(count / 256, index.y());
        assert_eq!(count % 40, *value);
        count += 1;
    }
    assert_eq!(4096, count);
    assert!(iter.next().is_none());
}

#[test]
fn cube16_from_iter_takes_the_values_in_index_order() {
    let cube = CubeMap16::from_iter((0..4096usize).map(|number| number / 1000));
    assert_eq!(5, cube.palette().palette_len());
    assert_eq!(0, *cube.get((0, 0, 0).into()));
    assert_eq!(4, *cube.get((15, 15, 15).into()));
    assert_eq!(1, *cube.get(CubeMapIndex16::from(1000usize)));
}

#[test]
fn cube32_write_and_read() {
    let mut cube = CubeMap32::filled(TileState::void());
    assert_eq!(32768, cube.palette().len());
    assert_eq!(31, cube.palette().max_index());
    cube.set((31, 30, 29).into(), TileState::new(TileId(2)));
    assert_eq!(TileId(2), cube.get((31, 30, 29).into()).id());
    assert!(cube.get((0, 0, 0).into()).is_void());
    assert!(cube.get((29, 30, 31).into()).is_void());
    assert_eq!(2, cube.palette().palette_len());
    cube.replace_identical((0, 0, 0).into(), TileState::new(TileId(5)));
    assert_eq!(TileId(5), cube.get((1, 1, 1).into()).id());
    assert_eq!(TileId(2), cube.get((31, 30, 29).into()).id());
}

#[test]
fn cube32_iter_indexed_runs_x_then_z_then_y() {
    let cube = CubeMap32::filled(1u8);
    let mut iter = cube.iter_indexed();
    let mut count = 0usize;
    while let Some((index, value)) = iter.next() {
        assert_eq!(count % 32, index.x());
        assert_eq!((count / 32) % 32, index.z());
        assert_eq!(count / 1024, index.y());
        assert_eq!(1, *value);
        count += 1;
    }
    assert_eq!(32768, count);
}
