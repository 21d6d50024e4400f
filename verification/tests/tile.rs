use dth::tile::{TileFace, TileId, TileState, TileStateFormat};

#[test]
fn void_tile_has_id_zero() {
    assert_eq!(TileId(0), TileId::void());
    assert_eq!(TileId(0), TileId::default());
    assert_eq!(TileId(0), TileState::void().id());
    assert!(TileState::void().is_void());
    assert_eq!(TileState::void(), TileState::default());
}

#[test]
fn new_tile_keeps_its_id() {
    let tile = TileState::new(TileId(7));
    assert_eq!(TileId(7), tile.id());
    assert!(!tile.is_void());
    assert_eq!(TileState::with_format(TileId(7), TileStateFormat::NoFormat), tile);
    assert!(TileState::new(TileId(0)).is_void());
    assert_eq!(TileState::void(), TileState::new(TileId::void()));
}

#[test]
fn tiles_compare_by_value() {
    assert_eq!(TileState::new(TileId(3)), TileState::new(TileId(3)));
    assert_ne!(TileState::new(TileId(3)), TileState::new(TileId(4)));
    assert_ne!(TileState::new(TileId(3)), TileState::void());
    assert_eq!(TileStateFormat::NoFormat, TileStateFormat::default());
}

#[test]
fn tile_faces_count_from_front_to_bottom() {
    assert_eq!(0, TileFace::Front as usize);
    assert_eq!(1, TileFace::Back as usize);
    assert_eq!(2, TileFace::Right as usize);
    assert_eq!(3, TileFace::Left as usize);
    assert_eq!(4, TileFace::Top as usize);
    assert_eq!(5, TileFace::Bottom as usize);
}
