use tilemap_editor::save::{DecodeError, LayerStorage, TileMapStorage};
use tilemap_editor::tilemap::{Layer, Tile, TileMap};

#[test]
fn encode_one_cell() {
    let mut map = TileMap::new(1, 1);
    map.set_tile(0, 0, Some(Tile::new(5, true, false)), Layer::Background);
    let record = TileMapStorage::from_map(&map);
    assert_eq!(record.width, 1);
    assert_eq!(record.height, 1);
    assert_eq!(record.background.tiles, vec![Some(Tile::new(5, true, false))]);
    assert_eq!(record.foreground.tiles, vec![None]);
    let back = record.to_map().unwrap();
    assert_eq!(back.get_dimensions(), (1, 1));
    assert_eq!(back.get_tile(0, 0), (Some(Tile::new(5, true, false)), None));
}

#[test]
fn encode_is_row_major() {
    let mut map = TileMap::new(3, 2);
    map.set_tile(1, 0, Some(Tile::new(1, false, false)), Layer::Background);
    map.set_tile(0, 1, Some(Tile::new(2, false, false)), Layer::Background);
    map.set_tile(2, 1, Some(Tile::new(3, false, true)), Layer::Foreground);
    let record = TileMapStorage::from_map(&map);
    assert_eq!(
        record.background.tiles,
        vec![None, Some(Tile::new(1, false, false)), None, Some(Tile::new(2, false, false)), None, None]
    );
    assert_eq!(
        record.foreground.tiles,
        vec![None, None, None, None, None, Some(Tile::new(3, false, true))]
    );
}

#[test]
fn decode_places_entries() {
    let record = TileMapStorage {
        width: 2,
        height: 1,
        background: LayerStorage { tiles: vec![Some(Tile::new(5, true, false)), None] },
        foreground: LayerStorage { tiles: vec![None, None] },
    };
    let map = record.to_map().unwrap();
    assert_eq!(map.get_dimensions(), (2, 1));
    assert_eq!(map.get_tile(0, 0), (Some(Tile::new(5, true, false)), None));
    assert_eq!(map.get_tile(1, 0), (None, None));
}

#[test]
fn round_trip_keeps_every_cell() {
    let mut map = TileMap::new(4, 3);
    let mut v: u32 = 0;
    for y in 0..3u16 {
        for x in 0..4u16 {
            if (x + y) % 2 == 0 {
                map.set_tile(x, y, Some(Tile::new(v, x == 1, y == 2)), Layer::Background);
            } else {
                map.set_tile(x, y, Some(Tile::new(v + 100, false, true)), Layer::Foreground);
            }
            v += 1;
        }
    }
    let back = TileMapStorage::from_map(&map).to_map().unwrap();
    assert_eq!(back.get_dimensions(), (4, 3));
    for y in 0..3u16 {
        for x in 0..4u16 {
            assert_eq!(back.get_tile(x, y), map.get_tile(x, y));
        }
    }
}

#[test]
fn decode_short_layer_is_malformed() {
    let record = TileMapStorage {
        width: 2,
        height: 2,
        background: LayerStorage { tiles: vec![None, None, None] },
        foreground: LayerStorage { tiles: vec![None, None, None, None] },
    };
    assert_eq!(record.to_map().err(), Some(DecodeError::MalformedLayout));
}

#[test]
fn decode_long_foreground_is_malformed() {
    let record = TileMapStorage {
        width: 1,
        height: 1,
        background: LayerStorage { tiles: vec![None] },
        foreground: LayerStorage { tiles: vec![None, None] },
    };
    assert_eq!(record.to_map().err(), Some(DecodeError::MalformedLayout));
}

#[test]
fn decode_empty_grid() {
    let record = TileMapStorage {
        width: 0,
        height: 5,
        background: LayerStorage { tiles: vec![] },
        foreground: LayerStorage { tiles: vec![] },
    };
    let map = record.to_map().unwrap();
    assert_eq!(map.get_dimensions(), (0, 5));
}

#[test]
fn decode_then_encode_gives_record_back() {
    let record = TileMapStorage {
        width: 3,
        height: 2,
        background: LayerStorage {
            tiles: vec![Some(Tile::new(1, false, false)), None, None, None, Some(Tile::new(2, true, true)), None],
        },
        foreground: LayerStorage { tiles: vec![None, None, Some(Tile::new(7, false, true)), None, None, None] },
    };
    let map = record.to_map().unwrap();
    assert_eq!(map.get_tile(1, 1), (Some(Tile::new(2, true, true)), None));
    assert_eq!(map.get_tile(2, 0), (None, Some(Tile::new(7, false, true))));
    assert_eq!(TileMapStorage::from_map(&map), record);
}
