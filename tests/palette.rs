use tilemap_editor::editor::Message;
use tilemap_editor::mapviewer::{MouseButton, Tool};
use tilemap_editor::style::SelectorTheme;
use tilemap_editor::tileselector::{slot_of, tile_at, TileSelector};

#[test]
fn select_needs_a_source() {
    let mut selector = TileSelector::new();
    selector.select(0);
    assert_eq!(selector.get_selected(), None);
    assert_eq!(selector.update(MouseButton::Left, 0, 0), (false, None));
}

#[test]
fn select_beyond_frame_count_is_ignored() {
    let mut selector = TileSelector::new();
    selector.load_source(3);
    selector.select(2);
    assert_eq!(selector.get_selected(), Some(2));
    selector.select(3);
    assert_eq!(selector.get_selected(), Some(2));
    selector.select(100);
    assert_eq!(selector.get_selected(), Some(2));
}

#[test]
fn unselect_and_reset_clear_choice() {
    let mut selector = TileSelector::new();
    selector.load_source(3);
    selector.select(1);
    selector.unselect();
    assert_eq!(selector.get_selected(), None);
    selector.select(0);
    selector.reset();
    assert_eq!(selector.get_selected(), None);
    assert_eq!(selector.frame_count(), Some(3));
}

#[test]
fn hit_test_maps_pixels_to_indices() {
    assert_eq!(tile_at(0, 0), 0);
    assert_eq!(tile_at(35, 35), 0);
    assert_eq!(tile_at(36, 0), 1);
    assert_eq!(tile_at(40, 40), 6);
    assert_eq!(tile_at(4 * 36 + 1, 2 * 36), 14);
    assert_eq!(slot_of(14), (4, 2));
    assert_eq!(slot_of(5), (0, 1));
}

#[test]
fn palette_press_messages() {
    let mut selector = TileSelector::new();
    selector.load_source(10);
    assert_eq!(selector.update(MouseButton::Left, 40, 40), (true, Some(Message::TileSelected(6))));
    selector.select(6);
    assert_eq!(selector.update(MouseButton::Left, 40, 40), (true, None));
    assert_eq!(selector.update(MouseButton::Right, 0, 0), (true, Some(Message::TileUnSelected)));
    assert_eq!(selector.update(MouseButton::Other, 0, 0), (false, None));
}

#[test]
fn palette_rows_round_up() {
    let mut selector = TileSelector::new();
    assert_eq!(selector.rows(), 0);
    selector.load_source(5);
    assert_eq!(selector.rows(), 1);
    selector.load_source(6);
    assert_eq!(selector.rows(), 2);
    selector.load_source(0);
    assert_eq!(selector.rows(), 0);
}

#[test]
fn theme_pick() {
    assert_eq!(SelectorTheme::pick(Tool::Pen, Tool::Pen), SelectorTheme::Selected);
    assert_eq!(SelectorTheme::pick(Tool::Pen, Tool::Rect), SelectorTheme::NotSelected);
}
