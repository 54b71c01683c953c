use tilemap_editor::editor::Message;
use tilemap_editor::mapviewer::{
    rect_bounds, rect_length, Interaction, MapViewer, MouseButton, PointerEvent, Tool, ViewerState,
};
use tilemap_editor::tilemap::{Layer, Tile};

#[test]
fn rect_length_is_sign_aware() {
    assert_eq!(rect_length(1, 3), -2);
    assert_eq!(rect_length(3, 3), 1);
    assert_eq!(rect_length(5, 3), 3);
    assert_eq!(rect_length(0, 65535), -65535);
}

#[test]
fn rect_bounds_of_backward_drag() {
    assert_eq!(rect_bounds(3, 3, -2, -2), (1, 1, 2, 2));
    assert_eq!(rect_bounds(2, 4, 3, -1), (2, 3, 3, 1));
}

#[test]
fn pen_press_paints_and_drag_keeps_painting() {
    let viewer = MapViewer::new();
    let mut state = ViewerState::default();
    let m = viewer.update(&mut state, PointerEvent::ButtonPressed(MouseButton::Left), 2, 3);
    assert_eq!(m, Some(Message::PaintTile(2, 3)));
    assert_eq!(state.interaction, Interaction::Drawing);
    let m = viewer.update(&mut state, PointerEvent::CursorMoved, 7, 1);
    assert_eq!(m, Some(Message::PaintTile(7, 1)));
    let m = viewer.update(&mut state, PointerEvent::ButtonReleased, 7, 1);
    assert_eq!(m, None);
    assert_eq!(state.interaction, Interaction::Idle);
    let m = viewer.update(&mut state, PointerEvent::CursorMoved, 8, 1);
    assert_eq!(m, None);
}

#[test]
fn right_press_erases_with_any_tool() {
    let mut viewer = MapViewer::new();
    viewer.tool = Tool::Selection;
    let mut state = ViewerState::default();
    let m = viewer.update(&mut state, PointerEvent::ButtonPressed(MouseButton::Right), 4, 4);
    assert_eq!(m, Some(Message::ClearTile(4, 4)));
    assert_eq!(state.interaction, Interaction::Erasing);
    let m = viewer.update(&mut state, PointerEvent::CursorMoved, 5, 4);
    assert_eq!(m, Some(Message::ClearTile(5, 4)));
}

#[test]
fn selection_tool_left_press_does_nothing() {
    let mut viewer = MapViewer::new();
    viewer.tool = Tool::Selection;
    let mut state = ViewerState::default();
    let m = viewer.update(&mut state, PointerEvent::ButtonPressed(MouseButton::Left), 1, 1);
    assert_eq!(m, None);
    assert_eq!(state.interaction, Interaction::Idle);
}

#[test]
fn rect_drag_backwards_fills_excluding_anchor() {
    let mut viewer = MapViewer::new();
    viewer.tool = Tool::Rect;
    viewer.tile = Some(Tile::new(6, false, false));
    let mut state = ViewerState::default();
    let m = viewer.update(&mut state, PointerEvent::ButtonPressed(MouseButton::Left), 3, 3);
    assert_eq!(m, Some(Message::RectStarted));
    assert_eq!(state.rect_dimensions, (1, 1));
    let m = viewer.update(&mut state, PointerEvent::CursorMoved, 1, 1);
    assert_eq!(m, Some(Message::Redraw));
    assert_eq!(state.rect_dimensions, (-2, -2));
    assert_eq!(state.preview(), Some((3, 3, -2, -2)));
    let m = viewer.update(&mut state, PointerEvent::ButtonReleased, 1, 1);
    assert_eq!(m, Some(Message::PaintRect(3, 3, -2, -2)));
    assert_eq!(state.interaction, Interaction::Idle);
    assert_eq!(state.preview(), None);

    viewer.fill_rect(3, 3, -2, -2);
    let painted = Some(Tile::new(6, false, false));
    for (x, y) in [(1, 1), (2, 1), (1, 2), (2, 2)] {
        assert_eq!(viewer.get_tile(x, y, Layer::Background), painted);
    }
    for (x, y) in [(3, 3), (3, 1), (1, 3), (0, 0), (3, 2)] {
        assert_eq!(viewer.get_tile(x, y, Layer::Background), None);
    }
    assert!(viewer.modified);
}

#[test]
fn rect_forward_drag_includes_both_ends() {
    let mut viewer = MapViewer::new();
    viewer.tile = Some(Tile::new(2, false, false));
    viewer.fill_rect(1, 1, rect_length(2, 1), rect_length(1, 1));
    assert_eq!(viewer.get_tile(1, 1, Layer::Background), Some(Tile::new(2, false, false)));
    assert_eq!(viewer.get_tile(2, 1, Layer::Background), Some(Tile::new(2, false, false)));
    assert_eq!(viewer.get_tile(3, 1, Layer::Background), None);
    assert_eq!(viewer.get_tile(1, 2, Layer::Background), None);
}

#[test]
fn paint_without_tile_keeps_cell() {
    let mut viewer = MapViewer::new();
    viewer.set_tile(4, 5, Some(Tile::new(3, false, false)));
    viewer.mark_drawn();
    viewer.modified = false;
    viewer.tile = None;
    viewer.paint_tile(4, 5);
    viewer.paint_tile(6, 6);
    assert_eq!(viewer.get_tile(4, 5, Layer::Background), Some(Tile::new(3, false, false)));
    assert_eq!(viewer.get_tile(6, 6, Layer::Background), None);
    viewer.fill_rect(3, 4, 3, 3);
    assert_eq!(viewer.get_tile(4, 5, Layer::Background), Some(Tile::new(3, false, false)));
    assert_eq!(viewer.get_tile(5, 6, Layer::Background), None);
}

#[test]
fn set_tile_marks_modified_and_stale() {
    let mut viewer = MapViewer::new();
    assert!(!viewer.modified);
    viewer.mark_drawn();
    assert!(!viewer.needs_redraw());
    viewer.set_tile(0, 0, Some(Tile::new(1, false, false)));
    assert!(viewer.modified);
    assert!(viewer.needs_redraw());
    assert_eq!(viewer.get_tile(0, 0, Layer::Foreground), None);
}

#[test]
fn set_entire_map_clears_modified() {
    let mut viewer = MapViewer::new();
    viewer.set_tile(0, 0, Some(Tile::new(1, false, false)));
    viewer.mark_drawn();
    let mut map = tilemap_editor::tilemap::TileMap::new(2, 2);
    map.set_tile(1, 1, Some(Tile::new(9, false, false)), Layer::Foreground);
    viewer.set_entire_map(map);
    assert!(!viewer.modified);
    assert!(viewer.needs_redraw());
    assert_eq!(viewer.get_tile(1, 1, Layer::Foreground), Some(Tile::new(9, false, false)));
    assert_eq!(viewer.get_map_instant().get_dimensions(), (2, 2));
}

#[test]
fn refresh_marks_stale() {
    let mut viewer = MapViewer::new();
    viewer.mark_drawn();
    viewer.refresh();
    assert!(viewer.needs_redraw());
    assert!(!viewer.modified);
}

#[test]
fn drawable_tiles_skip_missing_frames() {
    let mut viewer = MapViewer::new();
    viewer.set_tile(0, 0, Some(Tile::new(3, false, false)));
    viewer.map.set_tile(0, 0, Some(Tile::new(1, false, false)), Layer::Foreground);
    assert_eq!(viewer.drawable_tiles(0, 0, 4), (Some(Tile::new(3, false, false)), Some(Tile::new(1, false, false))));
    assert_eq!(viewer.drawable_tiles(0, 0, 3), (None, Some(Tile::new(1, false, false))));
    assert_eq!(viewer.drawable_tiles(0, 0, 0), (None, None));
}

#[test]
fn viewer_state_starts_idle() {
    let state = ViewerState::default();
    assert_eq!(state.interaction, Interaction::Idle);
    assert_eq!(state.rect_dimensions, (0, 0));
    assert_eq!(state.preview(), None);
}
