use vstd::prelude::*;

use crate::editor::Message;
use crate::tilemap::{empty_map, Cells, Layer, MapView, Tile, TileMap};

verus! {

/// The tool that a left-button press on the map uses.
#[derive(Debug, Clone, Copy, Eq)]
pub enum Tool {
    Pen,
    Rect,
    Selection,
}

impl PartialEq for Tool {
    fn eq(&self, other: &Tool) -> (r: bool) {
        match (*self, *other) {
            (Tool::Pen, Tool::Pen) => true,
            (Tool::Rect, Tool::Rect) => true,
            (Tool::Selection, Tool::Selection) => true,
            _ => false,
        }
    }
}

impl vstd::std_specs::cmp::PartialEqSpecImpl for Tool {
    open spec fn obeys_eq_spec() -> bool {
        true
    }

    open spec fn eq_spec(&self, other: &Tool) -> bool {
        *self == *other
    }
}

/// A mouse button, as far as the map canvas tells them apart.
#[derive(Debug, Clone, Copy, PartialEq, Eq, Structural)]
pub enum MouseButton {
    Left,
    Right,
    Other,
}

/// A pointer event on the map canvas; the cell under the pointer comes with it.
#[derive(Debug, Clone, Copy, PartialEq, Eq, Structural)]
pub enum PointerEvent {
    ButtonPressed(MouseButton),
    ButtonReleased,
    CursorMoved,
}

/// What a drag on the map is doing.
#[derive(Debug, Clone, Copy, PartialEq, Eq, Structural)]
pub enum Interaction {
    Idle,
    Drawing,
    /// A rectangle anchored at this cell is being dragged out.
    Rectangle(u16, u16),
    Erasing,
}

/// The canvas's interaction state: the drag under way and the signed size of
/// the pending rectangle.
#[derive(Debug, Clone, Copy, PartialEq, Eq)]
pub struct ViewerState {
    pub interaction: Interaction,
    pub rect_dimensions: (i32, i32),
}

impl Default for ViewerState {
    fn default() -> (r: Self)
        ensures
            r == (ViewerState { interaction: Interaction::Idle, rect_dimensions: (0, 0) }),
    {
        ViewerState { interaction: Interaction::Idle, rect_dimensions: (0, 0) }
    }
}

/// Signed length of a dragged side from `b` to `a`: counts both ends when the
/// drag goes forward, and excludes the anchor when it goes back.
pub open spec fn rect_len(a: int, b: int) -> int {
    (a - b) + if a - b >= 0 {
        1int
    } else {
        0int
    }
}

pub fn rect_length(a: u16, b: u16) -> (r: i32)
    ensures
        r == rect_len(a as int, b as int),
{
    let sub = a as i32 - b as i32;
    sub + if sub >= 0 {
        1
    } else {
        0
    }
}

/// The first cell that a side of signed length `len` from `a` covers.
pub open spec fn rect_start(a: int, len: int) -> int {
    if len < 0 {
        a + len
    } else {
        a
    }
}

pub open spec fn abs(n: int) -> int {
    if n < 0 {
        -n
    } else {
        n
    }
}

/// The rectangle anchored at `(x, y)` with signed size `(w, h)` covers
/// `(cx, cy)`.
pub open spec fn in_rect(x: int, y: int, w: int, h: int, cx: int, cy: int) -> bool {
    &&& rect_start(x, w) <= cx < rect_start(x, w) + abs(w)
    &&& rect_start(y, h) <= cy < rect_start(y, h) + abs(h)
}

/// The rectangle lies inside a `width` by `height` grid.
pub open spec fn rect_fits(x: int, y: int, w: int, h: int, width: nat, height: nat) -> bool {
    &&& 0 <= rect_start(x, w)
    &&& rect_start(x, w) + abs(w) <= width
    &&& 0 <= rect_start(y, h)
    &&& rect_start(y, h) + abs(h) <= height
}

/// The first covered cell and the extent of a signed rectangle:
/// `(min_x, min_y, |w|, |h|)`.
pub fn rect_bounds(x: u16, y: u16, width: i32, height: i32) -> (r: (i32, i32, i32, i32))
    requires
        width > i32::MIN,
        height > i32::MIN,
    ensures
        r.0 == rect_start(x as int, width as int),
        r.1 == rect_start(y as int, height as int),
        r.2 == abs(width as int),
        r.3 == abs(height as int),
{
    let min_x = if width < 0 {
        x as i32 + width
    } else {
        x as i32
    };
    let min_y = if height < 0 {
        y as i32 + height
    } else {
        y as i32
    };
    let w = if width < 0 {
        -width
    } else {
        width
    };
    let h = if height < 0 {
        -height
    } else {
        height
    };
    (min_x, min_y, w, h)
}

/// The value that painting a cell holding `current` writes: the chosen tile,
/// or the cell's own value when none is chosen.
pub open spec fn paint_value(tile: Option<Tile>, current: Option<Tile>) -> Option<Tile> {
    match tile {
        Some(t) => Some(t),
        None => current,
    }
}

/// The background rows after painting the rectangle with `tile`.
pub open spec fn filled_cells(
    g: Cells,
    width: nat,
    height: nat,
    tile: Option<Tile>,
    x: int,
    y: int,
    w: int,
    h: int,
) -> Cells {
    Seq::new(
        height,
        |cy: int|
            Seq::new(
                width,
                |cx: int|
                    if in_rect(x, y, w, h, cx, cy) {
                        paint_value(tile, g[cy][cx])
                    } else {
                        g[cy][cx]
                    },
            ),
    )
}

/// The transition of the interaction state machine on `event` at cell
/// `(x, y)` with `tool` active: the next state and the message emitted.
pub open spec fn transition(tool: Tool, state: ViewerState, event: PointerEvent, x: u16, y: u16) -> (
    ViewerState,
    Option<Message>,
) {
    match event {
        PointerEvent::ButtonReleased => match state.interaction {
            Interaction::Rectangle(ax, ay) => (
                ViewerState { interaction: Interaction::Idle, ..state },
                Some(Message::PaintRect(ax, ay, state.rect_dimensions.0, state.rect_dimensions.1)),
            ),
            _ => (ViewerState { interaction: Interaction::Idle, ..state }, None),
        },
        PointerEvent::ButtonPressed(MouseButton::Left) => match tool {
            Tool::Pen => (
                ViewerState { interaction: Interaction::Drawing, ..state },
                Some(Message::PaintTile(x, y)),
            ),
            Tool::Rect => (
                ViewerState { interaction: Interaction::Rectangle(x, y), rect_dimensions: (1, 1) },
                Some(Message::RectStarted),
            ),
            Tool::Selection => (state, None),
        },
        PointerEvent::ButtonPressed(MouseButton::Right) => (
            ViewerState { interaction: Interaction::Erasing, ..state },
            Some(Message::ClearTile(x, y)),
        ),
        PointerEvent::ButtonPressed(MouseButton::Other) => (state, None),
        PointerEvent::CursorMoved => match state.interaction {
            Interaction::Drawing => (state, Some(Message::PaintTile(x, y))),
            Interaction::Erasing => (state, Some(Message::ClearTile(x, y))),
            Interaction::Rectangle(ax, ay) => (
                ViewerState {
                    rect_dimensions: (
                        rect_len(x as int, ax as int) as i32,
                        rect_len(y as int, ay as int) as i32,
                    ),
                    ..state
                },
                Some(Message::Redraw),
            ),
            Interaction::Idle => (state, None),
        },
    }
}

/// Painting a cell with no tile chosen leaves the map as it was.
pub proof fn lemma_passive_paint(g: MapView, x: int, y: int)
    requires
        g.wf(),
        g.in_bounds(x, y),
    ensures
        g.with_tile(x, y, paint_value(None, g.cell(Layer::Background, x, y)), Layer::Background)
            == g,
{
    let r = g.with_tile(x, y, paint_value(None, g.cell(Layer::Background, x, y)), Layer::Background);
    assert(r.background[y] =~= g.background[y]);
    assert(r.background =~= g.background);
}

/// Filling a rectangle with no tile chosen leaves every cell as it was.
pub proof fn lemma_passive_fill(g: MapView, x: int, y: int, w: int, h: int)
    requires
        g.wf(),
    ensures
        filled_cells(g.background, g.width, g.height, None, x, y, w, h) == g.background,
{
    let f = filled_cells(g.background, g.width, g.height, None, x, y, w, h);
    assert forall|cy: int| 0 <= cy < g.height implies #[trigger] f[cy] =~= g.background[cy] by {}
    assert(f =~= g.background);
}

/// `tile` when the tile source of `frame_count` frames has its frame.
pub open spec fn drawable(tile: Option<Tile>, frame_count: u32) -> Option<Tile> {
    match tile {
        Some(t) => if t.value < frame_count {
            Some(t)
        } else {
            None
        },
        None => None,
    }
}

/// `tile` when the tile source of `frame_count` frames has its frame.
pub fn visible_tile(tile: Option<Tile>, frame_count: u32) -> (r: Option<Tile>)
    ensures
        r == drawable(tile, frame_count),
{
    match tile {
        Some(t) => if t.value < frame_count {
            Some(t)
        } else {
            None
        },
        None => None,
    }
}

impl ViewerState {
    /// The rectangle being dragged out, as `(x, y, width, height)` in the
    /// terms of `fill_rect`, if one is.
    pub fn preview(&self) -> (r: Option<(u16, u16, i32, i32)>)
        ensures
            r == (match self.interaction {
                Interaction::Rectangle(ax, ay) => Some(
                    (ax, ay, self.rect_dimensions.0, self.rect_dimensions.1),
                ),
                _ => None,
            }),
    {
        match self.interaction {
            Interaction::Rectangle(ax, ay) => Some(
                (ax, ay, self.rect_dimensions.0, self.rect_dimensions.1),
            ),
            _ => None,
        }
    }
}

/// The map being edited, with the tool and tile that painting uses, whether
/// it changed since it was last saved or replaced, and whether its drawing is
/// out of date.
pub struct MapViewer {
    /// The map changed since it was last saved, created or loaded.
    pub modified: bool,
    pub tool: Tool,
    /// The tile that painting writes; with none, painting keeps cells as
    /// they are.
    pub tile: Option<Tile>,
    pub map: TileMap,
    /// The drawing of the map must be made again before it is shown.
    pub stale: bool,
}

impl MapViewer {
    pub open spec fn wf(&self) -> bool {
        self.map.wf()
    }

    /// What the map holds.
    pub open spec fn grid(&self) -> MapView {
        self.map@
    }

    pub fn new() -> (r: Self)
        ensures
            r.wf(),
            r.grid() == empty_map(32, 32),
            !r.modified,
            r.tool == Tool::Pen,
            r.tile == None::<Tile>,
            r.stale,
    {
        MapViewer { modified: false, map: TileMap::default(), tile: None, tool: Tool::Pen, stale: true }
    }

    /// Interprets a pointer event at cell `(x, y)`: moves the interaction
    /// state on and returns the message that the event gives, if any.
    pub fn update(&self, state: &mut ViewerState, event: PointerEvent, x: u16, y: u16) -> (r:
        Option<Message>)
        ensures
            (*final(state), r) == transition(self.tool, *old(state), event, x, y),
    {
        match event {
            PointerEvent::ButtonReleased => {
                if let Interaction::Rectangle(ax, ay) = state.interaction {
                    state.interaction = Interaction::Idle;
                    return Some(
                        Message::PaintRect(ax, ay, state.rect_dimensions.0, state.rect_dimensions.1),
                    );
                }
                state.interaction = Interaction::Idle;
                None
            },
            PointerEvent::ButtonPressed(button) => match button {
                MouseButton::Left => match self.tool {
                    Tool::Pen => {
                        state.interaction = Interaction::Drawing;
                        Some(Message::PaintTile(x, y))
                    },
                    Tool::Rect => {
                        state.interaction = Interaction::Rectangle(x, y);
                        state.rect_dimensions = (1, 1);
                        Some(Message::RectStarted)
                    },
                    Tool::Selection => None,
                },
                MouseButton::Right => {
                    state.interaction = Interaction::Erasing;
                    Some(Message::ClearTile(x, y))
                },
                MouseButton::Other => None,
            },
            PointerEvent::CursorMoved => match state.interaction {
                Interaction::Drawing => Some(Message::PaintTile(x, y)),
                Interaction::Erasing => Some(Message::ClearTile(x, y)),
                Interaction::Rectangle(rect_x, rect_y) => {
                    let new_width = rect_length(x, rect_x);
                    let new_height = rect_length(y, rect_y);
                    state.rect_dimensions = (new_width, new_height);
                    Some(Message::Redraw)
                },
                Interaction::Idle => None,
            },
        }
    }

    /// Marks the drawing of the map out of date.
    pub fn refresh(&mut self)
        ensures
            *final(self) == (MapViewer { stale: true, ..*old(self) }),
    {
        self.stale = true;
    }

    /// Whether the drawing of the map must be made again before it is shown.
    pub fn needs_redraw(&self) -> (r: bool)
        ensures
            r == self.stale,
    {
        self.stale
    }

    /// Records that the map has just been drawn.
    pub fn mark_drawn(&mut self)
        ensures
            *final(self) == (MapViewer { stale: false, ..*old(self) }),
    {
        self.stale = false;
    }

    /// A copy of the map as it is now.
    pub fn get_map_instant(&self) -> (r: TileMap)
        requires
            self.wf(),
        ensures
            r.wf(),
            r@ == self.grid(),
    {
        self.map.snapshot()
    }

    /// Replaces the whole map: it is no longer modified, and its drawing is
    /// out of date.
    pub fn set_entire_map(&mut self, map: TileMap)
        requires
            map.wf(),
        ensures
            final(self).wf(),
            final(self).grid() == map@,
            !final(self).modified,
            final(self).stale,
            final(self).tool == old(self).tool,
            final(self).tile == old(self).tile,
    {
        self.map = map;
        self.modified = false;
        self.stale = true;
    }

    /// The tiles drawn at `(x, y)`, background then foreground: a tile whose
    /// index the tile source of `frame_count` frames lacks is not drawn.
    pub fn drawable_tiles(&self, x: u16, y: u16, frame_count: u32) -> (r: (
        Option<Tile>,
        Option<Tile>,
    ))
        requires
            self.wf(),
            self.grid().in_bounds(x as int, y as int),
        ensures
            r.0 == drawable(self.grid().cell(Layer::Background, x as int, y as int), frame_count),
            r.1 == drawable(self.grid().cell(Layer::Foreground, x as int, y as int), frame_count),
    {
        let (bg_tile, fg_tile) = self.map.get_tile(x, y);
        (visible_tile(bg_tile, frame_count), visible_tile(fg_tile, frame_count))
    }

    /// Writes the background cell `(x, y)`, marking the map modified and its
    /// drawing out of date.
    pub fn set_tile(&mut self, x: u16, y: u16, value: Option<Tile>)
        requires
            old(self).wf(),
            old(self).grid().in_bounds(x as int, y as int),
        ensures
            final(self).wf(),
            final(self).grid() == old(self).grid().with_tile(
                x as int,
                y as int,
                value,
                Layer::Background,
            ),
            final(self).modified,
            final(self).stale,
            final(self).tool == old(self).tool,
            final(self).tile == old(self).tile,
    {
        self.modified = true;
        self.map.set_tile(x, y, value, Layer::Background);
        self.stale = true;
    }

    pub fn get_tile(&self, x: u16, y: u16, layer: Layer) -> (r: Option<Tile>)
        requires
            self.wf(),
            self.grid().in_bounds(x as int, y as int),
        ensures
            r == self.grid().cell(layer, x as int, y as int),
    {
        let tiles = self.map.get_tile(x, y);
        match layer {
            Layer::Background => tiles.0,
            Layer::Foreground => tiles.1,
        }
    }

    /// Paints the background cell `(x, y)` with the chosen tile; with none
    /// chosen the cell keeps its value.
    pub fn paint_tile(&mut self, x: u16, y: u16)
        requires
            old(self).wf(),
            old(self).grid().in_bounds(x as int, y as int),
        ensures
            final(self).wf(),
            final(self).grid() == old(self).grid().with_tile(
                x as int,
                y as int,
                paint_value(old(self).tile, old(self).grid().cell(Layer::Background, x as int, y as int)),
                Layer::Background,
            ),
            final(self).modified,
            final(self).stale,
            final(self).tool == old(self).tool,
            final(self).tile == old(self).tile,
    {
        let value = match self.tile {
            Some(t) => Some(t),
            None => self.get_tile(x, y, Layer::Background),
        };
        self.set_tile(x, y, value);
    }

    /// Paints every background cell of the rectangle anchored at `(x, y)` with
    /// signed size `(width, height)`, as `paint_tile` does.
    pub fn fill_rect(&mut self, x: u16, y: u16, width: i32, height: i32)
        requires
            old(self).wf(),
            rect_fits(
                x as int,
                y as int,
                width as int,
                height as int,
                old(self).grid().width,
                old(self).grid().height,
            ),
        ensures
            final(self).wf(),
            final(self).grid() == (MapView {
                background: filled_cells(
                    old(self).grid().background,
                    old(self).grid().width,
                    old(self).grid().height,
                    old(self).tile,
                    x as int,
                    y as int,
                    width as int,
                    height as int,
                ),
                ..old(self).grid()
            }),
            final(self).modified == (old(self).modified || (width != 0 && height != 0)),
            final(self).stale == (old(self).stale || (width != 0 && height != 0)),
            final(self).tool == old(self).tool,
            final(self).tile == old(self).tile,
    {
        let ghost g = self.grid();
        let ghost tile = self.tile;
        let ghost target = filled_cells(
            g.background,
            g.width,
            g.height,
            tile,
            x as int,
            y as int,
            width as int,
            height as int,
        );
        proof {
            self.map.lemma_extent_fits();
        }
        let (min_x, min_y, w, h) = rect_bounds(x, y, width, height);
        let mut cx: i32 = min_x;
        while cx < min_x + w
            invariant
                self.wf(),
                self.tile == tile,
                self.tool == old(self).tool,
                self.grid().width == g.width,
                self.grid().height == g.height,
                self.grid().foreground == g.foreground,
                g == old(self).grid(),
                tile == old(self).tile,
                min_x == rect_start(x as int, width as int),
                min_y == rect_start(y as int, height as int),
                w == abs(width as int),
                h == abs(height as int),
                rect_fits(x as int, y as int, width as int, height as int, g.width, g.height),
                g.width <= 0xffff,
                g.height <= 0xffff,
                min_x <= cx <= min_x + w,
                cx > min_x && h > 0 ==> self.modified && self.stale,
                cx == min_x || h == 0 ==> self.modified == old(self).modified && self.stale
                    == old(self).stale,
                forall|yy: int, xx: int|
                    0 <= yy < g.height && 0 <= xx < g.width ==> #[trigger] self.grid().background[yy][xx]
                        == if in_rect(x as int, y as int, width as int, height as int, xx, yy) && xx
                        < cx {
                        paint_value(tile, g.background[yy][xx])
                    } else {
                        g.background[yy][xx]
                    },
            decreases min_x + w - cx,
        {
            let mut cy: i32 = min_y;
            while cy < min_y + h
                invariant
                    self.wf(),
                    self.tile == tile,
                    self.tool == old(self).tool,
                    self.grid().width == g.width,
                    self.grid().height == g.height,
                    self.grid().foreground == g.foreground,
                    g == old(self).grid(),
                    tile == old(self).tile,
                    min_x == rect_start(x as int, width as int),
                    min_y == rect_start(y as int, height as int),
                    w == abs(width as int),
                    h == abs(height as int),
                    rect_fits(x as int, y as int, width as int, height as int, g.width, g.height),
                    min_x <= cx < min_x + w,
                    g.width <= 0xffff,
                    g.height <= 0xffff,
                    min_y <= cy <= min_y + h,
                    (cx > min_x && h > 0) || cy > min_y ==> self.modified && self.stale,
                    (cx == min_x || h == 0) && cy == min_y ==> self.modified == old(
                        self,
                    ).modified && self.stale == old(self).stale,
                    forall|yy: int, xx: int|
                        0 <= yy < g.height && 0 <= xx < g.width
                            ==> #[trigger] self.grid().background[yy][xx] == if in_rect(
                            x as int,
                            y as int,
                            width as int,
                            height as int,
                            xx,
                            yy,
                        ) && (xx < cx || (xx == cx && yy < cy)) {
                            paint_value(tile, g.background[yy][xx])
                        } else {
                            g.background[yy][xx]
                        },
                decreases min_y + h - cy,
            {
                let ghost before = self.grid();
                self.paint_tile(cx as u16, cy as u16);
                proof {
                    assert(in_rect(x as int, y as int, width as int, height as int, cx as int, cy as int));
                    assert(self.grid().background[cy as int][cx as int] == paint_value(
                        tile,
                        g.background[cy as int][cx as int],
                    ));
                    assert forall|yy: int, xx: int|
                        0 <= yy < g.height && 0 <= xx < g.width && (yy != cy || xx != cx)
                            implies #[trigger] self.grid().background[yy][xx]
                        == before.background[yy][xx] by {
                        if yy != cy {
                            assert(self.grid().background[yy] == before.background[yy]);
                        }
                    }
                }
                cy = cy + 1;
            }
            cx = cx + 1;
        }
        proof {
            assert forall|yy: int| 0 <= yy < g.height implies #[trigger] self.grid().background[yy]
                =~= target[yy] by {
                assert(self.grid().background[yy].len() == g.width);
            }
            assert(self.grid().background =~= target);
        }
    }
}

} // verus!
