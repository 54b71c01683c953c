use vstd::prelude::*;

use crate::editor::Message;
use crate::mapviewer::MouseButton;

verus! {

/// Tiles shown on one line of the palette.
pub const TILES_PER_LINE: u32 = 5;

/// Size in pixels of one pixel of a tile on the palette.
pub const SCALE_FACTOR: u32 = 4;

/// Side in pixels of one palette slot: eight pixels of tile and one of border.
pub const SLOT_SIDE: u32 = 9 * SCALE_FACTOR;

/// The palette index under the pixel `(px, py)`.
pub open spec fn index_at(px: u32, py: u32) -> int {
    px as int / SLOT_SIDE as int + (py as int / SLOT_SIDE as int) * TILES_PER_LINE as int
}

/// The palette of the loaded tile source and the tile chosen from it.
pub struct TileSelector {
    selected: Option<u32>,
    frame_count: Option<u32>,
    stale: bool,
}

impl TileSelector {
    /// The chosen palette index, if any.
    pub closed spec fn selection(&self) -> Option<u32> {
        self.selected
    }

    /// The frame count of the loaded tile source; `None` before one is loaded.
    pub closed spec fn frames(&self) -> Option<u32> {
        self.frame_count
    }

    /// The drawing of the palette must be made again before it is shown.
    pub closed spec fn stale(&self) -> bool {
        self.stale
    }

    /// A chosen index is a frame of the loaded source.
    pub closed spec fn wf(&self) -> bool {
        match self.selected {
            Some(i) => match self.frame_count {
                Some(n) => i < n,
                None => false,
            },
            None => true,
        }
    }

    pub fn new() -> (r: Self)
        ensures
            r.wf(),
            r.selection() == None::<u32>,
            r.frames() == None::<u32>,
            r.stale(),
    {
        TileSelector { selected: None, frame_count: None, stale: true }
    }

    /// Chooses the palette index `i`; an index that the loaded source lacks,
    /// or any index while no source is loaded, leaves the choice as it was.
    pub fn select(&mut self, i: u32)
        requires
            old(self).wf(),
        ensures
            final(self).wf(),
            final(self).frames() == old(self).frames(),
            match old(self).frames() {
                Some(n) if i < n => final(self).selection() == Some(i) && final(self).stale(),
                _ => *final(self) == *old(self),
            },
    {
        match self.frame_count {
            Some(n) => {
                if i < n {
                    self.selected = Some(i);
                    self.stale = true;
                }
            },
            None => {},
        }
    }

    /// Drops the choice.
    pub fn unselect(&mut self)
        ensures
            final(self).wf(),
            final(self).selection() == None::<u32>,
            final(self).frames() == old(self).frames(),
            final(self).stale(),
    {
        self.selected = None;
        self.stale = true;
    }

    /// Drops the choice; the loaded source stays.
    pub fn reset(&mut self)
        ensures
            final(self).wf(),
            final(self).selection() == None::<u32>,
            final(self).frames() == old(self).frames(),
            final(self).stale(),
    {
        self.selected = None;
        self.stale = true;
    }

    /// Takes a newly loaded tile source of `frame_count` frames: indices
    /// chosen from the old one mean nothing for it, so the choice is dropped.
    pub fn load_source(&mut self, frame_count: u32)
        ensures
            final(self).wf(),
            final(self).selection() == None::<u32>,
            final(self).frames() == Some(frame_count),
            final(self).stale(),
    {
        self.frame_count = Some(frame_count);
        self.reset();
    }

    pub fn get_selected(&self) -> (r: Option<u32>)
        ensures
            r == self.selection(),
    {
        self.selected
    }

    pub fn frame_count(&self) -> (r: Option<u32>)
        ensures
            r == self.frames(),
    {
        self.frame_count
    }

    /// Lines of slots that the palette needs.
    pub fn rows(&self) -> (r: u32)
        ensures
            r == match self.frames() {
                Some(n) => (n as int + TILES_PER_LINE as int - 1) / TILES_PER_LINE as int,
                None => 0,
            },
    {
        match self.frame_count {
            Some(n) => n / TILES_PER_LINE + if n % TILES_PER_LINE == 0 {
                0
            } else {
                1
            },
            None => 0,
        }
    }

    pub fn needs_redraw(&self) -> (r: bool)
        ensures
            r == self.stale(),
    {
        self.stale
    }

    /// Records that the palette has just been drawn.
    pub fn mark_drawn(&mut self)
        ensures
            final(self).selection() == old(self).selection(),
            final(self).frames() == old(self).frames(),
            final(self).wf() == old(self).wf(),
            !final(self).stale(),
    {
        self.stale = false;
    }

    /// Interprets a press of `button` at pixel `(px, py)` of the palette:
    /// whether the palette takes the event, and the message it gives. A left
    /// press asks for the index under the pointer unless it is already
    /// chosen; a right press drops the choice. With no source loaded the
    /// palette takes nothing.
    pub fn update(&self, button: MouseButton, px: u32, py: u32) -> (r: (bool, Option<Message>))
        ensures
            self.frames() is None ==> r == (false, None::<Message>),
            self.frames() is Some ==> r == match button {
                MouseButton::Left => if self.selection() == Some(index_at(px, py) as u32) {
                    (true, None::<Message>)
                } else {
                    (true, Some(Message::TileSelected(index_at(px, py) as u32)))
                },
                MouseButton::Right => (true, Some(Message::TileUnSelected)),
                MouseButton::Other => (false, None::<Message>),
            },
    {
        if self.frame_count.is_none() {
            return (false, None);
        }
        match button {
            MouseButton::Left => {
                let pressed = tile_at(px, py);
                if let Some(current) = self.selected {
                    if current == pressed {
                        return (true, None);
                    }
                }
                (true, Some(Message::TileSelected(pressed)))
            },
            MouseButton::Right => (true, Some(Message::TileUnSelected)),
            MouseButton::Other => (false, None),
        }
    }
}

/// The palette index under the pixel `(px, py)`: slots are laid out
/// `TILES_PER_LINE` to a line.
pub fn tile_at(px: u32, py: u32) -> (r: u32)
    ensures
        r as int == index_at(px, py),
{
    px / SLOT_SIDE + (py / SLOT_SIDE) * TILES_PER_LINE
}

/// The column and line of the palette slot of index `i`.
pub fn slot_of(i: u32) -> (r: (u32, u32))
    ensures
        r.0 == i % TILES_PER_LINE,
        r.1 == i / TILES_PER_LINE,
{
    (i % TILES_PER_LINE, i / TILES_PER_LINE)
}

} // verus!
