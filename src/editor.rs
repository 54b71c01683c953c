use vstd::prelude::*;

use crate::mapviewer::{filled_cells, paint_value, rect_bounds, rect_fits, MapViewer};
use crate::save::{DecodeError, TileMapStorage};
use crate::tilemap::{empty_map, Layer, MapView, Tile, TileMap};
use crate::tileselector::TileSelector;

verus! {

/// An event handed to the editing session: a user request, the completion of
/// an outside operation, or a command from the map canvas.
#[derive(Debug, Clone, PartialEq)]
pub enum Message {
    /// The error shown to the user was acknowledged.
    ErrorClosed,
    NewMap,
    /// The answer to a new-map request: `true` replaces the map.
    CreateNewMap(bool),
    OpenMap,
    /// `None` when no file was chosen; else the record read from it, or why it
    /// could not be read.
    MapOpened(Option<Result<TileMapStorage, String>>),
    SaveMap,
    /// `None` when no file was chosen; else whether writing it succeeded.
    MapSaved(Option<Result<(), String>>),
    OpenTiles,
    /// `None` when no file was chosen; else the frame count of the new tile
    /// source, or why it could not be read.
    TilesOpened(Option<Result<u32, String>>),
    TileSelected(u32),
    TileUnSelected,
    PaintTile(u16, u16),
    ClearTile(u16, u16),
    PaintRect(u16, u16, i32, i32),
    RectStarted,
    Redraw,
}

/// The long operation under way, if any. While one is, new requests for a
/// long operation are dropped; after an error, every event but its
/// acknowledgement is.
#[derive(Debug, Clone, Copy, PartialEq, Eq, Structural)]
pub enum LoadingState {
    Inactive,
    NewMap,
    OpeningMap,
    SavingMap,
    LoadingTiles,
    Error,
}

impl LoadingState {
    pub fn inactive(&self) -> (r: bool)
        ensures
            r == (*self == LoadingState::Inactive),
    {
        match self {
            LoadingState::Inactive => true,
            _ => false,
        }
    }

    pub fn active(&self) -> (r: bool)
        ensures
            r == (*self != LoadingState::Inactive),
    {
        !self.inactive()
    }

    pub fn is_error(&self) -> (r: bool)
        ensures
            r == (*self == LoadingState::Error),
    {
        match self {
            LoadingState::Error => true,
            _ => false,
        }
    }
}

/// Why an opened map file could not be taken.
#[derive(Debug, Clone, PartialEq)]
pub enum OpenMapError {
    /// The file could not be read as a record.
    Read(String),
    /// The record does not describe a map.
    Decode(DecodeError),
}

/// What the session asks of its surroundings after an event; each request
/// is answered by a later message.
#[derive(Debug, Clone, PartialEq)]
pub enum Effect {
    Nothing,
    /// Confirm replacing the map (asking first when it is modified); answered
    /// by `CreateNewMap`.
    AskNewMap(bool),
    /// Pick a map file (confirming first when the map is modified); answered
    /// by `MapOpened`.
    AskOpenMap(bool),
    /// Pick a file and write this record to it; answered by `MapSaved`.
    SaveMap(TileMapStorage),
    /// Pick a tile source (warning first when one is loaded); answered by
    /// `TilesOpened`.
    AskOpenTiles(bool),
    /// Put the tile source just read in place of the current one.
    InstallTiles,
    /// Show an error; answered by `ErrorClosed`.
    ShowOpenMapError(OpenMapError),
    ShowSaveError(String),
    ShowTilesError(String),
}

/// The tile that painting writes when palette index `sel` is chosen.
pub open spec fn tile_of(sel: Option<u32>) -> Option<Tile> {
    match sel {
        Some(i) => Some(Tile { value: i, h_flip: false, v_flip: false }),
        None => None,
    }
}

/// A canvas command stays inside the map of extent `g`.
pub open spec fn message_fits(m: Message, g: MapView) -> bool {
    match m {
        Message::PaintTile(x, y) => g.in_bounds(x as int, y as int),
        Message::ClearTile(x, y) => g.in_bounds(x as int, y as int),
        Message::PaintRect(x, y, w, h) => rect_fits(
            x as int,
            y as int,
            w as int,
            h as int,
            g.width,
            g.height,
        ),
        _ => true,
    }
}

/// The editing session: the operation latch, the palette and the map.
pub struct TilemapEditor {
    pub loading_state: LoadingState,
    pub tile_selector: TileSelector,
    pub map_viewer: MapViewer,
}

impl TilemapEditor {
    /// The map is well formed, and painting uses the tile chosen on the
    /// palette.
    pub open spec fn wf(&self) -> bool {
        &&& self.map_viewer.wf()
        &&& self.tile_selector.wf()
        &&& self.map_viewer.tile == tile_of(self.tile_selector.selection())
    }

    /// A session with an empty 32 by 32 map, no tile source and nothing
    /// under way.
    pub fn new() -> (r: Self)
        ensures
            r.wf(),
            r.loading_state == LoadingState::Inactive,
            r.map_viewer.grid() == empty_map(32, 32),
            !r.map_viewer.modified,
            r.tile_selector.frames() == None::<u32>,
    {
        TilemapEditor {
            loading_state: LoadingState::Inactive,
            tile_selector: TileSelector::new(),
            map_viewer: MapViewer::new(),
        }
    }

    /// Handles one event. Requests for a long operation start it only when
    /// nothing is under way; a new tile source is taken only while one is
    /// being loaded; a failed read or write sets the error state; after an
    /// error only its acknowledgement is taken. Palette and canvas commands
    /// change the palette and the map at once.
    pub fn update(&mut self, message: Message) -> (r: Effect)
        requires
            old(self).wf(),
            old(self).loading_state != LoadingState::Error ==> message_fits(
                message,
                old(self).map_viewer.grid(),
            ),
        ensures
            final(self).wf(),
            old(self).loading_state == LoadingState::Error ==> r == Effect::Nothing && if message
                is ErrorClosed {
                *final(self) == (TilemapEditor {
                    loading_state: LoadingState::Inactive,
                    ..*old(self)
                })
            } else {
                *final(self) == *old(self)
            },
            old(self).loading_state != LoadingState::Error ==> match message {
                Message::ErrorClosed => *final(self) == *old(self) && r == Effect::Nothing,
                Message::NewMap => if old(self).loading_state != LoadingState::Inactive {
                    *final(self) == *old(self) && r == Effect::Nothing
                } else {
                    *final(self) == (TilemapEditor {
                        loading_state: LoadingState::NewMap,
                        ..*old(self)
                    }) && r == Effect::AskNewMap(old(self).map_viewer.modified)
                },
                Message::CreateNewMap(create) => if create {
                    &&& final(self).loading_state == LoadingState::Inactive
                    &&& final(self).tile_selector == old(self).tile_selector
                    &&& final(self).map_viewer.grid() == empty_map(32, 32)
                    &&& !final(self).map_viewer.modified
                    &&& final(self).map_viewer.stale
                    &&& final(self).map_viewer.tool == old(self).map_viewer.tool
                    &&& final(self).map_viewer.tile == old(self).map_viewer.tile
                    &&& r == Effect::Nothing
                } else {
                    *final(self) == (TilemapEditor {
                        loading_state: LoadingState::Inactive,
                        ..*old(self)
                    }) && r == Effect::Nothing
                },
                Message::OpenMap => if old(self).loading_state != LoadingState::Inactive {
                    *final(self) == *old(self) && r == Effect::Nothing
                } else {
                    *final(self) == (TilemapEditor {
                        loading_state: LoadingState::OpeningMap,
                        ..*old(self)
                    }) && r == Effect::AskOpenMap(old(self).map_viewer.modified)
                },
                Message::MapOpened(opened) => {
                    match opened {
                        None => *final(self) == (TilemapEditor {
                            loading_state: LoadingState::Inactive,
                            ..*old(self)
                        }) && r == Effect::Nothing,
                        Some(Ok(storage)) => if storage.layout_ok() {
                            &&& final(self).loading_state == LoadingState::Inactive
                            &&& final(self).tile_selector == old(self).tile_selector
                            &&& final(self).map_viewer.grid() == storage.decoded()
                            &&& !final(self).map_viewer.modified
                            &&& final(self).map_viewer.stale
                            &&& final(self).map_viewer.tool == old(self).map_viewer.tool
                            &&& final(self).map_viewer.tile == old(self).map_viewer.tile
                            &&& r == Effect::Nothing
                        } else {
                            *final(self) == (TilemapEditor {
                                loading_state: LoadingState::Error,
                                ..*old(self)
                            }) && r == Effect::ShowOpenMapError(
                                OpenMapError::Decode(DecodeError::MalformedLayout),
                            )
                        },
                        Some(Err(e)) => *final(self) == (TilemapEditor {
                            loading_state: LoadingState::Error,
                            ..*old(self)
                        }) && r == Effect::ShowOpenMapError(OpenMapError::Read(e)),
                    }
                },
                Message::SaveMap => if old(self).loading_state != LoadingState::Inactive {
                    *final(self) == *old(self) && r == Effect::Nothing
                } else {
                    &&& *final(self) == (TilemapEditor {
                        loading_state: LoadingState::SavingMap,
                        ..*old(self)
                    })
                    &&& r is SaveMap
                    &&& r->SaveMap_0.is_record_of(old(self).map_viewer.grid())
                },
                Message::MapSaved(saved) => {
                    match saved {
                        None => *final(self) == (TilemapEditor {
                            loading_state: LoadingState::Inactive,
                            ..*old(self)
                        }) && r == Effect::Nothing,
                        Some(Ok(())) => *final(self) == (TilemapEditor {
                            loading_state: LoadingState::Inactive,
                            map_viewer: MapViewer { modified: false, ..old(self).map_viewer },
                            ..*old(self)
                        }) && r == Effect::Nothing,
                        Some(Err(e)) => *final(self) == (TilemapEditor {
                            loading_state: LoadingState::Error,
                            ..*old(self)
                        }) && r == Effect::ShowSaveError(e),
                    }
                },
                Message::OpenTiles => if old(self).loading_state != LoadingState::Inactive {
                    *final(self) == *old(self) && r == Effect::Nothing
                } else {
                    *final(self) == (TilemapEditor {
                        loading_state: LoadingState::LoadingTiles,
                        ..*old(self)
                    }) && r == Effect::AskOpenTiles(old(self).tile_selector.frames() is Some)
                },
                Message::TilesOpened(opened) => if old(self).loading_state
                    != LoadingState::LoadingTiles {
                    *final(self) == *old(self) && r == Effect::Nothing
                } else {
                    match opened {
                        None => *final(self) == (TilemapEditor {
                            loading_state: LoadingState::Inactive,
                            ..*old(self)
                        }) && r == Effect::Nothing,
                        Some(Ok(n)) => {
                            &&& final(self).loading_state == LoadingState::Inactive
                            &&& final(self).tile_selector.frames() == Some(n)
                            &&& final(self).tile_selector.selection() == None::<u32>
                            &&& final(self).map_viewer == (MapViewer {
                                tile: None,
                                stale: true,
                                ..old(self).map_viewer
                            })
                            &&& r == Effect::InstallTiles
                        },
                        Some(Err(e)) => *final(self) == (TilemapEditor {
                            loading_state: LoadingState::Error,
                            ..*old(self)
                        }) && r == Effect::ShowTilesError(e),
                    }
                },
                Message::TileSelected(i) => {
                    &&& final(self).loading_state == old(self).loading_state
                    &&& final(self).tile_selector.frames() == old(self).tile_selector.frames()
                    &&& final(self).tile_selector.selection() == match old(
                        self,
                    ).tile_selector.frames() {
                        Some(n) if i < n => Some(i),
                        _ => old(self).tile_selector.selection(),
                    }
                    &&& final(self).map_viewer == (MapViewer {
                        tile: tile_of(final(self).tile_selector.selection()),
                        ..old(self).map_viewer
                    })
                    &&& r == Effect::Nothing
                },
                Message::TileUnSelected => {
                    &&& final(self).loading_state == old(self).loading_state
                    &&& final(self).tile_selector.frames() == old(self).tile_selector.frames()
                    &&& final(self).tile_selector.selection() == None::<u32>
                    &&& final(self).map_viewer == (MapViewer {
                        tile: None,
                        ..old(self).map_viewer
                    })
                    &&& r == Effect::Nothing
                },
                Message::PaintTile(x, y) => {
                    &&& final(self).loading_state == old(self).loading_state
                    &&& final(self).tile_selector == old(self).tile_selector
                    &&& final(self).map_viewer.grid() == old(self).map_viewer.grid().with_tile(
                        x as int,
                        y as int,
                        paint_value(
                            old(self).map_viewer.tile,
                            old(self).map_viewer.grid().cell(Layer::Background, x as int, y as int),
                        ),
                        Layer::Background,
                    )
                    &&& final(self).map_viewer.modified
                    &&& final(self).map_viewer.stale
                    &&& final(self).map_viewer.tool == old(self).map_viewer.tool
                    &&& final(self).map_viewer.tile == old(self).map_viewer.tile
                    &&& r == Effect::Nothing
                },
                Message::ClearTile(x, y) => {
                    &&& final(self).loading_state == old(self).loading_state
                    &&& final(self).tile_selector == old(self).tile_selector
                    &&& final(self).map_viewer.grid() == old(self).map_viewer.grid().with_tile(
                        x as int,
                        y as int,
                        None,
                        Layer::Background,
                    )
                    &&& final(self).map_viewer.modified
                    &&& final(self).map_viewer.stale
                    &&& final(self).map_viewer.tool == old(self).map_viewer.tool
                    &&& final(self).map_viewer.tile == old(self).map_viewer.tile
                    &&& r == Effect::Nothing
                },
                Message::PaintRect(x, y, w, h) => {
                    let g = old(self).map_viewer.grid();
                    &&& final(self).loading_state == old(self).loading_state
                    &&& final(self).tile_selector == old(self).tile_selector
                    &&& final(self).map_viewer.grid() == (MapView {
                        background: filled_cells(
                            g.background,
                            g.width,
                            g.height,
                            old(self).map_viewer.tile,
                            x as int,
                            y as int,
                            w as int,
                            h as int,
                        ),
                        ..g
                    })
                    &&& final(self).map_viewer.modified == (old(self).map_viewer.modified || (w
                        != 0 && h != 0))
                    &&& final(self).map_viewer.stale == (old(self).map_viewer.stale || (w != 0
                        && h != 0))
                    &&& final(self).map_viewer.tool == old(self).map_viewer.tool
                    &&& final(self).map_viewer.tile == old(self).map_viewer.tile
                    &&& r == Effect::Nothing
                },
                Message::RectStarted => *final(self) == *old(self) && r == Effect::Nothing,
                Message::Redraw => *final(self) == *old(self) && r == Effect::Nothing,
            },
    {
        if self.loading_state.is_error() {
            if let Message::ErrorClosed = message {
                self.loading_state = LoadingState::Inactive;
            }
            return Effect::Nothing;
        }
        match message {
            Message::ErrorClosed => Effect::Nothing,
            Message::NewMap => {
                if self.loading_state.active() {
                    return Effect::Nothing;
                }
                self.loading_state = LoadingState::NewMap;
                Effect::AskNewMap(self.map_viewer.modified)
            },
            Message::CreateNewMap(create) => {
                self.loading_state = LoadingState::Inactive;
                if create {
                    self.map_viewer.set_entire_map(TileMap::new(32, 32));
                }
                Effect::Nothing
            },
            Message::OpenMap => {
                if self.loading_state.active() {
                    return Effect::Nothing;
                }
                self.loading_state = LoadingState::OpeningMap;
                Effect::AskOpenMap(self.map_viewer.modified)
            },
            Message::MapOpened(opened) => {
                self.loading_state = LoadingState::Inactive;
                match opened {
                    None => Effect::Nothing,
                    Some(Ok(storage)) => match storage.to_map() {
                        Ok(new_map) => {
                            self.map_viewer.set_entire_map(new_map);
                            Effect::Nothing
                        },
                        Err(e) => {
                            self.loading_state = LoadingState::Error;
                            Effect::ShowOpenMapError(OpenMapError::Decode(e))
                        },
                    },
                    Some(Err(e)) => {
                        self.loading_state = LoadingState::Error;
                        Effect::ShowOpenMapError(OpenMapError::Read(e))
                    },
                }
            },
            Message::SaveMap => {
                if self.loading_state.active() {
                    return Effect::Nothing;
                }
                self.loading_state = LoadingState::SavingMap;
                Effect::SaveMap(TileMapStorage::from_map(&self.map_viewer.map))
            },
            Message::MapSaved(saved) => {
                match saved {
                    None => {
                        self.loading_state = LoadingState::Inactive;
                        Effect::Nothing
                    },
                    Some(Ok(())) => {
                        self.loading_state = LoadingState::Inactive;
                        self.map_viewer.modified = false;
                        Effect::Nothing
                    },
                    Some(Err(e)) => {
                        self.loading_state = LoadingState::Error;
                        Effect::ShowSaveError(e)
                    },
                }
            },
            Message::OpenTiles => {
                if self.loading_state.active() {
                    return Effect::Nothing;
                }
                self.loading_state = LoadingState::LoadingTiles;
                Effect::AskOpenTiles(self.tile_selector.frame_count().is_some())
            },
            Message::TilesOpened(opened) => {
                if self.loading_state != LoadingState::LoadingTiles {
                    return Effect::Nothing;
                }
                match opened {
                    None => {
                        self.loading_state = LoadingState::Inactive;
                        Effect::Nothing
                    },
                    Some(Ok(frame_count)) => {
                        self.loading_state = LoadingState::Inactive;
                        self.tile_selector.load_source(frame_count);
                        self.map_viewer.refresh();
                        self.sync_tile();
                        Effect::InstallTiles
                    },
                    Some(Err(e)) => {
                        self.loading_state = LoadingState::Error;
                        Effect::ShowTilesError(e)
                    },
                }
            },
            Message::TileSelected(i) => {
                self.tile_selector.select(i);
                self.sync_tile();
                Effect::Nothing
            },
            Message::TileUnSelected => {
                self.tile_selector.unselect();
                self.sync_tile();
                Effect::Nothing
            },
            Message::PaintTile(x, y) => {
                self.map_viewer.paint_tile(x, y);
                Effect::Nothing
            },
            Message::ClearTile(x, y) => {
                self.map_viewer.set_tile(x, y, None);
                Effect::Nothing
            },
            Message::PaintRect(x, y, w, h) => {
                self.map_viewer.fill_rect(x, y, w, h);
                Effect::Nothing
            },
            Message::RectStarted => Effect::Nothing,
            Message::Redraw => Effect::Nothing,
        }
    }

    /// Whether `update` may be called with `message`: a canvas command must
    /// stay inside the map unless an error is being shown.
    pub fn can_take(&self, message: &Message) -> (r: bool)
        requires
            self.wf(),
        ensures
            r == (self.loading_state == LoadingState::Error || message_fits(
                *message,
                self.map_viewer.grid(),
            )),
    {
        if self.loading_state.is_error() {
            return true;
        }
        let (width, height) = self.map_viewer.map.get_dimensions();
        match message {
            Message::PaintTile(x, y) => *x < width && *y < height,
            Message::ClearTile(x, y) => *x < width && *y < height,
            Message::PaintRect(x, y, w, h) => {
                if *w == i32::MIN || *h == i32::MIN {
                    return false;
                }
                let (min_x, min_y, aw, ah) = rect_bounds(*x, *y, *w, *h);
                0 <= min_x && min_x as i64 + aw as i64 <= width as i64 && 0 <= min_y && min_y as i64
                    + ah as i64 <= height as i64
            },
            _ => true,
        }
    }

    fn sync_tile(&mut self)
        requires
            old(self).map_viewer.wf(),
            old(self).tile_selector.wf(),
        ensures
            final(self).wf(),
            final(self).loading_state == old(self).loading_state,
            final(self).tile_selector == old(self).tile_selector,
            final(self).map_viewer == (MapViewer {
                tile: tile_of(old(self).tile_selector.selection()),
                ..old(self).map_viewer
            }),
    {
        self.map_viewer.tile = match self.tile_selector.get_selected() {
            Some(i) => Some(Tile::new(i, false, false)),
            None => None,
        };
    }

}

} // verus!
