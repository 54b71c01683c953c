//! Editing engine of a two-layer tile-grid editor: the layered grid, the
//! pointer interaction state machine, the tile palette mapping, the session
//! operation latch and the grid's persisted record.

pub mod tilemap;
pub mod editor;
pub mod mapviewer;
pub mod save;
pub mod style;
pub mod tileselector;
