//! Save-file codec and turn synchronisation engine for a relay-based
//! multiplayer strategy game.

pub mod api;
pub mod cache;
pub mod manager;
pub mod matcher;
pub mod naming;
pub mod reader;
pub mod save;
pub mod text;
pub mod ui;
