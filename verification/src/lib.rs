use vstd::prelude::*;

pub mod text;
pub mod json;
pub mod settings;
pub mod state;
pub mod manager;
pub mod db;
pub mod lnk;
pub mod commands;
pub mod win;
pub mod tray;
pub mod watcher;
pub mod hotkeys;

verus! {

} // verus!
