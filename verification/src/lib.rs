//! A soundboard library: hotkey parsing and binding, the sound library store,
//! playback decisions and the small text helpers the user interface relies on.

pub mod text;
pub mod hotkeys;
pub mod models;
pub mod store;
pub mod playback;
pub mod interface;
