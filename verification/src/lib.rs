//! Game and interface logic of a small interactive application kit: the
//! snake game, the searchable launcher menu, the screen stack, the keyboard
//! tracker and the bitmap font, each with its contract.
pub mod examples;
pub mod game;
pub mod gpu;
pub mod stdlib;
pub mod ui;
