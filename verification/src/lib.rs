//! Core of a terminal emulator: the cell grid and its escape-sequence
//! interpreter, the pane layout tree, key encoding, URL detection and the
//! colour rules of the renderer. Every function carries a contract over a
//! mathematical model of the data it works on.

pub mod config;
pub mod input;
pub mod pane;
pub mod renderer;
pub mod terminal;
pub mod window;
