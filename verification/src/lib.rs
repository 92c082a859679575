//! The core of a terminal emulator: the character grid with its scrollback, the
//! terminal state that escape sequences drive, keyboard and mouse encodings, text
//! selection, the configuration's colours and fonts, and the decisions behind drawing
//! the screen and handling window events.

pub mod cell;
pub mod text;
pub mod grid;
pub mod input;
pub mod terminal;
pub mod mouse;
pub mod selection;
pub mod config;
pub mod render;
pub mod preedit;
pub mod events;
pub mod atlas;
