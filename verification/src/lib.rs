//! Core of an interactive terminal file browser: screen geometry, fuzzy
//! filtering of directory entries, a styled frame buffer with a minimal-diff
//! redraw, and the navigation state machine that ties them together.
//!
//! Everything here is pure computation on plain values. Reading directories,
//! decoding terminal events and writing to the terminal are left to the
//! program around this library.

pub mod filesystem;
pub mod layout;
pub mod mmm_common;
pub mod style;
pub mod text;
pub mod types;
pub mod unicode_borders;
pub mod terminal;
