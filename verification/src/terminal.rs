//! The character grid: buffers, the diff between two frames, and drawing.

pub mod boxes;
pub mod buffer;
pub mod composer;
pub mod diff;
pub mod draw;
pub mod events;
pub mod layout;
