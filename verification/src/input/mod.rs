//! Keyboard and mouse button state.
pub mod keyboard;
pub mod mouse;
