//! Keyboard, gamepad and hotkey mapping.

pub mod hotkeys;
pub mod mapping;
pub mod router;
