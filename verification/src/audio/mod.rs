//! The audio path from the emulation thread to the output device.

pub mod ring;
