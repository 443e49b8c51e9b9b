//! The emulation thread's decisions: which command does what to the run state, and what
//! each loop iteration should do. The libretro calls themselves are made by the
//! application around these functions.

pub mod runner;
pub mod loader;
