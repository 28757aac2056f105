//! The settings of the screen-streaming programs and their defaults.
//! Reading them from a file is the caller's.

pub mod gui;
pub mod slave;
