//! The subsystems that a unit controller drives.

pub mod mcu;
pub mod shared;
