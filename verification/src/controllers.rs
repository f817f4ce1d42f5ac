//! The unit controllers: each owns its configuration, its state and its
//! subsystem.

pub mod fcu;
pub mod mcu;
pub mod shared;
