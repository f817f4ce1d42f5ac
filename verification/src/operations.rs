//! The drivetrain control algorithms and the tuning protocol.

pub mod config_updater;
pub mod throttle_map;
pub mod traction_control;
