//! Subsystems of the motor control unit.

pub mod engine;
