//! The tunables of a unit.

pub mod config;
