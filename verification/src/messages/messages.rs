//! The messages and their byte layouts.

pub mod common;
pub mod control_req;
pub mod ecu;
pub mod mcu;
pub mod text;
pub mod tire_status;
pub mod update;

pub use common::Message;
