//! Bounded value types shared by both units.

pub mod double;
pub mod parts;
pub mod percentage;
pub mod power;
pub mod single;
pub mod speed;
pub mod time;
pub mod wire_step;
