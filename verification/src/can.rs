//! Frames whose fields are raw integers.

pub mod messages;
