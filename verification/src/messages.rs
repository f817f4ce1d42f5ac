//! The wire protocol: one eight-byte frame per message.

pub mod ids;
pub mod messages;
