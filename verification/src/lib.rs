//! Control-logic core of a two-node vehicle electronics platform.
//!
//! A front control unit and a motor control unit exchange fixed-format
//! eight-byte frames over a shared bus.  This crate holds the wire codec, the
//! bounded value types, the per-unit state machines, the drivetrain control
//! decisions and the runtime tuning protocol.  Every executable function is
//! verified against its contract.
//!
//! Ratios are single-precision values carried by their IEEE-754 bit pattern,
//! so that every comparison, every conversion to and from the wire and both
//! throttle curves are integer arithmetic with an exact statement.  The one
//! thing left to the caller is the PID loop of traction control: the engine
//! subsystem says when and with what it is to be fed, and what becomes of
//! the throttle for each of its answers.

pub mod can;
pub mod config;
pub mod controllers;
pub mod messages;
pub mod operations;
pub mod subsystems;
pub mod utils;

