//! The frame identifiers, one per kind of message.
//!
//! Each is a standard 11-bit identifier, given by its raw value.

use vstd::prelude::*;

verus! {

/// The largest raw value of a standard identifier.
pub const MAX_STANDARD_ID: u16 = 0x7FF;

/// Identifier of the frames that carry the throttle output.
pub const ECU_MESG_ID: u16 = 0x01;

/// Identifier of the frames that carry the control requests.
pub const CTL_MESG_ID: u16 = 0x02;

/// Identifier of the frames that carry a wheel speed.
pub const TRS_MESG_ID: u16 = 0x03;

/// Identifier of the frames that carry a parameter change.
pub const UPD_MESG_ID: u16 = 0x04;

} // verus!
