//! The state of the pedals as the motor control unit reports it.

use crate::utils::percentage::{wire_byte, Percentage};
use vstd::prelude::*;

verus! {

/// The throttle and the brake that are applied.
///
/// On the wire: the throttle as one byte, the brake as one byte, then six
/// zero bytes.
#[derive(Debug, Clone, Copy, PartialEq)]
pub struct McuMessage {
    pub throttle: Percentage,
    pub brake: Percentage,
}

impl McuMessage {
    /// The eight bytes of the frame.
    pub open spec fn wire(self) -> Seq<u8> {
        seq![wire_byte(self.throttle@), wire_byte(self.brake@), 0u8, 0u8, 0u8, 0u8, 0u8, 0u8]
    }

    /// The message that a frame stands for.
    pub open spec fn parsed(data: Seq<u8>) -> McuMessage
        recommends
            data.len() >= 2,
    {
        McuMessage { throttle: Percentage::of_wire(data[0]), brake: Percentage::of_wire(data[1]) }
    }

    /// The eight bytes of the frame.
    pub fn to_bytes(&self) -> (bytes: [u8; 8])
        ensures
            bytes@ == self.wire(),
    {
        let bytes: [u8; 8] = [self.throttle.into(), self.brake.into(), 0, 0, 0, 0, 0, 0];
        assert(bytes@ =~= self.wire());
        bytes
    }

    /// The message that a frame stands for.
    pub fn from_bytes(data: &[u8]) -> (msg: Self)
        requires
            data@.len() >= 2,
        ensures
            msg == McuMessage::parsed(data@),
    {
        Self { throttle: data[0].into(), brake: data[1].into() }
    }
}

} // verus!
