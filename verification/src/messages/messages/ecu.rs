//! The throttle output of the motor control unit.

use crate::utils::percentage::{wire_byte, Percentage};
use vstd::prelude::*;

verus! {

/// The throttle that the motor control unit puts out.
///
/// On the wire: the throttle as one byte, then seven zero bytes.
#[derive(Debug, Clone, Copy, PartialEq)]
pub struct EcuMessage {
    pub throttle: Percentage,
}

impl EcuMessage {
    /// The eight bytes of the frame.
    pub open spec fn wire(self) -> Seq<u8> {
        seq![wire_byte(self.throttle@), 0u8, 0u8, 0u8, 0u8, 0u8, 0u8, 0u8]
    }

    /// The message that a frame stands for.
    pub open spec fn parsed(data: Seq<u8>) -> EcuMessage
        recommends
            data.len() >= 1,
    {
        EcuMessage { throttle: Percentage::of_wire(data[0]) }
    }

    /// The eight bytes of the frame.
    pub fn to_bytes(&self) -> (bytes: [u8; 8])
        ensures
            bytes@ == self.wire(),
    {
        let bytes: [u8; 8] = [self.throttle.into(), 0, 0, 0, 0, 0, 0, 0];
        assert(bytes@ =~= self.wire());
        bytes
    }

    /// The message that a frame stands for.
    pub fn from_bytes(data: &[u8]) -> (msg: Self)
        requires
            data@.len() >= 1,
        ensures
            msg == EcuMessage::parsed(data@),
    {
        Self { throttle: data[0].into() }
    }
}

} // verus!
