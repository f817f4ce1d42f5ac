//! The driver's requests.

use crate::utils::percentage::{wire_byte, Percentage};
use vstd::prelude::*;

verus! {

/// The throttle and the brake that the driver asks for.
///
/// On the wire: the throttle as one byte, the brake as one byte, then six
/// zero bytes.
#[derive(Debug, Clone, Copy, PartialEq)]
pub struct ControlReqMessage {
    pub throttle_req: Percentage,
    pub brake_req: Percentage,
}

impl ControlReqMessage {
    /// The eight bytes of the frame.
    pub open spec fn wire(self) -> Seq<u8> {
        seq![
            wire_byte(self.throttle_req@),
            wire_byte(self.brake_req@),
            0u8,
            0u8,
            0u8,
            0u8,
            0u8,
            0u8,
        ]
    }

    /// The message that a frame stands for.
    pub open spec fn parsed(data: Seq<u8>) -> ControlReqMessage
        recommends
            data.len() >= 2,
    {
        ControlReqMessage {
            throttle_req: Percentage::of_wire(data[0]),
            brake_req: Percentage::of_wire(data[1]),
        }
    }

    /// The eight bytes of the frame.
    pub fn to_bytes(&self) -> (bytes: [u8; 8])
        ensures
            bytes@ == self.wire(),
    {
        let bytes: [u8; 8] = [self.throttle_req.into(), self.brake_req.into(), 0, 0, 0, 0, 0, 0];
        assert(bytes@ =~= self.wire());
        bytes
    }

    /// The message that a frame stands for.
    pub fn from_bytes(data: &[u8]) -> (msg: Self)
        requires
            data@.len() >= 2,
        ensures
            msg == ControlReqMessage::parsed(data@),
    {
        Self { throttle_req: data[0].into(), brake_req: data[1].into() }
    }
}

} // verus!
