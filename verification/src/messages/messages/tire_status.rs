//! The speed of one wheel.

use crate::utils::parts::Wheel;
use crate::utils::speed::{high_byte, join_bytes, lemma_split_join, low_byte, WheelSpeed};
use vstd::prelude::*;

verus! {

/// The speed that one wheel reports.
///
/// On the wire: the tag of the wheel, the speed as two bytes with the low
/// byte first, then five zero bytes.
#[derive(Debug, Clone, Copy, PartialEq, Eq, Structural)]
pub struct TireStatus {
    pub wheel: Wheel,
    pub ws: WheelSpeed,
}

impl TireStatus {
    /// The eight bytes of the frame.
    pub open spec fn wire(self) -> Seq<u8> {
        seq![self.wheel.tag(), low_byte(self.ws@), high_byte(self.ws@), 0u8, 0u8, 0u8, 0u8, 0u8]
    }

    /// Whether `msg` is the message that a frame stands for.
    pub open spec fn parses(data: Seq<u8>, msg: TireStatus) -> bool
        recommends
            data.len() >= 3,
    {
        msg.wheel == Wheel::of_tag(data[0]) && msg.ws@ == join_bytes(data[1], data[2])
    }

    /// Two reports of the same wheel at the same speed are the same report.
    pub proof fn lemma_same_parts(a: TireStatus, b: TireStatus)
        requires
            a.wheel == b.wheel,
            a.ws@ == b.ws@,
        ensures
            a == b,
    {
        WheelSpeed::lemma_view_injective(a.ws, b.ws);
    }

    /// Decoding the frame of a message gives the message back.
    pub proof fn lemma_round_trip(msg: TireStatus)
        ensures
            msg.wire().len() == 8,
            TireStatus::parses(msg.wire(), msg),
    {
        lemma_split_join(msg.ws@);
    }

    /// The eight bytes of the frame.
    pub fn to_bytes(&self) -> (bytes: [u8; 8])
        ensures
            bytes@ == self.wire(),
    {
        let packets = self.ws.to_packets();
        let bytes: [u8; 8] = [self.wheel.into(), packets[0], packets[1], 0, 0, 0, 0, 0];
        assert(bytes@ =~= self.wire());
        bytes
    }

    /// The message that a frame stands for.
    pub fn from_bytes(data: &[u8]) -> (msg: Self)
        requires
            data@.len() >= 3,
        ensures
            TireStatus::parses(data@, msg),
    {
        Self { wheel: data[0].into(), ws: WheelSpeed::from_packets(&[data[1], data[2]]) }
    }
}

} // verus!
