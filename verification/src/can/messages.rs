//! Frames with every ratio as its raw byte, from 0 to 255, and every speed
//! as its raw number of revolutions.

use crate::utils::speed::{high_byte, join_bytes, lemma_split_join, low_byte};
use vstd::prelude::*;

verus! {

/// The pedals as applied.  On the wire: throttle, brake, six zero bytes.
#[derive(Debug, Clone, Copy, PartialEq, Eq, Structural)]
pub struct McuMessage {
    pub throttle: u8,
    pub brake: u8,
}

impl McuMessage {
    /// The eight bytes of the frame.
    pub open spec fn wire(self) -> Seq<u8> {
        seq![self.throttle, self.brake, 0u8, 0u8, 0u8, 0u8, 0u8, 0u8]
    }

    /// The message that a frame stands for.
    pub open spec fn parsed(data: Seq<u8>) -> McuMessage
        recommends
            data.len() >= 2,
    {
        McuMessage { throttle: data[0], brake: data[1] }
    }

    /// Decoding the frame of a message gives the message back.
    pub proof fn lemma_round_trip(msg: McuMessage)
        ensures
            msg.wire().len() == 8,
            McuMessage::parsed(msg.wire()) == msg,
    {
    }

    /// The eight bytes of the frame.
    pub fn to_bytes(&self) -> (bytes: [u8; 8])
        ensures
            bytes@ == self.wire(),
    {
        let bytes: [u8; 8] = [self.throttle, self.brake, 0, 0, 0, 0, 0, 0];
        assert(bytes@ =~= self.wire());
        bytes
    }

    /// The message that a frame stands for.
    pub fn from_bytes(data: &[u8]) -> (msg: Self)
        requires
            data@.len() >= 2,
        ensures
            msg == McuMessage::parsed(data@),
    {
        Self { throttle: data[0], brake: data[1] }
    }
}

/// The pedals as requested, and the speed of the front wheel.  On the wire:
/// throttle, brake, the speed with its low byte first, four zero bytes.
#[derive(Debug, Clone, Copy, PartialEq, Eq, Structural)]
pub struct FcuMessage {
    pub throttle_req: u8,
    pub brake_req: u8,
    pub tire_rpm: u16,
}

impl FcuMessage {
    /// The eight bytes of the frame.
    pub open spec fn wire(self) -> Seq<u8> {
        seq![
            self.throttle_req,
            self.brake_req,
            low_byte(self.tire_rpm),
            high_byte(self.tire_rpm),
            0u8,
            0u8,
            0u8,
            0u8,
        ]
    }

    /// The message that a frame stands for.
    pub open spec fn parsed(data: Seq<u8>) -> FcuMessage
        recommends
            data.len() >= 4,
    {
        FcuMessage {
            throttle_req: data[0],
            brake_req: data[1],
            tire_rpm: join_bytes(data[2], data[3]),
        }
    }

    /// Decoding the frame of a message gives the message back.
    pub proof fn lemma_round_trip(msg: FcuMessage)
        ensures
            msg.wire().len() == 8,
            FcuMessage::parsed(msg.wire()) == msg,
    {
        lemma_split_join(msg.tire_rpm);
    }

    /// The eight bytes of the frame.
    pub fn to_bytes(&self) -> (bytes: [u8; 8])
        ensures
            bytes@ == self.wire(),
    {
        let bytes: [u8; 8] = [
            self.throttle_req,
            self.brake_req,
            (self.tire_rpm % 256) as u8,
            (self.tire_rpm / 256) as u8,
            0,
            0,
            0,
            0,
        ];
        assert(bytes@ =~= self.wire());
        bytes
    }

    /// The message that a frame stands for.
    pub fn from_bytes(data: &[u8]) -> (msg: Self)
        requires
            data@.len() >= 4,
        ensures
            msg == FcuMessage::parsed(data@),
    {
        let low: u16 = data[2] as u16;
        let high: u16 = data[3] as u16;
        Self { throttle_req: data[0], brake_req: data[1], tire_rpm: low + 256 * high }
    }
}

/// The speed of the rear wheel.  On the wire: the speed with its low byte
/// first, six zero bytes.
#[derive(Debug, Clone, Copy, PartialEq, Eq, Structural)]
pub struct RcuMessage {
    pub tire_rpm: u16,
}

impl RcuMessage {
    /// The eight bytes of the frame.
    pub open spec fn wire(self) -> Seq<u8> {
        seq![low_byte(self.tire_rpm), high_byte(self.tire_rpm), 0u8, 0u8, 0u8, 0u8, 0u8, 0u8]
    }

    /// The message that a frame stands for.
    pub open spec fn parsed(data: Seq<u8>) -> RcuMessage
        recommends
            data.len() >= 2,
    {
        RcuMessage { tire_rpm: join_bytes(data[0], data[1]) }
    }

    /// Decoding the frame of a message gives the message back.
    pub proof fn lemma_round_trip(msg: RcuMessage)
        ensures
            msg.wire().len() == 8,
            RcuMessage::parsed(msg.wire()) == msg,
    {
        lemma_split_join(msg.tire_rpm);
    }

    /// The eight bytes of the frame.
    pub fn to_bytes(&self) -> (bytes: [u8; 8])
        ensures
            bytes@ == self.wire(),
    {
        let bytes: [u8; 8] = [
            (self.tire_rpm % 256) as u8,
            (self.tire_rpm / 256) as u8,
            0,
            0,
            0,
            0,
            0,
            0,
        ];
        assert(bytes@ =~= self.wire());
        bytes
    }

    /// The message that a frame stands for.
    pub fn from_bytes(data: &[u8]) -> (msg: Self)
        requires
            data@.len() >= 2,
        ensures
            msg == RcuMessage::parsed(data@),
    {
        let low: u16 = data[0] as u16;
        let high: u16 = data[1] as u16;
        Self { tire_rpm: low + 256 * high }
    }
}

} // verus!
