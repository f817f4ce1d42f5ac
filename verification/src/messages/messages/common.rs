//! The message set and its codec.

use crate::messages::ids::{CTL_MESG_ID, ECU_MESG_ID, TRS_MESG_ID, UPD_MESG_ID};
use crate::messages::messages::control_req::ControlReqMessage;
use crate::messages::messages::ecu::EcuMessage;
use crate::messages::messages::tire_status::TireStatus;
use crate::messages::messages::update::Update;
use crate::utils::percentage::{
    in_range, lemma_wire_byte_round_trip, wire_byte, wire_ratio, Percentage,
};
use crate::utils::wire_step::{lemma_wire_within_step, within_wire_step};
use vstd::prelude::*;

verus! {

/// A message on the bus.  Each kind has its own frame identifier and encodes
/// to exactly eight bytes.
#[derive(Debug, Clone, Copy, PartialEq)]
pub enum Message {
    EcuMessage(EcuMessage),
    TireStatusMessage(TireStatus),
    ControlReqMessage(ControlReqMessage),
    UpdateMessage(Update),
}

impl Message {
    /// The eight bytes of the frame.
    pub open spec fn wire(self) -> Seq<u8> {
        match self {
            Message::EcuMessage(msg) => msg.wire(),
            Message::TireStatusMessage(msg) => msg.wire(),
            Message::ControlReqMessage(msg) => msg.wire(),
            Message::UpdateMessage(msg) => msg.wire(),
        }
    }

    /// The identifier of the frame.
    pub open spec fn id(self) -> u16 {
        match self {
            Message::EcuMessage(_) => ECU_MESG_ID,
            Message::TireStatusMessage(_) => TRS_MESG_ID,
            Message::ControlReqMessage(_) => CTL_MESG_ID,
            Message::UpdateMessage(_) => UPD_MESG_ID,
        }
    }

    /// Whether a frame under `id` is long enough to be decoded: as long as the
    /// part of it that the kind of message uses.  A frame under an unknown
    /// identifier is never read.
    pub open spec fn readable(id: u16, data: Seq<u8>) -> bool {
        &&& id == ECU_MESG_ID ==> data.len() >= 1
        &&& id == CTL_MESG_ID ==> data.len() >= 2
        &&& id == TRS_MESG_ID ==> data.len() >= 3
        &&& id == UPD_MESG_ID ==> data.len() >= 8
    }

    /// Whether a message goes by the identifier `id`.
    pub open spec fn known(id: u16) -> bool {
        id == ECU_MESG_ID || id == CTL_MESG_ID || id == TRS_MESG_ID || id == UPD_MESG_ID
    }

    /// Whether `decoded` is what the frame `data` under `id` stands for.
    ///
    /// The identifier alone decides whether there is a message, and of which
    /// kind: an identifier outside of the registry gives none, every other
    /// one gives the message of its kind, whatever the frame holds.  What the
    /// frame holds is read leniently: a tag that names no wheel, no mode or
    /// no tunable reads as the first one.
    pub open spec fn parses(id: u16, data: Seq<u8>, decoded: Option<Message>) -> bool
        recommends
            Message::readable(id, data),
    {
        if id == ECU_MESG_ID {
            decoded == Some(Message::EcuMessage(EcuMessage::parsed(data)))
        } else if id == CTL_MESG_ID {
            decoded == Some(Message::ControlReqMessage(ControlReqMessage::parsed(data)))
        } else if id == TRS_MESG_ID {
            decoded matches Some(Message::TireStatusMessage(msg)) && TireStatus::parses(data, msg)
        } else if id == UPD_MESG_ID {
            decoded matches Some(Message::UpdateMessage(msg)) && Update::parses(data, msg)
        } else {
            decoded is None
        }
    }

    /// The message with each ratio replaced by the ratio that its byte on the
    /// wire stands for.  Speeds, tags and payloads are not touched.
    pub open spec fn quantized(self) -> Message {
        match self {
            Message::EcuMessage(msg) => Message::EcuMessage(
                EcuMessage { throttle: Percentage::of_wire(wire_byte(msg.throttle@)) },
            ),
            Message::ControlReqMessage(msg) => Message::ControlReqMessage(
                ControlReqMessage {
                    throttle_req: Percentage::of_wire(wire_byte(msg.throttle_req@)),
                    brake_req: Percentage::of_wire(wire_byte(msg.brake_req@)),
                },
            ),
            Message::TireStatusMessage(msg) => self,
            Message::UpdateMessage(msg) => self,
        }
    }

    /// Every message encodes to eight bytes, and decoding them under the
    /// message's identifier gives the message back: exactly where it holds
    /// speeds, tags and payloads, and with each ratio replaced by what its
    /// byte stands for.
    pub proof fn lemma_round_trip(msg: Message)
        ensures
            msg.wire().len() == 8,
            Message::readable(msg.id(), msg.wire()),
            Message::parses(msg.id(), msg.wire(), Some(msg.quantized())),
    {
        match msg {
            Message::EcuMessage(m) => {},
            Message::ControlReqMessage(m) => {},
            Message::TireStatusMessage(m) => {
                TireStatus::lemma_round_trip(m);
            },
            Message::UpdateMessage(m) => {
                Update::lemma_round_trip(m);
            },
        }
    }

    /// A ratio from zero to one that a message carries comes back from the
    /// round trip over the wire within one step of the wire, 1/255, of what it
    /// was, and in its own place: throttle and brake are not swapped.
    pub proof fn lemma_round_trip_within_step(msg: Message)
        ensures
            msg matches Message::EcuMessage(sent) ==> msg.quantized() matches Message::EcuMessage(
                back,
            ) && (in_range(sent.throttle@) ==> within_wire_step(back.throttle@, sent.throttle@)),
            msg matches Message::ControlReqMessage(sent) ==> msg.quantized() matches Message::ControlReqMessage(
                back,
            ) && (in_range(sent.throttle_req@) ==> within_wire_step(
                back.throttle_req@,
                sent.throttle_req@,
            )) && (in_range(sent.brake_req@) ==> within_wire_step(
                back.brake_req@,
                sent.brake_req@,
            )),
    {
        match msg {
            Message::EcuMessage(sent) => {
                Percentage::lemma_from_bits(wire_ratio(wire_byte(sent.throttle@)));
                if in_range(sent.throttle@) {
                    lemma_wire_within_step(sent.throttle@);
                }
            },
            Message::ControlReqMessage(sent) => {
                Percentage::lemma_from_bits(wire_ratio(wire_byte(sent.throttle_req@)));
                Percentage::lemma_from_bits(wire_ratio(wire_byte(sent.brake_req@)));
                if in_range(sent.throttle_req@) {
                    lemma_wire_within_step(sent.throttle_req@);
                }
                if in_range(sent.brake_req@) {
                    lemma_wire_within_step(sent.brake_req@);
                }
            },
            Message::TireStatusMessage(sent) => {},
            Message::UpdateMessage(sent) => {},
        }
    }

    /// Replacing the ratios by what their bytes stand for changes nothing the
    /// second time.
    pub proof fn lemma_quantized_once(msg: Message)
        ensures
            msg.quantized().quantized() == msg.quantized(),
            msg.quantized().wire() == msg.wire(),
            msg.quantized().id() == msg.id(),
    {
        match msg {
            Message::EcuMessage(m) => {
                let byte = wire_byte(m.throttle@);
                lemma_wire_byte_round_trip(byte);
                Percentage::lemma_from_bits(wire_ratio(byte));
                assert(msg.quantized().wire() =~= msg.wire());
            },
            Message::ControlReqMessage(m) => {
                let throttle = wire_byte(m.throttle_req@);
                let brake = wire_byte(m.brake_req@);
                lemma_wire_byte_round_trip(throttle);
                lemma_wire_byte_round_trip(brake);
                Percentage::lemma_from_bits(wire_ratio(throttle));
                Percentage::lemma_from_bits(wire_ratio(brake));
                assert(msg.quantized().wire() =~= msg.wire());
            },
            Message::TireStatusMessage(m) => {},
            Message::UpdateMessage(m) => {},
        }
    }

    /// A message that was decoded from a frame is one that the round trip
    /// over the wire leaves as it is.
    pub proof fn lemma_decoded_is_quantized(id: u16, data: Seq<u8>, msg: Message)
        requires
            Message::readable(id, data),
            Message::parses(id, data, Some(msg)),
        ensures
            msg.quantized() == msg,
            msg.id() == id,
    {
        match msg {
            Message::EcuMessage(m) => {
                lemma_wire_byte_round_trip(data[0]);
                Percentage::lemma_from_bits(wire_ratio(data[0]));
            },
            Message::ControlReqMessage(m) => {
                lemma_wire_byte_round_trip(data[0]);
                lemma_wire_byte_round_trip(data[1]);
                Percentage::lemma_from_bits(wire_ratio(data[0]));
                Percentage::lemma_from_bits(wire_ratio(data[1]));
            },
            Message::TireStatusMessage(m) => {},
            Message::UpdateMessage(m) => {},
        }
    }

    /// What a frame stands for is one message at most.
    pub proof fn lemma_parses_one(id: u16, data: Seq<u8>, a: Option<Message>, b: Option<Message>)
        requires
            Message::parses(id, data, a),
            Message::parses(id, data, b),
        ensures
            a == b,
    {
        if id == TRS_MESG_ID {
            let x = a->0->TireStatusMessage_0;
            let y = b->0->TireStatusMessage_0;
            TireStatus::lemma_same_parts(x, y);
        } else if id == UPD_MESG_ID {
            let x = a->0->UpdateMessage_0;
            let y = b->0->UpdateMessage_0;
            Update::lemma_same_parts(x, y);
        }
    }

    /// The eight bytes of the frame.
    pub fn to_bytes(&self) -> (bytes: [u8; 8])
        ensures
            bytes@ == self.wire(),
    {
        match self {
            Message::EcuMessage(msg) => msg.to_bytes(),
            Message::TireStatusMessage(msg) => msg.to_bytes(),
            Message::ControlReqMessage(msg) => msg.to_bytes(),
            Message::UpdateMessage(msg) => msg.to_bytes(),
        }
    }

    /// Whether a frame under `id` is long enough to be decoded.
    pub fn can_decode(id: u16, data: &[u8]) -> (ok: bool)
        ensures
            ok == Message::readable(id, data@),
    {
        let needed: usize = if id == ECU_MESG_ID {
            1
        } else if id == CTL_MESG_ID {
            2
        } else if id == TRS_MESG_ID {
            3
        } else if id == UPD_MESG_ID {
            8
        } else {
            0
        };
        data.len() >= needed
    }

    /// The message that the frame `data` under the identifier `id` stands
    /// for, if there is one.
    pub fn from_bytes(id: u16, data: &[u8]) -> (decoded: Option<Self>)
        requires
            Message::readable(id, data@),
        ensures
            Message::parses(id, data@, decoded),
            decoded is Some <==> Message::known(id),
            decoded matches Some(msg) ==> msg.id() == id,
    {
        if id == ECU_MESG_ID {
            Some(Message::EcuMessage(EcuMessage::from_bytes(data)))
        } else if id == CTL_MESG_ID {
            Some(Message::ControlReqMessage(ControlReqMessage::from_bytes(data)))
        } else if id == TRS_MESG_ID {
            Some(Message::TireStatusMessage(TireStatus::from_bytes(data)))
        } else if id == UPD_MESG_ID {
            Some(Message::UpdateMessage(Update::from_bytes(data)))
        } else {
            None
        }
    }

    /// The identifier of the frame.
    pub fn to_id(&self) -> (id: u16)
        ensures
            id == self.id(),
    {
        match self {
            Message::EcuMessage(_) => ECU_MESG_ID,
            Message::TireStatusMessage(_) => TRS_MESG_ID,
            Message::ControlReqMessage(_) => CTL_MESG_ID,
            Message::UpdateMessage(_) => UPD_MESG_ID,
        }
    }
}

} // verus!
