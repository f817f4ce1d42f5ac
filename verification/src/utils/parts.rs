//! Identity of the parts that report over the bus.

use vstd::prelude::*;
use vstd::std_specs::convert::FromSpecImpl;

verus! {

/// Which axle a wheel-speed sample was taken on.
#[derive(Debug, Clone, Copy, PartialEq, Eq, Structural)]
pub enum Wheel {
    Rear,
    Front,
}

impl Wheel {
    /// The tag that stands for this wheel on the wire.
    pub open spec fn tag(self) -> u8 {
        match self {
            Wheel::Rear => 0,
            Wheel::Front => 1,
        }
    }

    /// The wheel that a wire tag stands for.  Decoding is lenient: every tag
    /// but that of the front wheel reads as the rear wheel.
    pub open spec fn of_tag(tag: u8) -> Wheel {
        if tag == 1 {
            Wheel::Front
        } else {
            Wheel::Rear
        }
    }

    /// Encoding a wheel and decoding the tag gives the wheel back.
    pub proof fn lemma_tag_round_trip(wheel: Wheel)
        ensures
            Wheel::of_tag(wheel.tag()) == wheel,
    {
    }
}

impl From<Wheel> for u8 {
    fn from(value: Wheel) -> (tag: u8)
        ensures
            tag == value.tag(),
    {
        match value {
            Wheel::Rear => 0,
            Wheel::Front => 1,
        }
    }
}

impl FromSpecImpl<Wheel> for u8 {
    open spec fn obeys_from_spec() -> bool {
        true
    }

    open spec fn from_spec(value: Wheel) -> u8 {
        value.tag()
    }
}

impl From<u8> for Wheel {
    fn from(value: u8) -> (wheel: Wheel)
        ensures
            wheel == Wheel::of_tag(value),
    {
        if value == 1 {
            Wheel::Front
        } else {
            Wheel::Rear
        }
    }
}

impl FromSpecImpl<u8> for Wheel {
    open spec fn obeys_from_spec() -> bool {
        true
    }

    open spec fn from_spec(value: u8) -> Wheel {
        Wheel::of_tag(value)
    }
}

} // verus!
