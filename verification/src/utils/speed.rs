//! Wheel speed in revolutions per minute.

use vstd::prelude::*;
use vstd::std_specs::convert::FromSpecImpl;

verus! {

/// A wheel speed, in whole revolutions per minute.
///
/// Speeds are totally ordered by their number of revolutions.
#[derive(Debug, Clone, Copy, PartialEq, Eq, Structural, PartialOrd, Ord)]
pub struct WheelSpeed {
    rpm: u16,
}

impl View for WheelSpeed {
    type V = u16;

    /// The speed in revolutions per minute.
    closed spec fn view(&self) -> u16 {
        self.rpm
    }
}

/// The low byte of a 16-bit value.
pub open spec fn low_byte(value: u16) -> u8 {
    (value % 256) as u8
}

/// The high byte of a 16-bit value.
pub open spec fn high_byte(value: u16) -> u8 {
    (value / 256) as u8
}

/// The 16-bit value that two little-endian bytes stand for.
pub open spec fn join_bytes(low: u8, high: u8) -> u16 {
    (low + 256 * high) as u16
}

/// Splitting a value and joining the two bytes gives the value back.
pub proof fn lemma_split_join(value: u16)
    ensures
        join_bytes(low_byte(value), high_byte(value)) == value,
{
}

/// Joining two bytes and splitting the value gives the two bytes back.
pub proof fn lemma_join_split(low: u8, high: u8)
    ensures
        low_byte(join_bytes(low, high)) == low,
        high_byte(join_bytes(low, high)) == high,
{
}

impl WheelSpeed {
    /// The speed of `rpm` revolutions per minute, for use in contracts.
    pub closed spec fn of_rpm(rpm: u16) -> WheelSpeed {
        WheelSpeed { rpm }
    }

    /// A speed is what its number of revolutions says.
    pub proof fn lemma_of_rpm(rpm: u16)
        ensures
            WheelSpeed::of_rpm(rpm)@ == rpm,
    {
    }

    /// Two speeds of the same number of revolutions are the same speed.
    pub proof fn lemma_view_injective(a: WheelSpeed, b: WheelSpeed)
        requires
            a@ == b@,
        ensures
            a == b,
    {
    }

    /// The speed in revolutions per minute.
    pub fn rpm(&self) -> (rpm: u16)
        ensures
            rpm == self@,
    {
        self.rpm
    }

    /// The two bytes of the speed, low byte first.
    pub fn to_packets(&self) -> (packets: [u8; 2])
        ensures
            packets[0] == low_byte(self@),
            packets[1] == high_byte(self@),
    {
        [(self.rpm % 256) as u8, (self.rpm / 256) as u8]
    }

    /// The speed that two bytes stand for, low byte first.
    pub fn from_packets(data: &[u8; 2]) -> (speed: Self)
        ensures
            speed@ == join_bytes(data[0], data[1]),
    {
        let low: u16 = data[0] as u16;
        let high: u16 = data[1] as u16;
        Self { rpm: low + 256 * high }
    }

    /// Whether this speed is strictly above `other`.
    pub fn exceeds(&self, other: &WheelSpeed) -> (above: bool)
        ensures
            above == (self@ > other@),
    {
        self.rpm > other.rpm
    }
}

impl From<u16> for WheelSpeed {
    fn from(value: u16) -> (speed: WheelSpeed)
        ensures
            speed@ == value,
            speed == WheelSpeed::of_rpm(value),
    {
        Self { rpm: value }
    }
}

impl FromSpecImpl<u16> for WheelSpeed {
    open spec fn obeys_from_spec() -> bool {
        true
    }

    open spec fn from_spec(value: u16) -> WheelSpeed {
        WheelSpeed::of_rpm(value)
    }
}

impl From<WheelSpeed> for u16 {
    fn from(value: WheelSpeed) -> (rpm: u16)
        ensures
            rpm == value@,
    {
        value.rpm
    }
}

impl FromSpecImpl<WheelSpeed> for u16 {
    open spec fn obeys_from_spec() -> bool {
        true
    }

    open spec fn from_spec(value: WheelSpeed) -> u16 {
        value@
    }
}

} // verus!
