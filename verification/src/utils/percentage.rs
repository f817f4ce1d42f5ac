//! A ratio meant to lie between zero and one.

use crate::utils::single;
use vstd::arithmetic::div_mod::{lemma_basic_div, lemma_div_by_multiple};
use vstd::arithmetic::power2::{lemma2_to64, lemma_pow2_adds, lemma_pow2_pos, pow2};
use vstd::prelude::*;
use vstd::std_specs::cmp::PartialEqSpecImpl;
use vstd::std_specs::convert::FromSpecImpl;

verus! {

/// A ratio, held as the bit pattern of an IEEE-754 single.
///
/// Construction from a fraction, from a ratio of two integers or from a number
/// of percent clamps the value to the range from zero to one.  A ratio taken
/// over unchanged from a bit pattern may lie outside of it, and may even be
/// not a number; the conversions to integers saturate on such values.
#[derive(Copy, Clone, Debug)]
pub struct Percentage {
    bits: u32,
}

impl View for Percentage {
    type V = u32;

    /// The bit pattern of the ratio.
    closed spec fn view(&self) -> u32 {
        self.bits
    }
}

/// The value that a byte on the wire stands for: `byte / 255`.
pub open spec fn wire_ratio(byte: u8) -> u32 {
    single::ratio_bits(byte as nat, 255)
}

/// The byte that stands for a ratio on the wire: the whole part of the ratio
/// times 255.
pub open spec fn wire_byte(bits: u32) -> u8 {
    single::scaled_whole(bits, 255, false) as u8
}

/// The value of a number of percent: `percent / 100`, and one where that is
/// more than one.
pub open spec fn percent_ratio(percent: u8) -> u32 {
    clamped(single::ratio_bits(percent as nat, 100))
}

/// The number of percent nearest to a ratio, at most 255.
pub open spec fn whole_percent(bits: u32) -> u8 {
    single::scaled_whole(bits, 100, true) as u8
}

/// The value brought into the range from zero to one: what is below zero
/// becomes zero, what is above one becomes one, and everything else, a value
/// that is not a number included, stays as it is.
pub open spec fn clamped(bits: u32) -> u32 {
    if single::spec_lt(bits, single::ZERO) {
        single::ZERO
    } else if single::spec_lt(single::ONE, bits) {
        single::ONE
    } else {
        bits
    }
}

/// Whether the value lies in the range from zero to one.
pub open spec fn in_range(bits: u32) -> bool {
    single::spec_le(single::ZERO, bits) && single::spec_le(bits, single::ONE)
}

/// Clamping brings every number into the range, and leaves what is in the
/// range as it is.
pub proof fn lemma_clamped(bits: u32)
    ensures
        !single::spec_is_nan(bits) ==> in_range(clamped(bits)),
        in_range(bits) ==> clamped(bits) == bits,
        clamped(clamped(bits)) == clamped(bits),
{
}

/// The byte of the ratio `byte / 255` is `byte`, where the ratio, scaled by
/// `2^k` with a `k` from 24 to 31, has 24 binary digits before the point:
/// rounding the quotient and rounding the product each move the value by
/// less than the cut to a whole number takes away.
proof fn lemma_byte_survives(byte: nat, k: nat)
    requires
        1 <= byte <= 254,
        24 <= k <= 31,
        255 * 0x0080_0000 <= byte * pow2(k) < 255 * 0x0100_0000,
    ensures
        single::scaled_whole(single::ratio_bits(byte, 255), 255, false) == byte,
{
    lemma2_to64();
    let c = pow2(k);
    let d = pow2((k - 8) as nat);
    let e = pow2((k - 24) as nat);
    lemma_pow2_adds(8, (k - 8) as nat);
    lemma_pow2_adds(24, (k - 24) as nat);
    lemma_pow2_pos((k - 8) as nat);
    let t = byte * c;
    let u = byte * d;
    let v = byte * e;
    assert(t == 256 * u && t == 0x0100_0000 * v) by (nonlinear_arith)
        requires
            t == byte * c,
            u == byte * d,
            v == byte * e,
            c == 256 * d,
            c == 0x0100_0000 * e,
    ;
    // the scaled ratio is a whole number of 2^24, so it is 2^31 at least
    assert(128 <= v <= 254);
    single::lemma_doublings_is(byte, 255, k);
    let q = t / 255;
    let r = t % 255;
    let m = single::round_half_even(t, 255);
    assert(0x0080_0800 < m < 0x0100_0000);
    let bits = single::ratio_bits(byte, 255);
    assert(bits == (149 - k) * 0x0080_0000 + m);
    assert(single::magnitude(bits) == bits);
    assert(single::biased_exponent(bits) == 150 - k) by {
        assert(bits == (150 - k) * 0x0080_0000 + (m - 0x0080_0000));
    }
    assert(single::fraction(bits) == m - 0x0080_0000);
    assert(single::significand(bits) == m);
    assert(single::down_shift(bits) == k);
    let p = m * 255;
    assert(0x8000_0000 <= p < 0x1_0000_0000);
    assert(-127 <= p - t <= 127);
    assert(single::excess(p) == 8) by {
        reveal_with_fuel(single::excess, 9);
    }
    assert(single::round_half_even(p, 256) == u);
    assert(u / d == byte) by {
        lemma_div_by_multiple(byte as int, d as int);
    }
}

/// Every byte on the wire survives decoding and encoding: the byte of the
/// ratio that a byte stands for is the byte itself.
pub proof fn lemma_wire_byte_round_trip(byte: u8)
    ensures
        wire_byte(wire_ratio(byte)) == byte,
{
    lemma2_to64();
    if byte == 0 {
        lemma_pow2_pos(149);
        assert(single::ratio_bits(0, 255) == 0);
        assert(single::significand(0) == 0);
        assert(single::excess(0) == 0);
        assert(single::round_half_even(0, 1) == 0);
        assert(single::down_shift(0) == 149);
        lemma_basic_div(0, pow2(149) as int);
        assert(single::scaled_whole(0, 255, false) == 0);
    } else if byte == 255 {
        assert(255 * pow2(23) == 255 * 0x0080_0000);
        single::lemma_doublings_is(255, 255, 23);
        let bits = single::ratio_bits(255, 255);
        assert(single::round_half_even(255 * 0x0080_0000, 255) == 0x0080_0000);
        assert(bits == single::ONE);
        assert(single::excess(0x7F80_0000) == 7) by {
            reveal_with_fuel(single::excess, 8);
        }
        assert(single::round_half_even(0x7F80_0000, 128) == 0x00FF_0000);
        assert(single::biased_exponent(single::ONE) == 127);
        assert(single::significand(single::ONE) == 0x0080_0000);
        assert(single::down_shift(single::ONE) == 23);
        assert(0x0080_0000 * 255 == 0x7F80_0000);
        assert(0x00FF_0000int / 0x1_0000 == 255);
        assert(single::scaled_whole(single::ONE, 255, false) == 255);
    } else if byte >= 128 {
        lemma_byte_survives(byte as nat, 24);
    } else if byte >= 64 {
        lemma_byte_survives(byte as nat, 25);
    } else if byte >= 32 {
        lemma_byte_survives(byte as nat, 26);
    } else if byte >= 16 {
        lemma_byte_survives(byte as nat, 27);
    } else if byte >= 8 {
        lemma_byte_survives(byte as nat, 28);
    } else if byte >= 4 {
        lemma_byte_survives(byte as nat, 29);
    } else if byte >= 2 {
        lemma_byte_survives(byte as nat, 30);
    } else {
        lemma_byte_survives(byte as nat, 31);
    }
}

impl Percentage {
    /// The ratio with the given bit pattern, for use in contracts.
    pub closed spec fn spec_from_bits(bits: u32) -> Percentage {
        Percentage { bits }
    }

    /// The ratio that a byte on the wire stands for.
    pub open spec fn of_wire(byte: u8) -> Percentage {
        Percentage::spec_from_bits(wire_ratio(byte))
    }

    /// A ratio is what its bit pattern says.
    pub proof fn lemma_from_bits(bits: u32)
        ensures
            Percentage::spec_from_bits(bits)@ == bits,
    {
    }

    /// Two ratios with the same bit pattern are the same ratio.
    pub proof fn lemma_view_injective(a: Percentage, b: Percentage)
        requires
            a@ == b@,
        ensures
            a == b,
    {
    }

    /// The ratio with the given bit pattern, taken over as it is.
    pub fn from_bits(bits: u32) -> (ratio: Self)
        ensures
            ratio@ == bits,
            ratio == Percentage::spec_from_bits(bits),
    {
        Self { bits }
    }

    /// The bit pattern of the ratio.
    pub fn to_bits(&self) -> (bits: u32)
        ensures
            bits == self@,
    {
        self.bits
    }

    /// The ratio for the fraction with the given bit pattern, clamped to the
    /// range from zero to one.
    pub fn from_fractional(value: u32) -> (ratio: Self)
        ensures
            ratio@ == clamped(value),
            ratio == Percentage::spec_from_bits(clamped(value)),
    {
        let mut us = Self { bits: value };
        us.clamp();
        us
    }

    /// The bit pattern of the ratio as a fraction.
    pub fn to_fractional(&self) -> (bits: u32)
        ensures
            bits == self@,
    {
        self.bits
    }

    /// The ratio `num / den`, clamped to the range from zero to one.
    pub fn from_ratio(num: u16, den: u16) -> (ratio: Self)
        requires
            den > 0,
        ensures
            ratio@ == clamped(single::ratio_bits(num as nat, den as nat)),
            ratio == Percentage::spec_from_bits(clamped(single::ratio_bits(num as nat, den as nat))),
    {
        let mut us = Self { bits: single::ratio(num, den) };
        us.clamp();
        us
    }

    /// The ratio for a number of percent, clamped to one.
    pub fn from_int(val: u8) -> (ratio: Self)
        ensures
            ratio@ == percent_ratio(val),
            ratio == Percentage::spec_from_bits(percent_ratio(val)),
    {
        Self::from_ratio(val as u16, 100)
    }

    /// The number of percent nearest to the ratio, at most 255.
    pub fn to_int(&self) -> (percent: u8)
        ensures
            percent == whole_percent(self@),
    {
        single::scale_to_whole(self.bits, 100, true)
    }

    /// The ratio one.
    pub fn full() -> (ratio: Self)
        ensures
            ratio@ == single::ONE,
            ratio == Percentage::spec_from_bits(single::ONE),
    {
        Percentage { bits: single::ONE }
    }

    /// The ratio zero.
    pub fn zero() -> (ratio: Self)
        ensures
            ratio@ == single::ZERO,
            ratio == Percentage::spec_from_bits(single::ZERO),
    {
        Percentage { bits: single::ZERO }
    }

    /// Brings the ratio into the range from zero to one.
    pub fn clamp(&mut self)
        ensures
            final(self)@ == clamped(old(self)@),
    {
        if single::lt(self.bits, single::ZERO) {
            self.bits = single::ZERO;
        } else if single::lt(single::ONE, self.bits) {
            self.bits = single::ONE;
        }
    }

    /// Whether the ratio is zero, of either sign.
    pub fn is_zero(&self) -> (zero: bool)
        ensures
            zero == single::spec_eq(self@, single::ZERO),
    {
        single::eq(self.bits, single::ZERO)
    }

    /// Whether the ratio is at most `bound`, given by its bit pattern.
    pub fn at_most(&self, bound: u32) -> (holds: bool)
        ensures
            holds == single::spec_le(self@, bound),
    {
        single::le(self.bits, bound)
    }
}

impl PartialEq for Percentage {
    /// Equality of the two values: the two zeros are equal, and a ratio that
    /// is not a number equals nothing, not even itself.
    fn eq(&self, other: &Self) -> (equal: bool) {
        single::eq(self.bits, other.bits)
    }
}

impl PartialEqSpecImpl for Percentage {
    open spec fn obeys_eq_spec() -> bool {
        true
    }

    open spec fn eq_spec(&self, other: &Self) -> bool {
        single::spec_eq(self@, other@)
    }
}

impl From<u8> for Percentage {
    /// The ratio that a byte on the wire stands for.
    fn from(value: u8) -> (ratio: Percentage)
        ensures
            ratio@ == wire_ratio(value),
            ratio == Percentage::of_wire(value),
    {
        Percentage { bits: single::ratio(value as u16, 255) }
    }
}

impl FromSpecImpl<u8> for Percentage {
    open spec fn obeys_from_spec() -> bool {
        true
    }

    closed spec fn from_spec(value: u8) -> Percentage {
        Percentage { bits: wire_ratio(value) }
    }
}

impl From<Percentage> for u8 {
    /// The byte that stands for the ratio on the wire.
    fn from(value: Percentage) -> (byte: u8)
        ensures
            byte == wire_byte(value@),
    {
        single::scale_to_whole(value.bits, 255, false)
    }
}

impl FromSpecImpl<Percentage> for u8 {
    open spec fn obeys_from_spec() -> bool {
        true
    }

    open spec fn from_spec(value: Percentage) -> u8 {
        wire_byte(value@)
    }
}

} // verus!
