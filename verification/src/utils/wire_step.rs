//! How far a ratio moves on its way over the wire.
//!
//! A ratio from zero to one goes onto the wire as one byte and comes back as
//! the ratio that the byte stands for.  The two lie within one step of the
//! wire, 1/255, of each other.

use crate::utils::percentage::{in_range, wire_byte, wire_ratio};
use crate::utils::power::lemma_pattern_of_parts;
use crate::utils::percentage::lemma_wire_byte_round_trip;
use crate::utils::single::{
    doublings, down_shift, excess, lemma_doublings_is, lemma_ratio_is_nearest, lemma_ratio_units,
    magnitude, ratio_bits, round_half_even, scaled_whole, sign_set, significand, units,
};
use vstd::arithmetic::div_mod::{lemma_basic_div, lemma_div_by_multiple};
use vstd::arithmetic::power2::{
    lemma2_to64, lemma_pow2_adds, lemma_pow2_pos, lemma_pow2_strictly_increases,
    lemma_pow2_unfold, pow2,
};
use vstd::prelude::*;

verus! {

/// Whether two ratios that are not negative lie within one step of the wire,
/// 1/255, of each other.
pub open spec fn within_wire_step(a: u32, b: u32) -> bool {
    &&& 255 * units(a) <= 255 * units(b) + pow2(149)
    &&& 255 * units(b) <= 255 * units(a) + pow2(149)
}

/// What the cut of a normal ratio of at most one to its byte rests on.  With
/// `m` the significand and `d` the shift of the ratio, `w` the weight of the
/// digits that rounding the product `255 * m` drops, `mr` the rounded
/// product and `whole` its whole part over `u = 2^d / w`: 255 times the
/// ratio, in units of `2^-149`, lies from `whole * 2^149 - h` to
/// `(whole + 1) * 2^149 - h`, with `h` half of what rounding drops.
proof fn lemma_cut_bounds(bits: u32)
    requires
        0x0080_0000 <= bits <= 0x3F80_0000,
    ensures
        ({
            let m = significand(bits);
            let d = down_shift(bits);
            let p = m * 255;
            let s = excess(p);
            let mr = round_half_even(p, pow2(s));
            let u = pow2((d - s) as nat);
            let whole = mr / u;
            let dd = pow2((149 - d) as nat);
            let h = pow2((s - 1) as nat) * dd;
            &&& 23 <= d <= 149
            &&& (s == 7 || s == 8)
            &&& d - s >= 16
            &&& 0x0080_0000 <= m < 0x0100_0000
            &&& mr <= 0x0100_0000
            &&& whole * u <= mr < whole * u + u
            &&& scaled_whole(bits, 255, false) == (if whole > 255 {
                255
            } else {
                whole
            })
            &&& units(bits) == m * dd
            &&& units(bits) <= pow2(149)
            &&& whole * pow2(149) <= 255 * units(bits) + h
            &&& 255 * units(bits) + h <= (whole + 1) * pow2(149)
            &&& mr == 0x0100_0000 && whole >= 1 ==> 255 * units(bits) <= whole * pow2(149)
            &&& h <= 128 * dd
            &&& dd * 0x0080_0000 <= pow2(149)
        }),
{
    lemma2_to64();
    lemma_pattern_of_parts(bits);
    let m = significand(bits);
    let d = down_shift(bits);
    let p = m * 255;
    let s = excess(p);
    assert((s == 7 || s == 8) && (s == 7 <==> p < 0x8000_0000)) by {
        reveal_with_fuel(excess, 10);
    }
    let w = pow2(s);
    let half = pow2((s - 1) as nat);
    assert(w == 2 * half && (s == 7 ==> half == 64) && (s == 8 ==> half == 128));
    let mr = round_half_even(p, w);
    let mw = mr * w;
    assert(2 * mw <= 2 * p + w && 2 * p <= 2 * mw + w && mr <= 0x0100_0000 && mr >= 0x0040_0000) by {
        if s == 7 {
            assert(mr == round_half_even(p, 128));
            assert(mw == mr * 128);
        } else {
            assert(mr == round_half_even(p, 256));
            assert(mw == mr * 256);
        }
    }
    assert(d == 23 ==> m == 0x0080_0000);
    assert(d - s >= 16);
    let u = pow2((d - s) as nat);
    let q = pow2(d as nat);
    let dd = pow2((149 - d) as nat);
    let t = pow2(149);
    lemma_pow2_adds(s, (d - s) as nat);
    lemma_pow2_adds(d as nat, (149 - d) as nat);
    lemma_pow2_adds((s - 1) as nat, (149 - d) as nat);
    lemma_pow2_pos((d - s) as nat);
    lemma_pow2_pos((149 - d) as nat);
    assert(q == w * u);
    assert(t == q * dd);
    let h = half * dd;
    let whole = mr / u;
    let g = whole * u;
    assert(g <= mr < g + u) by (nonlinear_arith)
        requires
            whole == mr / u,
            g == whole * u,
            u > 0,
            mr >= 0,
    ;
    // the product between the multiples of the cut
    let gw = g * w;
    assert(gw == whole * q && mw >= gw && mw + w <= gw + q) by (nonlinear_arith)
        requires
            gw == g * w,
            g == whole * u,
            q == w * u,
            mw == mr * w,
            g <= mr < g + u,
            w > 0,
    ;
    assert(gw <= p + half && p + half <= gw + q);
    let ap = p * dd;
    assert(units(bits) == m * dd);
    assert(ap == 255 * (m * dd)) by (nonlinear_arith)
        requires
            ap == p * dd,
            p == m * 255,
    ;
    assert(whole * t <= ap + h && ap + h <= (whole + 1) * t) by (nonlinear_arith)
        requires
            gw <= p + half,
            p + half <= gw + q,
            gw == whole * q,
            t == q * dd,
            h == half * dd,
            ap == p * dd,
            dd > 0,
    ;
    assert(h <= 128 * dd) by (nonlinear_arith)
        requires
            h == half * dd,
            half <= 128,
            dd > 0,
    ;
    // the ratio is at most one
    if d > 23 {
        lemma_pow2_strictly_increases(23, d as nat);
    }
    assert(dd * 0x0080_0000 <= t) by (nonlinear_arith)
        requires
            t == q * dd,
            q >= 0x0080_0000,
            dd > 0,
    ;
    if d > 24 {
        lemma_pow2_strictly_increases(24, d as nat);
    }
    assert(m * dd <= t) by (nonlinear_arith)
        requires
            t == q * dd,
            m <= q,
            dd > 0,
    ;
    // a product rounded up to two to the 24th lies below it
    if mr == 0x0100_0000 && whole >= 1 {
        assert(p < mw);
        let down = (d - s) as nat;
        if down > 24 {
            lemma_pow2_strictly_increases(24, down);
            lemma_basic_div(mr as int, u as int);
            assert(false);
        }
        lemma_pow2_adds(down, (24 - down) as nat);
        let c = pow2((24 - down) as nat);
        assert(mr == u * c);
        lemma_div_by_multiple(c as int, u as int);
        assert(whole == c) by (nonlinear_arith)
            requires
                whole == mr / u,
                mr == u * c,
                (c * u) / u == c,
                u > 0,
        ;
        assert(g == mr) by (nonlinear_arith)
            requires
                g == whole * u,
                whole == c,
                mr == u * c,
        ;
        assert(ap <= whole * t) by (nonlinear_arith)
            requires
                p < mw,
                mw == gw,
                gw == whole * q,
                t == q * dd,
                ap == p * dd,
                dd > 0,
        ;
    }
}

/// What the ratio of a byte rests on.  With `k` the number of doublings of
/// `byte / 255`: 255 times the ratio, in units of `2^-149`, lies within
/// `127 * 2^(149 - k)` of `byte * 2^149`.
proof fn lemma_byte_bounds(byte: nat)
    requires
        1 <= byte <= 255,
    ensures
        ({
            let k = doublings(byte, 255);
            let kk = pow2((149 - k) as nat);
            let e = ratio_bits(byte, 255);
            &&& 23 <= k <= 31
            &&& 255 * 0x0080_0000 <= byte * pow2(k)
            &&& byte * pow2(149) <= 255 * units(e) + 127 * kk
            &&& 255 * units(e) <= byte * pow2(149) + 127 * kk
            &&& kk * 0x0080_0000 <= pow2(149)
            &&& byte == 255 ==> units(e) == pow2(149)
        }),
{
    lemma2_to64();
    lemma_ratio_units(byte, 255);
    lemma_ratio_is_nearest(byte, 255);
    let k = doublings(byte, 255);
    let c = pow2(k);
    let kk = pow2((149 - k) as nat);
    let t = pow2(149);
    let scaled = byte * c;
    let me = round_half_even(scaled, 255);
    lemma_pow2_adds(k, (149 - k) as nat);
    lemma_pow2_pos((149 - k) as nat);
    lemma_pow2_pos(k);
    assert(0x0080_0000 <= c < 0x1_0000_0000) by (nonlinear_arith)
        requires
            255 * 0x0080_0000 <= byte * c < 255 * 0x0100_0000,
            1 <= byte <= 255,
            c > 0,
    ;
    if k < 23 {
        lemma_pow2_strictly_increases(k, 23);
    }
    if k > 31 {
        lemma_pow2_strictly_increases(31, k);
        assert(pow2(31) < pow2(32)) by {
            lemma_pow2_strictly_increases(31, 32);
        }
        if k > 32 {
            lemma_pow2_strictly_increases(32, k);
        }
    }
    let lead = me * 255;
    assert(-127 <= lead - scaled <= 127);
    let ae = 255 * (me * kk);
    assert(byte * t <= ae + 127 * kk && ae <= byte * t + 127 * kk && kk * 0x0080_0000 <= t)
        by (nonlinear_arith)
        requires
            ae == 255 * (me * kk),
            lead == me * 255,
            -127 <= lead - scaled <= 127,
            scaled == byte * c,
            t == c * kk,
            c >= 0x0080_0000,
            kk > 0,
    ;
    if byte == 255 {
        lemma_doublings_is(255, 255, 23);
        assert(scaled == 255 * 0x0080_0000);
        assert(me == 0x0080_0000);
        lemma_pow2_adds(23, 126);
    }
}

/// For a byte from 1 to 254 whose ratio, cut back to a whole number of the
/// cut's units `2^(d - s)`, stays below two to the 24th, half of what the
/// product's rounding drops outweighs what the quotient's rounding can add.
proof fn lemma_half_outweighs(byte: nat, k: nat, s: nat, d: nat)
    requires
        1 <= byte <= 254,
        s == 7 || s == 8,
        d >= s + 16,
        d <= 149,
        23 <= k <= 31,
        255 * 0x0080_0000 <= byte * pow2(k),
        byte * pow2((d - s) as nat) < 0x0100_0000,
    ensures
        127 * pow2((149 - k) as nat) <= pow2((s - 1) as nat) * pow2((149 - d) as nat),
{
    lemma2_to64();
    let down = (d - s) as nat;
    let u = pow2(down);
    let g = byte * u;
    if k + s <= d + 7 {
        // then the byte would have to be 255
        lemma_pow2_adds(7, down);
        if k < down + 7 {
            lemma_pow2_strictly_increases(k, down + 7);
        }
        let c = pow2(k);
        assert(128 * g >= 255 * 0x0080_0000) by (nonlinear_arith)
            requires
                g == byte * u,
                c <= 128 * u,
                255 * 0x0080_0000 <= byte * c,
                byte >= 1,
        ;
        lemma_pow2_adds(16, (down - 16) as nat);
        let v = pow2((down - 16) as nat);
        let bv = byte * v;
        assert(g == 0x1_0000 * bv) by (nonlinear_arith)
            requires
                g == byte * u,
                u == 0x1_0000 * v,
                bv == byte * v,
        ;
        assert(bv == 255);
        if down > 16 {
            lemma_pow2_unfold((down - 16) as nat);
            let rest = pow2((down - 17) as nat);
            assert(bv == 2 * (byte * rest)) by (nonlinear_arith)
                requires
                    bv == byte * v,
                    v == 2 * rest,
            ;
            assert(false);
        } else {
            assert(v == 1);
            assert(bv == byte) by (nonlinear_arith)
                requires
                    bv == byte * v,
                    v == 1,
            ;
            assert(false);
        }
    }
    lemma_pow2_adds(7, (149 - k) as nat);
    lemma_pow2_adds((s - 1) as nat, (149 - d) as nat);
    lemma_pow2_pos((149 - k) as nat);
    if 156 - k < 148 + s - d {
        lemma_pow2_strictly_increases((156 - k) as nat, (148 + s - d) as nat);
    }
    assert(128 * pow2((149 - k) as nat) == pow2((156 - k) as nat));
    assert(pow2((s - 1) as nat) * pow2((149 - d) as nat) == pow2((148 + s - d) as nat));
}

/// A ratio from zero to one comes back from the wire within one step of the
/// wire, 1/255, of where it went: the ratio that its byte stands for is that
/// close to it.
pub proof fn lemma_wire_within_step(bits: u32)
    requires
        in_range(bits),
    ensures
        within_wire_step(wire_ratio(wire_byte(bits)), bits),
{
    lemma2_to64();
    let t = pow2(149);
    lemma_pow2_pos(149);
    if magnitude(bits) == 0 {
        // a zero of either sign
        lemma_wire_byte_round_trip(0);
        assert(ratio_bits(0, 255) == 0);
        assert(wire_byte(bits) == 0);
        assert(significand(bits) == 0);
        assert(significand(0) == 0);
        assert(units(bits) == 0) by (nonlinear_arith)
            requires
                units(bits) == significand(bits) * pow2((149 - down_shift(bits)) as nat),
                significand(bits) == 0,
        ;
        assert(units(0) == 0) by (nonlinear_arith)
            requires
                units(0) == significand(0) * pow2((149 - down_shift(0)) as nat),
                significand(0) == 0,
        ;
    } else if bits < 0x0080_0000 {
        // below the smallest normal number: the byte is zero
        assert(!sign_set(bits));
        lemma_pattern_of_parts(bits);
        let m = significand(bits);
        let p = m * 255;
        let s = excess(p);
        assert(s <= 7) by {
            reveal_with_fuel(excess, 10);
        }
        let w = pow2(s);
        lemma_pow2_pos(s);
        let mr = round_half_even(p, w);
        assert(mr <= p + 1) by (nonlinear_arith)
            requires
                mr <= p / w + 1,
                w >= 1,
                p >= 0,
        ;
        let unit = pow2((149 - s) as nat);
        lemma_pow2_strictly_increases(32, (149 - s) as nat);
        lemma_basic_div(mr as int, unit as int);
        assert(scaled_whole(bits, 255, false) == 0);
        assert(wire_byte(bits) == 0);
        assert(ratio_bits(0, 255) == 0);
        assert(units(bits) == m) by (nonlinear_arith)
            requires
                units(bits) == m * pow2(0),
                pow2(0) == 1,
        ;
        assert(units(0) == 0) by (nonlinear_arith)
            requires
                units(0) == significand(0) * pow2((149 - down_shift(0)) as nat),
                significand(0) == 0,
        ;
        lemma_pow2_strictly_increases(32, 149);
    } else {
        assert(bits <= 0x3F80_0000);
        lemma_cut_bounds(bits);
        let m = significand(bits);
        let d = down_shift(bits);
        let p = m * 255;
        let s = excess(p);
        let mr = round_half_even(p, pow2(s));
        let u = pow2((d - s) as nat);
        let whole = mr / u;
        let dd = pow2((149 - d) as nat);
        let h = pow2((s - 1) as nat) * dd;
        let ap = 255 * units(bits);
        if whole == 0 {
            assert(wire_byte(bits) == 0);
            assert(ratio_bits(0, 255) == 0);
            assert(units(0) == 0) by (nonlinear_arith)
                requires
                    units(0) == significand(0) * pow2((149 - down_shift(0)) as nat),
                    significand(0) == 0,
            ;
            assert((whole + 1) * t == t) by (nonlinear_arith)
                requires
                    whole == 0,
            ;
        } else if whole >= 255 {
            assert(wire_byte(bits) == 255);
            lemma_byte_bounds(255);
            assert(whole * t >= 255 * t) by (nonlinear_arith)
                requires
                    whole >= 255,
                    t >= 0,
            ;
        } else {
            let byte = whole;
            assert(wire_byte(bits) == byte);
            lemma_byte_bounds(byte);
            let k = doublings(byte, 255);
            let kk = pow2((149 - k) as nat);
            let ae = 255 * units(ratio_bits(byte, 255));
            // up: the rounding of the quotient and half the cut are far below one step
            assert(ae <= ap + t);
            // down
            if mr == 0x0100_0000 {
                assert(ap <= ae + t);
            } else {
                lemma_half_outweighs(byte, k, s, d as nat);
                assert(127 * kk <= h);
                assert((whole + 1) * t == whole * t + t) by (nonlinear_arith);
                assert(ap <= ae + t);
            }
        }
    }
}

} // verus!
