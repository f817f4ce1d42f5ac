//! IEEE-754 single-precision values, handled by their bit pattern.
//!
//! The bit pattern of a single is its sign in bit 31, its biased exponent in
//! bits 23 to 30 and its fraction in bits 0 to 22.  Everything here is integer
//! arithmetic on that pattern: how two values compare, which single lies
//! nearest to a ratio of two integers, and which whole number a scaled value
//! converts to.

use vstd::arithmetic::div_mod::{lemma_basic_div, lemma_div_denominator};
use vstd::arithmetic::power2::{
    lemma2_to64, lemma2_to64_rest, lemma_pow2_pos, lemma_pow2_strictly_increases,
    lemma_pow2_unfold, pow2,
};
use vstd::prelude::*;

verus! {

/// The weight of the sign bit.
pub const SIGN: u32 = 0x8000_0000;

/// The weight of the lowest exponent bit: two to the 23rd.
pub const HIDDEN: u32 = 0x0080_0000;

/// The pattern of positive infinity.
pub const INFINITY: u32 = 0x7F80_0000;

/// The pattern of positive zero.
pub const ZERO: u32 = 0;

/// The pattern of one.
pub const ONE: u32 = 0x3F80_0000;

/// The pattern without its sign bit.
pub open spec fn magnitude(bits: u32) -> u32 {
    (bits % 0x8000_0000) as u32
}

/// Whether the sign bit is set.  Negative zero counts as negative here.
pub open spec fn sign_set(bits: u32) -> bool {
    bits >= 0x8000_0000
}

/// Whether the pattern is not a number.
pub open spec fn spec_is_nan(bits: u32) -> bool {
    magnitude(bits) > 0x7F80_0000
}

/// Whether the pattern is a zero, of either sign.
pub open spec fn is_zero(bits: u32) -> bool {
    magnitude(bits) == 0
}

/// The biased exponent, from 0 to 255.
pub open spec fn biased_exponent(bits: u32) -> nat {
    (magnitude(bits) / 0x0080_0000) as nat
}

/// The fraction field, below two to the 23rd.
pub open spec fn fraction(bits: u32) -> nat {
    (magnitude(bits) % 0x0080_0000) as nat
}

/// The significand of a finite pattern: the fraction, with the hidden bit
/// above it unless the value is subnormal.
pub open spec fn significand(bits: u32) -> nat {
    if biased_exponent(bits) == 0 {
        fraction(bits)
    } else {
        0x0080_0000 + fraction(bits)
    }
}

/// How many times the significand of a finite pattern has to be halved to
/// give the magnitude of the value: the magnitude is
/// `significand(bits) / 2^down_shift(bits)`, or, where the shift is negative,
/// the significand doubled that many times.
pub open spec fn down_shift(bits: u32) -> int {
    if biased_exponent(bits) == 0 {
        149
    } else {
        150 - biased_exponent(bits)
    }
}

/// The place of a pattern in the order of the values it stands for.  Finite
/// values and infinities are ordered as their ranks are; the two zeros share a
/// rank.
pub open spec fn rank(bits: u32) -> int {
    if sign_set(bits) {
        -(magnitude(bits) as int)
    } else {
        magnitude(bits) as int
    }
}

/// `a <= b` as IEEE-754 defines it: false as soon as one side is not a number.
pub open spec fn spec_le(a: u32, b: u32) -> bool {
    !spec_is_nan(a) && !spec_is_nan(b) && rank(a) <= rank(b)
}

/// `a < b` as IEEE-754 defines it.
pub open spec fn spec_lt(a: u32, b: u32) -> bool {
    !spec_is_nan(a) && !spec_is_nan(b) && rank(a) < rank(b)
}

/// `a == b` as IEEE-754 defines it: the two zeros are equal, and nothing
/// equals a pattern that is not a number.
pub open spec fn spec_eq(a: u32, b: u32) -> bool {
    !spec_is_nan(a) && !spec_is_nan(b) && rank(a) == rank(b)
}

/// Whether the pattern is not a number.
#[verifier::when_used_as_spec(spec_is_nan)]
pub fn is_nan(bits: u32) -> (nan: bool)
    ensures
        nan == spec_is_nan(bits),
{
    bits % SIGN > INFINITY
}

/// `a <= b` on two patterns.
#[verifier::when_used_as_spec(spec_le)]
pub fn le(a: u32, b: u32) -> (holds: bool)
    ensures
        holds == spec_le(a, b),
{
    if is_nan(a) || is_nan(b) {
        false
    } else if a >= SIGN {
        // a is at most zero: at most every b that is not negative
        b < SIGN || b % SIGN <= a % SIGN
    } else {
        (b < SIGN && a <= b) || (a == 0 && b == SIGN)
    }
}

/// `a < b` on two patterns.
#[verifier::when_used_as_spec(spec_lt)]
pub fn lt(a: u32, b: u32) -> (holds: bool)
    ensures
        holds == spec_lt(a, b),
{
    if is_nan(a) || is_nan(b) {
        false
    } else if a >= SIGN {
        (b < SIGN && (b != 0 || a != SIGN)) || (b >= SIGN && b % SIGN < a % SIGN)
    } else {
        b < SIGN && a < b
    }
}

/// `a == b` on two patterns.
#[verifier::when_used_as_spec(spec_eq)]
pub fn eq(a: u32, b: u32) -> (holds: bool)
    ensures
        holds == spec_eq(a, b),
{
    if is_nan(a) || is_nan(b) {
        false
    } else {
        a == b || (a % SIGN == 0 && b % SIGN == 0)
    }
}

/// On values that are numbers the order is total.
pub proof fn lemma_order_total(a: u32, b: u32)
    requires
        !spec_is_nan(a),
        !spec_is_nan(b),
    ensures
        spec_le(a, b) || spec_lt(b, a),
        spec_le(a, b) && spec_le(b, a) <==> spec_eq(a, b),
{
}

/// The order is transitive.
pub proof fn lemma_order_transitive(a: u32, b: u32, c: u32)
    requires
        spec_le(a, b),
        spec_le(b, c),
    ensures
        spec_le(a, c),
{
}

/// The whole number nearest to `a / b`; a ratio halfway between two whole
/// numbers goes to the even one.
pub open spec fn round_half_even(a: nat, b: nat) -> nat
    recommends
        b > 0,
{
    let q = a / b;
    let r = a % b;
    if 2 * r < b {
        q
    } else if 2 * r > b {
        q + 1
    } else if q % 2 == 0 {
        q
    } else {
        q + 1
    }
}

/// How often `num` has to be doubled until `num / den` is at least two to the
/// 23rd, so that its whole part has 24 binary digits.
pub open spec fn doublings(num: nat, den: nat) -> nat
    decreases
        (if num >= den * 0x0080_0000 {
            0
        } else {
            den * 0x0080_0000 - num
        }),
{
    if num == 0 || num >= den * 0x0080_0000 {
        0
    } else {
        1 + doublings(2 * num, den)
    }
}

/// The single nearest to `num / den`, halves to even: the ratio is scaled by
/// `2^k` to a number of 24 binary digits, that number is rounded to the whole
/// number `m`, and the single is `m / 2^k`.
///
/// This is the quotient that IEEE-754 division gives for two operands that
/// hold `num` and `den` exactly and whose ratio is a normal single below two
/// to the 24th.
pub open spec fn ratio_bits(num: nat, den: nat) -> u32
    recommends
        0 < den,
        num < den * 0x0100_0000,
        doublings(num, den) <= 148,
{
    if num == 0 {
        0
    } else {
        let k = doublings(num, den);
        let m = round_half_even(num * pow2(k), den);
        ((149 - k) * 0x0080_0000 + m) as u32
    }
}

/// The single nearest to `num / den`.
pub fn ratio(num: u16, den: u16) -> (bits: u32)
    requires
        den > 0,
    ensures
        bits == ratio_bits(num as nat, den as nat),
        bits <= 0x4B80_0000,
        num == 0 <==> bits == 0,
        num <= den ==> bits <= 0x3F80_0000,
        num == den ==> bits == 0x3F80_0000,
{
    if num == 0 {
        return 0;
    }
    let d: u64 = den as u64;
    let floor: u64 = d * 0x0080_0000;
    let mut t: u64 = num as u64;
    let mut k: u32 = 0;
    proof {
        lemma2_to64();
    }
    while t < floor
        invariant
            d == den,
            0 < d <= 0xFFFF,
            floor == d * 0x0080_0000,
            1 <= num,
            0 < t < d * 0x0100_0000,
            t == num * pow2(k as nat),
            pow2(k as nat) <= t,
            k <= 39,
            doublings(num as nat, den as nat) == k + doublings(t as nat, den as nat),
        decreases 40 - k,
    {
        proof {
            lemma_pow2_unfold((k + 1) as nat);
            let p = pow2(k as nat);
            assert(num * (2 * p) == 2 * (num * p)) by (nonlinear_arith);
            if k >= 39 {
                lemma2_to64_rest();
                if k > 39 {
                    lemma_pow2_strictly_increases(39, k as nat);
                }
                assert(false);
            }
        }
        t = t * 2;
        k = k + 1;
    }
    proof {
        if num <= den && k < 23 {
            lemma_pow2_strictly_increases(k as nat, 23);
            let p = pow2(k as nat);
            assert(num * p < den * 0x0080_0000) by (nonlinear_arith)
                requires
                    num <= den,
                    0 <= p < 0x0080_0000,
                    den > 0,
            ;
            assert(false);
        }
    }
    let q: u64 = t / d;
    let r: u64 = t % d;
    assert(0x0080_0000 <= q < 0x0100_0000) by (nonlinear_arith)
        requires
            q == t / d,
            d > 0,
            d * 0x0080_0000 <= t < d * 0x0100_0000,
    ;
    let m: u64 = if 2 * r < d {
        q
    } else if 2 * r > d {
        q + 1
    } else if q % 2 == 0 {
        q
    } else {
        q + 1
    };
    let bits: u64 = (149 - k as u64) * 0x0080_0000 + m;
    proof {
        if num < den && k == 23 {
            // 2^23 times a numerator below the denominator stays below the floor
            lemma2_to64();
            assert(t == num * 0x0080_0000);
            assert(false);
        }
        assert(doublings(t as nat, den as nat) == 0);
        assert(m == round_half_even(num as nat * pow2(k as nat), den as nat));
        if num == den {
            assert(k == 23) by {
                lemma2_to64();
                let p = pow2(k as nat);
                if k > 23 {
                    // the loop ran although the value before the last doubling sufficed
                    lemma_pow2_unfold(k as nat);
                    let h = pow2((k - 1) as nat);
                    if k - 1 > 23 {
                        lemma_pow2_strictly_increases(23, (k - 1) as nat);
                    }
                    assert(den * h >= den * 0x0080_0000) by (nonlinear_arith)
                        requires
                            h >= 0x0080_0000,
                            den > 0,
                    ;
                    assert(t == 2 * (den * h)) by (nonlinear_arith)
                        requires
                            t == den * p,
                            p == 2 * h,
                    ;
                }
            }
            assert(t == d * 0x0080_0000);
            assert(q == 0x0080_0000 && r == 0) by (nonlinear_arith)
                requires
                    q == t / d,
                    r == t % d,
                    t == d * 0x0080_0000,
                    d > 0,
            ;
        }
    }
    bits as u32
}

/// The single nearest to a ratio of two 16-bit integers is a finite number
/// that is not negative, and clamping leaves it a number.
pub proof fn lemma_ratio_is_number(num: nat, den: nat)
    requires
        num <= 0xFFFF,
        0 < den <= 0xFFFF,
    ensures
        !spec_is_nan(ratio_bits(num, den)),
        !sign_set(ratio_bits(num, den)),
{
    if num > 0 {
        let k = doublings(num, den);
        lemma2_to64();
        lemma_doublings_bound(num, den, 0);
        let t = num * pow2(k);
        let q = t / den;
        assert(q < 0x0100_0000) by (nonlinear_arith)
            requires
                q == t / den,
                den > 0,
                0 <= t < den * 0x0100_0000,
        ;
        assert(round_half_even(t, den) <= q + 1);
    }
}

/// The single nearest to a ratio is nearest indeed.  With `m` the significand
/// that was rounded to and `k` the number of doublings, so that the single
/// is `m / 2^k`: the ratio, scaled by `2^k`, lies within half a unit of `m`,
/// and where it lies just in the middle between two whole numbers, `m` is the
/// even one.  The single holds `m` as its significand and `k` as its shift;
/// where rounding has carried `m` up to two to the 24th, it holds half of `m`
/// and a shift of one less.
pub proof fn lemma_ratio_is_nearest(num: nat, den: nat)
    requires
        0 < num <= 0xFFFF,
        0 < den <= 0xFFFF,
    ensures
        ({
            let k = doublings(num, den);
            let t = num * pow2(k);
            let m = round_half_even(t, den);
            let bits = ratio_bits(num, den);
            &&& den * 0x0080_0000 <= t < den * 0x0100_0000
            &&& 0x0080_0000 <= m <= 0x0100_0000
            &&& -(den as int) <= 2 * (m * den - t) <= den
            &&& (2 * (m * den - t) == den || 2 * (m * den - t) == -(den as int)) ==> m % 2 == 0
            &&& m < 0x0100_0000 ==> significand(bits) == m && down_shift(bits) == k
            &&& m == 0x0100_0000 ==> significand(bits) == 0x0080_0000 && down_shift(bits) == k - 1
        }),
{
    let k = doublings(num, den);
    lemma2_to64();
    lemma_doublings_bound(num, den, 0);
    let t = num * pow2(k);
    let q = t / den;
    let r = t % den;
    let m = round_half_even(t, den);
    assert(t == q * den + r && 0 <= r < den && 0x0080_0000 <= q < 0x0100_0000)
        by (nonlinear_arith)
        requires
            q == t / den,
            r == t % den,
            den > 0,
            den * 0x0080_0000 <= t < den * 0x0100_0000,
    ;
    if m == q + 1 {
        assert(m * den - t == den - r) by (nonlinear_arith)
            requires
                t == q * den + r,
                m == q + 1,
        ;
    } else {
        assert(m * den - t == -r) by (nonlinear_arith)
            requires
                t == q * den + r,
                m == q,
        ;
    }
}

/// The magnitude of a finite pattern in units of `2^-149`, the finest step
/// that a single can take.
pub open spec fn units(bits: u32) -> nat {
    significand(bits) * pow2((149 - down_shift(bits)) as nat)
}

/// The single nearest to a ratio, in units of `2^-149`, is the significand
/// that was rounded to, `m`, times `2^(149 - k)`, with `k` the number of
/// doublings: it is `m / 2^k`, also where rounding has carried `m` up to two
/// to the 24th.
pub proof fn lemma_ratio_units(num: nat, den: nat)
    requires
        0 < num <= 0xFFFF,
        0 < den <= 0xFFFF,
    ensures
        doublings(num, den) <= 39,
        units(ratio_bits(num, den)) == round_half_even(num * pow2(doublings(num, den)), den)
            * pow2((149 - doublings(num, den)) as nat),
{
    lemma2_to64();
    lemma_doublings_bound(num, den, 0);
    lemma_ratio_is_nearest(num, den);
    let k = doublings(num, den);
    let m = round_half_even(num * pow2(k), den);
    if m == 0x0100_0000 {
        let low = pow2((149 - k) as nat);
        lemma_pow2_unfold((150 - k) as nat);
        assert(0x0080_0000 * (2 * low) == 0x0100_0000 * low) by (nonlinear_arith);
    }
}

/// The number of doublings is the one `k` for which the ratio, scaled by
/// `2^k`, has 24 binary digits before the point.
pub proof fn lemma_doublings_is(num: nat, den: nat, k: nat)
    requires
        0 < num,
        0 < den,
        den * 0x0080_0000 <= num * pow2(k) < den * 0x0100_0000,
    ensures
        doublings(num, den) == k,
    decreases k,
{
    lemma2_to64();
    if k == 0 {
        assert(num * pow2(0) == num);
    } else {
        lemma_pow2_unfold(k);
        let h = pow2((k - 1) as nat);
        lemma_pow2_pos((k - 1) as nat);
        assert(num * pow2(k) == (2 * num) * h) by (nonlinear_arith)
            requires
                pow2(k) == 2 * h,
        ;
        if num >= den * 0x0080_0000 {
            assert((2 * num) * h >= den * 0x0100_0000) by (nonlinear_arith)
                requires
                    num >= den * 0x0080_0000,
                    h >= 1,
            ;
            assert(false);
        }
        lemma_doublings_is(2 * num, den, (k - 1) as nat);
    }
}

/// While a numerator that was doubled `done` times is below the ceiling of
/// two to the 24th denominators, so is the numerator after all doublings,
/// and there are 39 doublings at most in all.
proof fn lemma_doublings_bound(num: nat, den: nat, done: nat)
    requires
        0 < num,
        0 < den <= 0xFFFF,
        num < den * 0x0100_0000,
        pow2(done) <= num,
        done <= 39,
    ensures
        done + doublings(num, den) <= 39,
        den * 0x0080_0000 <= num * pow2(doublings(num, den)) < den * 0x0100_0000,
    decreases
        (if num >= den * 0x0080_0000 {
            0
        } else {
            den * 0x0080_0000 - num
        }),
{
    lemma2_to64();
    if num >= den * 0x0080_0000 {
        assert(doublings(num, den) == 0);
        assert(num * pow2(0) == num);
    } else {
        if done >= 39 {
            lemma2_to64_rest();
            assert(false);
        }
        lemma_pow2_unfold(done + 1);
        lemma_doublings_bound(2 * num, den, done + 1);
        let k = doublings(2 * num, den);
        assert(doublings(num, den) == k + 1);
        lemma_pow2_unfold(k + 1);
        assert(num * pow2(k + 1) == (2 * num) * pow2(k)) by (nonlinear_arith)
            requires
                pow2(k + 1) == 2 * pow2(k),
        ;
    }
}

/// How often `p` has to be halved until it has at most 24 binary digits.
pub open spec fn excess(p: nat) -> nat
    decreases p,
{
    if p < 0x0100_0000 {
        0
    } else {
        1 + excess(p / 2)
    }
}

/// The whole number, from 0 to 255, that the value of `bits` times `factor`
/// converts to.
///
/// The product is first rounded to a single, that is to 24 binary digits,
/// halves to even, as IEEE-754 multiplication does.  With `nearest` the rounded
/// product then goes to the nearest whole number, halves away from zero;
/// without it the part behind the point is cut off.  The result saturates:
/// what lies above 255 gives 255, what is negative or not a number gives 0.
pub open spec fn scaled_whole(bits: u32, factor: nat, nearest: bool) -> nat
    recommends
        0 < factor <= 255,
{
    if spec_is_nan(bits) || sign_set(bits) {
        0
    } else if biased_exponent(bits) > 150 {
        255
    } else {
        let p = significand(bits) * factor;
        let s = excess(p);
        let m = round_half_even(p, pow2(s));
        let down = down_shift(bits) - s;
        if down <= 0 {
            255
        } else {
            let unit = pow2(down as nat);
            let whole = if nearest {
                (2 * m + unit) / (2 * unit)
            } else {
                m / unit
            };
            if whole > 255 {
                255
            } else {
                whole as nat
            }
        }
    }
}

/// The whole number, from 0 to 255, that the value of `bits` times `factor`
/// converts to.
pub fn scale_to_whole(bits: u32, factor: u8, nearest: bool) -> (whole: u8)
    requires
        factor > 0,
    ensures
        whole == scaled_whole(bits, factor as nat, nearest),
{
    if bits >= SIGN || bits > INFINITY {
        return 0;
    }
    let e: u32 = bits / HIDDEN;
    if e > 150 {
        return 255;
    }
    let f: u32 = bits % HIDDEN;
    let sig: u64 = if e == 0 {
        f as u64
    } else {
        (HIDDEN + f) as u64
    };
    let shift: u32 = if e == 0 {
        149
    } else {
        150 - e
    };
    assert(sig == significand(bits));
    assert(shift == down_shift(bits));
    assert(sig * factor < 0x1_0000_0000) by (nonlinear_arith)
        requires
            sig < 0x0100_0000,
            factor <= 255,
    ;
    let p: u64 = sig * (factor as u64);
    let mut h: u64 = p;
    let mut s: u32 = 0;
    let mut w: u64 = 1;
    proof {
        lemma2_to64();
    }
    while h >= 0x0100_0000
        invariant
            p < 0x1_0000_0000,
            w == pow2(s as nat),
            1 <= w <= 256,
            s <= 8,
            h == p / w,
            excess(p as nat) == s + excess(h as nat),
        decreases h,
    {
        proof {
            lemma2_to64();
            assert(w * h <= p) by (nonlinear_arith)
                requires
                    h == p / w,
                    w > 0,
            ;
            assert(w < 256) by (nonlinear_arith)
                requires
                    w * h <= p,
                    h >= 0x0100_0000,
                    p < 0x1_0000_0000,
                    w >= 0,
            ;
            if s >= 8 {
                if s > 8 {
                    lemma_pow2_strictly_increases(8, s as nat);
                }
                assert(false);
            }
            lemma_pow2_unfold((s + 1) as nat);
            lemma_div_denominator(p as int, w as int, 2);
        }
        h = h / 2;
        s = s + 1;
        w = w * 2;
    }
    let q: u64 = p / w;
    let r: u64 = p % w;
    let m: u64 = if 2 * r < w {
        q
    } else if 2 * r > w {
        q + 1
    } else if q % 2 == 0 {
        q
    } else {
        q + 1
    };
    assert(m == round_half_even(p as nat, pow2(s as nat)));
    assert(excess(p as nat) == s);
    if shift <= s {
        return 255;
    }
    let down: u32 = shift - s;
    if down >= 26 {
        proof {
            let unit = pow2(down as nat);
            if down > 26 {
                lemma_pow2_strictly_increases(26, down as nat);
            }
            assert(unit >= 0x0400_0000);
            lemma_basic_div(m as int, unit as int);
            lemma_basic_div(2 * m + unit, 2 * (unit as int));
        }
        return 0;
    }
    let mut unit: u64 = 1;
    let mut i: u32 = 0;
    while i < down
        invariant
            i <= down <= 25,
            unit == pow2(i as nat),
        decreases down - i,
    {
        proof {
            lemma2_to64();
            lemma_pow2_strictly_increases(i as nat, 25);
            lemma_pow2_unfold((i + 1) as nat);
        }
        unit = unit * 2;
        i = i + 1;
    }
    proof {
        lemma2_to64();
        if down < 25 {
            lemma_pow2_strictly_increases(down as nat, 25);
        }
        lemma_pow2_pos(down as nat);
    }
    let whole: u64 = if nearest {
        (2 * m + unit) / (2 * unit)
    } else {
        m / unit
    };
    if whole > 255 {
        255
    } else {
        whole as u8
    }
}

} // verus!
