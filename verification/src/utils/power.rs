//! The square and the square root of a single, by its bit pattern.
//!
//! Both are rounded as IEEE-754 rounds its basic operations: the result is
//! the single nearest to the exact value, halves to even.

use crate::utils::single::{
    biased_exponent, down_shift, fraction, magnitude, round_half_even, sign_set, significand,
    spec_is_nan, spec_le, HIDDEN, INFINITY, SIGN,
};
use vstd::arithmetic::div_mod::{lemma_basic_div, lemma_small_mod};
use vstd::arithmetic::power2::{
    lemma2_to64, lemma2_to64_rest, lemma_pow2_adds, lemma_pow2_pos, lemma_pow2_strictly_increases,
    lemma_pow2_unfold, pow2,
};
use vstd::prelude::*;

verus! {

/// The pattern that stands for "not a number" wherever one is produced here.
pub const QUIET_NAN: u32 = 0x7FC0_0000;

/// The number of binary digits of `p`; zero has none.
pub open spec fn bit_length(p: nat) -> nat
    decreases p,
{
    if p == 0 {
        0
    } else {
        1 + bit_length(p / 2)
    }
}

/// A number of `n` binary digits lies from `2^(n-1)` up to, but not at, `2^n`.
pub proof fn lemma_bit_length_bounds(p: nat)
    requires
        p > 0,
    ensures
        bit_length(p) >= 1,
        pow2((bit_length(p) - 1) as nat) <= p < pow2(bit_length(p)),
    decreases p,
{
    lemma2_to64();
    if p == 1 {
        assert(bit_length(1) == 1 + bit_length(0));
    } else {
        lemma_bit_length_bounds(p / 2);
        let n = bit_length(p / 2);
        lemma_pow2_unfold(n);
        lemma_pow2_unfold(n + 1);
    }
}

/// A number below `2^n` has `n` binary digits at most.
pub proof fn lemma_bit_length_at_most(p: nat, n: nat)
    requires
        p < pow2(n),
    ensures
        bit_length(p) <= n,
{
    if p > 0 {
        lemma_bit_length_bounds(p);
        let len = bit_length(p);
        if len > n {
            if len - 1 > n {
                lemma_pow2_strictly_increases(n, (len - 1) as nat);
            }
            assert(false);
        }
    }
}

/// A number of at least `2^(n-1)` has `n` binary digits at least.
pub proof fn lemma_bit_length_at_least(p: nat, n: nat)
    requires
        n >= 1,
        p >= pow2((n - 1) as nat),
    ensures
        bit_length(p) >= n,
{
    lemma_pow2_pos((n - 1) as nat);
    lemma_bit_length_bounds(p);
    let len = bit_length(p);
    if len < n {
        if len < n - 1 {
            lemma_pow2_strictly_increases(len, (n - 1) as nat);
        }
        assert(false);
    }
}

/// The number of binary digits of `p`.
pub fn count_bits(p: u64) -> (len: u32)
    ensures
        len == bit_length(p as nat),
        len <= 64,
{
    let mut h: u64 = p;
    let mut len: u32 = 0;
    proof {
        lemma2_to64();
        lemma2_to64_rest();
        lemma_bit_length_at_most(p as nat, 64);
    }
    while h > 0
        invariant
            bit_length(p as nat) == len + bit_length(h as nat),
            bit_length(p as nat) <= 64,
        decreases h,
    {
        h = h / 2;
        len = len + 1;
    }
    len
}

/// Two to the power `n`.
pub fn power_of_two(n: u32) -> (w: u64)
    requires
        n <= 62,
    ensures
        w == pow2(n as nat),
{
    let mut w: u64 = 1;
    let mut i: u32 = 0;
    proof {
        lemma2_to64();
    }
    while i < n
        invariant
            i <= n <= 62,
            w == pow2(i as nat),
        decreases n - i,
    {
        proof {
            lemma2_to64_rest();
            lemma_pow2_strictly_increases(i as nat, 62);
            lemma_pow2_unfold((i + 1) as nat);
        }
        w = w * 2;
        i = i + 1;
    }
    w
}

/// How many of the low binary digits of `p` are dropped when `p / 2^down` is
/// rounded to a single: what `p` has beyond 24 digits, and at least what
/// lies below the finest step that a single can take, `2^-149`.
pub open spec fn dropped(p: nat, down: int) -> int {
    if bit_length(p) - 24 >= down - 149 {
        bit_length(p) - 24
    } else {
        down - 149
    }
}

/// The square of a single: the single nearest to the exact square, halves to
/// even.
///
/// The square of what is not a number is not a number, the square of an
/// infinity is positive infinity, and a square beyond the largest single is
/// positive infinity too.  The result never carries a sign.
pub open spec fn square_bits(bits: u32) -> u32 {
    if spec_is_nan(bits) {
        QUIET_NAN
    } else if magnitude(bits) == INFINITY {
        INFINITY
    } else if significand(bits) == 0 {
        0
    } else {
        let p = significand(bits) * significand(bits);
        let cut = dropped(p, 2 * down_shift(bits));
        let m = round_half_even(p, pow2(cut as nat));
        let wide = (149 - 2 * down_shift(bits) + cut) * 0x0080_0000 + m;
        if wide >= 0x7F80_0000 {
            INFINITY
        } else {
            wide as u32
        }
    }
}

/// The square of a single.
pub fn square(bits: u32) -> (squared: u32)
    ensures
        squared == square_bits(bits),
{
    let mag: u32 = bits % SIGN;
    if mag > INFINITY {
        return QUIET_NAN;
    }
    if mag == INFINITY {
        return INFINITY;
    }
    let e: u32 = mag / HIDDEN;
    let f: u32 = mag % HIDDEN;
    let sig: u64 = if e == 0 {
        f as u64
    } else {
        (HIDDEN + f) as u64
    };
    let d: i64 = if e == 0 {
        149
    } else {
        150 - e as i64
    };
    assert(sig == significand(bits));
    assert(d == down_shift(bits));
    if sig == 0 {
        return 0;
    }
    assert(1 <= sig * sig < 0x1_0000_0000_0000) by (nonlinear_arith)
        requires
            1 <= sig < 0x0100_0000,
    ;
    let p: u64 = sig * sig;
    let len: u32 = count_bits(p);
    proof {
        lemma2_to64();
        lemma2_to64_rest();
        lemma_bit_length_at_most(p as nat, 48);
        if e != 0 {
            assert(sig * sig >= 0x4000_0000_0000) by (nonlinear_arith)
                requires
                    sig >= 0x0080_0000,
            ;
            lemma_bit_length_at_least(p as nat, 47);
        }
    }
    let a: i64 = len as i64 - 24;
    let b: i64 = 2 * d - 149;
    let cut: i64 = if a >= b {
        a
    } else {
        b
    };
    assert(cut == dropped(p as nat, 2 * down_shift(bits)));
    assert(23 <= cut <= 149);
    if cut >= 50 {
        proof {
            let w = pow2(cut as nat);
            lemma_pow2_strictly_increases(49, cut as nat);
            lemma_basic_div(p as int, w as int);
            lemma_small_mod(p as nat, w);
            assert(round_half_even(p as nat, w) == 0);
            assert(cut == b);
        }
        return 0;
    }
    let w: u64 = power_of_two(cut as u32);
    let q: u64 = p / w;
    let r: u64 = p % w;
    proof {
        lemma_pow2_strictly_increases(cut as nat, 50);
        lemma_pow2_pos(cut as nat);
    }
    let m: u64 = if 2 * r < w {
        q
    } else if 2 * r > w {
        q + 1
    } else if q % 2 == 0 {
        q
    } else {
        q + 1
    };
    assert(m == round_half_even(p as nat, pow2(cut as nat)));
    let field: i64 = 149 - 2 * d + cut;
    let wide: u64 = (field as u64) * 0x0080_0000 + m;
    if wide >= 0x7F80_0000 {
        INFINITY
    } else {
        wide as u32
    }
}

/// Whether `r` is the whole part of the square root of `n`.
pub open spec fn is_whole_root(n: nat, r: nat) -> bool {
    r * r <= n < (r + 1) * (r + 1)
}

/// The whole part of the square root of `n`.
pub open spec fn whole_root(n: nat) -> nat {
    choose|r: nat| is_whole_root(n, r)
}

/// A number has one whole root at most.
pub proof fn lemma_whole_root_unique(n: nat, r: nat)
    requires
        is_whole_root(n, r),
    ensures
        whole_root(n) == r,
{
    let c = whole_root(n);
    assert(is_whole_root(n, c));
    if c < r {
        assert((c + 1) * (c + 1) <= r * r) by (nonlinear_arith)
            requires
                c + 1 <= r,
        ;
    } else if c > r {
        assert((r + 1) * (r + 1) <= c * c) by (nonlinear_arith)
            requires
                r + 1 <= c,
        ;
    }
}

/// How often the significand `m` of a single whose shift is `down` is doubled
/// before the root is taken: so often that it has 47 or 48 binary digits,
/// and that the shift of the doubled significand is even.
pub open spec fn root_doublings(m: nat, down: int) -> nat {
    let least = (47 - bit_length(m)) as nat;
    if (least + down) % 2 == 0 {
        least
    } else {
        least + 1
    }
}

/// The square root of a single: the single nearest to the exact root.
///
/// The root of what is not a number, and of what is below zero, is not a
/// number.  The root of a zero is that zero, the root of positive infinity is
/// positive infinity.
pub open spec fn root_bits(bits: u32) -> u32 {
    if spec_is_nan(bits) {
        QUIET_NAN
    } else if magnitude(bits) == 0 {
        bits
    } else if sign_set(bits) {
        QUIET_NAN
    } else if bits == INFINITY {
        INFINITY
    } else {
        let j = root_doublings(significand(bits), down_shift(bits));
        let n = significand(bits) * pow2(j);
        let r = whole_root(n);
        let m = if n - r * r > r {
            r + 1
        } else {
            r
        };
        ((298 - (j + down_shift(bits))) / 2 * 0x0080_0000 + m) as u32
    }
}

/// The square root of a single.
pub fn root(bits: u32) -> (rooted: u32)
    ensures
        rooted == root_bits(bits),
{
    let mag: u32 = bits % SIGN;
    if mag > INFINITY {
        return QUIET_NAN;
    }
    if mag == 0 {
        return bits;
    }
    if bits >= SIGN {
        return QUIET_NAN;
    }
    if bits == INFINITY {
        return INFINITY;
    }
    let e: u32 = bits / HIDDEN;
    let f: u32 = bits % HIDDEN;
    let sig: u64 = if e == 0 {
        f as u64
    } else {
        (HIDDEN + f) as u64
    };
    let d: i64 = if e == 0 {
        149
    } else {
        150 - e as i64
    };
    assert(sig == significand(bits));
    assert(d == down_shift(bits));
    assert(sig >= 1);
    let len: u32 = count_bits(sig);
    proof {
        lemma2_to64();
        lemma2_to64_rest();
        lemma_bit_length_at_most(sig as nat, 24);
        lemma_bit_length_bounds(sig as nat);
    }
    let least: u32 = 47 - len;
    let j: u32 = if (least as i64 + d + 256) % 2 == 0 {
        least
    } else {
        least + 1
    };
    assert(j == root_doublings(sig as nat, d as int));
    let w: u64 = power_of_two(j);
    proof {
        let low = pow2((len - 1) as nat);
        let high = pow2(len as nat);
        lemma_pow2_adds((len - 1) as nat, j as nat);
        lemma_pow2_adds(len as nat, j as nat);
        lemma_pow2_pos(j as nat);
        assert(low * w <= sig * w < high * w) by (nonlinear_arith)
            requires
                low <= sig < high,
                w > 0,
        ;
        if j == least {
            assert(pow2((len - 1 + j) as nat) == pow2(46));
            assert(pow2((len + j) as nat) == pow2(47));
        } else {
            assert(pow2((len - 1 + j) as nat) == pow2(47));
            assert(pow2((len + j) as nat) == pow2(48));
        }
    }
    let n: u64 = sig * w;
    assert(0x4000_0000_0000 <= n < 0x1_0000_0000_0000);
    let mut lo: u64 = 0x0080_0000;
    let mut hi: u64 = 0x0100_0000;
    while hi - lo > 1
        invariant
            0x0080_0000 <= lo < hi <= 0x0100_0000,
            lo * lo <= n < hi * hi,
        decreases hi - lo,
    {
        let mid: u64 = lo + (hi - lo) / 2;
        assert(mid * mid < 0x1_0000_0000_0000) by (nonlinear_arith)
            requires
                mid < 0x0100_0000,
        ;
        if mid * mid <= n {
            lo = mid;
        } else {
            hi = mid;
        }
    }
    proof {
        assert(is_whole_root(n as nat, lo as nat));
        lemma_whole_root_unique(n as nat, lo as nat);
    }
    assert(lo * lo < 0x1_0000_0000_0000) by (nonlinear_arith)
        requires
            lo < 0x0100_0000,
    ;
    let m: u64 = if n - lo * lo > lo {
        lo + 1
    } else {
        lo
    };
    let field: i64 = (298 - (j as i64 + d)) / 2;
    let wide: u64 = (field as u64) * 0x0080_0000 + m;
    wide as u32
}

/// The doubled significand of which the root is taken has 47 or 48 binary
/// digits, and its shift is even.
pub proof fn lemma_root_scaling(m: nat, down: int)
    requires
        1 <= m < 0x0100_0000,
    ensures
        0x4000_0000_0000 <= m * pow2(root_doublings(m, down)) < 0x1_0000_0000_0000,
        (root_doublings(m, down) + down) % 2 == 0,
        23 <= root_doublings(m, down) <= 47,
{
    lemma2_to64();
    lemma2_to64_rest();
    lemma_bit_length_at_most(m, 24);
    lemma_bit_length_bounds(m);
    let len = bit_length(m);
    let j = root_doublings(m, down);
    let w = pow2(j);
    let low = pow2((len - 1) as nat);
    let high = pow2(len);
    lemma_pow2_adds((len - 1) as nat, j);
    lemma_pow2_adds(len, j);
    lemma_pow2_pos(j);
    assert(low * w <= m * w < high * w) by (nonlinear_arith)
        requires
            low <= m < high,
            w > 0,
    ;
    if j == 47 - len {
        assert(pow2((len - 1 + j) as nat) == pow2(46));
        assert(pow2((len + j) as nat) == pow2(47));
    } else {
        assert(pow2((len - 1 + j) as nat) == pow2(47));
        assert(pow2((len + j) as nat) == pow2(48));
    }
}

/// The pattern of a finite single that is not negative is its significand
/// on top of the steps that its shift leaves below it.
pub proof fn lemma_pattern_of_parts(bits: u32)
    requires
        bits < 0x7F80_0000,
    ensures
        bits == (149 - down_shift(bits)) * 0x0080_0000 + significand(bits),
        biased_exponent(bits) == 0 ==> significand(bits) < 0x0080_0000 && down_shift(bits) == 149,
        biased_exponent(bits) > 0 ==> 0x0080_0000 <= significand(bits) < 0x0100_0000,
        -104 <= down_shift(bits) <= 149,
{
    assert(magnitude(bits) == bits);
    assert(bits == biased_exponent(bits) * 0x0080_0000 + fraction(bits));
}

/// Below one, the square of a number that is above zero is at most the
/// number.
pub proof fn lemma_square_shrinks(bits: u32)
    requires
        0 < bits < 0x3F80_0000,
    ensures
        square_bits(bits) <= bits,
        spec_le(square_bits(bits), bits),
{
    lemma2_to64();
    lemma2_to64_rest();
    lemma_pattern_of_parts(bits);
    let m = significand(bits);
    let d = down_shift(bits);
    let p = m * m;
    let len = bit_length(p);
    let cut = dropped(p, 2 * d);
    assert(1 <= p < 0x1_0000_0000_0000) by (nonlinear_arith)
        requires
            1 <= m < 0x0100_0000,
            p == m * m,
    ;
    lemma_bit_length_at_most(p, 48);
    lemma_bit_length_bounds(p);
    if biased_exponent(bits) == 0 {
        assert(p < 0x4000_0000_0000) by (nonlinear_arith)
            requires
                m < 0x0080_0000,
                p == m * m,
        ;
        lemma_bit_length_at_most(p, 46);
        assert(cut == 149);
        let w = pow2(149);
        lemma_pow2_strictly_increases(47, 149);
        lemma_basic_div(p as int, w as int);
        lemma_small_mod(p, w);
        assert(round_half_even(p, w) == 0);
    } else {
        assert(d >= 24);
        assert(p >= 0x4000_0000_0000) by (nonlinear_arith)
            requires
                m >= 0x0080_0000,
                p == m * m,
        ;
        lemma_bit_length_at_least(p, 47);
        assert(23 <= cut <= 149);
        let w = pow2(cut as nat);
        lemma_pow2_pos(cut as nat);
        let q = p / w;
        let rounded = round_half_even(p, w);
        assert(rounded <= q + 1);
        // the square has at most 24 digits above the cut
        lemma_pow2_adds(cut as nat, 24);
        if len < cut + 24 {
            lemma_pow2_strictly_increases(len, (cut + 24) as nat);
        }
        assert(p < w * 0x0100_0000);
        assert(q < 0x0100_0000) by (nonlinear_arith)
            requires
                q == p / w,
                w > 0,
                0 <= p < w * 0x0100_0000,
        ;
        if d == 149 {
            // the smallest numbers: their squares round to zero
            assert(cut == 149);
            lemma_pow2_strictly_increases(49, 149);
            lemma_basic_div(p as int, w as int);
            lemma_small_mod(p, w);
            assert(rounded == 0);
        } else if cut >= d {
            // only a number of at least one half, squared to 48 digits
            assert(cut == 24 && d == 24);
            assert(w == 0x0100_0000);
            assert(q <= m - 1) by (nonlinear_arith)
                requires
                    q == p / 0x0100_0000,
                    p == m * m,
                    1 <= m < 0x0100_0000,
            ;
        }
    }
}

/// Below one, the square root of a number that is above zero is at least the
/// number.
pub proof fn lemma_root_grows(bits: u32)
    requires
        0 < bits < 0x3F80_0000,
    ensures
        bits <= root_bits(bits),
        spec_le(bits, root_bits(bits)),
{
    lemma2_to64();
    lemma2_to64_rest();
    lemma_pattern_of_parts(bits);
    let m = significand(bits);
    let d = down_shift(bits);
    assert(m >= 1);
    lemma_root_scaling(m, d);
    lemma_bit_length_at_most(m, 24);
    lemma_bit_length_bounds(m);
    let j = root_doublings(m, d);
    let n = m * pow2(j);
    let r = whole_root(n);
    lemma_whole_root_exists(n);
    assert(is_whole_root(n, r));
    assert(0x0080_0000 <= r < 0x0100_0000) by (nonlinear_arith)
        requires
            r * r <= n < (r + 1) * (r + 1),
            0x4000_0000_0000 <= n < 0x1_0000_0000_0000,
    ;
    let rounded = if n - r * r > r {
        r + 1
    } else {
        r
    };
    let field = (298 - (j + d)) / 2;
    assert(field - (149 - d) == (d - j) / 2);
    if biased_exponent(bits) == 0 {
        assert(bit_length(m) <= 23) by {
            lemma_bit_length_at_most(m, 23);
        }
        assert(j >= 24);
    } else {
        lemma_bit_length_at_least(m, 24);
        assert(d >= 24);
        if d == 24 {
            assert(j == 24);
            assert(n == m * 0x0100_0000);
            assert(m <= r) by (nonlinear_arith)
                requires
                    n == m * 0x0100_0000,
                    1 <= m < 0x0100_0000,
                    n < (r + 1) * (r + 1),
            ;
        }
    }
}

/// Every number has a whole root.
pub proof fn lemma_whole_root_exists(n: nat)
    ensures
        is_whole_root(n, whole_root(n)),
    decreases n,
{
    if n == 0 {
        assert(is_whole_root(0, 0)) by (nonlinear_arith);
    } else {
        lemma_whole_root_exists((n - 1) as nat);
        let r = whole_root((n - 1) as nat);
        if n < (r + 1) * (r + 1) {
            assert(is_whole_root(n, r));
        } else {
            assert(n == (r + 1) * (r + 1));
            assert((r + 1) * (r + 1) < (r + 2) * (r + 2)) by (nonlinear_arith);
            assert(is_whole_root(n, r + 1));
        }
    }
}

} // verus!
