//! Messages as one line of text: `<id>:<data>`.
//!
//! The identifier is written in decimal, the eight bytes of the frame as
//! sixteen hexadecimal digits in lower case.  Reading is more lenient than
//! writing: the identifier may carry a plus sign and leading zeros, the
//! digits of the data may be in upper case, a plus sign may stand in place of
//! the first digit of a byte, and whatever follows the sixteenth digit is
//! not looked at.

use crate::messages::messages::Message;
use vstd::prelude::*;
use vstd::slice::slice_subrange;

verus! {

/// The character that parts the identifier from the data.
pub const COLON: u8 = 58;

/// The plus sign.
pub const PLUS: u8 = 43;

/// Why a line of text stands for no message.
#[derive(Debug, Clone, Copy, PartialEq, Eq, Structural)]
pub enum TextError {
    /// There is no colon in the line.
    MissingColon,
    /// What stands before the colon is no number from 0 to 65535.
    BadId,
    /// Fewer than sixteen characters follow the colon.
    ShortData,
    /// One of the sixteen characters is no hexadecimal digit.
    BadDigit,
    /// No message goes by the identifier.
    UnknownId,
}

/// Whether a character is a decimal digit.
pub open spec fn is_digit(c: u8) -> bool {
    48 <= c <= 57
}

/// Whether every character is a decimal digit.
pub open spec fn all_digits(s: Seq<u8>) -> bool {
    forall|i: int| 0 <= i < s.len() ==> is_digit(#[trigger] s[i])
}

/// The number that a run of decimal digits stands for; zero for no digits.
pub open spec fn decimal_value(s: Seq<u8>) -> nat
    decreases s.len(),
{
    if s.len() == 0 {
        0
    } else {
        (10 * decimal_value(s.drop_last()) + (s.last() - 48)) as nat
    }
}

/// The digits of a number in decimal, without leading zeros.
pub open spec fn decimal_digits(n: nat) -> Seq<u8>
    decreases n,
{
    if n < 10 {
        seq![(48 + n) as u8]
    } else {
        decimal_digits(n / 10).push((48 + n % 10) as u8)
    }
}

/// The identifier that a text stands for: one or more decimal digits, behind
/// a plus sign or not, that make a number up to 65535.
pub open spec fn parsed_id(s: Seq<u8>) -> Option<u16> {
    let digits = if s.len() > 0 && s[0] == PLUS {
        s.subrange(1, s.len() as int)
    } else {
        s
    };
    if digits.len() > 0 && all_digits(digits) && decimal_value(digits) <= 0xFFFF {
        Some(decimal_value(digits) as u16)
    } else {
        None
    }
}

/// The value of a hexadecimal digit, in either case.
pub open spec fn hex_value(c: u8) -> Option<u8> {
    if 48 <= c <= 57 {
        Some((c - 48) as u8)
    } else if 97 <= c <= 102 {
        Some((c - 87) as u8)
    } else if 65 <= c <= 70 {
        Some((c - 55) as u8)
    } else {
        None
    }
}

/// The hexadecimal digit, in lower case, of a value below sixteen.
pub open spec fn hex_digit(v: u8) -> u8
    recommends
        v < 16,
{
    if v < 10 {
        (48 + v) as u8
    } else {
        (87 + v) as u8
    }
}

/// The byte that two characters stand for: two hexadecimal digits, or a plus
/// sign and one hexadecimal digit.
pub open spec fn hex_byte(high: u8, low: u8) -> Option<u8> {
    match (hex_value(high), hex_value(low)) {
        (Some(h), Some(l)) => Some((16 * h + l) as u8),
        (None, Some(l)) if high == PLUS => Some(l),
        _ => None,
    }
}

/// The bytes as hexadecimal digits in lower case, two per byte.
pub open spec fn hex_text(bytes: Seq<u8>) -> Seq<u8>
    decreases bytes.len(),
{
    if bytes.len() == 0 {
        seq![]
    } else {
        hex_text(bytes.drop_last()).push(hex_digit(bytes.last() / 16)).push(
            hex_digit(bytes.last() % 16),
        )
    }
}

/// Whether `bytes` are the eight bytes that the first sixteen characters of
/// `s` stand for.
pub open spec fn is_payload(s: Seq<u8>, bytes: Seq<u8>) -> bool {
    &&& s.len() >= 16
    &&& bytes.len() == 8
    &&& forall|i: int| 0 <= i < 8 ==> hex_byte(s[2 * i], s[2 * i + 1]) == Some(#[trigger] bytes[i])
}

/// Whether each of the first sixteen characters of `s` is part of a byte.
pub open spec fn has_payload(s: Seq<u8>) -> bool {
    s.len() >= 16 && forall|i: int| 0 <= i < 8 ==> (#[trigger] hex_byte(s[2 * i], s[2 * i + 1])) is Some
}

/// Where the first colon stands, if there is one.
pub open spec fn first_colon(s: Seq<u8>, at: int) -> bool {
    0 <= at < s.len() && s[at] == COLON && forall|i: int| 0 <= i < at ==> #[trigger] s[i] != COLON
}

/// The line of text that stands for a frame.
pub open spec fn line(id: u16, bytes: Seq<u8>) -> Seq<u8> {
    decimal_digits(id as nat).push(COLON) + hex_text(bytes)
}

/// Whether `outcome` is what the line `s` comes to.
pub open spec fn reads(s: Seq<u8>, outcome: Result<Message, TextError>) -> bool {
    if !s.contains(COLON) {
        outcome == Err::<Message, TextError>(TextError::MissingColon)
    } else {
        let at = choose|at: int| first_colon(s, at);
        let data = s.subrange(at + 1, s.len() as int);
        match parsed_id(s.subrange(0, at)) {
            None => outcome == Err::<Message, TextError>(TextError::BadId),
            Some(id) => if data.len() < 16 {
                outcome == Err::<Message, TextError>(TextError::ShortData)
            } else if !has_payload(data) {
                outcome == Err::<Message, TextError>(TextError::BadDigit)
            } else {
                let bytes = choose|bytes: Seq<u8>| is_payload(data, bytes);
                match outcome {
                    Ok(msg) => Message::parses(id, bytes, Some(msg)),
                    Err(e) => e == TextError::UnknownId && Message::parses(id, bytes, None),
                }
            },
        }
    }
}

/// The digits of a number are one or more decimal digits that stand for the
/// number.
pub proof fn lemma_decimal_digits(n: nat)
    ensures
        decimal_digits(n).len() >= 1,
        all_digits(decimal_digits(n)),
        decimal_value(decimal_digits(n)) == n,
    decreases n,
{
    let digits = decimal_digits(n);
    if n < 10 {
        assert(digits.drop_last() =~= Seq::<u8>::empty());
        assert(decimal_value(digits.drop_last()) == 0);
        assert(digits.last() == 48 + n);
    } else {
        lemma_decimal_digits(n / 10);
        let head = decimal_digits(n / 10);
        assert(digits.drop_last() =~= head);
        assert(digits.last() == 48 + n % 10);
        assert(decimal_value(digits) == 10 * decimal_value(head) + (digits.last() - 48));
        assert forall|i: int| 0 <= i < digits.len() implies is_digit(#[trigger] digits[i]) by {
            if i < head.len() {
                assert(digits[i] == head[i]);
            }
        }
    }
}

/// The hexadecimal text of some bytes has two characters per byte, which
/// stand for the byte.
pub proof fn lemma_hex_text(bytes: Seq<u8>, i: int)
    requires
        0 <= i < bytes.len(),
    ensures
        hex_text(bytes).len() == 2 * bytes.len(),
        hex_byte(hex_text(bytes)[2 * i], hex_text(bytes)[2 * i + 1]) == Some(bytes[i]),
    decreases bytes.len(),
{
    lemma_hex_text_len(bytes);
    lemma_hex_text_len(bytes.drop_last());
    if i < bytes.len() - 1 {
        lemma_hex_text(bytes.drop_last(), i);
    }
}

/// The hexadecimal text of some bytes has two characters per byte.
pub proof fn lemma_hex_text_len(bytes: Seq<u8>)
    ensures
        hex_text(bytes).len() == 2 * bytes.len(),
    decreases bytes.len(),
{
    if bytes.len() > 0 {
        lemma_hex_text_len(bytes.drop_last());
    }
}

/// A line that was written reads as the message it was written for: exactly
/// where the message holds speeds, tags and payloads, and with each ratio
/// replaced by what its byte stands for.
pub proof fn lemma_line_round_trip(msg: Message)
    ensures
        reads(line(msg.id(), msg.wire()), Ok(msg.quantized())),
{
    let digits = decimal_digits(msg.id() as nat);
    let wire = msg.wire();
    let hex = hex_text(wire);
    let text = line(msg.id(), wire);
    let at = digits.len() as int;
    Message::lemma_round_trip(msg);
    lemma_decimal_digits(msg.id() as nat);
    lemma_hex_text_len(wire);
    assert(text[at] == COLON);
    assert forall|i: int| 0 <= i < at implies #[trigger] text[i] != COLON by {
        assert(text[i] == digits[i]);
        assert(is_digit(digits[i]));
    }
    assert(first_colon(text, at));
    assert(text.contains(COLON));
    let chosen = choose|x: int| first_colon(text, x);
    assert(first_colon(text, chosen));
    assert(chosen == at);
    assert(text.subrange(0, at) =~= digits);
    assert(text.subrange(at + 1, text.len() as int) =~= hex);
    assert(is_digit(digits[0]));
    assert(parsed_id(digits) == Some(msg.id()));
    assert forall|i: int| 0 <= i < 8 implies hex_byte(hex[2 * i], hex[2 * i + 1]) == Some(
        #[trigger] wire[i],
    ) by {
        lemma_hex_text(wire, i);
    }
    assert(is_payload(hex, wire));
    assert(has_payload(hex)) by {
        assert forall|i: int| 0 <= i < 8 implies (#[trigger] hex_byte(hex[2 * i], hex[2 * i + 1])) is Some by {
            lemma_hex_text(wire, i);
        }
    }
    let bytes = choose|bytes: Seq<u8>| is_payload(hex, bytes);
    assert(is_payload(hex, bytes));
    assert(bytes =~= wire) by {
        assert forall|i: int| 0 <= i < 8 implies bytes[i] == wire[i] by {
            assert(hex_byte(hex[2 * i], hex[2 * i + 1]) == Some(bytes[i]));
            assert(hex_byte(hex[2 * i], hex[2 * i + 1]) == Some(wire[i]));
        }
    }
}

/// Appends the decimal digits of `n` to `out`.
pub fn push_decimal(n: u16, out: &mut Vec<u8>)
    ensures
        final(out)@ == old(out)@ + decimal_digits(n as nat),
    decreases n,
{
    if n >= 10 {
        push_decimal(n / 10, out);
    }
    out.push(48 + (n % 10) as u8);
    proof {
        if n >= 10 {
            assert(final(out)@ =~= old(out)@ + decimal_digits(n as nat));
        } else {
            assert(final(out)@ =~= old(out)@ + decimal_digits(n as nat));
        }
    }
}

/// The bytes as hexadecimal digits in lower case, two per byte.
pub fn bytes_to_hex(bytes: &[u8]) -> (hex: Vec<u8>)
    ensures
        hex@ == hex_text(bytes@),
{
    let mut hex: Vec<u8> = Vec::new();
    let mut i: usize = 0;
    assert(bytes@.take(0) =~= Seq::<u8>::empty());
    while i < bytes.len()
        invariant
            i <= bytes@.len(),
            hex@ == hex_text(bytes@.take(i as int)),
        decreases bytes@.len() - i,
    {
        let byte = bytes[i];
        let high = byte / 16;
        let low = byte % 16;
        hex.push(if high < 10 { 48 + high } else { 87 + high });
        hex.push(if low < 10 { 48 + low } else { 87 + low });
        proof {
            let next = bytes@.take(i + 1);
            assert(next.drop_last() =~= bytes@.take(i as int));
            assert(next.last() == byte);
        }
        i = i + 1;
    }
    assert(bytes@.take(bytes@.len() as int) =~= bytes@);
    hex
}

/// The value of a hexadecimal digit, in either case.
fn hex_digit_value(c: u8) -> (v: Option<u8>)
    ensures
        v == hex_value(c),
{
    if 48 <= c && c <= 57 {
        Some(c - 48)
    } else if 97 <= c && c <= 102 {
        Some(c - 87)
    } else if 65 <= c && c <= 70 {
        Some(c - 55)
    } else {
        None
    }
}

/// The eight bytes that the first sixteen characters of `hex` stand for.
pub fn hex_to_bytes(hex: &[u8]) -> (bytes: Result<[u8; 8], TextError>)
    ensures
        hex@.len() < 16 ==> bytes == Err::<[u8; 8], TextError>(TextError::ShortData),
        hex@.len() >= 16 && !has_payload(hex@) ==> bytes == Err::<[u8; 8], TextError>(
            TextError::BadDigit,
        ),
        has_payload(hex@) ==> bytes is Ok && is_payload(hex@, bytes->Ok_0@),
{
    if hex.len() < 16 {
        return Err(TextError::ShortData);
    }
    let mut array: [u8; 8] = [0u8; 8];
    let mut i: usize = 0;
    while i < 8
        invariant
            i <= 8,
            hex@.len() >= 16,
            forall|j: int| 0 <= j < i ==> hex_byte(hex@[2 * j], hex@[2 * j + 1]) == Some(#[trigger] array@[j]),
        decreases 8 - i,
    {
        let high = hex[2 * i];
        let low = hex[2 * i + 1];
        let byte: u8 = match (hex_digit_value(high), hex_digit_value(low)) {
            (Some(h), Some(l)) => 16 * h + l,
            (None, Some(l)) => {
                if high == PLUS {
                    l
                } else {
                    assert(hex_byte(hex@[2 * (i as int)], hex@[2 * (i as int) + 1]) is None);
                    return Err(TextError::BadDigit);
                }
            },
            _ => {
                assert(hex_byte(hex@[2 * (i as int)], hex@[2 * (i as int) + 1]) is None);
                return Err(TextError::BadDigit);
            },
        };
        array[i] = byte;
        i = i + 1;
    }
    assert(has_payload(hex@)) by {
        assert forall|j: int| 0 <= j < 8 implies (#[trigger] hex_byte(hex@[2 * j], hex@[2 * j + 1])) is Some by {
            assert(hex_byte(hex@[2 * j], hex@[2 * j + 1]) == Some(array@[j]));
        }
    }
    Ok(array)
}

/// The identifier that a text stands for.
pub fn parse_id(s: &[u8]) -> (id: Option<u16>)
    ensures
        id == parsed_id(s@),
{
    let start: usize = if s.len() > 0 && s[0] == PLUS {
        1
    } else {
        0
    };
    let ghost digits = s@.subrange(start as int, s@.len() as int);
    proof {
        if start == 0 {
            assert(digits =~= s@);
        }
    }
    if start >= s.len() {
        assert(digits.len() == 0);
        return None;
    }
    let mut acc: u32 = 0;
    let mut i: usize = start;
    assert(digits.take(0) =~= Seq::<u8>::empty());
    while i < s.len()
        invariant
            start <= i <= s@.len(),
            start == (if s@.len() > 0 && s@[0] == PLUS {
                1int
            } else {
                0int
            }),
            digits == s@.subrange(start as int, s@.len() as int),
            all_digits(digits.take(i - start)),
            acc <= 0x1_0000,
            acc == (if decimal_value(digits.take(i - start)) <= 0xFFFF {
                decimal_value(digits.take(i - start))
            } else {
                0x1_0000
            }),
        decreases s@.len() - i,
    {
        let c = s[i];
        if c < 48 || c > 57 {
            assert(digits[i - start] == c);
            assert(!all_digits(digits));
            assert(start == 0 ==> digits =~= s@);
            return None;
        }
        proof {
            let next = digits.take(i - start + 1);
            assert(next.drop_last() =~= digits.take(i - start));
            assert(next.last() == c);
            assert forall|j: int| 0 <= j < next.len() implies is_digit(#[trigger] next[j]) by {
                if j < i - start {
                    assert(next[j] == digits.take(i - start)[j]);
                }
            }
        }
        let grown: u32 = acc * 10 + (c - 48) as u32;
        acc = if grown > 0xFFFF {
            0x1_0000
        } else {
            grown
        };
        i = i + 1;
    }
    assert(i - start == digits.len());
    assert(digits.take(digits.len() as int) =~= digits);
    if acc > 0xFFFF {
        None
    } else {
        Some(acc as u16)
    }
}

/// The line of text that stands for a message.
pub fn to_text(msg: &Message) -> (text: Vec<u8>)
    ensures
        text@ == line(msg.id(), msg.wire()),
{
    let mut text: Vec<u8> = Vec::new();
    push_decimal(msg.to_id(), &mut text);
    text.push(COLON);
    let bytes = msg.to_bytes();
    let mut hex = bytes_to_hex(bytes.as_slice());
    let ghost head = text@;
    text.append(&mut hex);
    assert(text@ =~= line(msg.id(), msg.wire()));
    text
}

/// The message that a line of text stands for.
pub fn from_text(s: &[u8]) -> (outcome: Result<Message, TextError>)
    ensures
        reads(s@, outcome),
{
    let mut at: usize = 0;
    while at < s.len() && s[at] != COLON
        invariant
            at <= s@.len(),
            forall|i: int| 0 <= i < at ==> #[trigger] s@[i] != COLON,
        decreases s@.len() - at,
    {
        at = at + 1;
    }
    if at >= s.len() {
        assert(!s@.contains(COLON));
        return Err(TextError::MissingColon);
    }
    proof {
        assert(first_colon(s@, at as int));
        assert(s@.contains(COLON));
        let chosen = choose|x: int| first_colon(s@, x);
        assert(first_colon(s@, chosen));
        assert(chosen == at);
    }
    let head = slice_subrange(s, 0, at);
    let data = slice_subrange(s, at + 1, s.len());
    let id = match parse_id(head) {
        None => {
            return Err(TextError::BadId);
        },
        Some(id) => id,
    };
    let bytes = match hex_to_bytes(data) {
        Err(e) => {
            return Err(e);
        },
        Ok(bytes) => bytes,
    };
    proof {
        let chosen = choose|b: Seq<u8>| is_payload(data@, b);
        assert(is_payload(data@, bytes@));
        assert(is_payload(data@, chosen));
        assert(chosen =~= bytes@) by {
            assert forall|i: int| 0 <= i < 8 implies chosen[i] == bytes@[i] by {
                assert(hex_byte(data@[2 * i], data@[2 * i + 1]) == Some(chosen[i]));
                assert(hex_byte(data@[2 * i], data@[2 * i + 1]) == Some(bytes@[i]));
            }
        }
    }
    match Message::from_bytes(id, bytes.as_slice()) {
        Some(msg) => Ok(msg),
        None => Err(TextError::UnknownId),
    }
}

} // verus!
