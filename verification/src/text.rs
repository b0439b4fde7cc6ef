//! Byte-level helpers for header names and decimal header values.

use vstd::prelude::*;
use vstd::utf8::encode_utf8;

verus! {

/// The UTF-8 bytes of a text.
pub open spec fn bytes_of(text: Seq<char>) -> Seq<u8> {
    encode_utf8(text)
}

/// The number of bytes that a text takes in UTF-8.
pub open spec fn byte_len(text: Seq<char>) -> nat {
    bytes_of(text).len()
}

/// A byte with the ASCII capitals mapped to their small letters.
pub open spec fn ascii_lower(b: u8) -> u8 {
    if 65 <= b && b <= 90 {
        (b + 32) as u8
    } else {
        b
    }
}

/// Whether `bytes`, with ASCII capitals made small, reads `lower`.
pub open spec fn reads_as(bytes: Seq<u8>, lower: Seq<u8>) -> bool {
    &&& bytes.len() == lower.len()
    &&& forall|i: int| 0 <= i < bytes.len() ==> ascii_lower(#[trigger] bytes[i]) == lower[i]
}

/// Whether a header name matches the lower-case name `lower`, ignoring ASCII case.
pub open spec fn is_named(name: Seq<char>, lower: Seq<u8>) -> bool {
    reads_as(bytes_of(name), lower)
}

/// The bytes of `content-type`.
pub open spec fn content_type_name() -> Seq<u8> {
    seq![99u8, 111u8, 110u8, 116u8, 101u8, 110u8, 116u8, 45u8, 116u8, 121u8, 112u8, 101u8]
}

/// The bytes of `content-length`.
pub open spec fn content_length_name() -> Seq<u8> {
    seq![
        99u8, 111u8, 110u8, 116u8, 101u8, 110u8, 116u8, 45u8, 108u8, 101u8, 110u8, 103u8, 116u8,
        104u8,
    ]
}

/// The bytes of `content-type`, for comparing header names.
pub fn content_type_bytes() -> (name: [u8; 12])
    ensures
        name@ == content_type_name(),
{
    let name: [u8; 12] = [
        99u8, 111u8, 110u8, 116u8, 101u8, 110u8, 116u8, 45u8, 116u8, 121u8, 112u8, 101u8,
    ];
    assert(name@ =~= content_type_name());
    name
}

/// The bytes of `content-length`, for comparing header names.
pub fn content_length_bytes() -> (name: [u8; 14])
    ensures
        name@ == content_length_name(),
{
    let name: [u8; 14] = [
        99u8, 111u8, 110u8, 116u8, 101u8, 110u8, 116u8, 45u8, 108u8, 101u8, 110u8, 103u8, 116u8,
        104u8,
    ];
    assert(name@ =~= content_length_name());
    name
}

/// Tells whether a header name is `lower` up to ASCII case.
pub fn name_is(name: &str, lower: &[u8]) -> (same: bool)
    ensures
        same == is_named(name@, lower@),
{
    let bytes = name.as_bytes();
    if bytes.len() != lower.len() {
        return false;
    }
    let mut i: usize = 0;
    while i < bytes.len()
        invariant
            bytes@ == bytes_of(name@),
            bytes.len() == lower.len(),
            i <= bytes.len(),
            forall|j: int| 0 <= j < i ==> ascii_lower(#[trigger] bytes@[j]) == lower@[j],
        decreases bytes.len() - i,
    {
        let b: u8 = bytes[i];
        let low: u8 = if 65 <= b && b <= 90 {
            b + 32
        } else {
            b
        };
        if low != lower[i] {
            assert(ascii_lower(bytes@[i as int]) != lower@[i as int]);
            return false;
        }
        i = i + 1;
    }
    true
}

/// Whether every byte is an ASCII digit.
pub open spec fn all_digits(bytes: Seq<u8>) -> bool {
    forall|i: int| 0 <= i < bytes.len() ==> 48 <= #[trigger] bytes[i] <= 57
}

/// The number that a run of ASCII digits writes in base ten.
pub open spec fn digits_value(bytes: Seq<u8>) -> nat
    decreases bytes.len(),
{
    if bytes.len() == 0 {
        0
    } else {
        (digits_value(bytes.drop_last()) * 10 + (bytes.last() - 48)) as nat
    }
}

/// The bytes of a number without its optional leading plus sign.
pub open spec fn unsigned_part(bytes: Seq<u8>) -> Seq<u8> {
    if bytes.len() > 0 && bytes[0] == 43 {
        bytes.subrange(1, bytes.len() as int)
    } else {
        bytes
    }
}

/// The length that a header value writes: an optional `+`, then one or more
/// decimal digits whose value fits the machine word. Anything else writes
/// none.
pub open spec fn decimal_length(bytes: Seq<u8>) -> Option<usize> {
    let digits = unsigned_part(bytes);
    if digits.len() > 0 && all_digits(digits) && digits_value(digits) <= usize::MAX {
        Some(digits_value(digits) as usize)
    } else {
        None
    }
}

/// A longer run of digits writes a number that is no smaller than any of its prefixes.
pub proof fn lemma_digits_value_grows(bytes: Seq<u8>, k: int)
    requires
        all_digits(bytes),
        0 <= k <= bytes.len(),
    ensures
        digits_value(bytes.take(k)) <= digits_value(bytes),
    decreases bytes.len(),
{
    if k == bytes.len() {
        assert(bytes.take(k) =~= bytes);
    } else {
        assert(bytes.drop_last().take(k) =~= bytes.take(k));
        lemma_digits_value_grows(bytes.drop_last(), k);
    }
}

/// Reads a header value as a length.
pub fn parse_length(value: &str) -> (length: Option<usize>)
    ensures
        length == decimal_length(bytes_of(value@)),
{
    let bytes = value.as_bytes();
    let start: usize = if bytes.len() > 0 && bytes[0] == 43 {
        1
    } else {
        0
    };
    let ghost digits = unsigned_part(bytes@);
    assert(digits =~= bytes@.subrange(start as int, bytes.len() as int));
    if start == bytes.len() {
        return None;
    }
    let mut total: usize = 0;
    let mut i: usize = start;
    while i < bytes.len()
        invariant
            bytes@ == bytes_of(value@),
            digits == bytes@.subrange(start as int, bytes.len() as int),
            digits == unsigned_part(bytes@),
            start <= i <= bytes.len(),
            all_digits(digits.take(i - start)),
            total == digits_value(digits.take(i - start)),
        decreases bytes.len() - i,
    {
        let b: u8 = bytes[i];
        assert(digits[i - start] == b);
        if b < 48 || b > 57 {
            return None;
        }
        let ghost next = digits.take(i - start + 1);
        assert(next.drop_last() =~= digits.take(i - start));
        assert(next.last() == b);
        assert(all_digits(next));
        let digit: usize = (b - 48) as usize;
        let scaled = total.checked_mul(10);
        let sum = match scaled {
            Some(s) => s.checked_add(digit),
            None => None,
        };
        match sum {
            Some(s) => {
                total = s;
            },
            None => {
                proof {
                    assert(digits_value(next) > usize::MAX);
                    if all_digits(digits) {
                        lemma_digits_value_grows(digits, i - start + 1);
                    }
                }
                return None;
            },
        }
        i = i + 1;
    }
    assert(digits.take(i - start) =~= digits);
    Some(total)
}

/// The character that writes a decimal digit.
pub open spec fn digit_char(digit: nat) -> char {
    if digit == 0 {
        '0'
    } else if digit == 1 {
        '1'
    } else if digit == 2 {
        '2'
    } else if digit == 3 {
        '3'
    } else if digit == 4 {
        '4'
    } else if digit == 5 {
        '5'
    } else if digit == 6 {
        '6'
    } else if digit == 7 {
        '7'
    } else if digit == 8 {
        '8'
    } else {
        '9'
    }
}

/// The decimal digits of a number, most significant first; none for zero.
pub open spec fn digits_of(number: nat) -> Seq<char>
    decreases number,
{
    if number == 0 {
        Seq::empty()
    } else {
        digits_of(number / 10).push(digit_char(number % 10))
    }
}

/// A number written in base ten, without leading zeros.
pub open spec fn decimal_text(number: nat) -> Seq<char> {
    if number == 0 {
        seq!['0']
    } else {
        digits_of(number)
    }
}

/// The text of one decimal digit.
pub fn digit_text(digit: usize) -> (text: &'static str)
    requires
        digit < 10,
    ensures
        text@ == seq![digit_char(digit as nat)],
{
    proof {
        reveal_strlit("0");
        reveal_strlit("1");
        reveal_strlit("2");
        reveal_strlit("3");
        reveal_strlit("4");
        reveal_strlit("5");
        reveal_strlit("6");
        reveal_strlit("7");
        reveal_strlit("8");
        reveal_strlit("9");
    }
    let text = if digit == 0 {
        "0"
    } else if digit == 1 {
        "1"
    } else if digit == 2 {
        "2"
    } else if digit == 3 {
        "3"
    } else if digit == 4 {
        "4"
    } else if digit == 5 {
        "5"
    } else if digit == 6 {
        "6"
    } else if digit == 7 {
        "7"
    } else if digit == 8 {
        "8"
    } else {
        "9"
    };
    assert(text@ =~= seq![digit_char(digit as nat)]);
    text
}

/// Appends the decimal digits of a number to a text; nothing for zero.
pub fn push_digits(text: &mut String, number: usize)
    ensures
        final(text)@ == old(text)@ + digits_of(number as nat),
    decreases number,
{
    if number > 0 {
        push_digits(text, number / 10);
        text.append(digit_text(number % 10));
        assert(text@ =~= old(text)@ + digits_of(number as nat));
    }
}

/// Writes a number in base ten.
pub fn write_decimal(number: usize) -> (text: String)
    ensures
        text@ == decimal_text(number as nat),
{
    if number == 0 {
        proof {
            reveal_strlit("0");
        }
        let text = "0".to_owned();
        assert(text@ =~= seq!['0']);
        text
    } else {
        let mut text = String::new();
        push_digits(&mut text, number);
        assert(text@ =~= digits_of(number as nat));
        text
    }
}

} // verus!
