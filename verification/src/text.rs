//! Small verified helpers on text: comparison, and reading a base-10
//! literal.

use vstd::prelude::*;
use vstd::string::*;
use vstd::utf8::is_ascii_chars;
use crate::error::DecodeError;

verus! {

/// Whether two strings hold the same characters.
pub fn text_equals(left: &str, right: &str) -> (same: bool)
    ensures
        same == (left@ == right@),
{
    let length: usize = left.unicode_len();
    if right.unicode_len() != length {
        return false;
    }
    let mut index: usize = 0;
    while index < length
        invariant
            index <= length,
            length == left@.len(),
            length == right@.len(),
            forall|k: int| 0 <= k < index ==> left@[k] == right@[k],
        decreases length - index,
    {
        if left.get_char(index) != right.get_char(index) {
            return false;
        }
        index += 1;
    }
    assert(left@ =~= right@);
    true
}

/// Whether a character is one of `0` to `9`.
pub open spec fn is_digit(c: char) -> bool {
    '0' <= c <= '9'
}

/// The number that a digit stands for.
pub open spec fn digit_value(c: char) -> nat {
    (c as int - '0' as int) as nat
}

/// Whether every character is a digit.
pub open spec fn all_digits(digits: Seq<char>) -> bool {
    forall|i: int| 0 <= i < digits.len() ==> is_digit(#[trigger] digits[i])
}

/// The number that a run of digits writes in base 10.
pub open spec fn decimal_value(digits: Seq<char>) -> nat
    decreases digits.len(),
{
    if digits.len() == 0 {
        0
    } else {
        decimal_value(digits.drop_last()) * 10 + digit_value(digits.last())
    }
}

/// The digits of a literal: the text without its leading `+`, if it has
/// one.
pub open spec fn literal_digits(text: Seq<char>) -> Seq<char> {
    if text.len() > 0 && text[0] == '+' {
        text.skip(1)
    } else {
        text
    }
}

/// Whether the text is a base-10 literal of an unsigned integer: one
/// optional `+`, then at least one digit, and nothing else. No sign `-`, no
/// blank, no separator.
pub open spec fn is_decimal_literal(text: Seq<char>) -> bool {
    literal_digits(text).len() > 0 && all_digits(literal_digits(text))
}

/// The `u32` that a text writes. Text that is no literal is `NotANumber`;
/// a literal above `u32::MAX` is `NumberTooLarge`. Leading zeros are
/// allowed and do not count towards the size.
pub open spec fn parse_decimal(text: Seq<char>) -> Result<u32, DecodeError> {
    if !is_decimal_literal(text) {
        Err(DecodeError::NotANumber)
    } else if decimal_value(literal_digits(text)) > u32::MAX {
        Err(DecodeError::NumberTooLarge)
    } else {
        Ok(decimal_value(literal_digits(text)) as u32)
    }
}

/// Text with a character outside ASCII is no literal.
proof fn lemma_literal_is_ascii(text: Seq<char>)
    requires
        !is_ascii_chars(text),
    ensures
        !is_decimal_literal(text),
{
    let i = choose|i: int| 0 <= i < text.len() && !('\0' <= #[trigger] text[i] <= '\u{7f}');
    let digits = literal_digits(text);
    if text[0] == '+' {
        assert(i > 0);
        assert(digits[i - 1] == text[i]);
        assert(!is_digit(digits[i - 1]));
    } else {
        assert(!is_digit(digits[i]));
    }
}

/// Reads a base-10 literal with overflow checking.
pub fn parse_decimal_text(text: &str) -> (parsed: Result<u32, DecodeError>)
    ensures
        parsed == parse_decimal(text@),
{
    if !text.is_ascii() {
        proof {
            lemma_literal_is_ascii(text@);
        }
        return Err(DecodeError::NotANumber);
    }
    let bytes = text.as_bytes();
    proof {
        is_ascii_spec_bytes(text);
    }
    let length: usize = bytes.len();
    let start: usize = if length > 0 && bytes[0] == 43u8 {
        1
    } else {
        0
    };
    let ghost digits = literal_digits(text@);
    assert(digits.len() == length - start);
    assert(forall|k: int| 0 <= k < digits.len() ==> digits[k] == text@[k + start]);
    if start == length {
        return Err(DecodeError::NotANumber);
    }
    let mut value: u64 = 0;
    let mut too_large = false;
    let mut index: usize = start;
    while index < length
        invariant
            start <= index <= length,
            length == text@.len(),
            is_ascii_chars(text@),
            bytes@ == Seq::new(text@.len(), |i: int| text@[i] as u8),
            digits == literal_digits(text@),
            digits.len() == length - start,
            forall|k: int| 0 <= k < digits.len() ==> digits[k] == text@[k + start],
            all_digits(digits.take(index - start)),
            value <= u32::MAX,
            !too_large ==> value == decimal_value(digits.take(index - start)),
            too_large ==> decimal_value(digits.take(index - start)) > u32::MAX,
        decreases length - index,
    {
        let byte: u8 = bytes[index];
        let ghost read = digits.take(index - start);
        let ghost next = digits.take(index - start + 1);
        proof {
            assert(byte == text@[index as int] as u8);
            assert(next.drop_last() =~= read);
            assert(next.last() == text@[index as int]);
        }
        if byte < 48u8 || byte > 57u8 {
            proof {
                assert(!is_digit(digits[index - start]));
            }
            return Err(DecodeError::NotANumber);
        }
        proof {
            assert(is_digit(text@[index as int]));
            assert(digit_value(text@[index as int]) == byte - 48);
            assert forall|k: int| 0 <= k < next.len() implies is_digit(#[trigger] next[k]) by {
                if k < read.len() {
                    assert(next[k] == read[k]);
                }
            }
        }
        if !too_large {
            let wider: u64 = value * 10 + (byte - 48u8) as u64;
            if wider > 0xffff_ffffu64 {
                too_large = true;
            } else {
                value = wider;
            }
        }
        index += 1;
    }
    assert(digits.take(length - start) =~= digits);
    if too_large {
        Err(DecodeError::NumberTooLarge)
    } else {
        Ok(value as u32)
    }
}

} // verus!
