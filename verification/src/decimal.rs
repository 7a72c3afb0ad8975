//! Decimal numerals.

use vstd::prelude::*;
use vstd::string::*;
use crate::text::characters;

verus! {

/// The character of a decimal digit.
pub open spec fn digit_char(digit: nat) -> char
    recommends
        digit < 10,
{
    if digit == 0 {
        '0'
    } else if digit == 1 {
        '1'
    } else if digit == 2 {
        '2'
    } else if digit == 3 {
        '3'
    } else if digit == 4 {
        '4'
    } else if digit == 5 {
        '5'
    } else if digit == 6 {
        '6'
    } else if digit == 7 {
        '7'
    } else if digit == 8 {
        '8'
    } else {
        '9'
    }
}

/// The decimal numeral of a number: no sign, and no leading zero but for
/// zero itself.
pub open spec fn decimal_text(value: nat) -> Seq<char>
    decreases value,
{
    if value < 10 {
        seq![digit_char(value)]
    } else {
        decimal_text(value / 10).push(digit_char(value % 10))
    }
}

/// The one-character string of a decimal digit.
fn digit_str(digit: u32) -> (text: &'static str)
    requires
        digit < 10,
    ensures
        text@ == seq![digit_char(digit as nat)],
{
    proof {
        reveal_strlit("0");
        reveal_strlit("1");
        reveal_strlit("2");
        reveal_strlit("3");
        reveal_strlit("4");
        reveal_strlit("5");
        reveal_strlit("6");
        reveal_strlit("7");
        reveal_strlit("8");
        reveal_strlit("9");
    }
    let text = if digit == 0 {
        "0"
    } else if digit == 1 {
        "1"
    } else if digit == 2 {
        "2"
    } else if digit == 3 {
        "3"
    } else if digit == 4 {
        "4"
    } else if digit == 5 {
        "5"
    } else if digit == 6 {
        "6"
    } else if digit == 7 {
        "7"
    } else if digit == 8 {
        "8"
    } else {
        "9"
    };
    assert(text@ =~= seq![digit_char(digit as nat)]);
    text
}

/// Writes a number as its decimal numeral.
pub fn render_decimal(value: u32) -> (text: String)
    ensures
        text@ == decimal_text(value as nat),
    decreases value,
{
    if value < 10 {
        digit_str(value).to_owned()
    } else {
        let mut text = render_decimal(value / 10);
        text.append(digit_str(value % 10));
        assert(text@ =~= decimal_text(value as nat));
        text
    }
}

/// The digit that a character is, if it is one of `0` to `9`.
pub open spec fn digit_of(c: char) -> Option<nat> {
    if c == '0' {
        Some(0)
    } else if c == '1' {
        Some(1)
    } else if c == '2' {
        Some(2)
    } else if c == '3' {
        Some(3)
    } else if c == '4' {
        Some(4)
    } else if c == '5' {
        Some(5)
    } else if c == '6' {
        Some(6)
    } else if c == '7' {
        Some(7)
    } else if c == '8' {
        Some(8)
    } else if c == '9' {
        Some(9)
    } else {
        None
    }
}

/// The number that a text of decimal digits spells. The empty text spells
/// none, nor does a text with any other character; zeros in front change
/// nothing.
pub open spec fn digits_value(digits: Seq<char>) -> Option<nat>
    decreases digits.len(),
{
    if digits.len() == 0 {
        None
    } else {
        match digit_of(digits.last()) {
            None => None,
            Some(digit) => if digits.len() == 1 {
                Some(digit)
            } else {
                match digits_value(digits.drop_last()) {
                    Some(high) => Some(high * 10 + digit),
                    None => None,
                }
            },
        }
    }
}

/// A text without the `+` that may stand in front of a number.
pub open spec fn unsigned_digits(text: Seq<char>) -> Seq<char> {
    if text.len() > 0 && text[0] == '+' {
        text.drop_first()
    } else {
        text
    }
}

/// The unsigned 64-bit number that a text spells: decimal digits, with one
/// `+` in front at most, and a value that fits.
pub open spec fn unsigned_of(text: Seq<char>) -> Option<u64> {
    match digits_value(unsigned_digits(text)) {
        Some(value) => if value <= u64::MAX {
            Some(value as u64)
        } else {
            None
        },
        None => None,
    }
}

/// The beginning of a text that spells a number spells a number too, and
/// not a greater one.
proof fn lemma_prefix_value(digits: Seq<char>, length: int)
    requires
        1 <= length <= digits.len(),
        digits_value(digits) is Some,
    ensures
        digits_value(digits.take(length)) is Some,
        digits_value(digits.take(length))->0 <= digits_value(digits)->0,
    decreases digits.len(),
{
    if length == digits.len() {
        assert(digits.take(length) =~= digits);
    } else {
        assert(digits.drop_last().take(length) =~= digits.take(length));
        lemma_prefix_value(digits.drop_last(), length);
    }
}

/// The digit that a character is.
fn digit(c: char) -> (value: Option<u64>)
    ensures
        match value {
            Some(digit) => digit_of(c) == Some(digit as nat) && digit <= 9,
            None => digit_of(c) is None,
        },
{
    if c == '0' {
        Some(0)
    } else if c == '1' {
        Some(1)
    } else if c == '2' {
        Some(2)
    } else if c == '3' {
        Some(3)
    } else if c == '4' {
        Some(4)
    } else if c == '5' {
        Some(5)
    } else if c == '6' {
        Some(6)
    } else if c == '7' {
        Some(7)
    } else if c == '8' {
        Some(8)
    } else if c == '9' {
        Some(9)
    } else {
        None
    }
}

/// Reads an unsigned number: decimal digits, with one `+` in front at most.
/// White space, a `-`, any other character, no digit at all, or a value
/// beyond 64 bits give nothing.
pub fn parse_unsigned(text: &str) -> (parsed: Option<u64>)
    ensures
        parsed == unsigned_of(text@),
{
    let chars = characters(text);
    let length = chars.len();
    let start: usize = if length > 0 && chars[0] == '+' {
        1
    } else {
        0
    };
    let ghost digits = unsigned_digits(text@);
    assert(digits =~= text@.subrange(start as int, length as int));
    if start == length {
        return None;
    }
    let mut value: u64 = 0;
    let mut index: usize = start;
    while index < length
        invariant
            start <= index <= length,
            length == chars.len(),
            chars@ == text@,
            digits == unsigned_digits(text@),
            digits == text@.subrange(start as int, length as int),
            index == start ==> value == 0,
            index > start ==> digits_value(digits.take(index - start)) == Some(value as nat),
        decreases length - index,
    {
        let ghost read = digits.take(index - start + 1);
        proof {
            assert(read.last() == chars@[index as int]);
            assert(read.drop_last() =~= digits.take(index - start));
            if digits_value(digits) is Some {
                lemma_prefix_value(digits, index - start + 1);
            }
        }
        let low = match digit(chars[index]) {
            Some(low) => low,
            None => return None,
        };
        if value > (u64::MAX - low) / 10 {
            return None;
        }
        value = value * 10 + low;
        index += 1;
    }
    assert(digits.take(index - start) =~= digits);
    Some(value)
}

/// Reading is the inverse of writing: the numeral of a number spells that
/// number.
pub proof fn lemma_decimal_round_trip(value: nat)
    ensures
        digits_value(decimal_text(value)) == Some(value),
        value <= u64::MAX ==> unsigned_of(decimal_text(value)) == Some(value as u64),
    decreases value,
{
    if value >= 10 {
        lemma_decimal_round_trip(value / 10);
        let numeral = decimal_text(value);
        assert(numeral.drop_last() =~= decimal_text(value / 10));
        assert(numeral.last() == digit_char(value % 10));
        lemma_numeral_has_no_sign(value / 10);
    }
    lemma_numeral_has_no_sign(value);
}

/// A numeral is not empty and does not begin with `+`.
proof fn lemma_numeral_has_no_sign(value: nat)
    ensures
        decimal_text(value).len() >= 1,
        decimal_text(value)[0] != '+',
    decreases value,
{
    if value >= 10 {
        lemma_numeral_has_no_sign(value / 10);
    }
}

} // verus!
