//! Decimal integers as text: reading them and writing them.
use vstd::prelude::*;

use crate::lexer::is_digit;
use crate::text::{characters, push_char};

verus! {

/// The value of a decimal digit.
pub open spec fn digit_value(c: char) -> nat
    recommends
        is_digit(c),
{
    (c as nat - '0' as nat) as nat
}

/// The digit that stands for a number below ten.
pub open spec fn digit_char(value: nat) -> char
    recommends
        value < 10,
{
    ('0' as u8 + value as u8) as char
}

pub open spec fn all_digits(text: Seq<char>) -> bool {
    forall|i: int| 0 <= i < text.len() ==> is_digit(#[trigger] text[i])
}

/// The number that a sequence of decimal digits stands for.
pub open spec fn decimal(digits: Seq<char>) -> nat
    decreases digits.len(),
{
    if digits.len() == 0 {
        0
    } else {
        decimal(digits.drop_last()) * 10 + digit_value(digits.last())
    }
}

/// The number written by a non-empty run of digits, if it is at most `limit`.
pub open spec fn bounded_decimal(digits: Seq<char>, limit: nat) -> Option<nat> {
    if digits.len() > 0 && all_digits(digits) && decimal(digits) <= limit {
        Some(decimal(digits))
    } else {
        None
    }
}

/// The integer that `text` spells: an optional sign, then at least one
/// decimal digit and nothing else, with a value that fits 64 bits.
pub open spec fn integer_of(text: Seq<char>) -> Option<i64> {
    if text.len() > 0 && text[0] == '-' {
        match bounded_decimal(text.drop_first(), 0x8000_0000_0000_0000) {
            Some(value) => Some((-(value as int)) as i64),
            None => None,
        }
    } else if text.len() > 0 && text[0] == '+' {
        match bounded_decimal(text.drop_first(), 0x7fff_ffff_ffff_ffff) {
            Some(value) => Some(value as i64),
            None => None,
        }
    } else {
        match bounded_decimal(text, 0x7fff_ffff_ffff_ffff) {
            Some(value) => Some(value as i64),
            None => None,
        }
    }
}

/// The decimal digits of a number, most significant first.
pub open spec fn digits_of(value: nat) -> Seq<char>
    decreases value,
{
    if value < 10 {
        seq![digit_char(value)]
    } else {
        digits_of(value / 10).push(digit_char(value % 10))
    }
}

/// An integer in decimal notation, with `-` in front of a negative one.
pub open spec fn integer_text_of(value: int) -> Seq<char> {
    if value < 0 {
        seq!['-'] + digits_of((-value) as nat)
    } else {
        digits_of(value as nat)
    }
}

proof fn lemma_decimal_prefix(digits: Seq<char>, length: int)
    requires
        0 <= length <= digits.len(),
    ensures
        decimal(digits.subrange(0, length)) <= decimal(digits),
    decreases digits.len() - length,
{
    if length < digits.len() {
        let longer = digits.subrange(0, length + 1);
        assert(longer.drop_last() == digits.subrange(0, length));
        lemma_decimal_prefix(digits, length + 1);
    } else {
        assert(digits.subrange(0, length) == digits);
    }
}

/// Reads `characters[from..]` as a run of digits with a value of at most
/// `limit`.
fn read_digits(characters: &Vec<char>, from: usize, limit: u64) -> (result: Option<u64>)
    requires
        from <= characters@.len(),
    ensures
        match result {
            Some(value) => bounded_decimal(
                characters@.subrange(from as int, characters@.len() as int),
                limit as nat,
            ) == Some(value as nat),
            None => bounded_decimal(
                characters@.subrange(from as int, characters@.len() as int),
                limit as nat,
            ) is None,
        },
{
    let length = characters.len();
    let ghost digits = characters@.subrange(from as int, length as int);
    if from == length {
        return None;
    }
    let mut value: u64 = 0;
    let mut index: usize = from;
    while index < length
        invariant
            from <= index <= length,
            length == characters@.len(),
            digits == characters@.subrange(from as int, length as int),
            all_digits(digits.subrange(0, index - from)),
            value == decimal(digits.subrange(0, index - from)),
            value <= limit,
        decreases length - index,
    {
        let c = characters[index];
        let ghost shorter = digits.subrange(0, index - from);
        let ghost longer = digits.subrange(0, index - from + 1);
        proof {
            assert(longer.drop_last() == shorter);
            assert(longer.last() == c);
        }
        if !('0' <= c && c <= '9') {
            assert(digits[index - from] == c);
            return None;
        }
        let digit = (c as u32 - '0' as u32) as u64;
        if limit < digit || value > (limit - digit) / 10 {
            proof {
                assert(decimal(longer) > limit) by (nonlinear_arith)
                    requires
                        decimal(longer) == value * 10 + digit,
                        value > (limit - digit) / 10 || limit < digit,
                        digit < 10,
                ;
                lemma_decimal_prefix(digits, index - from + 1);
            }
            return None;
        }
        assert(value * 10 + digit <= limit) by (nonlinear_arith)
            requires
                value <= (limit - digit) / 10,
                limit >= digit,
        ;
        value = value * 10 + digit;
        index += 1;
        proof {
            assert forall|i: int| 0 <= i < longer.len() implies is_digit(#[trigger] longer[i]) by {
                if i < shorter.len() {
                    assert(longer[i] == shorter[i]);
                }
            }
        }
    }
    assert(digits.subrange(0, index - from) == digits);
    Some(value)
}

/// Reads a decimal integer: an optional sign and at least one digit.
pub fn parse_integer(text: &str) -> (result: Option<i64>)
    ensures
        result == integer_of(text@),
{
    let source = characters(text);
    let length = source.len();
    if length > 0 && source[0] == '-' {
        assert(source@.subrange(1, length as int) == source@.drop_first());
        match read_digits(&source, 1, 0x8000_0000_0000_0000) {
            Some(value) => if value == 0x8000_0000_0000_0000 {
                Some(i64::MIN)
            } else {
                Some(-(value as i64))
            },
            None => None,
        }
    } else if length > 0 && source[0] == '+' {
        assert(source@.subrange(1, length as int) == source@.drop_first());
        match read_digits(&source, 1, 0x7fff_ffff_ffff_ffff) {
            Some(value) => Some(value as i64),
            None => None,
        }
    } else {
        assert(source@.subrange(0, length as int) == source@);
        match read_digits(&source, 0, 0x7fff_ffff_ffff_ffff) {
            Some(value) => Some(value as i64),
            None => None,
        }
    }
}

fn push_digits(text: &mut String, value: u64)
    ensures
        final(text)@ == old(text)@ + digits_of(value as nat),
    decreases value,
{
    if value >= 10 {
        push_digits(text, value / 10);
    }
    let digit = (value % 10) as u8;
    push_char(text, (48u8 + digit) as char);
    proof {
        assert('0' as u8 == 48u8);
        if value >= 10 {
            assert(old(text)@ + digits_of((value / 10) as nat).push(digit_char((value % 10) as nat))
                =~= (old(text)@ + digits_of((value / 10) as nat)).push(
                digit_char((value % 10) as nat),
            ));
        } else {
            assert(old(text)@ + seq![digit_char(value as nat)] =~= old(text)@.push(
                digit_char(value as nat),
            ));
        }
    }
}

/// Writes an integer in decimal notation.
pub fn integer_text(value: i64) -> (result: String)
    ensures
        result@ == integer_text_of(value as int),
{
    let mut result = String::new();
    if value < 0 {
        push_char(&mut result, '-');
        let magnitude: u64 = if value == i64::MIN {
            0x8000_0000_0000_0000
        } else {
            (-value) as u64
        };
        push_digits(&mut result, magnitude);
        assert(result@ =~= seq!['-'] + digits_of((-value) as nat));
    } else {
        push_digits(&mut result, value as u64);
        assert(result@ =~= digits_of(value as nat));
    }
    result
}

} // verus!
