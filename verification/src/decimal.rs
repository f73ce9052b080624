//! Reading a signed decimal integer.

use vstd::prelude::*;

verus! {

/// Whether `c` is one of the ten decimal digits.
pub open spec fn is_digit(c: char) -> bool {
    '0' <= c <= '9'
}

/// The number that a string of decimal digits denotes.
pub open spec fn digits_value(digits: Seq<char>) -> int
    decreases digits.len(),
{
    if digits.len() == 0 {
        0
    } else {
        10 * digits_value(digits.drop_last()) + (digits.last() as int - '0' as int)
    }
}

/// Whether `text` begins with a sign.
pub open spec fn has_sign(text: Seq<char>) -> bool {
    text.len() > 0 && (text[0] == '-' || text[0] == '+')
}

/// What is left of `text` after its sign, if it has one.
pub open spec fn unsigned_part(text: Seq<char>) -> Seq<char> {
    if has_sign(text) {
        text.skip(1)
    } else {
        text
    }
}

/// The integer that `text` denotes in decimal: an optional `+` or `-`, then
/// one or more digits and nothing else.
pub open spec fn decimal_value(text: Seq<char>) -> Option<int> {
    let digits = unsigned_part(text);
    if digits.len() > 0 && (forall|i: int|
        0 <= i < digits.len() ==> is_digit(#[trigger] digits[i])) {
        Some(
            if text[0] == '-' {
                -digits_value(digits)
            } else {
                digits_value(digits)
            },
        )
    } else {
        None
    }
}

/// The decimal value of `text`, where it has one that fits in 64 bits.
pub open spec fn decimal_i64(text: Seq<char>) -> Option<i64> {
    match decimal_value(text) {
        Some(v) => if i64::MIN <= v <= i64::MAX {
            Some(v as i64)
        } else {
            None
        },
        None => None,
    }
}

/// A string of digits denotes no less than any of its prefixes.
proof fn lemma_digits_value_grows(digits: Seq<char>)
    requires
        digits.len() > 0,
        forall|i: int| 0 <= i < digits.len() ==> is_digit(#[trigger] digits[i]),
    ensures
        0 <= digits_value(digits.drop_last()) <= digits_value(digits),
    decreases digits.len(),
{
    let front = digits.drop_last();
    if front.len() > 0 {
        lemma_digits_value_grows(front);
    }
}

/// Reads `text` as a signed decimal integer of 64 bits.
pub fn parse_i64(text: &str) -> (r: Option<i64>)
    ensures
        r == decimal_i64(text@),
{
    let ghost digits = unsigned_part(text@);
    let ghost start: int = if has_sign(text@) {
        1
    } else {
        0
    };
    // No magnitude above 2^63 is in range, with either sign.
    let limit: u128 = 0x8000_0000_0000_0000;
    let mut magnitude: u128 = 0;
    let mut too_big = false;
    let mut negative = false;
    let mut at_start = true;
    let mut any_digit = false;
    for c in iter: text.chars()
        invariant
            iter.seq() == text@,
            digits == unsigned_part(text@),
            start == if has_sign(text@) { 1int } else { 0int },
            limit == 0x8000_0000_0000_0000,
            at_start == (iter.index() == 0),
            negative == (iter.index() > 0 && text@[0] == '-'),
            any_digit == (iter.index() > start),
            at_start ==> magnitude == 0 && !too_big,
            !at_start ==> start <= iter.index(),
            forall|j: int| 0 <= j < iter.index() - start ==> is_digit(#[trigger] digits[j]),
            !at_start && !too_big ==> magnitude == digits_value(digits.take(iter.index() - start))
                && magnitude <= limit,
            too_big ==> digits_value(digits.take(iter.index() - start)) > limit,
    {
        if at_start && (c == '-' || c == '+') {
            negative = c == '-';
        } else {
            if !('0' <= c && c <= '9') {
                proof {
                    assert(digits[iter.index() - start] == c);
                }
                return None;
            }
            proof {
                let longer = digits.take(iter.index() - start + 1);
                assert(longer.drop_last() =~= digits.take(iter.index() - start));
                lemma_digits_value_grows(longer);
            }
            if !too_big {
                let digit: u128 = (c as u32 - '0' as u32) as u128;
                magnitude = magnitude * 10 + digit;
                if magnitude > limit {
                    too_big = true;
                }
            }
            any_digit = true;
        }
        at_start = false;
    }
    proof {
        assert(digits.take(text@.len() - start) =~= digits);
    }
    if !any_digit || too_big {
        None
    } else if negative {
        Some((-(magnitude as i128)) as i64)
    } else if magnitude < limit {
        Some(magnitude as i64)
    } else {
        None
    }
}

} // verus!
