//! Whole numbers written in decimal, read as `str::parse::<i32>` reads them.

use vstd::prelude::*;

verus! {

/// Whether `c` is one of the ten digits.
pub open spec fn is_digit(c: char) -> bool {
    '0' <= c <= '9'
}

/// Whether `text` is made of nothing but digits.
pub open spec fn all_digits(text: Seq<char>) -> bool {
    forall|i: int| 0 <= i < text.len() ==> is_digit(#[trigger] text[i])
}

/// The number that the digits `digits` write.
pub open spec fn digits_value(digits: Seq<char>) -> int
    decreases digits.len(),
{
    if digits.len() == 0 {
        0
    } else {
        digits_value(digits.drop_last()) * 10 + (digits.last() as int - '0' as int)
    }
}

/// The digits of `text`: all of it but a leading `+` or `-`.
pub open spec fn digits_of(text: Seq<char>) -> Seq<char> {
    if text.len() > 0 && (text[0] == '-' || text[0] == '+') {
        text.skip(1)
    } else {
        text
    }
}

/// The number that `text` writes: an optional `+` or `-` and then digits, at
/// least one, and nothing else. `None` for any other text, and for a number
/// that an `i32` cannot hold.
pub open spec fn decimal_i32(text: Seq<char>) -> Option<i32> {
    let digits = digits_of(text);
    let value = if text.len() > 0 && text[0] == '-' {
        -digits_value(digits)
    } else {
        digits_value(digits)
    };
    if digits.len() > 0 && all_digits(digits) && i32::MIN <= value <= i32::MAX {
        Some(value as i32)
    } else {
        None
    }
}

/// The characters of `text`, one by one.
pub fn chars_of(text: &str) -> (chars: Vec<char>)
    ensures
        chars@ == text@,
{
    let mut chars: Vec<char> = Vec::new();
    for c in it: text.chars()
        invariant
            it.seq() == text@,
            chars@ == it.seq().take(it.index()),
    {
        chars.push(c);
    }
    chars
}

/// The number that the characters `from..to` of `chars` write.
pub fn parse_i32_within(chars: &Vec<char>, from: usize, to: usize) -> (value: Option<i32>)
    requires
        from <= to <= chars.len(),
    ensures
        value == decimal_i32(chars@.subrange(from as int, to as int)),
{
    if from == to {
        return None;
    }
    let first = chars[from];
    let negative = first == '-';
    let start: usize = if first == '-' || first == '+' {
        from + 1
    } else {
        from
    };
    let ghost digits = chars@.subrange(start as int, to as int);
    let mut magnitude: i64 = 0;
    let mut too_large = false;
    let mut i: usize = start;
    while i < to
        invariant
            from <= start <= i <= to <= chars.len(),
            digits == chars@.subrange(start as int, to as int),
            digits == digits_of(chars@.subrange(from as int, to as int)),
            all_digits(digits.take(i - start)),
            !too_large ==> magnitude == digits_value(digits.take(i - start)) && 0 <= magnitude
                <= 2147483648,
            too_large ==> digits_value(digits.take(i - start)) > 2147483648,
        decreases to - i,
    {
        let c = chars[i];
        if c < '0' || c > '9' {
            assert(!is_digit(digits[i - start]));
            return None;
        }
        assert(digits.take(i - start + 1).drop_last() =~= digits.take(i - start));
        if !too_large {
            let digit: i64 = (c as u32 - '0' as u32) as i64;
            let next: i64 = magnitude * 10 + digit;
            if next > 2147483648 {
                too_large = true;
            } else {
                magnitude = next;
            }
        }
        i += 1;
    }
    assert(digits.take(to - start) =~= digits);
    if start == to || too_large {
        None
    } else if negative {
        Some((-magnitude) as i32)
    } else if magnitude > 2147483647 {
        None
    } else {
        Some(magnitude as i32)
    }
}

/// The number that `text` writes, as `str::parse::<i32>` reads it.
pub fn parse_i32(text: &str) -> (value: Option<i32>)
    ensures
        value == decimal_i32(text@),
{
    let chars = chars_of(text);
    assert(chars@.subrange(0, chars@.len() as int) =~= chars@);
    parse_i32_within(&chars, 0, chars.len())
}

} // verus!
