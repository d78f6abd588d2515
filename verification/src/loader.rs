//! The text form of a program.
//!
//! A bytecode file is text: the program's bytes in decimal, three characters
//! to a byte, nothing between them. `078083075079000` is the magic header
//! followed by a `Halt`. A number may carry a `+` in front in place of a
//! digit, and the last one may be shorter than three characters.

use vstd::prelude::*;

verus! {

/// Whether `b` is an ASCII decimal digit.
pub open spec fn is_digit(b: u8) -> bool {
    48 <= b <= 57
}

/// The number that a string of decimal digits denotes.
pub open spec fn digits_value(digits: Seq<u8>) -> int
    decreases digits.len(),
{
    if digits.len() == 0 {
        0
    } else {
        digits_value(digits.drop_last()) * 10 + (digits.last() - 48)
    }
}

/// The digits of a number: what follows its `+` sign if it has one, all of
/// it if it has none.
pub open spec fn unsigned_part(number: Seq<u8>) -> Seq<u8> {
    if number.len() > 0 && number[0] == 43 {
        number.subrange(1, number.len() as int)
    } else {
        number
    }
}

/// The byte that a number denotes: an optional `+`, then at least one
/// digit and nothing but digits, with a value of at most 255. `None` for
/// anything else.
pub open spec fn number(text: Seq<u8>) -> Option<u8> {
    let digits = unsigned_part(text);
    if digits.len() > 0 && (forall|i: int| 0 <= i < digits.len() ==> is_digit(#[trigger] digits[i]))
        && digits_value(digits) <= 255 {
        Some(digits_value(digits) as u8)
    } else {
        None
    }
}

/// How many numbers a text holds: one for every three characters, and one
/// more for what is left.
pub open spec fn chunk_count(text: Seq<u8>) -> int {
    (text.len() as int + 2) / 3
}

/// The `i`-th number of a text: its characters from `3 * i` up to but not
/// including `3 * i + 3`, or up to the end of the text if that comes first.
pub open spec fn chunk(text: Seq<u8>, i: int) -> Seq<u8> {
    text.subrange(3 * i, if 3 * i + 3 <= text.len() { 3 * i + 3 } else { text.len() as int })
}

/// The byte denoted by `text[from..to]`, a number of one to three
/// characters.
fn parse_number(text: &[u8], from: usize, to: usize) -> (value: Option<u8>)
    requires
        from < to <= text@.len(),
        to - from <= 3,
    ensures
        value == number(text@.subrange(from as int, to as int)),
{
    let start = if text[from] == 43 { from + 1 } else { from };
    let ghost digits = unsigned_part(text@.subrange(from as int, to as int));
    if start == to {
        return None;
    }
    let mut total: u32 = 0;
    let mut at = start;
    while at < to
        invariant
            start <= at <= to <= text@.len(),
            to - start <= 3,
            digits == text@.subrange(start as int, to as int),
            digits == unsigned_part(text@.subrange(from as int, to as int)),
            forall|i: int| 0 <= i < at - start ==> is_digit(#[trigger] digits[i]),
            total == digits_value(digits.subrange(0, at - start)),
            total <= 999,
            at - start == 1 ==> total <= 9,
            at - start == 2 ==> total <= 99,
        decreases to - at,
    {
        let b = text[at];
        if b < 48 || b > 57 {
            assert(!is_digit(digits[at - start]));
            return None;
        }
        proof {
            let longer = digits.subrange(0, at - start + 1);
            assert(longer.drop_last() =~= digits.subrange(0, at - start));
        }
        total = total * 10 + (b - 48) as u32;
        at += 1;
    }
    assert(digits.subrange(0, at - start) =~= digits);
    if total <= 255 {
        Some(total as u8)
    } else {
        None
    }
}

/// Reads a program from its text form: the bytes that the numbers of the
/// text denote, in their order, if every number denotes one; `None` if any
/// does not.
pub fn parse_bytecode(text: &[u8]) -> (program: Option<Vec<u8>>)
    ensures
        match program {
            Some(bytes) => {
                &&& bytes@.len() == chunk_count(text@)
                &&& forall|i: int|
                    0 <= i < bytes@.len() ==> number(chunk(text@, i)) == Some(#[trigger] bytes@[i])
            },
            None => exists|i: int|
                0 <= i < chunk_count(text@) && (#[trigger] number(chunk(text@, i))) is None,
        },
{
    let mut bytes: Vec<u8> = Vec::new();
    let mut from: usize = 0;
    while from < text.len()
        invariant
            from <= text@.len(),
            from == 3 * bytes@.len() || from == text@.len(),
            bytes@.len() == chunk_count(text@.subrange(0, from as int)),
            forall|i: int|
                0 <= i < bytes@.len() ==> number(chunk(text@, i)) == Some(#[trigger] bytes@[i]),
        decreases text@.len() - from,
    {
        let to = if text.len() - from >= 3 { from + 3 } else { text.len() };
        let ghost index = bytes@.len() as int;
        match parse_number(text, from, to) {
            Some(byte) => {
                bytes.push(byte);
            },
            None => {
                assert(number(chunk(text@, index)) is None);
                return None;
            },
        }
        from = to;
    }
    Some(bytes)
}

} // verus!
