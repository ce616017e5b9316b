//! Decimal numbers as they stand in a header: reading and writing them.

use vstd::prelude::*;
use vstd::slice::slice_subrange;

verus! {

/// The byte `0`.
pub const ZERO: u8 = 48;

/// The byte `9`.
pub const NINE: u8 = 57;

/// The byte `+`.
pub const PLUS: u8 = 43;

/// Whether `byte` is one of `0` to `9`.
pub open spec fn is_digit(byte: u8) -> bool {
    ZERO <= byte <= NINE
}

/// Whether `text` holds digits only.
pub open spec fn all_digits(text: Seq<u8>) -> bool {
    forall|i: int| 0 <= i < text.len() ==> is_digit(#[trigger] text[i])
}

/// The number that a string of digits denotes, most significant digit first.
pub open spec fn digits_value(text: Seq<u8>) -> nat
    decreases text.len(),
{
    if text.len() == 0 {
        0
    } else {
        digits_value(text.drop_last()) * 10 + (text.last() - ZERO) as nat
    }
}

/// `text` without the one `+` that may lead it.
pub open spec fn unsigned(text: Seq<u8>) -> Seq<u8> {
    if text.len() > 0 && text[0] == PLUS {
        text.skip(1)
    } else {
        text
    }
}

/// The number that `text` denotes: one or more digits, which a single `+` may
/// lead. Anything else, the empty string and a space among them, denotes
/// nothing.
pub open spec fn decimal(text: Seq<u8>) -> Option<nat> {
    let digits = unsigned(text);
    if digits.len() > 0 && all_digits(digits) {
        Some(digits_value(digits))
    } else {
        None
    }
}

/// The number that `text` denotes, where it fits a `usize`.
pub open spec fn decimal_usize(text: Seq<u8>) -> Option<usize> {
    match decimal(text) {
        Some(value) => if value <= usize::MAX {
            Some(value as usize)
        } else {
            None
        },
        None => None,
    }
}

/// The digits of `value`, most significant first, with no leading zero but
/// for zero itself.
pub open spec fn digits_of(value: nat) -> Seq<u8>
    decreases value,
{
    if value < 10 {
        seq![(ZERO + value) as u8]
    } else {
        digits_of(value / 10).push((ZERO + value % 10) as u8)
    }
}

/// A string of digits denotes at least what any of its prefixes denotes.
pub proof fn lemma_digits_value_grows(text: Seq<u8>, len: int)
    requires
        0 <= len <= text.len(),
    ensures
        digits_value(text.take(len)) <= digits_value(text),
    decreases text.len(),
{
    if len == text.len() {
        assert(text.take(len) =~= text);
    } else {
        lemma_digits_value_grows(text.drop_last(), len);
        assert(text.drop_last().take(len) =~= text.take(len));
    }
}

/// What `digits_of` writes is a non-empty string of digits that denotes the
/// number it was written for.
pub proof fn lemma_digits_of(value: nat)
    ensures
        digits_of(value).len() > 0,
        all_digits(digits_of(value)),
        digits_value(digits_of(value)) == value,
        decimal(digits_of(value)) == Some(value),
    decreases value,
{
    if value < 10 {
        let text = digits_of(value);
        assert(digits_value(text.drop_last()) == 0);
    } else {
        lemma_digits_of(value / 10);
        let head = digits_of(value / 10);
        let text = digits_of(value);
        assert(text.drop_last() =~= head);
    }
}

/// Reads a decimal number. `None` where `text` denotes no number or one too
/// large for `usize`.
pub fn parse_decimal(text: &[u8]) -> (value: Option<usize>)
    ensures
        value == decimal_usize(text@),
{
    let start: usize = if text.len() > 0 && text[0] == PLUS {
        1
    } else {
        0
    };
    let digits = slice_subrange(text, start, text.len());
    if digits.len() == 0 {
        return None;
    }
    let mut total: usize = 0;
    let mut i: usize = 0;
    while i < digits.len()
        invariant
            i <= digits.len(),
            digits.len() > 0,
            digits@ == unsigned(text@),
            all_digits(digits@.take(i as int)),
            total == digits_value(digits@.take(i as int)),
        decreases digits.len() - i,
    {
        let byte = digits[i];
        if byte < ZERO || byte > NINE {
            return None;
        }
        let digit = (byte - ZERO) as usize;
        proof {
            assert(digits@.take(i + 1).drop_last() =~= digits@.take(i as int));
            lemma_digits_value_grows(digits@, i + 1);
        }
        if total > (usize::MAX - digit) / 10 {
            return None;
        }
        total = total * 10 + digit;
        i += 1;
    }
    assert(digits@.take(i as int) =~= digits@);
    Some(total)
}

/// Appends the digits of `value` to `out`.
pub fn write_decimal(out: &mut Vec<u8>, value: usize)
    ensures
        final(out)@ == old(out)@ + digits_of(value as nat),
    decreases value,
{
    if value >= 10 {
        write_decimal(out, value / 10);
    }
    out.push(ZERO + (value % 10) as u8);
}

} // verus!
