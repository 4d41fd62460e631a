//! Numbers read from text.
//!
//! A numeral is one or more decimal digits; it stands for the number that
//! the digits spell, the most significant first.

use vstd::prelude::*;
use crate::names::{decimal, digit};

verus! {

/// Whether a character is a decimal digit.
pub open spec fn is_digit(c: char) -> bool {
    '0' <= c <= '9'
}

/// The number a decimal digit stands for.
pub open spec fn digit_value(c: char) -> nat {
    (c as int - '0' as int) as nat
}

/// Whether a text is made of decimal digits alone.
pub open spec fn all_digits(text: Seq<char>) -> bool {
    forall|i: int| 0 <= i < text.len() ==> is_digit(#[trigger] text[i])
}

/// Whether a text is a numeral: one or more decimal digits and nothing else.
pub open spec fn numeral(text: Seq<char>) -> bool {
    text.len() > 0 && all_digits(text)
}

/// The number that digits spell, the most significant first.
pub open spec fn digits_value(text: Seq<char>) -> nat
    decreases text.len(),
{
    if text.len() == 0 {
        0
    } else {
        10 * digits_value(text.drop_last()) + digit_value(text.last())
    }
}

/// The text after its first character.
pub open spec fn after_first(text: Seq<char>) -> Seq<char> {
    text.subrange(1, text.len() as int)
}

/// One more digit at the end makes the number ten times as large and adds
/// the digit.
pub proof fn lemma_one_more_digit(text: Seq<char>, c: char)
    ensures
        digits_value(text.push(c)) == 10 * digits_value(text) + digit_value(c),
        all_digits(text) && is_digit(c) ==> numeral(text.push(c)),
{
    assert(text.push(c).drop_last() =~= text);
}

/// The digits written for a number read back as that number.
pub proof fn lemma_decimal_reads_back(n: nat)
    ensures
        numeral(decimal(n)),
        digits_value(decimal(n)) == n,
        decimal(n)[0] != '+',
        decimal(n)[0] != '-',
    decreases n,
{
    if n < 10 {
        assert(decimal(n) =~= Seq::<char>::empty().push(digit(n)));
        lemma_one_more_digit(Seq::<char>::empty(), digit(n));
    } else {
        lemma_decimal_reads_back(n / 10);
        lemma_one_more_digit(decimal(n / 10), digit(n % 10));
    }
}

} // verus!
