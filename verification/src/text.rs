//! Texts as sequences of characters: finding one text in another, and
//! writing an integer in decimal.

use vstd::prelude::*;

verus! {

/// The character of a decimal digit.
pub open spec fn digit_char(digit: int) -> char {
    if digit == 0 {
        '0'
    } else if digit == 1 {
        '1'
    } else if digit == 2 {
        '2'
    } else if digit == 3 {
        '3'
    } else if digit == 4 {
        '4'
    } else if digit == 5 {
        '5'
    } else if digit == 6 {
        '6'
    } else if digit == 7 {
        '7'
    } else if digit == 8 {
        '8'
    } else {
        '9'
    }
}

/// The decimal digits of a natural number, without leading zeros.
pub open spec fn digits(n: nat) -> Seq<char>
    decreases n,
{
    if n < 10 {
        seq![digit_char(n as int)]
    } else {
        digits(n / 10).push(digit_char((n % 10) as int))
    }
}

/// An integer in decimal, with a minus sign before a negative one.
pub open spec fn decimal(n: int) -> Seq<char> {
    if n < 0 {
        seq!['-'] + digits((-n) as nat)
    } else {
        digits(n as nat)
    }
}

/// Whether `pattern` occurs in `text` as a run of consecutive characters.
pub open spec fn occurs_in(text: Seq<char>, pattern: Seq<char>) -> bool {
    exists|i: int|
        0 <= i && i + pattern.len() <= text.len() && #[trigger] text.subrange(
            i,
            i + pattern.len(),
        ) == pattern
}

/// Calls `str::contains` with a string as the pattern.
///
/// Assumed of `std`: the answer is `true` exactly when the pattern matches
/// a part of the text, that is, when its characters occur in the text in
/// one run.
#[verifier::external_body]
pub(crate) fn text_contains(text: &str, pattern: &str) -> (found: bool)
    ensures
        found == occurs_in(text@, pattern@),
{
    text.contains(pattern)
}

/// Calls `to_string` of `std` on an integer.
///
/// Assumed of `std`: the text is the integer in decimal, without leading
/// zeros, with a minus sign before a negative one.
#[verifier::external_body]
pub(crate) fn decimal_text(n: i64) -> (text: String)
    ensures
        text@ == decimal(n as int),
{
    n.to_string()
}

} // verus!
