//! Character classes of the lexer.

use vstd::prelude::*;

verus! {

/// Whether a character beyond ASCII is alphanumeric: the answer of
/// `char::is_alphanumeric`, which the standard library reads from its tables
/// of the Unicode character database.
pub uninterp spec fn unicode_alphanumeric(c: char) -> bool;

/// A letter or a digit: for ASCII the ranges `a-z`, `A-Z` and `0-9`, beyond
/// ASCII whatever Unicode classes as alphabetic or numeric.
pub open spec fn is_alphanumeric(c: char) -> bool {
    if c <= '\x7f' {
        is_ascii_alphanumeric(c)
    } else {
        unicode_alphanumeric(c)
    }
}

/// An ASCII letter or digit.
pub open spec fn is_ascii_alphanumeric(c: char) -> bool {
    ('a' <= c <= 'z') || ('A' <= c <= 'Z') || ('0' <= c <= '9')
}

/// A character that may stand in a word: a letter, a digit, an underscore or
/// a tick.
pub open spec fn is_word_char(c: char) -> bool {
    is_alphanumeric(c) || c == '_' || c == '\''
}

/// A character that may stand in a numeric literal: a hexadecimal digit, one
/// of the radix letters `b`, `h`, `d`, `o`, or a tick.
pub open spec fn is_number_char(c: char) -> bool {
    ('0' <= c <= '9') || ('a' <= c <= 'f') || ('A' <= c <= 'F') || c == 'b' || c == 'h' || c == 'd'
        || c == 'o' || c == '\''
}

/// A space, a tab, a carriage return or a line feed.
pub open spec fn is_space(c: char) -> bool {
    c == ' ' || c == '\t' || c == '\r' || c == '\n'
}

/// `char::is_alphanumeric` of the standard library: whether Unicode classes
/// the character as alphabetic or gives it a numeric general category. Among
/// the ASCII characters those are the letters and the digits, which the
/// contract spells out; for any other character it says only that the
/// answer depends on the character alone.
#[verifier::external_body]
fn alphanumeric(c: char) -> (r: bool)
    ensures
        r == (if c <= '\x7f' {
            is_ascii_alphanumeric(c)
        } else {
            unicode_alphanumeric(c)
        }),
{
    c.is_alphanumeric()
}

/// Tests whether `c` may stand in a word, given whether it is a letter or a
/// digit.
pub fn word_char_given(letter_or_digit: bool, c: char) -> (r: bool)
    ensures
        r == (letter_or_digit || c == '_' || c == '\''),
{
    letter_or_digit || c == '_' || c == '\''
}

/// Tests whether `c` may stand in a word.
pub fn word_char(c: char) -> (r: bool)
    ensures
        r == is_word_char(c),
{
    word_char_given(alphanumeric(c), c)
}

/// Tests whether `c` may stand in a numeric literal.
pub fn number_char(c: char) -> (r: bool)
    ensures
        r == is_number_char(c),
{
    ('0' <= c && c <= '9') || ('a' <= c && c <= 'f') || ('A' <= c && c <= 'F') || c == 'b' || c == 'h'
        || c == 'd' || c == 'o' || c == '\''
}

} // verus!
