//! Character classes used by the facet grammar.
//!
//! A facet is scanned character by character: the grammar needs to know
//! which characters count as whitespace (the Unicode `White_Space` set,
//! the one that a whitespace trim removes) and which are ASCII decimal
//! digits.

use vstd::prelude::*;

verus! {

/// True for the characters of the Unicode `White_Space` set.
pub open spec fn spec_is_whitespace(c: char) -> bool {
    ||| c == ' '
    ||| ('\u{9}' <= c && c <= '\u{d}')
    ||| c == '\u{85}'
    ||| c == '\u{a0}'
    ||| c == '\u{1680}'
    ||| ('\u{2000}' <= c && c <= '\u{200a}')
    ||| c == '\u{2028}'
    ||| c == '\u{2029}'
    ||| c == '\u{202f}'
    ||| c == '\u{205f}'
    ||| c == '\u{3000}'
}

/// Decide whether `c` is a whitespace character.
pub fn is_whitespace_char(c: char) -> (r: bool)
    ensures
        r == spec_is_whitespace(c),
{
    c == ' '
        || ('\u{9}' <= c && c <= '\u{d}')
        || c == '\u{85}'
        || c == '\u{a0}'
        || c == '\u{1680}'
        || ('\u{2000}' <= c && c <= '\u{200a}')
        || c == '\u{2028}'
        || c == '\u{2029}'
        || c == '\u{202f}'
        || c == '\u{205f}'
        || c == '\u{3000}'
}

/// True for the ASCII decimal digits `0` to `9`.
pub open spec fn spec_is_ascii_digit(c: char) -> bool {
    '0' <= c && c <= '9'
}

/// Decide whether `c` is an ASCII decimal digit.
pub fn is_ascii_digit_char(c: char) -> (r: bool)
    ensures
        r == spec_is_ascii_digit(c),
{
    '0' <= c && c <= '9'
}

/// The numeric value of an ASCII decimal digit.
pub open spec fn spec_digit_value(c: char) -> int
    recommends
        spec_is_ascii_digit(c),
{
    c as int - '0' as int
}

/// The numeric value of the ASCII decimal digit `c`.
pub fn digit_value(c: char) -> (r: u32)
    requires
        spec_is_ascii_digit(c),
    ensures
        r as int == spec_digit_value(c),
        r <= 9,
{
    (c as u32) - ('0' as u32)
}

} // verus!
