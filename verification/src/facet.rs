//! The facet grammar: validity, date-like suffix detection, splitting
//! and reconstruction.
//!
//! A facet is a tag-like string. It is valid when a whitespace trim
//! would leave it unchanged and it does not start with a slash. It may
//! end in a nine-character date-like suffix `~YYYYMMDD`; the matcher
//! additionally demands that the character before the tilde, if there
//! is one, is not whitespace. The splitter is deliberately more
//! permissive than the matcher: it slices the last nine characters off
//! without re-checking that whitespace rule.

use vstd::prelude::*;
use vstd::string::*;
use vstd::utf8::is_ascii_chars;
use crate::chars::{spec_is_whitespace, is_whitespace_char, is_ascii_digit_char};
use crate::date::{
    Date, FormatError, spec_suffix_shape, spec_parse_date_suffix, spec_date_suffix,
    parse_date_suffix, format_date_suffix, lemma_format_parse_round_trip,
};

verus! {

/// True when a facet string is valid: a whitespace trim would leave it
/// unchanged — it neither starts nor ends with a whitespace character —
/// and it does not start with `/`. The empty string is valid.
pub open spec fn spec_is_valid(s: Seq<char>) -> bool {
    s.len() == 0 || (!spec_is_whitespace(s[0]) && !spec_is_whitespace(s[s.len() - 1]) && s[0]
        != '/')
}

/// Check if the given facet is valid.
///
/// An empty facet is valid.
pub fn is_valid(facet: &str) -> (r: bool)
    ensures
        r == spec_is_valid(facet@),
{
    let n = facet.unicode_len();
    if n == 0 {
        return true;
    }
    let first = facet.get_char(0);
    let last = facet.get_char(n - 1);
    !is_whitespace_char(first) && !is_whitespace_char(last) && first != '/'
}

/// Check if the given facet is empty.
pub fn is_empty(facet: &str) -> (r: bool)
    ensures
        r == (facet@.len() == 0),
{
    facet.is_empty()
}

/// True when `s` ends in a date-like suffix: its last nine characters
/// are a tilde followed by eight ASCII digits, and the character before
/// that block, if any, is not whitespace.
pub open spec fn spec_has_date_like_suffix(s: Seq<char>) -> bool {
    let n = s.len() as int;
    &&& n >= 9
    &&& spec_suffix_shape(s.subrange(n - 9, n))
    &&& (n == 9 || !spec_is_whitespace(s[n - 10]))
}

/// True when `s` ends in the specifically malformed variant of the
/// date-like suffix: the tilde-and-eight-digits block at the very end,
/// immediately preceded by a whitespace character.
pub open spec fn spec_has_invalid_date_like_suffix(s: Seq<char>) -> bool {
    let n = s.len() as int;
    &&& n >= 10
    &&& spec_suffix_shape(s.subrange(n - 9, n))
    &&& spec_is_whitespace(s[n - 10])
}

/// Scan the end of `facet` for the tilde-and-eight-digits block:
/// true iff the last nine characters are `~` followed by eight ASCII
/// decimal digits.
fn ends_in_suffix_block(facet: &str, n: usize) -> (r: bool)
    requires
        n == facet@.len(),
        n >= 9,
    ensures
        r == spec_suffix_shape(facet@.subrange(n - 9, n as int)),
{
    let ghost suffix = facet@.subrange(n - 9, n as int);
    if facet.get_char(n - 9) != '~' {
        proof {
            assert(suffix[0] == facet@[n - 9]);
        }
        return false;
    }
    let mut i: usize = n - 8;
    while i < n
        invariant
            n == facet@.len(),
            n >= 9,
            n - 8 <= i <= n,
            suffix == facet@.subrange(n - 9, n as int),
            forall|j: int| n - 8 <= j < i ==> crate::chars::spec_is_ascii_digit(
                #[trigger] facet@[j],
            ),
        decreases n - i,
    {
        if !is_ascii_digit_char(facet.get_char(i)) {
            proof {
                assert(suffix[i - (n - 9)] == facet@[i as int]);
            }
            return false;
        }
        i += 1;
    }
    proof {
        assert forall|k: int| 1 <= k < 9 implies crate::chars::spec_is_ascii_digit(
            #[trigger] suffix[k],
        ) by {
            assert(suffix[k] == facet@[n - 9 + k]);
        }
        assert(suffix[0] == facet@[n - 9]);
    }
    true
}

/// Check for a date-like suffix in the facet.
pub fn has_date_like_suffix(facet: &str) -> (r: bool)
    ensures
        r == spec_has_date_like_suffix(facet@),
{
    let n = facet.unicode_len();
    if n < 9 {
        return false;
    }
    if !ends_in_suffix_block(facet, n) {
        return false;
    }
    if n == 9 {
        return true;
    }
    !is_whitespace_char(facet.get_char(n - 10))
}

/// Check a string for an invalid date-like suffix: a date-like block
/// whose separator is preceded by a whitespace character.
pub fn has_invalid_date_like_suffix(facet: &str) -> (r: bool)
    ensures
        r == spec_has_invalid_date_like_suffix(facet@),
{
    let n = facet.unicode_len();
    if n < 10 {
        return false;
    }
    if !ends_in_suffix_block(facet, n) {
        return false;
    }
    is_whitespace_char(facet.get_char(n - 10))
}

/// True when the splitter succeeds on `s`: at least nine characters,
/// and the last nine are all ASCII.
pub open spec fn spec_can_split(s: Seq<char>) -> bool {
    s.len() >= 9 && is_ascii_chars(s.subrange(s.len() - 9, s.len() as int))
}

/// The part of `s` before its last nine characters.
pub open spec fn spec_split_prefix(s: Seq<char>) -> Seq<char>
    recommends
        s.len() >= 9,
{
    s.subrange(0, s.len() - 9)
}

/// The last nine characters of `s`.
pub open spec fn spec_split_suffix(s: Seq<char>) -> Seq<char>
    recommends
        s.len() >= 9,
{
    s.subrange(s.len() - 9, s.len() as int)
}

/// Split a facet into a prefix and the date-like suffix.
///
/// The split is purely positional: the last nine characters are taken
/// as the candidate suffix, whether or not they have the `~YYYYMMDD`
/// shape and whether or not whitespace precedes them. It fails only
/// when the facet is shorter than nine characters or when the
/// candidate suffix is not pure ASCII.
pub fn try_split_into_prefix_and_date_like_suffix(facet: &str) -> (r: Option<(&str, &str)>)
    ensures
        r is Some <==> spec_can_split(facet@),
        (r matches Some(p) ==> {
            &&& p.0@ == spec_split_prefix(facet@)
            &&& p.1@ == spec_split_suffix(facet@)
            &&& p.0@ + p.1@ == facet@
        }),
        facet@.len() < 9 ==> r is None,
{
    let n = facet.unicode_len();
    if n < 9 {
        return None;
    }
    let date_suffix = facet.substring_char(n - 9, n);
    if !date_suffix.is_ascii() {
        return None;
    }
    let prefix = facet.substring_char(0, n - 9);
    proof {
        assert(prefix@ + date_suffix@ =~= facet@);
    }
    Some((prefix, date_suffix))
}

/// Split a facet into a prefix and the date suffix.
///
/// Splits exactly as [`try_split_into_prefix_and_date_like_suffix`]
/// does; the second component then carries the parsed calendar date,
/// or `None` when the nine trailing characters do not encode a real
/// one. A failure to parse does not make the split itself fail.
pub fn try_split_into_prefix_and_date_suffix(facet: &str) -> (r: Option<(&str, Option<Date>)>)
    ensures
        r is Some <==> spec_can_split(facet@),
        (r matches Some(p) ==> {
            &&& p.0@ == spec_split_prefix(facet@)
            &&& p.1 == spec_parse_date_suffix(spec_split_suffix(facet@))
        }),
        facet@.len() < 9 ==> r is None,
{
    match try_split_into_prefix_and_date_like_suffix(facet) {
        None => None,
        Some((prefix, date_suffix)) => {
            let date = parse_date_suffix(date_suffix);
            Some((prefix, date))
        },
    }
}

/// Concatenate a prefix and a [`Date`] suffix to a facet string.
///
/// The prefix should not end with trailing whitespace, or the result
/// carries an invalid date-like suffix despite encoding a real date.
///
/// Fails exactly when the year of `date` is negative, i.e. has no
/// zero-padded four-digit representation.
pub fn build_from_prefix_and_date(prefix: &str, date: &Date) -> (r: Result<String, FormatError>)
    requires
        date.wf(),
    ensures
        r is Ok <==> 0 <= date.spec_year(),
        (r matches Ok(f) ==> f@ == prefix@ + spec_date_suffix(*date)),
{
    let suffix = match format_date_suffix(date) {
        Ok(suffix) => suffix,
        Err(e) => {
            return Err(e);
        },
    };
    let mut facet = prefix.to_owned();
    facet.append(suffix.as_str());
    Ok(facet)
}

/// Law: a facet built from a prefix and a representable date splits
/// back into that prefix, and its trailing nine characters parse back
/// into that date.
pub proof fn lemma_build_split_round_trip(prefix: Seq<char>, date: Date)
    requires
        date.wf(),
        0 <= date.spec_year(),
    ensures
        spec_can_split(prefix + spec_date_suffix(date)),
        spec_split_prefix(prefix + spec_date_suffix(date)) == prefix,
        spec_parse_date_suffix(spec_split_suffix(prefix + spec_date_suffix(date))) == Some(date),
{
    let suffix = spec_date_suffix(date);
    let f = prefix + suffix;
    lemma_format_parse_round_trip(date);
    assert(spec_split_suffix(f) =~= suffix);
    assert(spec_split_prefix(f) =~= prefix);
    assert forall|i: int| 0 <= i < 9 implies '\0' <= #[trigger] suffix[i] <= '\u{7f}' by {
        if 1 <= i {
            assert(crate::chars::spec_is_ascii_digit(suffix[i]));
        }
    }
}

} // verus!
