//! The [`Facet`] trait and its default implementation backed by
//! `compact_str::CompactString`.
//!
//! The backing string type is opaque to the verifier: the characters it
//! holds are given a name, [`compact_str_chars`], and two small trusted
//! wrappers state how construction and read-back relate to that name.
//! Everything else — validity, suffix matching, splitting, parsing and
//! reconstruction — is the verified logic of [`crate::facet`].

use vstd::prelude::*;
use crate::date::{Date, FormatError, spec_parse_date_suffix, spec_date_suffix};
use crate::facet::{
    spec_is_valid, spec_has_date_like_suffix, spec_has_invalid_date_like_suffix, spec_can_split,
    spec_split_prefix, spec_split_suffix, build_from_prefix_and_date,
};

verus! {

#[verifier::external_type_specification]
#[verifier::external_body]
pub struct ExCompactString(compact_str::CompactString);

/// The characters that a `compact_str::CompactString` holds.
pub uninterp spec fn compact_str_chars(s: compact_str::CompactString) -> Seq<char>;

/// Relies on `compact_str::CompactString::clone`: the clone holds the
/// same characters as the original.
pub assume_specification[ <compact_str::CompactString as Clone>::clone ](
    s: &compact_str::CompactString,
) -> (r: compact_str::CompactString)
    ensures
        compact_str_chars(r) == compact_str_chars(*s),
;

/// Relies on `compact_str::CompactString::new`: the new string holds
/// exactly the characters of `text`.
#[verifier::external_body]
fn compact_from_str(text: &str) -> (r: compact_str::CompactString)
    ensures
        compact_str_chars(r) == text@,
{
    compact_str::CompactString::new(text)
}

/// Relies on `compact_str::CompactString::as_str`: the returned slice
/// contains the entire string.
#[verifier::external_body]
fn compact_as_str(s: &compact_str::CompactString) -> (r: &str)
    ensures
        r@ == compact_str_chars(*s),
{
    s.as_str()
}

/// Common trait for facets: any string-backed representation of a
/// tag-like label, queried through the verified facet grammar.
pub trait Facet: Sized {
    /// The characters of the facet.
    spec fn facet_chars(&self) -> Seq<char>;

    /// Create a facet from a borrowed string slice.
    fn from_str(facet: &str) -> (r: Self)
        ensures
            r.facet_chars() == facet@,
    ;

    /// Create a facet from an owned string.
    fn from_string(facet: String) -> (r: Self)
        ensures
            r.facet_chars() == facet@,
    ;

    /// The facet as a string slice.
    fn as_str(&self) -> (r: &str)
        ensures
            r@ == self.facet_chars(),
    ;

    /// Concatenate a prefix and [`Date`] suffix to a facet.
    ///
    /// The prefix string must not end with trailing whitespace,
    /// otherwise the resulting facet is invalid.
    ///
    /// Fails exactly when the year of `date` is negative, i.e. cannot
    /// be written with four digits.
    fn from_prefix_with_date_suffix(prefix: &str, date: &Date) -> (r: Result<Self, FormatError>)
        requires
            date.wf(),
        ensures
            r is Ok <==> 0 <= date.spec_year(),
            (r matches Ok(f) ==> f.facet_chars() == prefix@ + spec_date_suffix(*date)),
    ;

    /// [`crate::facet::is_valid`]
    fn is_valid(&self) -> (r: bool)
        ensures
            r == spec_is_valid(self.facet_chars()),
    ;

    /// [`crate::facet::is_empty`]
    fn is_empty(&self) -> (r: bool)
        ensures
            r == (self.facet_chars().len() == 0),
    ;

    /// [`crate::facet::has_date_like_suffix`]
    fn has_date_like_suffix(&self) -> (r: bool)
        ensures
            r == spec_has_date_like_suffix(self.facet_chars()),
    ;

    /// [`crate::facet::has_invalid_date_like_suffix`]
    fn has_invalid_date_like_suffix(&self) -> (r: bool)
        ensures
            r == spec_has_invalid_date_like_suffix(self.facet_chars()),
    ;

    /// [`crate::facet::try_split_into_prefix_and_date_like_suffix`]
    fn try_split_into_prefix_and_date_like_suffix(&self) -> (r: Option<(&str, &str)>)
        ensures
            r is Some <==> spec_can_split(self.facet_chars()),
            (r matches Some(p) ==> {
                &&& p.0@ == spec_split_prefix(self.facet_chars())
                &&& p.1@ == spec_split_suffix(self.facet_chars())
            }),
    ;

    /// [`crate::facet::try_split_into_prefix_and_date_suffix`]
    fn try_split_into_prefix_and_date_suffix(&self) -> (r: Option<(&str, Option<Date>)>)
        ensures
            r is Some <==> spec_can_split(self.facet_chars()),
            (r matches Some(p) ==> {
                &&& p.0@ == spec_split_prefix(self.facet_chars())
                &&& p.1 == spec_parse_date_suffix(spec_split_suffix(self.facet_chars()))
            }),
    ;
}

/// Facet with a `CompactString` representation.
#[derive(Debug, Clone)]
pub struct CompactFacet(compact_str::CompactString);

impl View for CompactFacet {
    type V = Seq<char>;

    closed spec fn view(&self) -> Seq<char> {
        compact_str_chars(self.0)
    }
}

impl Facet for CompactFacet {
    open spec fn facet_chars(&self) -> Seq<char> {
        self@
    }

    fn from_str(facet: &str) -> Self {
        CompactFacet(compact_from_str(facet))
    }

    fn from_string(facet: String) -> Self {
        CompactFacet(compact_from_str(facet.as_str()))
    }

    fn as_str(&self) -> &str {
        compact_as_str(&self.0)
    }

    fn from_prefix_with_date_suffix(prefix: &str, date: &Date) -> Result<Self, FormatError> {
        match build_from_prefix_and_date(prefix, date) {
            Ok(facet) => Ok(CompactFacet(compact_from_str(facet.as_str()))),
            Err(e) => Err(e),
        }
    }

    fn is_valid(&self) -> bool {
        crate::facet::is_valid(compact_as_str(&self.0))
    }

    fn is_empty(&self) -> bool {
        crate::facet::is_empty(compact_as_str(&self.0))
    }

    fn has_date_like_suffix(&self) -> bool {
        crate::facet::has_date_like_suffix(compact_as_str(&self.0))
    }

    fn has_invalid_date_like_suffix(&self) -> bool {
        crate::facet::has_invalid_date_like_suffix(compact_as_str(&self.0))
    }

    fn try_split_into_prefix_and_date_like_suffix(&self) -> Option<(&str, &str)> {
        crate::facet::try_split_into_prefix_and_date_like_suffix(compact_as_str(&self.0))
    }

    fn try_split_into_prefix_and_date_suffix(&self) -> Option<(&str, Option<Date>)> {
        crate::facet::try_split_into_prefix_and_date_suffix(compact_as_str(&self.0))
    }
}

impl Default for CompactFacet {
    /// The empty facet.
    fn default() -> (r: Self)
        ensures
            r@.len() == 0,
    {
        proof {
            reveal_strlit("");
        }
        CompactFacet(compact_from_str(""))
    }
}

} // verus!
