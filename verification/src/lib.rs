//! Facets: short tag-like labels that may end in a date-encoded suffix
//! (`~YYYYMMDD`).
//!
//! The crate validates facet strings, recognises date-like suffixes,
//! splits a facet into a prefix and its suffix, parses the suffix as a
//! calendar date, and rebuilds a facet from a prefix and a date.

pub mod chars;
pub mod date;
pub mod facet;
pub mod compact;
