//! Small facts about text that the rest of the library shares.

use vstd::prelude::*;

verus! {

/// The characters of an optional string.
pub open spec fn optional_text(text: Option<String>) -> Option<Seq<char>> {
    match text {
        Some(text) => Some(text@),
        None => None,
    }
}

/// Whether `haystack` goes on with `needle` from a place on.
pub open spec fn occurs_at(needle: Seq<char>, haystack: Seq<char>, start: int) -> bool {
    0 <= start <= haystack.len() - needle.len() && haystack.subrange(start, start + needle.len())
        == needle
}

/// Whether `needle` occurs in `haystack` as one uninterrupted run of characters.
pub open spec fn occurs_in(needle: Seq<char>, haystack: Seq<char>) -> bool {
    exists|start: int| occurs_at(needle, haystack, start)
}

/// `str::contains` with a string for its pattern: true exactly where the pattern
/// is a part of the text.
#[verifier::external_body]
pub(crate) fn contains_text(haystack: &str, needle: &str) -> (found: bool)
    ensures
        found == occurs_in(needle@, haystack@),
{
    haystack.contains(needle)
}

/// Whether an optional string is present and spells `text`.
pub fn is_text(optional: &Option<String>, text: &String) -> (same: bool)
    ensures
        same == (optional_text(*optional) == Some(text@)),
{
    match optional {
        Some(present) => *present == *text,
        None => false,
    }
}

/// A copy of an optional string.
pub fn copy_text(optional: &Option<String>) -> (copy: Option<String>)
    ensures
        optional_text(copy) == optional_text(*optional),
{
    match optional {
        Some(present) => Some(present.clone()),
        None => None,
    }
}

} // verus!
