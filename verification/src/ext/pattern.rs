//! Topic patterns: `regex::Regex`.

use vstd::prelude::*;

use regex::Regex;

verus! {

/// A compiled pattern.
#[verifier::external_type_specification]
#[verifier::external_body]
pub struct ExRegex(Regex);

/// A text from which `Regex::new` makes a pattern that matches as this one does: the text that it
/// was compiled from, where it was compiled by `Regex::new`.
pub uninterp spec fn pattern_text(pattern: Regex) -> Seq<char>;

/// Whether `Regex::new` accepts a text: it is a regular expression, and its program is within the
/// size limit of `regex`.
pub uninterp spec fn pattern_compiles(text: Seq<char>) -> bool;

/// Whether the pattern of the text `pattern` matches somewhere in `haystack`.
pub uninterp spec fn pattern_matches(pattern: Seq<char>, haystack: Seq<char>) -> bool;

/// `Regex::new`: compiles the text where it is acceptable.
#[verifier::external_body]
pub(crate) fn compile(text: &str) -> (pattern: Option<Regex>)
    ensures
        pattern is Some <==> pattern_compiles(text@),
        pattern matches Some(p) ==> pattern_text(p) == text@,
{
    Regex::new(text).ok()
}

/// `Regex::is_match`: whether the pattern matches somewhere in the text.
#[verifier::external_body]
pub(crate) fn is_match(pattern: &Regex, haystack: &str) -> (found: bool)
    ensures
        found == pattern_matches(pattern_text(*pattern), haystack@),
{
    pattern.is_match(haystack)
}

/// `Regex::clone`: the same pattern.
#[verifier::external_body]
pub(crate) fn clone_pattern(pattern: &Regex) -> (other: Regex)
    ensures
        pattern_text(other) == pattern_text(*pattern),
{
    pattern.clone()
}

} // verus!
