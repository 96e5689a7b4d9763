//! Regular expressions, as the `regex` crate provides them.
//!
//! Nothing in this module is proved: each item states what the crate's
//! documentation says of one of its functions, and the rest of the library
//! builds on these statements.

use vstd::prelude::*;
use regex::Regex;

verus! {

/// A compiled regular expression of the `regex` crate.
#[verifier::external_type_specification]
#[verifier::external_body]
pub struct ExRegex(regex::Regex);

/// The regular expression that `regex::Regex::new` makes of a source text,
/// or `None` where it rejects the text as invalid or as too large.
pub uninterp spec fn compiled(source: Seq<char>) -> Option<Regex>;

/// What `regex::Regex::captures` finds in a text: `None` where nothing in the
/// text matches, else, for the first match, what each capture group matched.
/// Group 0 is the whole match; a group that took no part in the match is
/// `None`.
pub uninterp spec fn captures_of(regex: Regex, text: Seq<char>) -> Option<Seq<Option<Seq<char>>>>;

/// What `regex::Regex::captures_iter` finds in a text: the capture groups of
/// each of the successive matches that do not overlap, in their order.
pub uninterp spec fn all_captures_of(regex: Regex, text: Seq<char>) -> Seq<
    Seq<Option<Seq<char>>>,
>;

/// The texts of capture groups as mathematical values.
pub open spec fn groups_view(groups: Seq<Option<String>>) -> Seq<Option<Seq<char>>> {
    Seq::new(
        groups.len(),
        |i: int|
            match groups[i] {
                Some(text) => Some(text@),
                None => None,
            },
    )
}

/// The capture groups of several matches as mathematical values.
pub open spec fn matches_view(found: Seq<Vec<Option<String>>>) -> Seq<Seq<Option<Seq<char>>>> {
    Seq::new(found.len(), |i: int| groups_view(found[i]@))
}

/// Calls `regex::Regex::new`, which compiles a regular expression. The
/// result depends on the source text alone; the error that says why a text
/// was rejected is dropped.
#[verifier::external_body]
pub(crate) fn compile(source: &str) -> (result: Option<Regex>)
    ensures
        result == compiled(source@),
{
    Regex::new(source).ok()
}

/// Calls `regex::Regex::is_match`, which is documented to return true if and
/// only if there is a match anywhere in the text, that is, where `captures`
/// finds one.
#[verifier::external_body]
pub(crate) fn is_match(regex: &Regex, text: &str) -> (result: bool)
    ensures
        result == (captures_of(*regex, text@) is Some),
{
    regex.is_match(text)
}

/// Calls `regex::Regex::captures` and copies out what each group matched.
#[verifier::external_body]
pub(crate) fn captures(regex: &Regex, text: &str) -> (result: Option<Vec<Option<String>>>)
    ensures
        match result {
            Some(groups) => captures_of(*regex, text@) == Some(groups_view(groups@)),
            None => captures_of(*regex, text@) is None,
        },
{
    regex.captures(text).map(
        |found| found.iter().map(|group| group.map(|m| m.as_str().to_string())).collect(),
    )
}

/// Calls `regex::Regex::captures_iter` and copies out what each group of
/// each match matched.
#[verifier::external_body]
pub(crate) fn captures_iter(regex: &Regex, text: &str) -> (result: Vec<Vec<Option<String>>>)
    ensures
        matches_view(result@) == all_captures_of(*regex, text@),
{
    regex.captures_iter(text).map(
        |found| found.iter().map(|group| group.map(|m| m.as_str().to_string())).collect(),
    ).collect()
}

} // verus!
