//! Regular expressions, applied by the `regex` crate.
//!
//! A pattern is kept as its text and compiled where it is applied, so that
//! what a search finds is a function of two texts.

use vstd::prelude::*;

verus! {

/// Whether `regex::Regex::new` accepts the pattern: it is a regular
/// expression, and not too large a one.
pub uninterp spec fn regex_accepts(pattern: Seq<char>) -> bool;

/// Whether the pattern, once compiled, matches somewhere in the text, as
/// `regex::Regex::is_match` tells.
pub uninterp spec fn regex_is_match(pattern: Seq<char>, text: Seq<char>) -> bool;

/// Compiles the pattern with `regex::Regex::new` and asks `is_match`, which is
/// true if and only if there is a match anywhere in the text. A pattern that
/// does not compile gives `None`.
#[verifier::external_body]
pub(crate) fn matches_pattern(pattern: &str, text: &str) -> (found: Option<bool>)
    ensures
        found is Some <==> regex_accepts(pattern@),
        found matches Some(hit) ==> hit == regex_is_match(pattern@, text@),
{
    match regex::Regex::new(pattern) {
        Ok(compiled) => Some(compiled.is_match(text)),
        Err(_) => None,
    }
}

/// The successive non-overlapping matches of the pattern, once compiled, in
/// the text, as `regex::Regex::captures_iter` yields them: each match with
/// the text of every capture group in the order of the groups, group 0 being
/// the whole match and a group that took no part being `None`.
pub uninterp spec fn regex_captures(pattern: Seq<char>, text: Seq<char>) -> Seq<
    Seq<Option<Seq<char>>>,
>;

/// Compiles the pattern with `regex::Regex::new`, walks `captures_iter` and
/// copies the text of each group of each match as `Captures::iter` yields
/// them. A pattern that does not compile gives `None`.
#[verifier::external_body]
pub(crate) fn captures_of(pattern: &str, text: &str) -> (found: Option<Vec<Vec<Option<String>>>>)
    ensures
        found is Some <==> regex_accepts(pattern@),
        found matches Some(all) ==> all.deep_view() == regex_captures(pattern@, text@),
{
    match regex::Regex::new(pattern) {
        Ok(compiled) => Some(
            compiled.captures_iter(text).map(
                |groups| groups.iter().map(|group| group.map(|m| m.as_str().to_owned())).collect(),
            ).collect(),
        ),
        Err(_) => None,
    }
}

/// The pattern is a regular expression that matches somewhere in the text.
pub open spec fn is_found_in(pattern: Seq<char>, text: Seq<char>) -> bool {
    regex_accepts(pattern) && regex_is_match(pattern, text)
}

} // verus!
