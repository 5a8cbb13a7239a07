//! Regular expressions: the one place where the library searches text with
//! the `regex` crate.

use vstd::prelude::*;
use crate::error::{ErrorView, ReflacError};

verus! {

/// The error of `regex`, `regex::Error`: why a pattern was not accepted.
/// Nothing is known of what it holds.
#[verifier::external_type_specification]
#[verifier::external_body]
pub struct ExRegexError(regex::Error);

/// Whether `Regex::new` accepts `pattern`: whether it is a regular
/// expression whose compiled form stays within the size limit that `regex`
/// sets by default.
pub uninterp spec fn regex_compiles(pattern: Seq<char>) -> bool;

/// What `Regex::captures` finds for `pattern` in `haystack`: `None` where the
/// pattern matches nowhere, else the text of every capture group of the
/// first match, group 0 (the whole match) first, with `None` for a group
/// that took no part in the match.
pub uninterp spec fn regex_groups(pattern: Seq<char>, haystack: Seq<char>) -> Option<
    Seq<Option<Seq<char>>>,
>;

/// The capture groups as plain text.
pub open spec fn groups_view(groups: Seq<Option<String>>) -> Seq<Option<Seq<char>>> {
    Seq::new(
        groups.len(),
        |i: int|
            match groups[i] {
                Some(text) => Some(text@),
                None => None,
            },
    )
}

/// What a search returned, as plain text.
pub open spec fn found_view(found: Option<Vec<Option<String>>>) -> Option<Seq<Option<Seq<char>>>> {
    match found {
        Some(groups) => Some(groups_view(groups@)),
        None => None,
    }
}

/// Compiles `pattern` with `regex::Regex::new` and searches `haystack` with
/// `Regex::captures`. An error is the one that `Regex::new` gave. Otherwise
/// the result holds a copy of each capture group's text. Both steps depend on
/// the two texts alone, so their outcomes carry the names `regex_compiles`
/// and `regex_groups`; nothing more is claimed of either.
#[verifier::external_body]
pub(crate) fn captures(pattern: &str, haystack: &str) -> (r: Result<
    Option<Vec<Option<String>>>,
    regex::Error,
>)
    ensures
        r is Ok <==> regex_compiles(pattern@),
        r is Ok ==> found_view(r->Ok_0) == regex_groups(pattern@, haystack@),
{
    let re = regex::Regex::new(pattern)?;
    Ok(re.captures(haystack).map(|c| c.iter().map(|m| m.map(|g| g.as_str().to_string())).collect()))
}

/// Searches `haystack` for the first match of `pattern` and gives the texts
/// of its capture groups, or `None` where there is no match. A pattern that
/// is no regular expression is an error that names it.
pub fn find(pattern: &str, haystack: &str) -> (r: Result<Option<Vec<Option<String>>>, ReflacError>)
    ensures
        match r {
            Ok(found) => regex_compiles(pattern@) && found_view(found) == regex_groups(
                pattern@,
                haystack@,
            ),
            Err(e) => !regex_compiles(pattern@) && e@ == ErrorView::InvalidPattern(pattern@),
        },
{
    match captures(pattern, haystack) {
        Ok(found) => Ok(found),
        Err(_) => Err(ReflacError::InvalidPattern(pattern.to_owned())),
    }
}

} // verus!
