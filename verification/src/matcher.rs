//! What the router takes from the `regex` and `url` crates. Nothing in this
//! file is proved: each contract states what the named function is documented
//! to do, and the rest of the library is verified against these contracts.
//!
//! A compiled regex is only ever made here, by `Regex::new`, so what it does
//! with a text is a function of the pattern text and of that text.

use vstd::prelude::*;
use crate::param_map::pair_views;

verus! {

/// `regex::Regex`, a compiled regex: carried as it is, never looked into.
#[verifier::external_type_specification]
#[verifier::external_body]
pub struct ExRegex(regex::Regex);

/// `regex::Error`, why a regex text did not compile: carried as it is.
#[verifier::external_type_specification]
#[verifier::external_body]
pub struct ExRegexError(regex::Error);

/// Whether `Regex::new` compiles `pattern`: whether the text is a valid regex
/// that stays within the size limit that `Regex::new` sets by default.
pub uninterp spec fn regex_compiles(pattern: Seq<char>) -> bool;

/// The pattern text that a compiled regex was made from (`Regex::as_str`).
pub uninterp spec fn regex_pattern(re: regex::Regex) -> Seq<char>;

/// What `Regex::captures` finds in `text` for the regex that `Regex::new`
/// compiles from `pattern`: `None` without a match, else one entry per
/// capture group, group 0 first, `None` for a group that took no part in the
/// match.
pub uninterp spec fn pattern_groups(pattern: Seq<char>, text: Seq<char>) -> Option<
    Seq<Option<Seq<char>>>,
>;

/// The name/value pairs that `form_urlencoded::parse` reads from a query
/// string, in the order in which they stand in it.
pub uninterp spec fn form_pairs(query: Seq<char>) -> Seq<(Seq<char>, Seq<char>)>;

/// The characters that `regex::escape` puts a backslash in front of.
pub open spec fn is_meta(c: char) -> bool {
    c == '\\' || c == '.' || c == '+' || c == '*' || c == '?' || c == '(' || c == ')' || c == '|'
        || c == '[' || c == ']' || c == '{' || c == '}' || c == '^' || c == '$' || c == '#' || c
        == '&' || c == '-' || c == '~'
}

/// `text` with a backslash in front of each meta character.
pub open spec fn escaped(text: Seq<char>) -> Seq<char>
    decreases text.len(),
{
    if text.len() == 0 {
        Seq::empty()
    } else if is_meta(text.last()) {
        escaped(text.drop_last()) + seq!['\\', text.last()]
    } else {
        escaped(text.drop_last()) + seq![text.last()]
    }
}

/// The views of a list of captures.
pub open spec fn group_views(groups: Seq<Option<String>>) -> Seq<Option<Seq<char>>> {
    Seq::new(
        groups.len(),
        |i: int|
            match groups[i] {
                Some(s) => Some(s@),
                None => None,
            },
    )
}

/// The view of what a capture call returned.
pub open spec fn captures_view(found: Option<Vec<Option<String>>>) -> Option<
    Seq<Option<Seq<char>>>,
> {
    match found {
        Some(groups) => Some(group_views(groups@)),
        None => None,
    }
}

/// Calls `regex::Regex::new`. Trusted: whether it succeeds depends on the
/// pattern text alone, and a regex that was compiled reports the text it was
/// compiled from. Which texts compile is not stated, only named.
#[verifier::external_body]
pub(crate) fn compile_regex(pattern: &str) -> (r: Result<regex::Regex, regex::Error>)
    ensures
        r is Ok <==> regex_compiles(pattern@),
        r is Ok ==> regex_pattern(r->Ok_0) == pattern@,
{
    regex::Regex::new(pattern)
}

/// Calls `regex::Regex::is_match`. Trusted: for a regex made by `Regex::new`,
/// it returns true exactly where `Regex::captures` finds a match in the same
/// text.
#[verifier::external_body]
pub(crate) fn regex_is_match(re: &regex::Regex, text: &str) -> (b: bool)
    ensures
        b == (pattern_groups(regex_pattern(*re), text@) is Some),
{
    re.is_match(text)
}

/// Calls `regex::Regex::captures` and copies each group's text out. Trusted:
/// for a regex made by `Regex::new`, the result depends on the pattern text
/// and on the searched text alone.
#[verifier::external_body]
pub(crate) fn regex_captures(re: &regex::Regex, text: &str) -> (r: Option<Vec<Option<String>>>)
    ensures
        captures_view(r) == pattern_groups(regex_pattern(*re), text@),
{
    re.captures(text).map(|c| c.iter().map(|g| g.map(|m| m.as_str().to_string())).collect())
}

/// Calls `regex::escape`. Trusted: every meta character gets a backslash in
/// front of it, and nothing else changes.
#[verifier::external_body]
pub(crate) fn escape_literal(text: &str) -> (r: String)
    ensures
        r@ == escaped(text@),
{
    regex::escape(text)
}

/// Calls `url::form_urlencoded::parse` on the bytes of a query string and
/// collects the decoded pairs. Trusted: the result depends on the query
/// alone, and an empty query holds no pair.
#[verifier::external_body]
pub(crate) fn parse_form_pairs(query: &str) -> (r: Vec<(String, String)>)
    ensures
        pair_views(r@) == form_pairs(query@),
        query@.len() == 0 ==> r@.len() == 0,
{
    url::form_urlencoded::parse(query.as_bytes()).into_owned().collect()
}

} // verus!
