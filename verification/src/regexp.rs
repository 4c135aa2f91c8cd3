//! The regular-expression engine, as far as the router relies on it.
//!
//! Everything in this file is taken on trust from the `regex` crate: the
//! types are opaque, and each function states what the crate's documentation
//! promises of the call it makes. What the engine computes is named by
//! uninterpreted functions of the expression's text and the haystack.

use regex::Regex;
use regex::RegexSet;
use vstd::prelude::*;

verus! {

/// `regex::Regex`: one compiled expression. Nothing of its inside is known
/// here.
#[verifier::external_type_specification]
#[verifier::external_body]
pub struct ExRegex(regex::Regex);

/// `regex::RegexSet`: several expressions compiled together. Nothing of its
/// inside is known here.
#[verifier::external_type_specification]
#[verifier::external_body]
pub struct ExRegexSet(regex::RegexSet);

/// `regex::Error`: why the engine refused an expression. Nothing of its
/// inside is known here.
#[verifier::external_type_specification]
#[verifier::external_body]
pub struct ExRegexError(regex::Error);

/// The text a compiled expression was built from (`Regex::as_str`).
pub uninterp spec fn regex_source(re: Regex) -> Seq<char>;

/// Whether the engine accepts `source` as an expression (`Regex::new`).
pub uninterp spec fn regex_compiles(source: Seq<char>) -> bool;

/// Whether the expression `source` matches somewhere in `text`
/// (`Regex::is_match`).
pub uninterp spec fn regex_is_match(source: Seq<char>, text: Seq<char>) -> bool;

/// The capture groups of the first match of `source` in `text`, group 0
/// being the whole match (`Regex::captures`).
pub uninterp spec fn regex_captures(source: Seq<char>, text: Seq<char>) -> Option<
    Seq<Option<Seq<char>>>,
>;

/// The expressions a set was built from, in the order given
/// (`RegexSet::patterns`).
pub uninterp spec fn set_patterns(set: RegexSet) -> Seq<Seq<char>>;

/// Whether the engine accepts `patterns` together as a set (`RegexSet::new`).
pub uninterp spec fn set_compiles(patterns: Seq<Seq<char>>) -> bool;

/// The characters that the engine's `escape` puts a backslash before.
pub open spec fn is_meta_character(c: char) -> bool {
    c == '\\' || c == '.' || c == '+' || c == '*' || c == '?' || c == '(' || c == ')' || c == '|'
        || c == '[' || c == ']' || c == '{' || c == '}' || c == '^' || c == '$' || c == '#' || c
        == '&' || c == '-' || c == '~'
}

/// `text` with a backslash before each meta character.
pub open spec fn escaped(text: Seq<char>) -> Seq<char>
    decreases text.len(),
{
    if text.len() == 0 {
        Seq::empty()
    } else if is_meta_character(text.last()) {
        escaped(text.drop_last()).push('\\').push(text.last())
    } else {
        escaped(text.drop_last()).push(text.last())
    }
}

/// In ascending order, the positions before `n` of the expressions of
/// `sources` that match `text`.
pub open spec fn matching_sources(sources: Seq<Seq<char>>, text: Seq<char>, n: int) -> Seq<usize>
    decreases n,
{
    if n <= 0 {
        Seq::empty()
    } else if n <= sources.len() && regex_is_match(sources[n - 1], text) {
        matching_sources(sources, text, n - 1).push((n - 1) as usize)
    } else {
        matching_sources(sources, text, n - 1)
    }
}

/// The texts of a vector of strings.
pub open spec fn views_of(strings: Seq<String>) -> Seq<Seq<char>> {
    Seq::new(strings.len(), |i: int| strings[i]@)
}

/// What a captures result holds, group by group.
pub open spec fn groups_of(caps: Option<Vec<Option<String>>>) -> Option<Seq<Option<Seq<char>>>> {
    match caps {
        None => None,
        Some(groups) => Some(
            Seq::new(
                groups@.len(),
                |i: int|
                    match groups@[i] {
                        None => None,
                        Some(s) => Some(s@),
                    },
            ),
        ),
    }
}

/// Calls `Regex::new`. The call succeeds exactly on the expressions the
/// engine accepts, and the compiled expression remembers its text.
#[verifier::external_body]
pub(crate) fn compile_regex(source: &str) -> (r: Result<Regex, regex::Error>)
    ensures
        r is Ok == regex_compiles(source@),
        r matches Ok(re) ==> regex_source(re) == source@,
{
    Regex::new(source)
}

/// Calls `Regex::as_str`, which returns the text the expression was built from.
#[verifier::external_body]
pub(crate) fn regex_text(re: &Regex) -> (s: &str)
    ensures
        s@ == regex_source(*re),
{
    re.as_str()
}

/// Calls `Regex::is_match`: whether the expression matches anywhere in `text`.
#[verifier::external_body]
pub(crate) fn is_match(re: &Regex, text: &str) -> (b: bool)
    ensures
        b == regex_is_match(regex_source(*re), text@),
{
    re.is_match(text)
}

/// Calls `Regex::captures` and copies out the text of each group of the
/// first match. There is a result exactly when the expression matches.
#[verifier::external_body]
pub(crate) fn captures(re: &Regex, text: &str) -> (r: Option<Vec<Option<String>>>)
    ensures
        groups_of(r) == regex_captures(regex_source(*re), text@),
        r is Some == regex_is_match(regex_source(*re), text@),
{
    re.captures(text).map(|caps| caps.iter().map(|g| g.map(|m| m.as_str().to_owned())).collect())
}

/// Calls `regex::escape`, which puts a backslash before every meta
/// character of `text` and copies every other character.
#[verifier::external_body]
pub(crate) fn escape(text: &str) -> (r: String)
    ensures
        r@ == escaped(text@),
{
    regex::escape(text)
}

/// Calls `RegexSet::new`. The call succeeds exactly on the lists the engine
/// accepts, and the set remembers the expressions in the order given.
#[verifier::external_body]
pub(crate) fn compile_set(patterns: &Vec<String>) -> (r: Result<RegexSet, regex::Error>)
    ensures
        r is Ok == set_compiles(views_of(patterns@)),
        r matches Ok(set) ==> set_patterns(set) == views_of(patterns@),
{
    RegexSet::new(patterns)
}

/// Calls `RegexSet::matches` and collects the indices it reports: in
/// ascending order, the index of every expression of the set that matches
/// `text` on its own.
#[verifier::external_body]
pub(crate) fn set_matches(set: &RegexSet, text: &str) -> (r: Vec<usize>)
    ensures
        r@ == matching_sources(set_patterns(*set), text@, set_patterns(*set).len() as int),
{
    set.matches(text).iter().collect()
}

/// Formats a `regex::Error`: the message that the engine gives for its
/// refusal. Nothing is claimed of the text.
#[verifier::external_body]
pub(crate) fn message_of(e: &regex::Error) -> String {
    e.to_string()
}

} // verus!
