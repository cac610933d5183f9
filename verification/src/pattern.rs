//! Trusted surface over the `regex` crate.
//!
//! Compilation and matching are deterministic in the pattern string and
//! the haystack, so both are named by uninterpreted functions; every
//! contract of the filter and search engines goes through these names.

use vstd::prelude::*;
use vstd::string::StringExecFns;

verus! {

#[verifier::external_type_specification]
#[verifier::external_body]
pub struct ExRegex(regex::Regex);

/// The pattern string a compiled regex holds.
pub uninterp spec fn re_pattern(re: &regex::Regex) -> Seq<char>;

/// Whether `Regex::new` accepts a pattern string.
pub uninterp spec fn spec_regex_compiles(pattern: Seq<char>) -> bool;

/// Whether the regex compiled from `pattern` matches anywhere in `text`.
pub uninterp spec fn spec_regex_accepts(pattern: Seq<char>, text: Seq<char>) -> bool;

/// Relies on `regex::Regex::new`: whether compilation succeeds depends on
/// the pattern alone, and the compiled value keeps its pattern string.
#[verifier::external_body]
pub fn regex_new(pattern: &str) -> (r: Option<regex::Regex>)
    ensures
        r is Some <==> spec_regex_compiles(pattern@),
        r matches Some(re) ==> re_pattern(&re) == pattern@,
{
    regex::Regex::new(pattern).ok()
}

/// Relies on `regex::Regex::is_match`: the outcome is a function of the
/// pattern string and the haystack alone.
#[verifier::external_body]
pub fn regex_is_match(re: &regex::Regex, text: &str) -> (r: bool)
    ensures
        r == spec_regex_accepts(re_pattern(re), text@),
{
    re.is_match(text)
}

/// Relies on `regex::Regex`'s `Clone`: a clone holds the same pattern.
pub assume_specification[ <regex::Regex as Clone>::clone ](re: &regex::Regex) -> (r:
    regex::Regex)
    ensures
        re_pattern(&r) == re_pattern(re),
;

/// The pattern a search with the given case mode compiles: the pattern
/// itself, or prefixed with the inline case-insensitive flag.
pub open spec fn spec_effective_pattern(pattern: Seq<char>, case_sensitive: bool) -> Seq<char> {
    if case_sensitive {
        pattern
    } else {
        "(?i)"@ + pattern
    }
}

/// Builds the pattern string a search with the given case mode compiles.
pub fn effective_pattern(pattern: &str, case_sensitive: bool) -> (r: String)
    ensures
        r@ == spec_effective_pattern(pattern@, case_sensitive),
{
    if case_sensitive {
        pattern.to_owned()
    } else {
        let mut s = String::from_str("(?i)");
        s.append(pattern);
        s
    }
}

} // verus!
