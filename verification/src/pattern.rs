//! Regular expressions on paths, compiled and run by the `regex` crate.

use vstd::prelude::*;

verus! {

/// `regex::Regex`: a compiled regular expression.
#[verifier::external_type_specification]
#[verifier::external_body]
pub struct ExRegex(regex::Regex);

/// `regex::Error`: why a pattern did not compile.
#[verifier::external_type_specification]
#[verifier::external_body]
pub struct ExRegexError(regex::Error);

/// A pattern that the compiled expression stands for: compiled by
/// `regex::Regex::new`, it matches what the expression matches.
pub uninterp spec fn regex_source(re: regex::Regex) -> Seq<char>;

/// Whether the expression that `regex::Regex::new` makes of `pattern`
/// matches somewhere in `haystack`.
pub uninterp spec fn regex_matches(pattern: Seq<char>, haystack: Seq<char>) -> bool;

/// `regex::Regex::new`. Nothing is claimed of which patterns compile; of an
/// expression that comes back, only that it stands for the pattern given.
#[verifier::external_body]
pub(crate) fn compile(pattern: &str) -> (r: Result<regex::Regex, regex::Error>)
    ensures
        r matches Ok(re) ==> regex_source(re) == pattern@,
{
    regex::Regex::new(pattern)
}

/// `regex::Regex::is_match`: whether the expression matches anywhere in the
/// haystack. The answer depends on the pattern and the haystack alone.
#[verifier::external_body]
pub(crate) fn is_match(re: &regex::Regex, haystack: &str) -> (b: bool)
    ensures
        b == regex_matches(regex_source(*re), haystack@),
{
    re.is_match(haystack)
}

/// The text of a compile error, as `regex::Error` displays it.
#[verifier::external_body]
pub(crate) fn describe(e: &regex::Error) -> (s: String) {
    e.to_string()
}

} // verus!
