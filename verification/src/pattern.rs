//! Regular expressions, compiled and matched by the `regex` crate.

use vstd::prelude::*;
use regex::Regex;

verus! {

#[verifier::external_type_specification]
#[verifier::external_body]
pub struct ExRegex(Regex);

#[verifier::external_type_specification]
#[verifier::external_body]
pub struct ExRegexError(regex::Error);

/// Whether a pattern compiles.
pub uninterp spec fn pattern_valid(pattern: Seq<char>) -> bool;

/// Whether a pattern that compiles matches somewhere in `text`.
pub uninterp spec fn pattern_matches(pattern: Seq<char>, text: Seq<char>) -> bool;

/// `text` with every non-overlapping match of the pattern replaced by the
/// replacement, in which `$name` stands for a capture group.
pub uninterp spec fn pattern_replaced(
    pattern: Seq<char>,
    text: Seq<char>,
    replacement: Seq<char>,
) -> Seq<char>;

/// The pattern that a compiled expression was made from: what `Regex::as_str`
/// gives.
pub uninterp spec fn regex_source(re: Regex) -> Seq<char>;

/// The text of a failure of the regex crate.
pub uninterp spec fn regex_error(e: regex::Error) -> Seq<char>;

/// The text with which a pattern fails to compile.
pub uninterp spec fn pattern_failure(pattern: Seq<char>) -> Seq<char>;

/// The text of a pattern-compilation failure, from `regex::Error`'s `Display`.
#[verifier::external_body]
pub(crate) fn pattern_error_text(e: &regex::Error) -> (r: String)
    ensures
        r@ == regex_error(*e),
{
    e.to_string()
}

/// `Regex::new`.
#[verifier::external_body]
pub(crate) fn compile(pattern: &str) -> (r: Result<Regex, regex::Error>)
    ensures
        r is Ok <==> pattern_valid(pattern@),
        r matches Ok(re) ==> regex_source(re) == pattern@,
        r matches Err(e) ==> regex_error(e) == pattern_failure(pattern@),
{
    Regex::new(pattern)
}

/// `Regex::is_match`.
#[verifier::external_body]
pub(crate) fn is_match(re: &Regex, text: &str) -> (r: bool)
    ensures
        r == pattern_matches(regex_source(*re), text@),
{
    re.is_match(text)
}

/// `Regex::replace_all`, with the result as an owned string.
#[verifier::external_body]
pub(crate) fn replace_all(re: &Regex, text: &str, replacement: &str) -> (r: String)
    ensures
        r@ == pattern_replaced(regex_source(*re), text@, replacement@),
{
    re.replace_all(text, replacement).into_owned()
}

} // verus!
