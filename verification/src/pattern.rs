//! Compiled regular expressions.
//!
//! The regular-expression engine is the `regex` crate. Nothing in this file
//! is proved: it states what that crate's documentation promises of the
//! three functions the library calls, and gives names to what they return.

use regex::Regex;
use vstd::prelude::*;
use vstd::string::*;
use vstd::utf8::*;

verus! {

/// `regex::Regex`, a compiled regular expression. Its inside is not visible
/// to the verifier.
#[verifier::external_type_specification]
#[verifier::external_body]
pub struct ExRegex(regex::Regex);

/// `regex::Error`, the reason why a pattern could not be compiled.
#[verifier::external_type_specification]
#[verifier::external_body]
pub struct ExRegexError(regex::Error);

/// Whether `Regex::new` accepts `pattern`: the pattern follows the syntax of
/// the `regex` crate and what it compiles to stays within the crate's size
/// limit. Both are a matter of the pattern alone.
pub uninterp spec fn regex_compiles(pattern: Seq<char>) -> bool;

/// The text that `Regex::as_str` returns: the pattern that `regex` was
/// compiled from.
pub uninterp spec fn regex_source(regex: Regex) -> Seq<char>;

/// What `Regex::find` returns for `regex` on `haystack`: the byte offsets
/// `(start, end)` of the leftmost match, or `None` where there is none.
pub uninterp spec fn regex_find(regex: Regex, haystack: Seq<char>) -> Option<(usize, usize)>;

/// Calls `Regex::new`. Whether a pattern compiles is for the `regex` crate
/// to decide, and it decides by the pattern; a compiled expression
/// remembers the pattern it was made from, which is what `Regex::as_str`
/// documents.
#[verifier::external_body]
pub(crate) fn compile(pattern: &str) -> (result: Result<Regex, regex::Error>)
    ensures
        result is Ok <==> regex_compiles(pattern@),
        result matches Ok(regex) ==> regex_source(regex) == pattern@,
{
    Regex::new(pattern)
}

/// Calls `Regex::as_str`, which returns the text that the expression was
/// compiled from.
#[verifier::external_body]
pub(crate) fn source(regex: &Regex) -> (pattern: &str)
    ensures
        pattern@ == regex_source(*regex),
{
    regex.as_str()
}

/// Calls `Regex::find` and hands out the offsets of the match. The `regex`
/// crate documents that `start <= end`, that both are byte offsets into the
/// haystack, and that both fall on UTF-8 character boundaries.
#[verifier::external_body]
pub(crate) fn find(regex: &Regex, haystack: &str) -> (found: Option<(usize, usize)>)
    ensures
        found == regex_find(*regex, haystack@),
        found matches Some((start, end)) ==> {
            &&& start <= end <= haystack.spec_bytes().len()
            &&& is_char_boundary(haystack.spec_bytes(), start as int)
            &&& is_char_boundary(haystack.spec_bytes(), end as int)
        },
{
    regex.find(haystack).map(|m| (m.start(), m.end()))
}

} // verus!
