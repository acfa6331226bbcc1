//! Regular expressions, compiled by the `regex` crate. Each compiled
//! pattern keeps the source text it was compiled from, so that what it
//! matches can be stated over that text.

use vstd::prelude::*;

verus! {

/// `regex::Regex`, held opaquely.
#[verifier::external_type_specification]
#[verifier::external_body]
pub struct ExRegex(regex::Regex);

/// The message with which `regex` rejects pattern `p`, or `None` when it
/// compiles `p` (syntax and the default size limit decide).
pub uninterp spec fn regex_compile_error(p: Seq<char>) -> Option<Seq<char>>;

/// Whether the regex compiled from `p` matches somewhere in `text`.
pub uninterp spec fn regex_is_match(p: Seq<char>, text: Seq<char>) -> bool;

/// A compiled regular expression and its source text.
pub struct Pattern {
    source: String,
    compiled: regex::Regex,
}

impl View for Pattern {
    type V = Seq<char>;

    /// The source text the pattern was compiled from.
    closed spec fn view(&self) -> Seq<char> {
        self.source@
    }
}

/// `regex::Regex::new`: compiles `pattern`. On success the pattern keeps
/// `pattern` as its source; on failure the result is the `Display` text of
/// the crate's error. Both outcomes are named by [`regex_compile_error`].
#[verifier::external_body]
pub(crate) fn compile_regex(pattern: &str) -> (r: Result<Pattern, String>)
    ensures
        match r {
            Ok(p) => p@ == pattern@ && regex_compile_error(pattern@) is None,
            Err(m) => regex_compile_error(pattern@) == Some(m@),
        },
{
    match regex::Regex::new(pattern) {
        Ok(compiled) => Ok(Pattern { source: pattern.to_string(), compiled }),
        Err(e) => Err(e.to_string()),
    }
}

/// `regex::Regex::is_match`: whether the pattern matches anywhere in
/// `text`, named by [`regex_is_match`] over the pattern's source.
#[verifier::external_body]
pub(crate) fn pattern_matches(p: &Pattern, text: &str) -> (r: bool)
    ensures
        r == regex_is_match(p@, text@),
{
    p.compiled.is_match(text)
}

} // verus!
