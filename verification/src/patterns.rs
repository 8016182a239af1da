use vstd::prelude::*;

verus! {

/// Whether a pattern string is a valid regular expression.
pub uninterp spec fn pattern_valid(p: Seq<char>) -> bool;

/// Whether a valid regular expression matches somewhere in a text.
pub uninterp spec fn pattern_match(p: Seq<char>, text: Seq<char>) -> bool;

/// Relies on regex::Regex::new: whether a pattern text compiles as a regular
/// expression depends on the pattern text alone.
#[verifier::external_body]
pub(crate) fn regex_pattern_ok(pattern: &str) -> (r: bool)
    ensures
        r == pattern_valid(pattern@),
{
    regex::Regex::new(pattern).is_ok()
}

/// Relies on regex::Regex::is_match: whether a valid pattern matches somewhere
/// in a text depends on the pattern and the text alone.
#[verifier::external_body]
pub(crate) fn regex_is_match(pattern: &str, text: &str) -> (r: bool)
    requires
        pattern_valid(pattern@),
    ensures
        r == pattern_match(pattern@, text@),
{
    match regex::Regex::new(pattern) {
        Ok(re) => re.is_match(text),
        Err(_) => false,
    }
}

} // verus!
