//! Regular-expression matching through the `regex` crate: whether a pattern
//! compiles and whether it matches a text.
use vstd::prelude::*;

verus! {

/// Whether `regex::Regex::new` accepts the pattern.
pub uninterp spec fn regex_compiles_of(pattern: Seq<char>) -> bool;

/// What `regex::Regex::is_match` answers for the compiled pattern and the
/// text.
pub uninterp spec fn regex_is_match_of(pattern: Seq<char>, text: Seq<char>) -> bool;

/// `regex::Regex::new(pattern).is_ok()`. The contract ties the answer to
/// `regex_compiles_of` and says nothing of which patterns compile.
#[verifier::external_body]
pub(crate) fn regex_compiles(pattern: &str) -> (r: bool)
    ensures
        r == regex_compiles_of(pattern@),
{
    regex::Regex::new(pattern).is_ok()
}

/// `regex::Regex::new(pattern)` followed by `is_match(text)`, for a pattern
/// that compiles. The contract ties the answer to `regex_is_match_of` and
/// says nothing of which texts match.
#[verifier::external_body]
pub(crate) fn regex_is_match(pattern: &str, text: &str) -> (r: bool)
    requires
        regex_compiles_of(pattern@),
    ensures
        r == regex_is_match_of(pattern@, text@),
{
    match regex::Regex::new(pattern) {
        Ok(re) => re.is_match(text),
        Err(_) => false,
    }
}

} // verus!
