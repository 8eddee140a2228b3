//! Text normalization and fuzzy scoring: the input text is case-folded with
//! std's lowercase mapping, and candidates are scored by the skim matcher of
//! the `fuzzy_matcher` crate.

use fuzzy_matcher::FuzzyMatcher;
use vstd::prelude::*;

verus! {

/// The lowercase folding std's `str::to_lowercase` applies to a character
/// sequence; a function of the characters alone.
pub uninterp spec fn lower_of(s: Seq<char>) -> Seq<char>;

/// Relies on std's `str::to_lowercase`: the Unicode lowercase mapping of the
/// string, a deterministic function of its characters alone.
#[verifier::external_body]
pub(crate) fn lower(s: &str) -> (r: String)
    ensures
        r@ == lower_of(s@),
{
    s.to_lowercase()
}

/// The score skim's matcher, under its default settings, assigns to a
/// candidate against a pattern. `None` means the pattern does not fuzzy-match
/// the candidate at all; a higher score means a better match (contiguous and
/// prefix matches beat sparse subsequence matches).
pub uninterp spec fn fuzzy_score(choice: Seq<char>, pattern: Seq<char>) -> Option<i64>;

/// Relies on `fuzzy_matcher`'s `SkimMatcherV2::fuzzy_match` under the default
/// configuration: a deterministic dynamic program over the characters of
/// `choice` and `pattern` alone, which returns a score of 0 when the pattern
/// is empty.
#[verifier::external_body]
pub(crate) fn fuzzy_match(choice: &str, pattern: &str) -> (r: Option<i64>)
    ensures
        r == fuzzy_score(choice@, pattern@),
        pattern@.len() == 0 ==> r == Some(0i64),
{
    let matcher = fuzzy_matcher::skim::SkimMatcherV2::default();
    matcher.fuzzy_match(choice, pattern)
}

} // verus!
