//! The fuzzy matcher: a stateless scoring function mapping a haystack and a
//! pattern to an optional score with the matched character positions.
//!
//! The scoring itself is done by the `fuzzy_matcher` crate; the engine only
//! needs that the result is a fixed function of the two strings, that `None`
//! means no fuzzy alignment exists, and that the reported positions are
//! valid codepoint offsets into the haystack.

use fuzzy_matcher::skim::SkimMatcherV2;
use fuzzy_matcher::FuzzyMatcher;
use vstd::prelude::*;

verus! {

/// What `SkimMatcherV2::fuzzy_indices` with the default configuration
/// returns for a haystack and a pattern: `None` when the pattern has no
/// fuzzy alignment in the haystack, otherwise the score and the matched
/// codepoint offsets.
pub uninterp spec fn fuzzy_of(haystack: Seq<char>, pattern: Seq<char>) -> Option<
    (i64, Seq<usize>),
>;

/// A haystack has some fuzzy alignment of the pattern.
pub open spec fn fuzzy_matches(haystack: Seq<char>, pattern: Seq<char>) -> bool {
    fuzzy_of(haystack, pattern) is Some
}

/// A haystack matches the pattern with a strictly positive score, the
/// condition under which a candidate stays visible.
pub open spec fn fuzzy_positive(haystack: Seq<char>, pattern: Seq<char>) -> bool {
    match fuzzy_of(haystack, pattern) {
        Option::Some((score, _)) => score > 0,
        Option::None => false,
    }
}

/// Relies on `fuzzy_matcher::skim::SkimMatcherV2::fuzzy_indices`, called on a
/// freshly built default (smart-case) matcher: scored fuzzy subsequence
/// matching whose result depends on the two strings alone. Its source pushes
/// matched positions as indices into the haystack's character vector, so
/// every reported index is strictly below the haystack's character count.
#[verifier::external_body]
pub(crate) fn fuzzy_indices(haystack: &str, pattern: &str) -> (r: Option<(i64, Vec<usize>)>)
    ensures
        fuzzy_of(haystack@, pattern@) == (match r {
            Option::Some((score, positions)) => Option::Some((score, positions@)),
            Option::None => Option::None::<(i64, Seq<usize>)>,
        }),
        (match r {
            Option::Some((score, positions)) => forall|j: int|
                0 <= j < positions@.len() ==> (positions@[j] as int) < haystack@.len(),
            Option::None => true,
        }),
{
    SkimMatcherV2::default().fuzzy_indices(haystack, pattern)
}

} // verus!
