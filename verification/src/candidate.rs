//! One matchable, selectable item tracked by the engine: the text it is
//! shown and searched by, its current relevance score, and the matched
//! character positions kept for highlighting.

use crate::matcher::{fuzzy_indices, fuzzy_of};
use vstd::prelude::*;

verus! {

/// Score given to every candidate when the query is empty: a trivial match.
pub const FULL_MATCH_SCORE: i64 = 100;

/// An immutable-identity record with a mutable score.
///
/// `score == 0` means hidden/non-matching; `score > 0` means matching,
/// higher is more relevant. `match_indices` holds the matched codepoint
/// offsets that fall inside `display_text`; matches in the hidden part of
/// `search_text` count for scoring but are never highlightable.
pub struct Candidate {
    /// Text shown to the user.
    pub display_text: String,
    /// Text used for matching: `display_text`, possibly with hidden
    /// searchable fields appended.
    pub search_text: String,
    /// Optional half-open codepoint range of `display_text` marking an
    /// appended annotation that gets distinct styling.
    pub highlight_range: Option<(usize, usize)>,
    /// Current relevance; `0` hides the candidate.
    pub score: i64,
    /// Recency counter used only as a tie-break dimension by the caller.
    pub sort_key: u64,
    /// Matched codepoint offsets within `display_text`'s bounds, for
    /// highlight rendering.
    pub match_indices: Vec<usize>,
}

/// The indices of `idx` that are strictly below `bound`, in order.
pub open spec fn kept_indices(idx: Seq<usize>, bound: int) -> Seq<usize>
    decreases idx.len(),
{
    if idx.len() == 0 {
        Seq::empty()
    } else {
        let rest = kept_indices(idx.drop_last(), bound);
        if (idx.last() as int) < bound {
            rest.push(idx.last())
        } else {
            rest
        }
    }
}

/// The score a query update gives a candidate: the full-match baseline for
/// an empty pattern, the matcher's score on a match, zero otherwise.
pub open spec fn queried_score(c: Candidate, pattern: Seq<char>) -> i64 {
    if pattern.len() == 0 {
        FULL_MATCH_SCORE
    } else {
        match fuzzy_of(c.search_text@, pattern) {
            Option::Some((score, _)) => score,
            Option::None => 0,
        }
    }
}

/// The highlightable match positions a query update gives a candidate: the
/// matcher's positions restricted to `display_text`'s bounds, empty when
/// the pattern is empty or does not match.
pub open spec fn queried_indices(c: Candidate, pattern: Seq<char>) -> Seq<usize> {
    if pattern.len() == 0 {
        Seq::empty()
    } else {
        match fuzzy_of(c.search_text@, pattern) {
            Option::Some((_, positions)) => kept_indices(
                positions,
                c.display_text@.len() as int,
            ),
            Option::None => Seq::empty(),
        }
    }
}

/// Exact effect of a query update on one candidate: identity fields are
/// kept, score and match positions are recomputed from the pattern.
pub open spec fn queried_post(pre: Candidate, post: Candidate, pattern: Seq<char>) -> bool {
    &&& post.display_text@ == pre.display_text@
    &&& post.search_text@ == pre.search_text@
    &&& post.highlight_range == pre.highlight_range
    &&& post.sort_key == pre.sort_key
    &&& post.score == queried_score(pre, pattern)
    &&& post.match_indices@ == queried_indices(pre, pattern)
}

/// Exact effect of hiding one candidate: the score drops to zero and
/// everything else is kept.
pub open spec fn hidden_post(pre: Candidate, post: Candidate) -> bool {
    &&& post.display_text@ == pre.display_text@
    &&& post.search_text@ == pre.search_text@
    &&& post.highlight_range == pre.highlight_range
    &&& post.sort_key == pre.sort_key
    &&& post.score == 0
    &&& post.match_indices@ == pre.match_indices@
}

/// Every stored match position is a valid codepoint offset into the
/// display text.
pub open spec fn indices_in_display(c: Candidate) -> bool {
    forall|j: int| 0 <= j < c.match_indices@.len() ==> (c.match_indices@[j] as int)
        < c.display_text@.len()
}

impl Candidate {
    /// Build a freshly loaded candidate, scored as a trivial match.
    pub fn new(
        display_text: String,
        search_text: String,
        highlight_range: Option<(usize, usize)>,
        sort_key: u64,
    ) -> (c: Candidate)
        ensures
            c.display_text@ == display_text@,
            c.search_text@ == search_text@,
            c.highlight_range == highlight_range,
            c.score == FULL_MATCH_SCORE,
            c.sort_key == sort_key,
            c.match_indices@ == Seq::<usize>::empty(),
    {
        Candidate {
            display_text,
            search_text,
            highlight_range,
            score: FULL_MATCH_SCORE,
            sort_key,
            match_indices: Vec::new(),
        }
    }

    /// Re-score this candidate against a new query pattern and record the
    /// matched positions that fall inside the display text.
    pub fn update_match(&mut self, pattern: &str)
        ensures
            queried_post(*old(self), *final(self), pattern@),
            indices_in_display(*final(self)),
    {
        if pattern.is_empty() {
            self.score = FULL_MATCH_SCORE;
            self.match_indices = Vec::new();
        } else {
            match fuzzy_indices(self.search_text.as_str(), pattern) {
                Option::Some((score, positions)) => {
                    let bound = self.display_text.as_str().unicode_len();
                    self.match_indices = filter_below(&positions, bound);
                    self.score = score;
                    proof {
                        lemma_kept_indices_below(positions@, bound as int);
                    }
                }
                Option::None => {
                    self.score = 0;
                    self.match_indices = Vec::new();
                }
            }
        }
    }

    /// Hide this candidate from view: score zero, everything else untouched.
    pub fn conceal(&mut self)
        ensures
            hidden_post(*old(self), *final(self)),
    {
        self.score = 0;
    }
}

/// All indices kept by `kept_indices` are below the bound.
proof fn lemma_kept_indices_below(idx: Seq<usize>, bound: int)
    ensures
        forall|j: int|
            0 <= j < kept_indices(idx, bound).len() ==> (kept_indices(idx, bound)[j] as int)
                < bound,
    decreases idx.len(),
{
    if idx.len() > 0 {
        lemma_kept_indices_below(idx.drop_last(), bound);
        let rest = kept_indices(idx.drop_last(), bound);
        if (idx.last() as int) < bound {
            assert forall|j: int| 0 <= j < rest.push(idx.last()).len() implies (rest.push(
                idx.last(),
            )[j] as int) < bound by {
                if j < rest.len() {
                    assert(rest.push(idx.last())[j] == rest[j]);
                }
            }
        }
    }
}

/// Keep the elements of `idx` that are strictly below `bound`, in order.
fn filter_below(idx: &Vec<usize>, bound: usize) -> (r: Vec<usize>)
    ensures
        r@ == kept_indices(idx@, bound as int),
{
    let mut r: Vec<usize> = Vec::new();
    let mut j: usize = 0;
    while j < idx.len()
        invariant
            j <= idx@.len(),
            r@ == kept_indices(idx@.subrange(0, j as int), bound as int),
        decreases idx@.len() - j,
    {
        proof {
            let pre = idx@.subrange(0, j as int);
            let cur = idx@.subrange(0, j as int + 1);
            assert(cur.drop_last() =~= pre);
            assert(cur.last() == idx@[j as int]);
        }
        if idx[j] < bound {
            r.push(idx[j]);
        }
        j += 1;
    }
    proof {
        assert(idx@.subrange(0, idx@.len() as int) =~= idx@);
    }
    r
}

} // verus!
