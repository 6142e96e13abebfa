//! The match engine: owns the candidate list, a score table aligned with it
//! slot by slot, and the pending-update level, and applies reload / query /
//! clear commands from the presentation layer.

use crate::candidate::{hidden_post, queried_post, queried_score, Candidate, FULL_MATCH_SCORE};
use crate::level::{max_level, max_level_spec, rank, UpdateLevel};
use vstd::prelude::*;

verus! {

/// One independently readable score slot per candidate, index-aligned with
/// the engine's candidate list, so the presentation layer's filter and sort
/// callbacks can read current relevance without re-entering the engine.
pub struct ScoreTable {
    slots: Vec<i64>,
}

impl View for ScoreTable {
    type V = Seq<i64>;

    closed spec fn view(&self) -> Seq<i64> {
        self.slots@
    }
}

impl ScoreTable {
    /// An empty table.
    pub fn new() -> (t: ScoreTable)
        ensures
            t@ == Seq::<i64>::empty(),
    {
        ScoreTable { slots: Vec::new() }
    }

    /// Number of slots.
    pub fn len(&self) -> (n: usize)
        ensures
            n == self@.len(),
    {
        self.slots.len()
    }

    /// Read one slot.
    pub fn get(&self, i: usize) -> (s: i64)
        requires
            i < self@.len(),
        ensures
            s == self@[i as int],
    {
        self.slots[i]
    }

    /// Overwrite one slot, leaving every other slot untouched.
    pub fn set(&mut self, i: usize, s: i64)
        requires
            i < old(self)@.len(),
        ensures
            final(self)@ == old(self)@.update(i as int, s),
    {
        self.slots[i] = s;
    }

    /// Build a table holding each candidate's current score, in order.
    pub fn rebuild(candidates: &Vec<Candidate>) -> (t: ScoreTable)
        ensures
            t@.len() == candidates@.len(),
            forall|i: int| 0 <= i < candidates@.len() ==> t@[i] == candidates@[i].score,
    {
        let mut slots: Vec<i64> = Vec::new();
        let mut i: usize = 0;
        while i < candidates.len()
            invariant
                i <= candidates@.len(),
                slots@.len() == i,
                forall|k: int| 0 <= k < i ==> slots@[k] == candidates@[k].score,
            decreases candidates@.len() - i,
        {
            slots.push(candidates[i].score);
            i += 1;
        }
        ScoreTable { slots }
    }
}

/// The orchestrator: candidate list, score table, pending-update level.
pub struct MatchEngine {
    candidates: Vec<Candidate>,
    scores: ScoreTable,
    level: UpdateLevel,
}

/// Some candidate's score would change under a query with this pattern.
pub open spec fn query_changed(cs: Seq<Candidate>, pattern: Seq<char>) -> bool {
    exists|i: int| 0 <= i < cs.len() && queried_score(cs[i], pattern) != cs[i].score
}

/// Some candidate is still visible, so clearing would change a score.
pub open spec fn clear_changed(cs: Seq<Candidate>) -> bool {
    exists|i: int| 0 <= i < cs.len() && cs[i].score != 0
}

/// Exact effect of `reload`: the candidate list is replaced wholesale, the
/// score table is rebuilt alongside it, and the level escalates to `Reload`.
pub open spec fn reload_post(pre: MatchEngine, post: MatchEngine, new: Seq<Candidate>) -> bool {
    &&& post.candidates() == new
    &&& post.scores().len() == new.len()
    &&& (forall|i: int| 0 <= i < new.len() ==> post.scores()[i] == new[i].score)
    &&& post.level() == max_level_spec(pre.level(), UpdateLevel::Reload)
}

/// Exact effect of `apply_query`: every candidate is re-scored in place
/// against the pattern, changed scores are written through to the table,
/// and the level escalates to `Invalidate` exactly when some score changed.
pub open spec fn apply_query_post(pre: MatchEngine, post: MatchEngine, pattern: Seq<char>) -> bool {
    &&& post.candidates().len() == pre.candidates().len()
    &&& (forall|i: int|
        0 <= i < pre.candidates().len() ==> queried_post(
            pre.candidates()[i],
            post.candidates()[i],
            pattern,
        ))
    &&& post.level() == max_level_spec(
        pre.level(),
        (if query_changed(pre.candidates(), pattern) {
            UpdateLevel::Invalidate
        } else {
            UpdateLevel::Idle
        }),
    )
}

/// Exact effect of `clear_all`: every candidate's score drops to zero, the
/// table follows, and the level escalates to `Invalidate` exactly when some
/// candidate had been visible.
pub open spec fn clear_all_post(pre: MatchEngine, post: MatchEngine) -> bool {
    &&& post.candidates().len() == pre.candidates().len()
    &&& (forall|i: int|
        0 <= i < pre.candidates().len() ==> hidden_post(pre.candidates()[i], post.candidates()[i]))
    &&& post.level() == max_level_spec(
        pre.level(),
        (if clear_changed(pre.candidates()) {
            UpdateLevel::Invalidate
        } else {
            UpdateLevel::Idle
        }),
    )
}

/// Exact effect of `consume_level`: the pending level is handed out and
/// reset to `Idle`; candidates and scores are untouched.
pub open spec fn consume_post(pre: MatchEngine, post: MatchEngine, r: UpdateLevel) -> bool {
    &&& r == pre.level()
    &&& post.level() == UpdateLevel::Idle
    &&& post.candidates() == pre.candidates()
    &&& post.scores() == pre.scores()
}

impl MatchEngine {
    /// The candidate list, in order.
    pub closed spec fn candidates(&self) -> Seq<Candidate> {
        self.candidates@
    }

    /// The score table's contents, in order.
    pub closed spec fn scores(&self) -> Seq<i64> {
        self.scores@
    }

    /// The pending-update level.
    pub closed spec fn level(&self) -> UpdateLevel {
        self.level
    }

    /// Well-formedness: one score slot per candidate, each slot holding
    /// that candidate's current score.
    pub open spec fn wf(&self) -> bool {
        &&& self.scores().len() == self.candidates().len()
        &&& (forall|i: int|
            0 <= i < self.candidates().len() ==> self.scores()[i] == self.candidates()[i].score)
    }

    /// An empty engine whose first consumed level forces a full rebuild.
    pub fn new() -> (e: MatchEngine)
        ensures
            e.wf(),
            e.candidates() == Seq::<Candidate>::empty(),
            e.level() == UpdateLevel::Reload,
    {
        MatchEngine { candidates: Vec::new(), scores: ScoreTable::new(), level: UpdateLevel::Reload }
    }

    /// Number of candidates currently loaded.
    pub fn len(&self) -> (n: usize)
        ensures
            n == self.candidates().len(),
    {
        self.candidates.len()
    }

    /// Read one candidate.
    pub fn candidate_at(&self, i: usize) -> (c: &Candidate)
        requires
            i < self.candidates().len(),
        ensures
            *c == self.candidates()[i as int],
    {
        &self.candidates[i]
    }

    /// Read one candidate's current score from the table, as the
    /// presentation layer's filter and sort callbacks do.
    pub fn score_at(&self, i: usize) -> (s: i64)
        requires
            self.wf(),
            i < self.candidates().len(),
        ensures
            s == self.scores()[i as int],
            s == self.candidates()[i as int].score,
    {
        self.scores.get(i)
    }

    /// Replace the candidate set wholesale and rebuild the score table to
    /// match its length and order, atomically from the caller's view.
    pub fn reload(&mut self, new_candidates: Vec<Candidate>)
        ensures
            final(self).wf(),
            reload_post(*old(self), *final(self), new_candidates@),
    {
        self.scores = ScoreTable::rebuild(&new_candidates);
        self.candidates = new_candidates;
        self.level = max_level(self.level, UpdateLevel::Reload);
    }

    /// Re-score every candidate, in order, against the new query text, and
    /// write every changed score through to its table slot.
    pub fn apply_query(&mut self, text: &str)
        requires
            old(self).wf(),
        ensures
            final(self).wf(),
            apply_query_post(*old(self), *final(self), text@),
    {
        let ghost pre = *self;
        let n = self.candidates.len();
        let mut i: usize = 0;
        while i < n
            invariant
                n == pre.candidates().len(),
                i <= n,
                self.candidates().len() == n,
                self.scores().len() == n,
                pre.wf(),
                forall|k: int| i <= k < n ==> self.candidates()[k] == pre.candidates()[k],
                forall|k: int| i <= k < n ==> self.scores()[k] == pre.scores()[k],
                forall|k: int|
                    0 <= k < i ==> queried_post(pre.candidates()[k], self.candidates()[k], text@),
                forall|k: int| 0 <= k < i ==> self.scores()[k] == self.candidates()[k].score,
                self.level() == max_level_spec(
                    pre.level(),
                    (if query_changed(pre.candidates().subrange(0, i as int), text@) {
                        UpdateLevel::Invalidate
                    } else {
                        UpdateLevel::Idle
                    }),
                ),
            decreases n - i,
        {
            let ghost prefix = pre.candidates().subrange(0, i as int);
            let ghost snap = *self;
            let old_score = self.candidates[i].score;
            self.candidates[i].update_match(text);
            let new_score = self.candidates[i].score;
            if new_score != old_score {
                self.scores.set(i, new_score);
                self.level = max_level(self.level, UpdateLevel::Invalidate);
            }
            proof {
                assert forall|k: int|
                    0 <= k < i + 1 implies queried_post(
                    pre.candidates()[k],
                    self.candidates()[k],
                    text@,
                ) by {
                    if k < i {
                        assert(self.candidates()[k] == snap.candidates()[k]);
                        assert(queried_post(pre.candidates()[k], snap.candidates()[k], text@));
                    }
                }
                assert forall|k: int|
                    0 <= k < i + 1 implies self.scores()[k] == self.candidates()[k].score by {
                    if k < i {
                        assert(self.scores()[k] == snap.scores()[k]);
                        assert(self.candidates()[k] == snap.candidates()[k]);
                    } else {
                        assert(pre.scores()[k] == pre.candidates()[k].score);
                    }
                }
                let grown = pre.candidates().subrange(0, i as int + 1);
                assert(grown.drop_last() =~= prefix);
                assert(grown.last() == pre.candidates()[i as int]);
                if query_changed(grown, text@) && !query_changed(prefix, text@) {
                    let w = choose|k: int|
                        0 <= k < grown.len() && queried_score(grown[k], text@) != grown[k].score;
                    if w < i {
                        assert(queried_score(prefix[w], text@) != prefix[w].score);
                    }
                }
                if query_changed(prefix, text@) {
                    let w = choose|k: int|
                        0 <= k < prefix.len() && queried_score(prefix[k], text@) != prefix[k].score;
                    assert(queried_score(grown[w], text@) != grown[w].score);
                }
            }
            i += 1;
        }
        proof {
            assert(pre.candidates().subrange(0, n as int) =~= pre.candidates());
        }
    }

    /// Hide every candidate: set all scores to zero, writing each changed
    /// score through to its table slot.
    pub fn clear_all(&mut self)
        requires
            old(self).wf(),
        ensures
            final(self).wf(),
            clear_all_post(*old(self), *final(self)),
    {
        let ghost pre = *self;
        let n = self.candidates.len();
        let mut i: usize = 0;
        while i < n
            invariant
                n == pre.candidates().len(),
                i <= n,
                self.candidates().len() == n,
                self.scores().len() == n,
                pre.wf(),
                forall|k: int| i <= k < n ==> self.candidates()[k] == pre.candidates()[k],
                forall|k: int| i <= k < n ==> self.scores()[k] == pre.scores()[k],
                forall|k: int|
                    0 <= k < i ==> hidden_post(pre.candidates()[k], self.candidates()[k]),
                forall|k: int| 0 <= k < i ==> self.scores()[k] == self.candidates()[k].score,
                self.level() == max_level_spec(
                    pre.level(),
                    (if clear_changed(pre.candidates().subrange(0, i as int)) {
                        UpdateLevel::Invalidate
                    } else {
                        UpdateLevel::Idle
                    }),
                ),
            decreases n - i,
        {
            let ghost prefix = pre.candidates().subrange(0, i as int);
            let ghost snap = *self;
            let old_score = self.candidates[i].score;
            self.candidates[i].conceal();
            if old_score != 0 {
                self.scores.set(i, 0);
                self.level = max_level(self.level, UpdateLevel::Invalidate);
            }
            proof {
                assert forall|k: int|
                    0 <= k < i + 1 implies hidden_post(
                    pre.candidates()[k],
                    self.candidates()[k],
                ) by {
                    if k < i {
                        assert(self.candidates()[k] == snap.candidates()[k]);
                        assert(hidden_post(pre.candidates()[k], snap.candidates()[k]));
                    }
                }
                assert forall|k: int|
                    0 <= k < i + 1 implies self.scores()[k] == self.candidates()[k].score by {
                    if k < i {
                        assert(self.scores()[k] == snap.scores()[k]);
                        assert(self.candidates()[k] == snap.candidates()[k]);
                    } else {
                        assert(pre.scores()[k] == pre.candidates()[k].score);
                    }
                }
                let grown = pre.candidates().subrange(0, i as int + 1);
                assert(grown.drop_last() =~= prefix);
                assert(grown.last() == pre.candidates()[i as int]);
                if clear_changed(grown) && !clear_changed(prefix) {
                    let w = choose|k: int| 0 <= k < grown.len() && grown[k].score != 0;
                    if w < i {
                        assert(prefix[w].score != 0);
                    }
                }
                if clear_changed(prefix) {
                    let w = choose|k: int| 0 <= k < prefix.len() && prefix[k].score != 0;
                    assert(grown[w].score != 0);
                }
            }
            i += 1;
        }
        proof {
            assert(pre.candidates().subrange(0, n as int) =~= pre.candidates());
        }
    }

    /// Hand out the pending level and reset it to `Idle`; called once per
    /// presentation refresh cycle.
    pub fn consume_level(&mut self) -> (r: UpdateLevel)
        ensures
            consume_post(*old(self), *final(self), r),
            old(self).wf() ==> final(self).wf(),
    {
        let r = self.level;
        self.level = UpdateLevel::Idle;
        r
    }
}

/// Law: no mutating operation ever lowers the pending level — whichever of
/// the three mutations relates a pre-state to a post-state, the post-state's
/// level ranks at least as high.
pub proof fn lemma_ops_escalate(
    pre: MatchEngine,
    post: MatchEngine,
    new: Seq<Candidate>,
    pattern: Seq<char>,
)
    requires
        reload_post(pre, post, new) || apply_query_post(pre, post, pattern) || clear_all_post(
            pre,
            post,
        ),
    ensures
        rank(post.level()) >= rank(pre.level()),
{
}

/// Law: `consume_level` resets exactly once — consumed twice with no
/// mutation in between, it hands out the real pending level and then `Idle`.
pub proof fn lemma_consume_twice(
    e0: MatchEngine,
    e1: MatchEngine,
    e2: MatchEngine,
    r1: UpdateLevel,
    r2: UpdateLevel,
)
    requires
        consume_post(e0, e1, r1),
        consume_post(e1, e2, r2),
    ensures
        r1 == e0.level(),
        r2 == UpdateLevel::Idle,
{
}

/// Law: an empty query is idempotent — it leaves every candidate at the
/// full-match score, and once every score already sits there, it does not
/// escalate the pending level.
pub proof fn lemma_empty_query_idempotent(e0: MatchEngine, e1: MatchEngine, e2: MatchEngine)
    requires
        apply_query_post(e0, e1, Seq::<char>::empty()),
        apply_query_post(e1, e2, Seq::<char>::empty()),
    ensures
        forall|i: int|
            0 <= i < e1.candidates().len() ==> e1.candidates()[i].score == FULL_MATCH_SCORE,
        forall|i: int|
            0 <= i < e2.candidates().len() ==> e2.candidates()[i].score == FULL_MATCH_SCORE,
        e2.level() == e1.level(),
        (forall|i: int| 0 <= i < e0.candidates().len() ==> e0.candidates()[i].score == FULL_MATCH_SCORE)
            ==> e1.level() == e0.level(),
{
    assert(!query_changed(e1.candidates(), Seq::<char>::empty()));
    if forall|i: int| 0 <= i < e0.candidates().len() ==> e0.candidates()[i].score == FULL_MATCH_SCORE {
        assert(!query_changed(e0.candidates(), Seq::<char>::empty()));
    }
}

/// Law: filter correctness — after a query update, a candidate keeps a
/// positive score exactly when the query is empty or its search text
/// fuzzy-matches the pattern with a positive score.
pub proof fn lemma_filter_correct(pre: MatchEngine, post: MatchEngine, pattern: Seq<char>)
    requires
        pre.wf(),
        post.wf(),
        apply_query_post(pre, post, pattern),
    ensures
        forall|i: int|
            0 <= i < post.candidates().len() ==> (post.scores()[i] > 0 <==> (pattern.len() == 0
                || crate::matcher::fuzzy_positive(post.candidates()[i].search_text@, pattern))),
{
}

} // verus!
