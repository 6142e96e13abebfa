//! The pending-update level: a three-state hint telling the presentation
//! layer which refresh the engine's mutations since the last render demand.

use vstd::prelude::*;

verus! {

/// Minimal-refresh hint, ordered `Idle < Invalidate < Reload`.
///
/// `Idle`: nothing visible changed. `Invalidate`: only scores changed, so a
/// re-filter/re-sort suffices. `Reload`: the candidate set was replaced, so
/// cached per-candidate presentation state must be rebuilt.
#[derive(Clone, Copy, Debug, PartialEq, Eq, Structural)]
pub enum UpdateLevel {
    Idle,
    Invalidate,
    Reload,
}

/// Position of a level in the escalation order.
pub open spec fn rank(l: UpdateLevel) -> int {
    match l {
        UpdateLevel::Idle => 0,
        UpdateLevel::Invalidate => 1,
        UpdateLevel::Reload => 2,
    }
}

/// The higher of two levels in the escalation order.
pub open spec fn max_level_spec(a: UpdateLevel, b: UpdateLevel) -> UpdateLevel {
    if rank(b) > rank(a) {
        b
    } else {
        a
    }
}

fn level_rank(l: UpdateLevel) -> (r: u8)
    ensures
        r == rank(l),
{
    match l {
        UpdateLevel::Idle => 0,
        UpdateLevel::Invalidate => 1,
        UpdateLevel::Reload => 2,
    }
}

/// Escalate: combine two levels, keeping the stronger one.
pub fn max_level(a: UpdateLevel, b: UpdateLevel) -> (r: UpdateLevel)
    ensures
        r == max_level_spec(a, b),
{
    if level_rank(b) > level_rank(a) {
        b
    } else {
        a
    }
}

/// The level left pending after starting at `l0` and escalating once per
/// element of `ls`, in order — the level dynamics of one update cycle.
pub open spec fn run_levels(l0: UpdateLevel, ls: Seq<UpdateLevel>) -> UpdateLevel
    decreases ls.len(),
{
    if ls.len() == 0 {
        l0
    } else {
        run_levels(max_level_spec(l0, ls[0]), ls.subrange(1, ls.len() as int))
    }
}

/// Law: within one cycle the pending level only escalates. After any
/// sequence of escalations the observed level is at least the starting
/// level and at least the level implied by each individual operation.
pub proof fn lemma_level_monotonic(l0: UpdateLevel, ls: Seq<UpdateLevel>)
    ensures
        rank(run_levels(l0, ls)) >= rank(l0),
        forall|i: int| 0 <= i < ls.len() ==> rank(run_levels(l0, ls)) >= rank(ls[i]),
    decreases ls.len(),
{
    if ls.len() > 0 {
        let rest = ls.subrange(1, ls.len() as int);
        lemma_level_monotonic(max_level_spec(l0, ls[0]), rest);
        assert forall|i: int| 0 <= i < ls.len() implies rank(run_levels(l0, ls)) >= rank(
            ls[i],
        ) by {
            if i >= 1 {
                assert(rest[i - 1] == ls[i]);
            }
        }
    }
}

} // verus!
