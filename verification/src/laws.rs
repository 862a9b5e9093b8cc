//! The engine's protocol laws, stated and proved over the same predicates the
//! handlers' contracts use.

use vstd::prelude::*;
use crate::queue_handler::{callout_transition, open_support, propose_echo_condition};
use crate::state::{StateView, TBInputView};

verus! {

/// Lock safety: a replica that holds a lock (height > 0) broadcasts an Echo
/// for a proposed value conflicting with the locked one only when at least
/// F + 1 collected proofs establish that the lock is openable.
pub proof fn lemma_lock_safety(st: StateView, chain_id: u32, k: u32, v: TBInputView, view: u32)
    requires
        propose_echo_condition(st, chain_id, k, v, view),
        st.lock != 0,
        v != st.lock_val,
    ensures
        open_support(st.proofs, st.lock, st.lock_val) >= st.fault_bound + 1,
{
}

/// Exactly-once effect, two steps: no two consecutive processing steps can
/// both emit the decision callout.
pub proof fn lemma_callout_at_most_once(
    s0: StateView,
    s1: StateView,
    s2: StateView,
    e1: bool,
    e2: bool,
)
    requires
        callout_transition(s0, s1, e1),
        callout_transition(s1, s2, e2),
    ensures
        !(e1 && e2),
{
}

/// Once the callout flag is raised, it stays raised along any chain of
/// processing steps.
proof fn lemma_callout_flag_stays(states: Seq<StateView>, emits: Seq<bool>, a: int, b: int)
    requires
        states.len() == emits.len() + 1,
        forall|i: int|
            0 <= i < emits.len() ==> callout_transition(states[i], states[i + 1], emits[i]),
        0 <= a <= b < states.len(),
        states[a].done_executed,
    ensures
        states[b].done_executed,
    decreases b - a,
{
    if a < b {
        lemma_callout_flag_stays(states, emits, a, b - 1);
        assert(callout_transition(states[b - 1], states[b], emits[b - 1]));
    }
}

/// Exactly-once effect: across any sequence of processing steps (in
/// particular any sequence of duplicate Done or Lock deliveries), the
/// decision callout is emitted at most once.
pub proof fn lemma_callout_once_in_sequence(states: Seq<StateView>, emits: Seq<bool>)
    requires
        states.len() == emits.len() + 1,
        forall|i: int|
            0 <= i < emits.len() ==> callout_transition(states[i], states[i + 1], emits[i]),
    ensures
        forall|i: int, j: int| 0 <= i < j < emits.len() && emits[i] ==> !(#[trigger] emits[j]
            && #[trigger] emits[i]),
{
    assert forall|i: int, j: int|
        0 <= i < j < emits.len() && emits[i] implies !(#[trigger] emits[j] && #[trigger] emits[i]) by {
        assert(callout_transition(states[i], states[i + 1], emits[i]));
        assert(states[i + 1].done_executed);
        lemma_callout_flag_stays(states, emits, i + 1, j);
        assert(callout_transition(states[j], states[j + 1], emits[j]));
    }
}

/// Along any chain of deliveries of one (kind, value, sender) tuple, the
/// quorum set is either the chain's starting set or that set with the one
/// sender appended.
proof fn lemma_dedup_shape(sets: Seq<Seq<u32>>, s: u32, i: int)
    requires
        sets.len() >= 1,
        forall|k: int|
            0 <= k < sets.len() - 1 ==> #[trigger] sets[k + 1] == (if sets[k].contains(s) {
                sets[k]
            } else {
                sets[k].push(s)
            }),
        0 <= i < sets.len(),
    ensures
        sets[i] == sets[0] || (!sets[0].contains(s) && sets[i] == sets[0].push(s)),
    decreases i,
{
    if i > 0 {
        lemma_dedup_shape(sets, s, i - 1);
        assert(sets[(i - 1) + 1] == (if sets[i - 1].contains(s) {
            sets[i - 1]
        } else {
            sets[i - 1].push(s)
        }));
        if sets[i - 1] == sets[0].push(s) {
            assert(sets[i - 1][sets[0].len() as int] == s);
            assert(sets[i - 1].contains(s));
        }
    }
}

/// Deduplication idempotence: delivering an identical (kind, value, sender)
/// tuple any number of times changes the quorum set's size by at most one.
/// The quorum hop's contract supplies each link of the chain: a duplicate of
/// the resolved sender leaves the set unchanged, and a fresh one appends
/// exactly that sender.
pub proof fn lemma_dedup_idempotent(sets: Seq<Seq<u32>>, s: u32)
    requires
        sets.len() >= 1,
        forall|k: int|
            0 <= k < sets.len() - 1 ==> #[trigger] sets[k + 1] == (if sets[k].contains(s) {
                sets[k]
            } else {
                sets[k].push(s)
            }),
    ensures
        forall|i: int| 0 <= i < sets.len() ==> (#[trigger] sets[i]).len() <= sets[0].len() + 1,
{
    assert forall|i: int|
        0 <= i < sets.len() implies (#[trigger] sets[i]).len() <= sets[0].len() + 1 by {
        lemma_dedup_shape(sets, s, i);
    }
}

/// View monotonicity: since every processing step leaves the adopted view no
/// smaller, the view never decreases across any sequence of deliveries.
pub proof fn lemma_view_monotonic(views: Seq<u32>, i: int, j: int)
    requires
        forall|k: int| 0 <= k < views.len() - 1 ==> #[trigger] views[k] <= views[k + 1],
        0 <= i <= j < views.len(),
    ensures
        views[i] <= views[j],
    decreases j - i,
{
    if i < j {
        lemma_view_monotonic(views, i, j - 1);
        assert(views[j - 1] <= views[(j - 1) + 1]);
    }
}

} // verus!
