//! What the reclaim ledger promises across several operations.
use crate::guest_memory::{GuestRange, HostRange, ReclaimError};
use crate::ledger::{
    lemma_awaited_release, lemma_pending_append, lemma_pending_parts, lemma_restore_step_wf,
    lemma_restore_unreserved, overlapping_extents, pending_of, pending_without, restore_transitions,
    LedgerState, PendingKind, PendingTransition, ReleasePlan, RestorePlan,
};
use crate::mapping_runs::{
    law_carve_removes_exactly_the_cut, mapped, mapped_with, MappingGeneration,
};
use vstd::prelude::*;

verus! {

/// A release that was planned can be redeemed, and giving it up leaves everything but the
/// counters as it was before the plan.
pub proof fn law_aborted_release_changes_nothing(state: LedgerState, range: HostRange)
    requires
        state.wf(),
        state.release_outcome(range).0 is Ok,
    ensures
        ({
            let plan = state.release_outcome(range).0->Ok_0->Some_0;
            let planned = state.release_outcome(range).1;
            &&& planned.awaits_release(plan)
            &&& planned.without_pending(plan.token) == (LedgerState {
                next_token: planned.next_token,
                next_generation: planned.next_generation,
                ..state
            })
        }),
{
    let plan = state.release_outcome(range).0->Ok_0->Some_0;
    let planned = state.release_outcome(range).1;
    let added = seq![
        PendingTransition {
            token: plan.token,
            range: plan.range.guest,
            kind: PendingKind::Release,
        },
    ];
    assert(planned.pending == state.pending + added);
    lemma_pending_append(state.pending, added, plan.token);
}

/// Giving up a planned restore leaves everything but the counters as it was before the
/// plan; what was released stays released.
pub proof fn law_aborted_restore_changes_nothing(
    state: LedgerState,
    range: GuestRange,
    extents: Seq<HostRange>,
)
    requires
        state.wf(),
        overlapping_extents(state.released, range, extents),
        state.next_token < u64::MAX,
        state.next_generation < u64::MAX,
        state.next_lease < u64::MAX,
    ensures
        ({
            let planned = state.restore_reserved(range, extents);
            LedgerState {
                reserved_leases: planned.reserved_leases.remove(state.next_lease),
                ..planned.without_pending(state.next_token)
            } == LedgerState {
                next_token: planned.next_token,
                next_generation: planned.next_generation,
                next_lease: planned.next_lease,
                ..state
            }
        }),
{
    let planned = state.restore_reserved(range, extents);
    lemma_pending_append(
        state.pending,
        restore_transitions(state.next_token, state.next_lease, extents),
        state.next_token,
    );
    assert(!state.reserved_leases.contains_key(state.next_lease));
    assert(planned.reserved_leases.remove(state.next_lease) == state.reserved_leases);
}

/// Once a reservation is dropped its token is worthless: neither a commit nor an abort is
/// accepted again.
pub proof fn law_token_redeemed_once(state: LedgerState, plan: ReleasePlan)
    requires
        state.wf(),
    ensures
        !state.without_pending(plan.token).awaits_release(plan),
        state.without_pending(plan.token).commit_release_outcome(plan).0 == Err::<(), _>(
            ReclaimError::InvalidTransition,
        ),
        state.commit_release_outcome(plan).0 is Ok ==> !state.commit_release_outcome(
            plan,
        ).1.awaits_release(plan),
{
    let rest = state.without_pending(plan.token);
    lemma_pending_parts(state.pending, plan.token);
    lemma_pending_parts(rest.pending, plan.token);
    let of = pending_of(rest.pending, plan.token);
    if of.len() > 0 {
        let k = choose|k: int| 0 <= k < rest.pending.len() && rest.pending[k] == of[0];
        assert(pending_without(state.pending, plan.token)[k].token != plan.token);
    }
    assert(of.len() == 0);
}

/// A committed release unmaps exactly the planned range, records it as released with the
/// plan's generation, and touches no other address.
pub proof fn law_committed_release_unmaps_exactly(state: LedgerState, plan: ReleasePlan)
    requires
        state.wf(),
        state.commit_release_outcome(plan).0 is Ok,
    ensures
        ({
            let done = state.commit_release_outcome(plan).1;
            &&& forall|a: int, g: MappingGeneration| #[trigger]
                mapped_with(done.runs, a, g) <==> mapped_with(state.runs, a, g)
                    && !plan.range.guest.has(a)
            &&& done.released.contains_key(plan.range.guest.start)
            &&& done.released[plan.range.guest.start].range == plan.range
            &&& done.released[plan.range.guest.start].generation == plan.generation
            &&& !state.released.contains_key(plan.range.guest.start)
            &&& done.released.remove(plan.range.guest.start) == state.released
            &&& done.released.len() == state.released.len() + 1
        }),
{
    lemma_awaited_release(state, plan);
    law_carve_removes_exactly_the_cut(state.runs, plan.range.guest);
    let done = state.commit_release_outcome(plan).1;
    if state.released.contains_key(plan.range.guest.start) {
        assert(state.released[plan.range.guest.start].range.guest.meets(plan.range.guest));
        assert(state.meets_released(plan.range.guest));
    }
    assert(done.released.remove(plan.range.guest.start) == state.released);
}

/// After `n` steps of a restore exactly the first `n` ranges are mapped besides what was
/// mapped, all with the plan's generation, and they are no longer released.
pub proof fn law_restore_maps_with_the_plan_generation(
    state: LedgerState,
    plan: RestorePlan,
    n: int,
)
    requires
        state.wf(),
        state.awaits_restore(plan),
        0 <= n <= plan.ranges@.len(),
    ensures
        ({
            let done = state.without_pending(plan.token).restored(
                plan.ranges@,
                plan.generation,
                n,
            );
            &&& done.wf()
            &&& forall|a: int, g: MappingGeneration| #[trigger]
                mapped_with(done.runs, a, g) <==> mapped_with(state.runs, a, g) || (g
                    == plan.generation && exists|i: int|
                    0 <= i < n && (#[trigger] plan.ranges@[i]).guest.has(a))
            &&& forall|k: u64| #[trigger]
                done.released.contains_key(k) <==> state.released.contains_key(k) && forall|i: int|
                    0 <= i < n ==> (#[trigger] plan.ranges@[i]).guest.start != k
            &&& forall|k: u64| #[trigger]
                done.released.contains_key(k) ==> done.released[k] == state.released[k]
            &&& done.pending == state.without_pending(plan.token).pending
        }),
    decreases n,
{
    let dropped = state.without_pending(plan.token);
    let done = dropped.restored(plan.ranges@, plan.generation, n);
    if n == 0 {
        crate::ledger::lemma_without_pending_wf(state, plan.token);
        assert(done == dropped);
    } else {
        law_restore_maps_with_the_plan_generation(state, plan, n - 1);
        lemma_restore_unreserved(state, plan);
        let before = dropped.restored(plan.ranges@, plan.generation, n - 1);
        let range = plan.ranges@[n - 1];
        assert(state.released.contains_key(range.guest.start));
        assert(before.released.contains_key(range.guest.start));
        crate::ledger::lemma_meets_pending_same(dropped, before, range.guest);
        lemma_restore_step_wf(before, range, plan.generation);
        assert(done.released == before.released.remove(range.guest.start));
        assert forall|a: int, g: MappingGeneration| #[trigger]
            mapped_with(done.runs, a, g) <==> mapped_with(state.runs, a, g) || (g
                == plan.generation && exists|i: int|
                0 <= i < n && (#[trigger] plan.ranges@[i]).guest.has(a)) by {
            assert(mapped_with(done.runs, a, g) <==> mapped_with(before.runs, a, g) || (
            range.guest.has(a) && g == plan.generation));
            if range.guest.has(a) {
                assert(plan.ranges@[n - 1].guest.has(a));
            }
        }
        assert forall|k: u64| #[trigger]
            done.released.contains_key(k) <==> state.released.contains_key(k) && forall|i: int|
                0 <= i < n ==> (#[trigger] plan.ranges@[i]).guest.start != k by {
            if done.released.contains_key(k) {
                assert(before.released.contains_key(k));
            }
            if state.released.contains_key(k) && forall|i: int|
                0 <= i < n ==> (#[trigger] plan.ranges@[i]).guest.start != k {
                assert(plan.ranges@[n - 1].guest.start != k);
                assert(before.released.contains_key(k));
            }
        }
        assert forall|k: u64| #[trigger]
            done.released.contains_key(k) implies done.released[k] == state.released[k] by {
            assert(before.released.contains_key(k));
        }
    }
}

/// No address is mapped and released at once.
pub proof fn law_released_is_not_mapped(state: LedgerState, a: int, k: u64)
    requires
        state.wf(),
        state.released.contains_key(k),
        state.released[k].range.guest.has(a),
    ensures
        !mapped(state.runs, a),
        state.ram(a),
{
    if mapped(state.runs, a) {
        let i = choose|i: int| 0 <= i < state.runs.len() && (#[trigger] state.runs[i]).range.has(a);
        assert(!state.runs[i].range.meets(state.released[k].range.guest));
    }
    let r = choose|r: int|
        0 <= r < state.regions.len() && (#[trigger] state.regions[r]).range.guest.covers(
            state.released[k].range.guest,
        );
    assert(state.regions[r].range.guest.has(a));
}

/// A number handed out is larger than every number of its kind in use, so none is reused.
pub proof fn law_identifiers_are_fresh(state: LedgerState)
    requires
        state.wf(),
    ensures
        forall|i: int| 0 <= i < state.pending.len() ==> (#[trigger] state.pending[i]).token
            < state.next_token,
        !state.leases.contains_key(state.next_lease),
        !state.reserved_leases.contains_key(state.next_lease),
        state.generations_issued() ==> forall|a: int| !#[trigger] mapped_with(
            state.runs,
            a,
            MappingGeneration(state.next_generation),
        ),
{
}

} // verus!
