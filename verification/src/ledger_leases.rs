//! That the reclaim ledger takes no memory away from a lease.
use crate::guest_memory::{GuestRange, HostRange, RamRegion};
use crate::ledger::{
    lemma_pending_parts, overlapping_extents, pending_of, pending_without, restore_transitions,
    LedgerState, PendingKind, PendingTransition, ReleasePlan, RestorePlan,
};
use crate::ledger_laws::law_restore_maps_with_the_plan_generation;
use crate::mapping_runs::mapped;
use crate::ram_layout::lemma_region_inserted;
use vstd::prelude::*;

verus! {

impl LedgerState {
    /// A part of `range` is reserved for a release.
    pub open spec fn releasing(self, range: GuestRange) -> bool {
        exists|i: int|
            0 <= i < self.pending.len() && (#[trigger] self.pending[i]).kind
                == PendingKind::Release && self.pending[i].range.meets(range)
    }

    /// Leases are of RAM. No part of an active one is released or about to be, and no part of a
    /// reserved one is about to be.
    pub open spec fn leases_kept(self) -> bool {
        &&& forall|k: u64| #[trigger]
            self.leases.contains_key(k) ==> {
                &&& self.in_ram(self.leases[k])
                &&& !self.meets_released(self.leases[k])
                &&& !self.releasing(self.leases[k])
            }
        &&& forall|k: u64| #[trigger]
            self.reserved_leases.contains_key(k) ==> {
                &&& self.in_ram(self.reserved_leases[k])
                &&& !self.releasing(self.reserved_leases[k])
            }
    }

    /// `range` is reserved for the restore that the access with that lease waits for.
    pub open spec fn restoring(self, range: GuestRange, lease: u64) -> bool {
        exists|i: int|
            0 <= i < self.pending.len() && (#[trigger] self.pending[i]).kind == (
            PendingKind::Restore { lease }) && self.pending[i].range == range
    }

    /// What is released of a range with a reserved lease is being restored for that lease, and
    /// all of it under one token.
    pub open spec fn reservations_kept(self) -> bool {
        &&& forall|k: u64, e: u64| #[trigger]
            self.reserved_leases.contains_key(k) && #[trigger] self.released.contains_key(e)
                && self.released[e].range.guest.meets(self.reserved_leases[k]) ==> self.restoring(
                self.released[e].range.guest,
                k,
            )
        &&& forall|i: int, j: int|
            0 <= i < self.pending.len() && 0 <= j < self.pending.len() && (
            #[trigger] self.pending[i]).kind is Restore && (#[trigger] self.pending[j]).kind
                == self.pending[i].kind ==> self.pending[i].token == self.pending[j].token
        &&& forall|i: int|
            0 <= i < self.pending.len() && (#[trigger] self.pending[i]).kind is Restore
                ==> self.reserved_leases.contains_key(self.pending[i].kind->lease)
    }
}

/// Nothing that is released or about to be in `after` was not so in `before`.
proof fn lemma_less_is_taken(before: LedgerState, after: LedgerState, range: GuestRange)
    requires
        forall|k: u64| #[trigger]
            after.released.contains_key(k) ==> before.released.contains_key(k)
                && after.released[k] == before.released[k],
        forall|i: int|
            0 <= i < after.pending.len() && (#[trigger] after.pending[i]).kind
                == PendingKind::Release ==> before.pending.contains(after.pending[i]),
    ensures
        !before.meets_released(range) ==> !after.meets_released(range),
        !before.releasing(range) ==> !after.releasing(range),
{
    if after.meets_released(range) {
        let k = choose|k: u64| #[trigger]
            after.released.contains_key(k) && after.released[k].range.guest.meets(range);
        assert(before.released.contains_key(k));
    }
    if after.releasing(range) {
        let i = choose|i: int|
            0 <= i < after.pending.len() && (#[trigger] after.pending[i]).kind
                == PendingKind::Release && after.pending[i].range.meets(range);
        let j = choose|j: int| 0 <= j < before.pending.len() && before.pending[j] == after.pending[i];
        assert(before.pending[j].kind == PendingKind::Release);
    }
}

proof fn lemma_same_ram(before: LedgerState, after: LedgerState, range: GuestRange)
    requires
        before.regions == after.regions,
    ensures
        before.in_ram(range) ==> after.in_ram(range),
{
    if before.in_ram(range) {
        let r = choose|r: int|
            0 <= r < before.regions.len() && (#[trigger] before.regions[r]).range.guest.covers(
                range,
            );
        assert(after.regions[r].range.guest.covers(range));
    }
}

/// A ledger that takes less away and holds no other leases keeps them too.
pub(crate) proof fn lemma_kept_with_less(before: LedgerState, after: LedgerState)
    requires
        before.leases_kept(),
        before.regions == after.regions,
        forall|k: u64| #[trigger]
            after.leases.contains_key(k) ==> before.leases.contains_key(k) && after.leases[k]
                == before.leases[k],
        forall|k: u64| #[trigger]
            after.reserved_leases.contains_key(k) ==> before.reserved_leases.contains_key(k)
                && after.reserved_leases[k] == before.reserved_leases[k],
        forall|k: u64| #[trigger]
            after.released.contains_key(k) ==> before.released.contains_key(k)
                && after.released[k] == before.released[k],
        forall|i: int|
            0 <= i < after.pending.len() && (#[trigger] after.pending[i]).kind
                == PendingKind::Release ==> before.pending.contains(after.pending[i]),
    ensures
        after.leases_kept(),
{
    assert forall|k: u64| #[trigger] after.leases.contains_key(k) implies {
        &&& after.in_ram(after.leases[k])
        &&& !after.meets_released(after.leases[k])
        &&& !after.releasing(after.leases[k])
    } by {
        assert(before.leases.contains_key(k));
        lemma_same_ram(before, after, after.leases[k]);
        lemma_less_is_taken(before, after, after.leases[k]);
    }
    assert forall|k: u64| #[trigger] after.reserved_leases.contains_key(k) implies {
        &&& after.in_ram(after.reserved_leases[k])
        &&& !after.releasing(after.reserved_leases[k])
    } by {
        assert(before.reserved_leases.contains_key(k));
        lemma_same_ram(before, after, after.reserved_leases[k]);
        lemma_less_is_taken(before, after, after.reserved_leases[k]);
    }
}

/// Every address of an active lease is mapped, where no RAM was lost.
pub proof fn law_leased_memory_is_mapped(state: LedgerState, lease: u64, a: int)
    requires
        state.wf(),
        state.accounted(),
        state.leases_kept(),
        state.leases.contains_key(lease),
        state.leases[lease].has(a),
    ensures
        mapped(state.runs, a),
{
    let range = state.leases[lease];
    let r = choose|r: int|
        0 <= r < state.regions.len() && (#[trigger] state.regions[r]).range.guest.covers(range);
    assert(state.regions[r].range.guest.has(a));
    assert(state.ram(a));
    if state.released_at(a) {
        let k = choose|k: u64| #[trigger]
            state.released.contains_key(k) && state.released[k].range.guest.has(a);
        assert(state.released[k].range.guest.meets(range));
        assert(state.meets_released(range));
    }
}

/// A lease that is granted at once is of memory that nothing takes away.
pub proof fn law_granting_keeps_leases(state: LedgerState, range: GuestRange)
    requires
        state.wf(),
        state.leases_kept(),
        state.in_ram(range),
        !state.meets_pending(range),
        !state.meets_released(range),
    ensures
        state.lease_outcome(range).1.leases_kept(),
{
    let next = state.lease_outcome(range).1;
    assert forall|k: u64| #[trigger] next.leases.contains_key(k) implies {
        &&& next.in_ram(next.leases[k])
        &&& !next.meets_released(next.leases[k])
        &&& !next.releasing(next.leases[k])
    } by {
        if next.leases[k] == range {
            let r = choose|r: int|
                0 <= r < state.regions.len() && (#[trigger] state.regions[r]).range.guest.covers(
                    range,
                );
            assert(next.regions[r].range.guest.covers(range));
            lemma_less_is_taken(state, next, range);
            if state.releasing(range) {
                let i = choose|i: int|
                    0 <= i < state.pending.len() && (#[trigger] state.pending[i]).kind
                        == PendingKind::Release && state.pending[i].range.meets(range);
                assert(state.pending[i].range.meets(range));
            }
        } else {
            assert(state.leases.contains_key(k));
            lemma_same_ram(state, next, next.leases[k]);
            lemma_less_is_taken(state, next, next.leases[k]);
        }
    }
    assert forall|k: u64| #[trigger] next.reserved_leases.contains_key(k) implies {
        &&& next.in_ram(next.reserved_leases[k])
        &&& !next.releasing(next.reserved_leases[k])
    } by {
        assert(state.reserved_leases.contains_key(k));
        lemma_same_ram(state, next, next.reserved_leases[k]);
        lemma_less_is_taken(state, next, next.reserved_leases[k]);
    }
}

/// Planning a release takes nothing away from a lease: what is leased is refused, and so is what
/// a restore is under way for.
pub proof fn law_planned_release_spares_leases(state: LedgerState, range: HostRange)
    requires
        state.wf(),
        state.leases_kept(),
    ensures
        state.release_outcome(range).1.leases_kept(),
        state.meets_lease(range.guest) ==> state.release_outcome(range).0 is Err,
        state.meets_reserved(range.guest) ==> state.release_outcome(range).0 is Err,
        state.reservations_kept() ==> state.release_outcome(range).1.reservations_kept(),
{
    let (answer, next) = state.release_outcome(range);
    if answer is Ok {
        assert forall|k: u64| #[trigger] next.leases.contains_key(k) implies {
            &&& next.in_ram(next.leases[k])
            &&& !next.meets_released(next.leases[k])
            &&& !next.releasing(next.leases[k])
        } by {
            let lease = state.leases[k];
            assert(state.leases.contains_key(k));
            lemma_same_ram(state, next, lease);
            if next.meets_released(lease) {
                let m = choose|m: u64| #[trigger]
                    next.released.contains_key(m) && next.released[m].range.guest.meets(lease);
                assert(state.released.contains_key(m));
            }
            if next.releasing(lease) {
                let i = choose|i: int|
                    0 <= i < next.pending.len() && (#[trigger] next.pending[i]).kind
                        == PendingKind::Release && next.pending[i].range.meets(lease);
                if i < state.pending.len() {
                    assert(state.pending[i].kind == PendingKind::Release);
                } else {
                    assert(state.leases[k].meets(range.guest));
                    assert(state.meets_lease(range.guest));
                }
            }
        }
        assert forall|k: u64| #[trigger] next.reserved_leases.contains_key(k) implies {
            &&& next.in_ram(next.reserved_leases[k])
            &&& !next.releasing(next.reserved_leases[k])
        } by {
            let reserved = state.reserved_leases[k];
            assert(state.reserved_leases.contains_key(k));
            lemma_same_ram(state, next, reserved);
            if next.releasing(reserved) {
                let i = choose|i: int|
                    0 <= i < next.pending.len() && (#[trigger] next.pending[i]).kind
                        == PendingKind::Release && next.pending[i].range.meets(reserved);
                if i < state.pending.len() {
                    assert(state.pending[i].kind == PendingKind::Release);
                } else {
                    assert(state.reserved_leases[k].meets(range.guest));
                    assert(state.meets_reserved(range.guest));
                }
            }
        }
        if state.reservations_kept() {
            assert forall|i: int|
                0 <= i < next.pending.len() && (
                #[trigger] next.pending[i]).kind is Restore implies i < state.pending.len()
                && state.pending[i] == next.pending[i] by {}
            lemma_reservations_grow(state, next);
        }
    } else {
        if state.reservations_kept() {
            lemma_reservations_grow(state, next);
        }
        assert forall|i: int|
            0 <= i < next.pending.len() && (#[trigger] next.pending[i]).kind
                == PendingKind::Release implies state.pending.contains(next.pending[i]) by {
            assert(state.pending[i] == next.pending[i]);
        }
        lemma_kept_with_less(state, next);
    }
}

/// Reservations are kept where no more is released, no other lease is reserved, and only
/// releases are added to what is under way.
pub(crate) proof fn lemma_reservations_grow(before: LedgerState, after: LedgerState)
    requires
        before.reservations_kept(),
        after.released == before.released,
        after.reserved_leases == before.reserved_leases,
        before.pending.len() <= after.pending.len(),
        forall|i: int| 0 <= i < before.pending.len() ==> before.pending[i] == after.pending[i],
        forall|i: int|
            0 <= i < after.pending.len() && (#[trigger] after.pending[i]).kind is Restore ==> i
                < before.pending.len(),
    ensures
        after.reservations_kept(),
{
    assert forall|k: u64, e: u64| #[trigger]
        after.reserved_leases.contains_key(k) && #[trigger] after.released.contains_key(e)
            && after.released[e].range.guest.meets(after.reserved_leases[k]) implies after.restoring(
        after.released[e].range.guest,
        k,
    ) by {
        assert(before.restoring(before.released[e].range.guest, k));
        let i = choose|i: int|
            0 <= i < before.pending.len() && (#[trigger] before.pending[i]).kind == (
            PendingKind::Restore { lease: k }) && before.pending[i].range
                == before.released[e].range.guest;
        assert(after.pending[i] == before.pending[i]);
    }
    assert forall|i: int, j: int|
        0 <= i < after.pending.len() && 0 <= j < after.pending.len() && (
        #[trigger] after.pending[i]).kind is Restore && (#[trigger] after.pending[j]).kind
            == after.pending[i].kind implies after.pending[i].token == after.pending[j].token by {
        assert(before.pending[i] == after.pending[i] && before.pending[j] == after.pending[j]);
    }
    assert forall|i: int|
        0 <= i < after.pending.len() && (
        #[trigger] after.pending[i]).kind is Restore implies after.reserved_leases.contains_key(
        after.pending[i].kind->lease,
    ) by {
        assert(before.pending[i] == after.pending[i]);
    }
}

/// Transitions under other tokens stay when one token's are dropped.
pub(crate) proof fn lemma_pending_others(pending: Seq<PendingTransition>, token: u64, at: int)
    requires
        0 <= at < pending.len(),
        pending[at].token != token,
    ensures
        pending_without(pending, token).contains(pending[at]),
    decreases pending.len(),
{
    let rest = pending.drop_last();
    let head = pending_without(rest, token);
    let all = pending_without(pending, token);
    if at < rest.len() {
        lemma_pending_others(rest, token, at);
        let i = choose|i: int| 0 <= i < head.len() && head[i] == rest[at];
        assert(all[i] == pending[at]);
    } else {
        assert(all[head.len() as int] == pending[at]);
    }
}

/// Transitions of one token are found among that token's.
proof fn lemma_pending_own(pending: Seq<PendingTransition>, token: u64, at: int)
    requires
        0 <= at < pending.len(),
        pending[at].token == token,
    ensures
        pending_of(pending, token).contains(pending[at]),
    decreases pending.len(),
{
    let rest = pending.drop_last();
    let head = pending_of(rest, token);
    let all = pending_of(pending, token);
    if at < rest.len() {
        lemma_pending_own(rest, token, at);
        let i = choose|i: int| 0 <= i < head.len() && head[i] == rest[at];
        assert(all[i] == pending[at]);
    } else {
        assert(all[head.len() as int] == pending[at]);
    }
}

/// Reservations are kept where a token's transitions are dropped together with the lease that
/// they are for, if they are for one, and where nothing that a reserved lease needs is released
/// besides.
proof fn lemma_reservations_shrink(
    before: LedgerState,
    after: LedgerState,
    token: u64,
    dropped: Option<u64>,
)
    requires
        before.reservations_kept(),
        after.pending == pending_without(before.pending, token),
        match dropped {
            Some(lease) => after.reserved_leases == before.reserved_leases.remove(lease),
            None => after.reserved_leases == before.reserved_leases,
        },
        forall|i: int|
            0 <= i < before.pending.len() ==> ((#[trigger] before.pending[i]).token == token
                && before.pending[i].kind is Restore <==> before.pending[i].kind is Restore
                && dropped == Some(before.pending[i].kind->lease)),
        forall|k: u64, e: u64| #[trigger]
            after.reserved_leases.contains_key(k) && #[trigger] after.released.contains_key(e)
                && after.released[e].range.guest.meets(after.reserved_leases[k])
                ==> before.released.contains_key(e) && before.released[e] == after.released[e],
    ensures
        after.reservations_kept(),
{
    lemma_pending_parts(before.pending, token);
    assert forall|k: u64, e: u64| #[trigger]
        after.reserved_leases.contains_key(k) && #[trigger] after.released.contains_key(e)
            && after.released[e].range.guest.meets(after.reserved_leases[k]) implies after.restoring(
        after.released[e].range.guest,
        k,
    ) by {
        assert(before.reserved_leases.contains_key(k));
        assert(before.released.contains_key(e));
        assert(before.restoring(before.released[e].range.guest, k));
        let i = choose|i: int|
            0 <= i < before.pending.len() && (#[trigger] before.pending[i]).kind == (
            PendingKind::Restore { lease: k }) && before.pending[i].range
                == before.released[e].range.guest;
        assert(before.pending[i].token != token);
        lemma_pending_others(before.pending, token, i);
        let j = choose|j: int|
            0 <= j < after.pending.len() && after.pending[j] == before.pending[i];
        assert(after.pending[j].kind == (PendingKind::Restore { lease: k }));
    }
    assert forall|i: int, j: int|
        0 <= i < after.pending.len() && 0 <= j < after.pending.len() && (
        #[trigger] after.pending[i]).kind is Restore && (#[trigger] after.pending[j]).kind
            == after.pending[i].kind implies after.pending[i].token == after.pending[j].token by {
        let m = choose|m: int|
            0 <= m < before.pending.len() && before.pending[m] == after.pending[i];
        let n = choose|n: int|
            0 <= n < before.pending.len() && before.pending[n] == after.pending[j];
        assert(before.pending[m].token == before.pending[n].token);
    }
    assert forall|i: int|
        0 <= i < after.pending.len() && (
        #[trigger] after.pending[i]).kind is Restore implies after.reserved_leases.contains_key(
        after.pending[i].kind->lease,
    ) by {
        let m = choose|m: int|
            0 <= m < before.pending.len() && before.pending[m] == after.pending[i];
        assert(before.pending[m].token != token);
        assert(before.reserved_leases.contains_key(before.pending[m].kind->lease));
    }
}

/// A token under which a release is awaited is of no restore.
proof fn lemma_release_token(state: LedgerState, plan: ReleasePlan)
    requires
        state.awaits_release(plan),
    ensures
        forall|i: int|
            0 <= i < state.pending.len() && (#[trigger] state.pending[i]).token == plan.token
                ==> state.pending[i] == (PendingTransition {
                token: plan.token,
                range: plan.range.guest,
                kind: PendingKind::Release,
            }),
{
    assert forall|i: int|
        0 <= i < state.pending.len() && (#[trigger] state.pending[i]).token
            == plan.token implies state.pending[i] == (PendingTransition {
        token: plan.token,
        range: plan.range.guest,
        kind: PendingKind::Release,
    }) by {
        lemma_pending_own(state.pending, plan.token, i);
        let of = pending_of(state.pending, plan.token);
        let k = choose|k: int| 0 <= k < of.len() && of[k] == state.pending[i];
        assert(k == 0);
    }
}

/// The token under which a restore is awaited is of the transitions for its lease and of no
/// other.
pub(crate) proof fn lemma_restore_token(state: LedgerState, plan: RestorePlan)
    requires
        state.awaits_restore(plan),
        state.reservations_kept(),
    ensures
        forall|i: int|
            0 <= i < state.pending.len() ==> ((#[trigger] state.pending[i]).token == plan.token
                <==> state.pending[i].kind == (PendingKind::Restore { lease: plan.lease.0 })),
        forall|i: int|
            0 <= i < state.pending.len() && (#[trigger] state.pending[i]).token == plan.token
                ==> exists|j: int|
                0 <= j < plan.ranges@.len() && (#[trigger] plan.ranges@[j]).guest
                    == state.pending[i].range,
{
    let of = pending_of(state.pending, plan.token);
    let expected = restore_transitions(plan.token, plan.lease.0, plan.ranges@);
    lemma_pending_parts(state.pending, plan.token);
    assert(of[0] == expected[0]);
    let first = choose|first: int| 0 <= first < state.pending.len() && state.pending[first] == of[0];
    assert forall|i: int|
        0 <= i < state.pending.len() && (#[trigger] state.pending[i]).token == plan.token implies {
        &&& state.pending[i].kind == (PendingKind::Restore { lease: plan.lease.0 })
        &&& exists|j: int|
            0 <= j < plan.ranges@.len() && (#[trigger] plan.ranges@[j]).guest
                == state.pending[i].range
    } by {
        lemma_pending_own(state.pending, plan.token, i);
        let k = choose|k: int| 0 <= k < of.len() && of[k] == state.pending[i];
        assert(of[k] == expected[k]);
        assert(plan.ranges@[k].guest == state.pending[i].range);
    }
    assert forall|i: int|
        0 <= i < state.pending.len() && (#[trigger] state.pending[i]).kind == (
        PendingKind::Restore { lease: plan.lease.0 }) implies state.pending[i].token
        == plan.token by {
        assert(state.pending[first].kind == state.pending[i].kind);
        assert(state.pending[first].token == state.pending[i].token);
    }
}

/// Giving up a planned release keeps reservations.
pub proof fn law_aborted_release_keeps_reservations(state: LedgerState, plan: ReleasePlan)
    requires
        state.reservations_kept(),
        state.awaits_release(plan),
    ensures
        state.without_pending(plan.token).reservations_kept(),
{
    lemma_release_token(state, plan);
    lemma_reservations_shrink(state, state.without_pending(plan.token), plan.token, None);
}

/// Giving up a planned restore keeps the other reservations.
pub proof fn law_aborted_restore_keeps_reservations(state: LedgerState, plan: RestorePlan)
    requires
        state.reservations_kept(),
        state.awaits_restore(plan),
    ensures
        (LedgerState {
            reserved_leases: state.reserved_leases.remove(plan.lease.0),
            ..state.without_pending(plan.token)
        }).reservations_kept(),
{
    lemma_restore_token(state, plan);
    let next = LedgerState {
        reserved_leases: state.reserved_leases.remove(plan.lease.0),
        ..state.without_pending(plan.token)
    };
    lemma_reservations_shrink(state, next, plan.token, Some(plan.lease.0));
}

/// Giving up a planned release or restore takes nothing away from a lease.
pub proof fn law_aborted_plan_spares_leases(state: LedgerState, token: u64, reserved: u64)
    requires
        state.wf(),
        state.leases_kept(),
    ensures
        state.without_pending(token).leases_kept(),
        (LedgerState {
            reserved_leases: state.reserved_leases.remove(reserved),
            ..state.without_pending(token)
        }).leases_kept(),
{
    let dropped = state.without_pending(token);
    lemma_pending_parts(state.pending, token);
    lemma_kept_with_less(state, dropped);
    let freed = LedgerState { reserved_leases: state.reserved_leases.remove(reserved), ..dropped };
    lemma_kept_with_less(state, freed);
}

/// Committing a release takes nothing away from a lease, whatever comes of it.
pub proof fn law_committed_release_spares_leases(state: LedgerState, plan: ReleasePlan)
    requires
        state.wf(),
        state.leases_kept(),
    ensures
        state.commit_release_outcome(plan).1.leases_kept(),
        state.reservations_kept() ==> state.commit_release_outcome(plan).1.reservations_kept(),
{
    let next = state.commit_release_outcome(plan).1;
    lemma_pending_parts(state.pending, plan.token);
    if state.awaits_release(plan) {
        let dropped = state.without_pending(plan.token);
        law_aborted_plan_spares_leases(state, plan.token, 0);
        let awaited = PendingTransition {
            token: plan.token,
            range: plan.range.guest,
            kind: PendingKind::Release,
        };
        let of = crate::ledger::pending_of(state.pending, plan.token);
        assert(of[0] == awaited);
        let at = choose|at: int| 0 <= at < state.pending.len() && state.pending[at] == of[0];
        assert(state.pending[at].kind == PendingKind::Release);
        assert forall|k: u64| #[trigger] next.leases.contains_key(k) implies {
            &&& next.in_ram(next.leases[k])
            &&& !next.meets_released(next.leases[k])
            &&& !next.releasing(next.leases[k])
        } by {
            let lease = state.leases[k];
            assert(state.leases.contains_key(k));
            assert(dropped.leases.contains_key(k));
            lemma_same_ram(state, next, lease);
            assert(!plan.range.guest.meets(lease));
            if next.meets_released(lease) {
                let m = choose|m: u64| #[trigger]
                    next.released.contains_key(m) && next.released[m].range.guest.meets(lease);
                assert(state.released.contains_key(m));
            }
            if next.releasing(lease) {
                let i = choose|i: int|
                    0 <= i < next.pending.len() && (#[trigger] next.pending[i]).kind
                        == PendingKind::Release && next.pending[i].range.meets(lease);
                assert(dropped.pending[i].kind == PendingKind::Release);
            }
        }
        assert forall|k: u64| #[trigger] next.reserved_leases.contains_key(k) implies {
            &&& next.in_ram(next.reserved_leases[k])
            &&& !next.releasing(next.reserved_leases[k])
            &&& !plan.range.guest.meets(next.reserved_leases[k])
        } by {
            assert(state.reserved_leases.contains_key(k));
            lemma_same_ram(state, next, next.reserved_leases[k]);
            assert(dropped.reserved_leases.contains_key(k));
            if next.releasing(next.reserved_leases[k]) {
                let i = choose|i: int|
                    0 <= i < next.pending.len() && (#[trigger] next.pending[i]).kind
                        == PendingKind::Release && next.pending[i].range.meets(
                        next.reserved_leases[k],
                    );
                assert(dropped.pending[i].kind == PendingKind::Release);
            }
        }
        if state.reservations_kept() {
            lemma_release_token(state, plan);
            lemma_reservations_shrink(state, next, plan.token, None);
        }
    }
}

/// Planning a restore takes nothing away from a lease.
pub proof fn law_planned_restore_spares_leases(
    state: LedgerState,
    range: GuestRange,
    extents: Seq<HostRange>,
)
    requires
        state.wf(),
        state.leases_kept(),
        state.in_ram(range),
        !state.meets_pending(range),
        overlapping_extents(state.released, range, extents),
    ensures
        state.restore_reserved(range, extents).leases_kept(),
        state.reservations_kept() ==> state.restore_reserved(range, extents).reservations_kept(),
{
    let next = state.restore_reserved(range, extents);
    let others = LedgerState { reserved_leases: state.reserved_leases, ..next };
    assert forall|i: int|
        0 <= i < others.pending.len() && (#[trigger] others.pending[i]).kind
            == PendingKind::Release implies state.pending.contains(others.pending[i]) by {
        assert(i < state.pending.len());
        assert(state.pending[i] == others.pending[i]);
    }
    lemma_kept_with_less(state, others);
    assert forall|k: u64| #[trigger] next.leases.contains_key(k) implies {
        &&& next.in_ram(next.leases[k])
        &&& !next.meets_released(next.leases[k])
        &&& !next.releasing(next.leases[k])
    } by {
        assert(others.leases.contains_key(k));
        lemma_same_ram(others, next, next.leases[k]);
        lemma_less_is_taken(others, next, next.leases[k]);
    }
    assert(!state.releasing(range)) by {
        if state.releasing(range) {
            let i = choose|i: int|
                0 <= i < state.pending.len() && (#[trigger] state.pending[i]).kind
                    == PendingKind::Release && state.pending[i].range.meets(range);
            assert(state.pending[i].range.meets(range));
        }
    }
    assert forall|k: u64| #[trigger] next.reserved_leases.contains_key(k) implies {
        &&& next.in_ram(next.reserved_leases[k])
        &&& !next.releasing(next.reserved_leases[k])
    } by {
        if next.reserved_leases[k] != range {
            assert(state.reserved_leases.contains_key(k));
        }
        lemma_same_ram(state, next, next.reserved_leases[k]);
        lemma_less_is_taken(state, next, next.reserved_leases[k]);
    }
    if state.reservations_kept() {
        let n = state.pending.len();
        let added = restore_transitions(state.next_token, state.next_lease, extents);
        assert forall|k: u64, e: u64| #[trigger]
            next.reserved_leases.contains_key(k) && #[trigger] next.released.contains_key(e)
                && next.released[e].range.guest.meets(next.reserved_leases[k]) implies next.restoring(
            next.released[e].range.guest,
            k,
        ) by {
            if k == state.next_lease {
                assert(extents.contains(state.released[e].range));
                let i = choose|i: int|
                    0 <= i < extents.len() && extents[i] == state.released[e].range;
                assert(next.pending[n + i] == added[i]);
            } else {
                assert(state.reserved_leases.contains_key(k));
                assert(state.restoring(state.released[e].range.guest, k));
                let i = choose|i: int|
                    0 <= i < state.pending.len() && (#[trigger] state.pending[i]).kind == (
                    PendingKind::Restore { lease: k }) && state.pending[i].range
                        == state.released[e].range.guest;
                assert(next.pending[i] == state.pending[i]);
            }
        }
        assert forall|i: int|
            0 <= i < next.pending.len() && (
            #[trigger] next.pending[i]).kind is Restore implies next.reserved_leases.contains_key(
            next.pending[i].kind->lease,
        ) && (i < n ==> next.pending[i].kind->lease < state.next_lease) && (i >= n
            ==> next.pending[i].kind->lease == state.next_lease && next.pending[i].token
            == state.next_token) by {
            if i < n {
                assert(next.pending[i] == state.pending[i]);
                assert(state.reserved_leases.contains_key(state.pending[i].kind->lease));
            } else {
                assert(next.pending[i] == added[i - n]);
            }
        }
        assert forall|i: int, j: int|
            0 <= i < next.pending.len() && 0 <= j < next.pending.len() && (
            #[trigger] next.pending[i]).kind is Restore && (#[trigger] next.pending[j]).kind
                == next.pending[i].kind implies next.pending[i].token == next.pending[j].token by {
            if i < n && j < n {
                assert(next.pending[i] == state.pending[i] && next.pending[j] == state.pending[j]);
            }
        }
    }
}

/// A restore takes nothing away from a lease, however far it has come.
pub proof fn law_partial_restore_spares_leases(state: LedgerState, plan: RestorePlan, n: int)
    requires
        state.wf(),
        state.leases_kept(),
        state.awaits_restore(plan),
        0 <= n <= plan.ranges@.len(),
    ensures
        state.without_pending(plan.token).restored(
            plan.ranges@,
            plan.generation,
            n,
        ).leases_kept(),
{
    law_restore_maps_with_the_plan_generation(state, plan, n);
    lemma_pending_parts(state.pending, plan.token);
    lemma_kept_with_less(
        state,
        state.without_pending(plan.token).restored(plan.ranges@, plan.generation, n),
    );
}

/// A committed restore takes nothing away from a lease, and the lease that it activates holds
/// memory that nothing takes away.
pub proof fn law_committed_restore_keeps_leases(state: LedgerState, plan: RestorePlan)
    requires
        state.wf(),
        state.leases_kept(),
        state.reservations_kept(),
        state.awaits_restore(plan),
    ensures
        ({
            let next = LedgerState {
                reserved_leases: state.reserved_leases.remove(plan.lease.0),
                leases: state.leases.insert(plan.lease.0, plan.access),
                ..state.without_pending(plan.token).restored(
                    plan.ranges@,
                    plan.generation,
                    plan.ranges@.len() as int,
                )
            };
            next.leases_kept() && next.reservations_kept()
        }),
{
    let n = plan.ranges@.len() as int;
    let dropped = state.without_pending(plan.token);
    let restored = dropped.restored(plan.ranges@, plan.generation, n);
    let next = LedgerState {
        reserved_leases: state.reserved_leases.remove(plan.lease.0),
        leases: state.leases.insert(plan.lease.0, plan.access),
        ..restored
    };
    law_restore_maps_with_the_plan_generation(state, plan, n);
    lemma_pending_parts(state.pending, plan.token);
    lemma_restore_token(state, plan);
    assert(state.reserved_leases.contains_key(plan.lease.0));
    assert forall|k: u64| #[trigger] next.leases.contains_key(k) implies {
        &&& next.in_ram(next.leases[k])
        &&& !next.meets_released(next.leases[k])
        &&& !next.releasing(next.leases[k])
    } by {
        let lease = next.leases[k];
        lemma_same_ram(state, next, lease);
        lemma_less_is_taken(state, next, lease);
        if k == plan.lease.0 {
            if next.meets_released(lease) {
                let m = choose|m: u64| #[trigger]
                    next.released.contains_key(m) && next.released[m].range.guest.meets(lease);
                assert(restored.released.contains_key(m));
                assert(state.released.contains_key(m));
                assert(state.restoring(state.released[m].range.guest, plan.lease.0));
                let p = choose|p: int|
                    0 <= p < state.pending.len() && (#[trigger] state.pending[p]).kind == (
                    PendingKind::Restore { lease: plan.lease.0 }) && state.pending[p].range
                        == state.released[m].range.guest;
                let i = choose|i: int|
                    0 <= i < plan.ranges@.len() && (#[trigger] plan.ranges@[i]).guest
                        == state.pending[p].range;
                assert(plan.ranges@[i].guest.start == m);
            }
        } else {
            assert(state.leases.contains_key(k));
        }
    }
    assert forall|k: u64| #[trigger] next.reserved_leases.contains_key(k) implies {
        &&& next.in_ram(next.reserved_leases[k])
        &&& !next.releasing(next.reserved_leases[k])
    } by {
        assert(state.reserved_leases.contains_key(k));
        lemma_same_ram(state, next, next.reserved_leases[k]);
        lemma_less_is_taken(state, next, next.reserved_leases[k]);
    }
    lemma_reservations_shrink(state, next, plan.token, Some(plan.lease.0));
}

/// Ending a lease takes nothing away from the others.
pub proof fn law_ended_lease_spares_the_others(state: LedgerState, lease: u64)
    requires
        state.wf(),
        state.leases_kept(),
    ensures
        (LedgerState { leases: state.leases.remove(lease), ..state }).leases_kept(),
{
    let next = LedgerState { leases: state.leases.remove(lease), ..state };
    assert forall|i: int|
        0 <= i < next.pending.len() && (#[trigger] next.pending[i]).kind
            == PendingKind::Release implies state.pending.contains(next.pending[i]) by {
        assert(state.pending[i] == next.pending[i]);
    }
    lemma_kept_with_less(state, next);
}

/// Registering a region takes nothing away from a lease.
pub proof fn law_registered_region_spares_leases(state: LedgerState, region: RamRegion)
    requires
        state.wf(),
        state.leases_kept(),
        region.valid(),
        state.region_aligned(region),
        !state.region_overlaps(region),
    ensures
        state.with_region(region).leases_kept(),
{
    let next = state.with_region(region);
    let place = lemma_region_inserted(state.granule, state.regions, region);
    assert forall|range: GuestRange| #[trigger] state.in_ram(range) implies next.in_ram(range) by {
        let r = choose|r: int|
            0 <= r < state.regions.len() && (#[trigger] state.regions[r]).range.guest.covers(range);
        let q = if r < place {
            r
        } else {
            r + 1
        };
        assert(next.regions[q] == state.regions[r]);
    }
    assert forall|k: u64| #[trigger] next.leases.contains_key(k) implies {
        &&& next.in_ram(next.leases[k])
        &&& !next.meets_released(next.leases[k])
        &&& !next.releasing(next.leases[k])
    } by {
        assert(state.leases.contains_key(k));
        assert(state.in_ram(state.leases[k]));
        assert forall|i: int|
            0 <= i < next.pending.len() && (#[trigger] next.pending[i]).kind
                == PendingKind::Release implies state.pending.contains(next.pending[i]) by {
            assert(state.pending[i] == next.pending[i]);
        }
        lemma_less_is_taken(state, next, next.leases[k]);
    }
    assert forall|i: int|
        0 <= i < next.pending.len() && (#[trigger] next.pending[i]).kind
            == PendingKind::Release implies state.pending.contains(next.pending[i]) by {
        assert(state.pending[i] == next.pending[i]);
    }
    assert forall|k: u64| #[trigger] next.reserved_leases.contains_key(k) implies {
        &&& next.in_ram(next.reserved_leases[k])
        &&& !next.releasing(next.reserved_leases[k])
    } by {
        assert(state.reserved_leases.contains_key(k));
        assert(state.in_ram(state.reserved_leases[k]));
        lemma_less_is_taken(state, next, next.reserved_leases[k]);
    }
}

} // verus!
