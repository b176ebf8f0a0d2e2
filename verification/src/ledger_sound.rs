//! What holds of every reclaim ledger that was made empty and then used as it is meant to be.
use crate::guest_memory::{
    align_down_spec, is_power_of_two_spec, lemma_power_of_two_positive, GuestRange, HostRange,
    RamRegion,
};
use crate::ledger::{
    lemma_awaited_release, lemma_pending_parts, lemma_restore_unreserved,
    overlapping_extents, pending_of, pending_without, restore_transitions, LedgerState,
    PendingKind, PendingTransition, ReleasePlan, RestorePlan,
};
use crate::ledger_bounds::{
    granules_in, law_planned_release_can_be_committed, law_planned_restore_can_be_committed,
    law_registering_loses_no_ram, law_restoring_loses_no_ram, law_whole_granules_keep_the_bound,
    lemma_coalesce_whole, lemma_insert_whole, whole,
};
use crate::ledger_laws::{
    law_committed_release_unmaps_exactly, law_released_is_not_mapped,
    law_restore_maps_with_the_plan_generation,
};
use crate::ledger_leases::{
    law_aborted_plan_spares_leases, law_aborted_release_keeps_reservations,
    law_aborted_restore_keeps_reservations, law_committed_release_spares_leases,
    law_committed_restore_keeps_leases, law_ended_lease_spares_the_others,
    law_granting_keeps_leases, law_planned_release_spares_leases,
    law_planned_restore_spares_leases, law_registered_region_spares_leases, lemma_kept_with_less,
    lemma_reservations_grow, lemma_restore_token,
};
use crate::mapping_runs::{
    insert_spec, law_carve_keeps_merged, law_coalesce_merges, law_insert_adds_exactly_the_run,
    law_runs_are_the_maximal_stretches, mapped, mapped_with, maximal, merged, MappingGeneration,
    MappingRun,
};
use crate::ram_layout::{insert_region_spec, regions_wf};
use vstd::prelude::*;

verus! {

impl LedgerState {
    /// What holds of every ledger whose releases were planned by whole granules and whose plans
    /// were redeemed as they were made.
    pub open spec fn sound(self) -> bool {
        &&& self.wf()
        &&& self.accounted()
        &&& self.in_whole_granules()
        &&& self.generations_issued()
        &&& self.leases_kept()
        &&& self.reservations_kept()
        &&& merged(self.runs)
    }

    /// The release was planned, and was neither committed nor given up.
    pub open spec fn open_release(self, plan: ReleasePlan) -> bool {
        self.awaits_release(plan) && plan.generation.0 < self.next_generation
    }

    /// The restore was planned, and was neither committed nor given up.
    pub open spec fn open_restore(self, plan: RestorePlan) -> bool {
        self.awaits_restore(plan) && plan.generation.0 < self.next_generation
    }

    /// Every plan that was open is still open, but for what was redeemed under that token, and
    /// no generation is handed out again.
    pub open spec fn keeps_plans(self, before: LedgerState, redeemed: Option<u64>) -> bool {
        &&& before.next_generation <= self.next_generation
        &&& forall|plan: ReleasePlan| #[trigger]
            before.open_release(plan) && redeemed != Some(plan.token) ==> self.open_release(plan)
        &&& forall|plan: RestorePlan| #[trigger]
            before.open_restore(plan) && redeemed != Some(plan.token) ==> self.open_restore(plan)
    }

    /// A sound ledger stays sound, and its plans stay open but for what was redeemed.
    pub open spec fn follows(self, before: LedgerState, redeemed: Option<u64>) -> bool {
        before.sound() ==> self.sound() && self.keeps_plans(before, redeemed)
    }
}

proof fn lemma_accounted_same(before: LedgerState, after: LedgerState)
    requires
        before.accounted(),
        after.regions == before.regions,
        after.runs == before.runs,
        after.released == before.released,
    ensures
        after.accounted(),
{
    assert forall|a: int| #[trigger] after.ram(a) implies mapped(after.runs, a)
        || after.released_at(a) by {
        let r = choose|r: int|
            0 <= r < after.regions.len() && (#[trigger] after.regions[r]).range.guest.has(a);
        assert(before.regions[r].range.guest.has(a));
        assert(before.ram(a));
        if !mapped(before.runs, a) {
            let k = choose|k: u64| #[trigger]
                before.released.contains_key(k) && before.released[k].range.guest.has(a);
            assert(after.released.contains_key(k));
        }
    }
}

/// The transitions under one token are no others when another token's are dropped.
proof fn lemma_pending_of_without(pending: Seq<PendingTransition>, dropped: u64, token: u64)
    requires
        dropped != token,
    ensures
        pending_of(pending_without(pending, dropped), token) == pending_of(pending, token),
    decreases pending.len(),
{
    if pending.len() > 0 {
        let rest = pending.drop_last();
        let last = pending.last();
        lemma_pending_of_without(rest, dropped, token);
        if last.token != dropped {
            let kept = pending_without(rest, dropped);
            assert(pending_without(pending, dropped) == kept.push(last));
            assert(kept.push(last).drop_last() =~= kept);
            assert(kept.push(last).last() == last);
        }
    }
}

/// The transitions under one token are no others when another token's are added.
proof fn lemma_pending_of_added(
    pending: Seq<PendingTransition>,
    added: Seq<PendingTransition>,
    token: u64,
)
    requires
        forall|i: int| 0 <= i < added.len() ==> (#[trigger] added[i]).token != token,
    ensures
        pending_of(pending + added, token) == pending_of(pending, token),
    decreases added.len(),
{
    let all = pending + added;
    if added.len() == 0 {
        assert(all =~= pending);
    } else {
        let less = added.drop_last();
        assert forall|i: int| 0 <= i < less.len() implies (#[trigger] less[i]).token != token by {
            assert(less[i] == added[i]);
        }
        lemma_pending_of_added(pending, less, token);
        assert(all.drop_last() =~= pending + less);
        assert(all.last() == added[added.len() - 1]);
    }
}

/// Plans stay open where the transitions under their tokens stay, and with them what is
/// released and reserved for them.
proof fn lemma_plans_kept(before: LedgerState, after: LedgerState, redeemed: Option<u64>)
    requires
        before.wf(),
        before.next_generation <= after.next_generation,
        forall|token: u64|
            redeemed != Some(token) && token < before.next_token ==> pending_of(
                after.pending,
                token,
            ) == #[trigger] pending_of(before.pending, token),
        forall|i: int|
            0 <= i < before.pending.len() && redeemed != Some(
                (#[trigger] before.pending[i]).token,
            ) && before.pending[i].kind is Restore ==> {
                let transition = before.pending[i];
                let lease = transition.kind->lease;
                &&& before.released.contains_key(transition.range.start)
                    ==> after.released.contains_key(transition.range.start)
                    && after.released[transition.range.start]
                    == before.released[transition.range.start]
                &&& before.reserved_leases.contains_key(lease)
                    ==> after.reserved_leases.contains_key(lease) && after.reserved_leases[lease]
                    == before.reserved_leases[lease]
            },
    ensures
        after.keeps_plans(before, redeemed),
{
    assert forall|plan: ReleasePlan| #[trigger]
        before.open_release(plan) && redeemed != Some(plan.token) implies after.open_release(
        plan,
    ) by {
        let of = pending_of(before.pending, plan.token);
        lemma_pending_parts(before.pending, plan.token);
        assert(of.len() == 1);
        let at = choose|at: int| 0 <= at < before.pending.len() && before.pending[at] == of[0];
        assert(before.pending[at].token < before.next_token);
    }
    assert forall|plan: RestorePlan| #[trigger]
        before.open_restore(plan) && redeemed != Some(plan.token) implies after.open_restore(
        plan,
    ) by {
        let of = pending_of(before.pending, plan.token);
        let expected = restore_transitions(plan.token, plan.lease.0, plan.ranges@);
        lemma_pending_parts(before.pending, plan.token);
        assert forall|i: int| 0 <= i < plan.ranges@.len() implies {
            &&& after.released.contains_key((#[trigger] plan.ranges@[i]).guest.start)
            &&& after.released[plan.ranges@[i].guest.start].range == plan.ranges@[i]
            &&& after.reserved_leases.contains_key(plan.lease.0)
            &&& after.reserved_leases[plan.lease.0] == plan.access
            &&& plan.token < before.next_token
        } by {
            assert(of[i] == expected[i]);
            let at = choose|at: int| 0 <= at < before.pending.len() && before.pending[at] == of[i];
            assert(before.pending[at].token == plan.token);
            assert(before.pending[at].kind == (PendingKind::Restore { lease: plan.lease.0 }));
            assert(before.released.contains_key(plan.ranges@[i].guest.start));
        }
        assert(after.released.contains_key(plan.ranges@[0].guest.start));
        assert(pending_of(after.pending, plan.token) == of);
    }
}

/// Counters may move on, and leases come and go, without a plan being touched.
proof fn lemma_plans_kept_same(before: LedgerState, after: LedgerState)
    requires
        before.wf(),
        before.next_generation <= after.next_generation,
        after.pending == before.pending,
        after.released == before.released,
        after.reserved_leases == before.reserved_leases,
    ensures
        after.keeps_plans(before, None),
{
    lemma_plans_kept(before, after, None);
}

/// Dropping what was reserved under one token keeps the other plans.
proof fn lemma_plans_kept_without(before: LedgerState, after: LedgerState, token: u64)
    requires
        before.wf(),
        before.next_generation <= after.next_generation,
        after.pending == pending_without(before.pending, token),
        forall|i: int|
            0 <= i < before.pending.len() && (#[trigger] before.pending[i]).token != token
                && before.pending[i].kind is Restore ==> {
                let transition = before.pending[i];
                let lease = transition.kind->lease;
                &&& before.released.contains_key(transition.range.start)
                    ==> after.released.contains_key(transition.range.start)
                    && after.released[transition.range.start]
                    == before.released[transition.range.start]
                &&& before.reserved_leases.contains_key(lease)
                    ==> after.reserved_leases.contains_key(lease) && after.reserved_leases[lease]
                    == before.reserved_leases[lease]
            },
    ensures
        after.keeps_plans(before, Some(token)),
{
    assert forall|other: u64|
        Some(token) != Some(other) && other < before.next_token implies pending_of(
        after.pending,
        other,
    ) == #[trigger] pending_of(before.pending, other) by {
        lemma_pending_of_without(before.pending, token, other);
    }
    lemma_plans_kept(before, after, Some(token));
}

/// A power of two is a multiple of every smaller one, and so are its multiples.
proof fn lemma_multiple_of_smaller_power(value: int, larger: u64, smaller: u64)
    requires
        is_power_of_two_spec(larger),
        is_power_of_two_spec(smaller),
        smaller <= larger,
        value % larger as int == 0,
    ensures
        value % smaller as int == 0,
{
    let a = choose|k: nat| k < 64 && larger == #[trigger] vstd::arithmetic::power2::pow2(k);
    let b = choose|k: nat| k < 64 && smaller == #[trigger] vstd::arithmetic::power2::pow2(k);
    if a < b {
        vstd::arithmetic::power2::lemma_pow2_strictly_increases(a, b);
    }
    let c = (a - b) as nat;
    vstd::arithmetic::power2::lemma_pow2_adds(b, c);
    let factor = vstd::arithmetic::power2::pow2(c) as int;
    let g = smaller as int;
    lemma_power_of_two_positive(larger);
    lemma_power_of_two_positive(smaller);
    vstd::arithmetic::div_mod::lemma_fundamental_div_mod(value, larger as int);
    let times = value / larger as int;
    assert(value == g * (factor * times)) by (nonlinear_arith)
        requires
            value == larger * times,
            larger == smaller * factor,
            g == smaller,
    ;
    vstd::arithmetic::div_mod::lemma_mod_multiples_basic(factor * times, g);
    vstd::arithmetic::mul::lemma_mul_is_commutative(g, factor * times);
}

/// Aligned down to a multiple of the granule, an address is a multiple of the granule.
proof fn lemma_aligned(value: int, alignment: u64, granule: u64)
    requires
        is_power_of_two_spec(alignment),
        is_power_of_two_spec(granule),
        granule <= alignment,
    ensures
        align_down_spec(value, alignment as int) % granule as int == 0,
{
    let a = alignment as int;
    lemma_power_of_two_positive(alignment);
    vstd::arithmetic::div_mod::lemma_fundamental_div_mod(value, a);
    vstd::arithmetic::div_mod::lemma_mod_multiples_basic(value / a, a);
    vstd::arithmetic::mul::lemma_mul_is_commutative(a, value / a);
    assert(align_down_spec(value, a) == (value / a) * a);
    lemma_multiple_of_smaller_power(align_down_spec(value, a), alignment, granule);
}

/// What is released at an alignment of at least a granule is made of whole granules.
pub proof fn law_aligned_ranges_are_whole_granules(
    granule: u64,
    region: RamRegion,
    requested: GuestRange,
    alignment: u64,
    range: HostRange,
)
    requires
        is_power_of_two_spec(granule),
        granule <= alignment,
        region.valid(),
        requested.valid(),
        region.aligned_subrange_spec(requested, alignment) == Ok::<_, crate::guest_memory::ReclaimError>(
            Some(range),
        ),
    ensures
        whole(granule, range.guest),
{
    lemma_power_of_two_positive(alignment);
    let a = alignment as int;
    lemma_aligned(requested.start + a - 1, alignment, granule);
    lemma_aligned(requested.end as int, alignment, granule);
    vstd::arithmetic::div_mod::lemma_mod_bound(requested.start + a - 1, a);
    vstd::arithmetic::div_mod::lemma_mod_bound(requested.end as int, a);
}

/// Inserting a region adds its granules.
proof fn lemma_granules_inserted(granule: u64, regions: Seq<RamRegion>, region: RamRegion)
    ensures
        granules_in(granule, insert_region_spec(regions, region)) == granules_in(granule, regions)
            + region.range.guest.size() / (granule as int),
    decreases regions.len(),
{
    let all = insert_region_spec(regions, region);
    if regions.len() == 0 {
        assert(all.drop_last() =~= regions);
        assert(all.last() == region);
    } else if regions.last().range.guest.start <= region.range.guest.start {
        assert(all.drop_last() =~= regions);
        assert(all.last() == region);
    } else {
        let rest = regions.drop_last();
        lemma_granules_inserted(granule, rest, region);
        assert(all.drop_last() =~= insert_region_spec(rest, region));
        assert(all.last() == regions.last());
    }
}

/// Registering a region keeps a ledger sound.
pub(crate) proof fn lemma_registered_follows(state: LedgerState, region: RamRegion)
    requires
        state.wf(),
        region.valid(),
        state.region_aligned(region),
        !state.region_overlaps(region),
        state.granule_limit + region.range.guest.size() / (state.granule as int) <= usize::MAX,
    ensures
        state.with_region(region).follows(state, None),
{
    if state.sound() {
        let next = state.with_region(region);
        let guest = region.range.guest;
        let run = MappingRun { range: guest, generation: MappingGeneration(0) };
        crate::ledger::lemma_region_added_wf(state, region);
        law_registering_loses_no_ram(state, region);
        law_registered_region_spares_leases(state, region);
        lemma_reservations_grow(state, next);
        law_insert_adds_exactly_the_run(state.runs, run);
        law_coalesce_merges(insert_spec(state.runs, run));
        lemma_power_of_two_positive(state.granule);
        let g = state.granule as int;
        vstd::arithmetic::div_mod::lemma_div_pos_is_pos(guest.size(), g);
        lemma_granules_inserted(state.granule, state.regions, region);
        vstd::arithmetic::div_mod::lemma_add_mod_noop(guest.start as int, guest.size(), g);
        assert(guest.end == guest.start + guest.size());
        assert(0int % g == 0) by {
            vstd::arithmetic::div_mod::lemma_small_mod(0, g as nat);
        }
        assert(whole(state.granule, guest));
        lemma_insert_whole(state.granule, state.runs, run);
        lemma_coalesce_whole(state.granule, insert_spec(state.runs, run));
        assert forall|k: u64| #[trigger] next.released.contains_key(k) implies whole(
            next.granule,
            next.released[k].range.guest,
        ) by {
            assert(state.released.contains_key(k));
        }
        assert(next.in_whole_granules());
        lemma_plans_kept_same(state, next);
    }
}

/// Moving the counters on keeps a ledger sound.
pub(crate) proof fn lemma_counted_follows(state: LedgerState, next: LedgerState)
    requires
        state.wf(),
        next.wf(),
        state.generations_issued() ==> next.generations_issued(),
        next == (LedgerState {
            next_token: next.next_token,
            next_generation: next.next_generation,
            next_lease: next.next_lease,
            ..state
        }),
        state.next_generation <= next.next_generation,
    ensures
        next.follows(state, None),
{
    if state.sound() {
        lemma_accounted_same(state, next);
        lemma_reservations_grow(state, next);
        assert forall|i: int|
            0 <= i < next.pending.len() && (#[trigger] next.pending[i]).kind
                == PendingKind::Release implies state.pending.contains(next.pending[i]) by {
            assert(state.pending[i] == next.pending[i]);
        }
        lemma_kept_with_less(state, next);
        lemma_whole_same(state, next);
        lemma_plans_kept_same(state, next);
    }
}

/// Whether all is made of whole granules depends on no counter and on no lease, and on no
/// transition that is dropped.
proof fn lemma_whole_same(before: LedgerState, after: LedgerState)
    requires
        before.in_whole_granules(),
        after.granule == before.granule,
        after.regions == before.regions,
        after.granule_limit == before.granule_limit,
        after.runs == before.runs,
        after.released == before.released,
        forall|i: int|
            0 <= i < after.pending.len() ==> before.pending.contains(#[trigger] after.pending[i])
                || whole(after.granule, after.pending[i].range),
    ensures
        after.in_whole_granules(),
{
    assert forall|k: u64| #[trigger] after.released.contains_key(k) implies whole(
        after.granule,
        after.released[k].range.guest,
    ) by {
        assert(before.released.contains_key(k));
    }
    assert forall|i: int| 0 <= i < after.pending.len() implies whole(
        after.granule,
        (#[trigger] after.pending[i]).range,
    ) by {
        if before.pending.contains(after.pending[i]) {
            let k = choose|k: int|
                0 <= k < before.pending.len() && before.pending[k] == after.pending[i];
            assert(whole(before.granule, before.pending[k].range));
        }
    }
}

/// Planning a release of whole granules keeps a ledger sound, and the plan is open.
pub(crate) proof fn lemma_release_planned_follows(state: LedgerState, range: HostRange)
    requires
        state.wf(),
        state.release_outcome(range).1.wf(),
        state.generations_issued() ==> state.release_outcome(range).1.generations_issued(),
        whole(state.granule, range.guest),
    ensures
        state.release_outcome(range).1.follows(state, None),
{
    let (answer, next) = state.release_outcome(range);
    if state.sound() {
        if answer is Ok {
            let added = seq![
                PendingTransition {
                    token: state.next_token,
                    range: range.guest,
                    kind: PendingKind::Release,
                },
            ];
            assert(next.pending =~= state.pending + added);
            law_planned_release_spares_leases(state, range);
            lemma_accounted_same(state, next);
            assert forall|i: int| 0 <= i < next.pending.len() implies state.pending.contains(
                #[trigger] next.pending[i],
            ) || whole(next.granule, next.pending[i].range) by {
                if i < state.pending.len() {
                    assert(state.pending[i] == next.pending[i]);
                }
            }
            lemma_whole_same(state, next);
            assert forall|token: u64|
                token < state.next_token implies pending_of(
                next.pending,
                token,
            ) == #[trigger] pending_of(state.pending, token) by {
                lemma_pending_of_added(state.pending, added, token);
            }
            lemma_plans_kept(state, next, None);
        } else {
            lemma_counted_follows(state, next);
        }
    }
}

/// A planned release is open.
pub(crate) proof fn lemma_planned_release_is_open(state: LedgerState, range: HostRange)
    requires
        state.wf(),
        state.release_outcome(range).0 is Ok,
    ensures
        state.release_outcome(range).1.open_release(
            state.release_outcome(range).0->Ok_0->Some_0,
        ),
{
    crate::ledger_laws::law_aborted_release_changes_nothing(state, range);
}

/// Giving up a release keeps a ledger sound.
pub(crate) proof fn lemma_release_aborted_follows(state: LedgerState, plan: ReleasePlan)
    requires
        state.wf(),
        state.awaits_release(plan),
    ensures
        state.without_pending(plan.token).follows(state, Some(plan.token)),
{
    let next = state.without_pending(plan.token);
    if state.sound() {
        crate::ledger::lemma_without_pending_wf(state, plan.token);
        law_aborted_plan_spares_leases(state, plan.token, 0);
        law_aborted_release_keeps_reservations(state, plan);
        lemma_accounted_same(state, next);
        lemma_pending_parts(state.pending, plan.token);
        lemma_whole_same(state, next);
        lemma_plans_kept_without(state, next, plan.token);
    }
}

/// An open release can be committed, and the ledger stays sound.
pub(crate) proof fn lemma_release_committed_follows(state: LedgerState, plan: ReleasePlan)
    requires
        state.wf(),
        plan.generation.0 < state.next_generation,
        state.commit_release_outcome(plan).1.wf(),
        state.generations_issued() ==> state.commit_release_outcome(plan).1.generations_issued(),
    ensures
        state.commit_release_outcome(plan).1.follows(state, Some(plan.token)),
        state.sound() && state.open_release(plan) ==> state.commit_release_outcome(plan).0 is Ok,
{
    let next = state.commit_release_outcome(plan).1;
    if state.sound() {
        if state.awaits_release(plan) {
            law_planned_release_can_be_committed(state, plan);
            law_committed_release_spares_leases(state, plan);
            lemma_release_carves_merged(state, plan);
            lemma_awaited_release(state, plan);
            assert forall|i: int|
                0 <= i < state.pending.len() && (#[trigger] state.pending[i]).token != plan.token
                    && state.pending[i].kind is Restore implies {
                let transition = state.pending[i];
                let lease = transition.kind->lease;
                &&& state.released.contains_key(transition.range.start)
                    ==> next.released.contains_key(transition.range.start)
                    && next.released[transition.range.start]
                    == state.released[transition.range.start]
                &&& state.reserved_leases.contains_key(lease)
                    ==> next.reserved_leases.contains_key(lease) && next.reserved_leases[lease]
                    == state.reserved_leases[lease]
            } by {
                let start = state.pending[i].range.start;
                if state.released.contains_key(start) && start == plan.range.guest.start {
                    assert(state.released[start].range.guest.meets(plan.range.guest));
                    assert(state.meets_released(plan.range.guest));
                }
            }
            lemma_plans_kept_without(state, next, plan.token);
        } else {
            lemma_plans_kept_same(state, next);
        }
    }
}

proof fn lemma_release_carves_merged(state: LedgerState, plan: ReleasePlan)
    requires
        state.wf(),
        merged(state.runs),
        state.awaits_release(plan),
    ensures
        merged(crate::mapping_runs::carve_spec(state.runs, plan.range.guest)),
{
    lemma_awaited_release(state, plan);
    law_carve_keeps_merged(state.runs, plan.range.guest);
}

/// A lease that is granted at once keeps a ledger sound.
pub(crate) proof fn lemma_lease_granted_follows(state: LedgerState, range: GuestRange)
    requires
        state.wf(),
        state.in_ram(range),
        !state.meets_pending(range),
        !state.meets_released(range),
        state.lease_outcome(range).1.wf(),
        state.generations_issued() ==> state.lease_outcome(range).1.generations_issued(),
    ensures
        state.lease_outcome(range).1.follows(state, None),
{
    let next = state.lease_outcome(range).1;
    if state.sound() {
        law_granting_keeps_leases(state, range);
        lemma_reservations_grow(state, next);
        lemma_accounted_same(state, next);
        assert forall|i: int| 0 <= i < next.pending.len() implies state.pending.contains(
            #[trigger] next.pending[i],
        ) by {
            assert(state.pending[i] == next.pending[i]);
        }
        lemma_whole_same(state, next);
        lemma_plans_kept_same(state, next);
    }
}

/// Planning a restore keeps a ledger sound.
pub(crate) proof fn lemma_restore_planned_follows(
    state: LedgerState,
    range: GuestRange,
    extents: Seq<HostRange>,
)
    requires
        state.wf(),
        state.in_ram(range),
        !state.meets_pending(range),
        overlapping_extents(state.released, range, extents),
        state.next_generation < u64::MAX,
        state.restore_reserved(range, extents).wf(),
        state.generations_issued() ==> state.restore_reserved(range, extents).generations_issued(),
    ensures
        state.restore_reserved(range, extents).follows(state, None),
{
    let next = state.restore_reserved(range, extents);
    if state.sound() {
        let added = restore_transitions(state.next_token, state.next_lease, extents);
        law_planned_restore_spares_leases(state, range, extents);
        lemma_accounted_same(state, next);
        assert forall|i: int| 0 <= i < next.pending.len() implies state.pending.contains(
            #[trigger] next.pending[i],
        ) || whole(next.granule, next.pending[i].range) by {
            if i < state.pending.len() {
                assert(state.pending[i] == next.pending[i]);
            } else {
                let extent = extents[i - state.pending.len()];
                assert(next.pending[i] == added[i - state.pending.len()]);
                assert(state.released.contains_key(extent.guest.start));
            }
        }
        lemma_whole_same(state, next);
        assert forall|token: u64| token < state.next_token implies pending_of(
            next.pending,
            token,
        ) == #[trigger] pending_of(state.pending, token) by {
            lemma_pending_of_added(state.pending, added, token);
        }
        assert forall|i: int|
            0 <= i < state.pending.len() && (
            #[trigger] state.pending[i]).kind is Restore implies state.pending[i].kind->lease
            != state.next_lease by {
            assert(state.reserved_leases.contains_key(state.pending[i].kind->lease));
        }
        lemma_plans_kept(state, next, None);
    }
}

/// The state that a committed restore leaves.
pub open spec fn restore_committed(state: LedgerState, plan: RestorePlan) -> LedgerState {
    LedgerState {
        reserved_leases: state.reserved_leases.remove(plan.lease.0),
        leases: state.leases.insert(plan.lease.0, plan.access),
        ..state.without_pending(plan.token).restored(
            plan.ranges@,
            plan.generation,
            plan.ranges@.len() as int,
        )
    }
}

/// Restored runs are such that none are left to join.
proof fn lemma_restored_merged(state: LedgerState, plan: RestorePlan, n: int)
    requires
        state.wf(),
        merged(state.runs),
        state.awaits_restore(plan),
        0 <= n <= plan.ranges@.len(),
    ensures
        merged(
            state.without_pending(plan.token).restored(plan.ranges@, plan.generation, n).runs,
        ),
    decreases n,
{
    if n > 0 {
        let dropped = state.without_pending(plan.token);
        let before = dropped.restored(plan.ranges@, plan.generation, n - 1);
        let range = plan.ranges@[n - 1];
        let run = MappingRun { range: range.guest, generation: plan.generation };
        law_restore_maps_with_the_plan_generation(state, plan, n - 1);
        lemma_restore_unreserved(state, plan);
        assert(state.released.contains_key(range.guest.start));
        assert(before.released.contains_key(range.guest.start));
        crate::ledger::lemma_meets_pending_same(dropped, before, range.guest);
        crate::ledger::lemma_restore_step_wf(before, range, plan.generation);
        law_insert_adds_exactly_the_run(before.runs, run);
        law_coalesce_merges(insert_spec(before.runs, run));
    }
}

/// A committed restore keeps a ledger sound.
pub(crate) proof fn lemma_restore_committed_follows(state: LedgerState, plan: RestorePlan)
    requires
        state.wf(),
        state.open_restore(plan),
        restore_committed(state, plan).wf(),
        state.generations_issued() ==> restore_committed(state, plan).generations_issued(),
    ensures
        restore_committed(state, plan).follows(state, Some(plan.token)),
{
    let next = restore_committed(state, plan);
    if state.sound() {
        let n = plan.ranges@.len() as int;
        let dropped = state.without_pending(plan.token);
        let restored = dropped.restored(plan.ranges@, plan.generation, n);
        law_committed_restore_keeps_leases(state, plan);
        law_restoring_loses_no_ram(state, plan, n);
        law_planned_restore_can_be_committed(state, plan, n);
        lemma_restored_merged(state, plan, n);
        lemma_accounted_same(restored, next);
        assert forall|i: int| 0 <= i < next.pending.len() implies restored.pending.contains(
            #[trigger] next.pending[i],
        ) by {
            assert(restored.pending[i] == next.pending[i]);
        }
        lemma_whole_same(restored, next);
        law_restore_maps_with_the_plan_generation(state, plan, n);
        lemma_restore_token(state, plan);
        lemma_restore_unreserved(state, plan);
        assert forall|i: int|
            0 <= i < state.pending.len() && (#[trigger] state.pending[i]).token != plan.token
                && state.pending[i].kind is Restore implies {
            let transition = state.pending[i];
            let lease = transition.kind->lease;
            &&& state.released.contains_key(transition.range.start)
                ==> next.released.contains_key(transition.range.start)
                && next.released[transition.range.start]
                == state.released[transition.range.start]
            &&& state.reserved_leases.contains_key(lease)
                ==> next.reserved_leases.contains_key(lease) && next.reserved_leases[lease]
                == state.reserved_leases[lease]
        } by {
            let transition = state.pending[i];
            let start = transition.range.start;
            if state.released.contains_key(start) {
                assert forall|j: int| 0 <= j < n implies (#[trigger] plan.ranges@[j]).guest.start
                    != start by {
                    if plan.ranges@[j].guest.start == start {
                        assert(!dropped.meets_pending(plan.ranges@[j].guest));
                        crate::ledger_leases::lemma_pending_others(
                            state.pending,
                            plan.token,
                            i,
                        );
                        let m = choose|m: int|
                            0 <= m < dropped.pending.len() && dropped.pending[m] == transition;
                        assert(state.released.contains_key(plan.ranges@[j].guest.start));
                        assert(dropped.pending[m].range.meets(plan.ranges@[j].guest));
                    }
                }
                assert(restored.released.contains_key(start));
            }
        }
        lemma_plans_kept_without(state, next, plan.token);
    }
}

/// Giving up a restore keeps a ledger sound.
pub(crate) proof fn lemma_restore_aborted_follows(state: LedgerState, plan: RestorePlan)
    requires
        state.wf(),
        state.awaits_restore(plan),
        (LedgerState {
            reserved_leases: state.reserved_leases.remove(plan.lease.0),
            ..state.without_pending(plan.token)
        }).wf(),
    ensures
        (LedgerState {
            reserved_leases: state.reserved_leases.remove(plan.lease.0),
            ..state.without_pending(plan.token)
        }).follows(state, Some(plan.token)),
{
    let next = LedgerState {
        reserved_leases: state.reserved_leases.remove(plan.lease.0),
        ..state.without_pending(plan.token)
    };
    if state.sound() {
        law_aborted_plan_spares_leases(state, plan.token, plan.lease.0);
        law_aborted_restore_keeps_reservations(state, plan);
        lemma_accounted_same(state, next);
        lemma_pending_parts(state.pending, plan.token);
        lemma_whole_same(state, next);
        lemma_restore_token(state, plan);
        lemma_plans_kept_without(state, next, plan.token);
    }
}

/// Ending a lease keeps a ledger sound.
pub(crate) proof fn lemma_lease_ended_follows(state: LedgerState, lease: u64)
    requires
        state.wf(),
        (LedgerState { leases: state.leases.remove(lease), ..state }).wf(),
    ensures
        (LedgerState { leases: state.leases.remove(lease), ..state }).follows(state, None),
{
    let next = LedgerState { leases: state.leases.remove(lease), ..state };
    if state.sound() {
        law_ended_lease_spares_the_others(state, lease);
        lemma_reservations_grow(state, next);
        lemma_accounted_same(state, next);
        assert forall|i: int| 0 <= i < next.pending.len() implies state.pending.contains(
            #[trigger] next.pending[i],
        ) by {
            assert(state.pending[i] == next.pending[i]);
        }
        lemma_whole_same(state, next);
        lemma_plans_kept_same(state, next);
    }
}

/// Every address of RAM is either mapped or released, never both and never neither. It is mapped
/// with one generation, or belongs to one released extent, and the generation is one that was
/// handed out.
pub proof fn law_ram_is_mapped_or_released(state: LedgerState, a: int)
    requires
        state.sound(),
        state.ram(a),
    ensures
        mapped(state.runs, a) != state.released_at(a),
        mapped(state.runs, a) ==> exists|g: MappingGeneration| #[trigger]
            mapped_with(state.runs, a, g) && g.0 <= state.next_generation - 1,
        forall|g: MappingGeneration, h: MappingGeneration| #[trigger]
            mapped_with(state.runs, a, g) && #[trigger] mapped_with(state.runs, a, h) ==> g == h,
        forall|k: u64| #[trigger]
            state.released.contains_key(k) && state.released[k].range.guest.has(a)
                ==> state.released[k].generation.0 <= state.next_generation - 1,
        forall|k: u64, l: u64| #[trigger]
            state.released.contains_key(k) && #[trigger] state.released.contains_key(l)
                && state.released[k].range.guest.has(a) && state.released[l].range.guest.has(a)
                ==> k == l,
{
    if state.released_at(a) {
        let k = choose|k: u64| #[trigger]
            state.released.contains_key(k) && state.released[k].range.guest.has(a);
        law_released_is_not_mapped(state, a, k);
    }
    if mapped(state.runs, a) {
        let i = choose|i: int| 0 <= i < state.runs.len() && (#[trigger] state.runs[i]).range.has(a);
        assert(mapped_with(state.runs, a, state.runs[i].generation));
    }
    assert forall|g: MappingGeneration, h: MappingGeneration| #[trigger]
        mapped_with(state.runs, a, g) && #[trigger] mapped_with(state.runs, a, h) implies g
        == h by {
        crate::mapping_runs::law_generation_is_unique(state.runs, a, g, h);
    }
    assert forall|k: u64, l: u64| #[trigger]
        state.released.contains_key(k) && #[trigger] state.released.contains_key(l)
            && state.released[k].range.guest.has(a) && state.released[l].range.guest.has(
            a,
        ) implies k == l by {
        if k != l {
            assert(!state.released[k].range.guest.meets(state.released[l].range.guest));
        }
    }
}

/// An open release is committed: exactly its addresses change from mapped to released, with the
/// plan's generation, as one more extent. Leases and other plans are as they were.
pub proof fn law_open_release_is_committed(state: LedgerState, plan: ReleasePlan)
    requires
        state.sound(),
        state.open_release(plan),
    ensures
        ({
            let (answer, done) = state.commit_release_outcome(plan);
            &&& answer is Ok
            &&& done.follows(state, Some(plan.token))
            &&& forall|a: int| #[trigger] plan.range.guest.has(a) ==> mapped(state.runs, a)
            &&& forall|a: int, g: MappingGeneration| #[trigger]
                mapped_with(done.runs, a, g) <==> mapped_with(state.runs, a, g)
                    && !plan.range.guest.has(a)
            &&& done.released == state.released.insert(
                plan.range.guest.start,
                crate::ledger::ReleasedExtent { range: plan.range, generation: plan.generation },
            )
            &&& done.released.len() == state.released.len() + 1
            &&& done.leases == state.leases
            &&& done.reserved_leases == state.reserved_leases
            &&& !done.awaits_release(plan)
        }),
{
    let done = state.commit_release_outcome(plan).1;
    law_planned_release_can_be_committed(state, plan);
    law_committed_release_unmaps_exactly(state, plan);
    lemma_awaited_release(state, plan);
    crate::ledger_laws::law_token_redeemed_once(state, plan);
    let dropped = state.without_pending(plan.token);
    let carved = LedgerState {
        runs: crate::mapping_runs::carve_spec(state.runs, plan.range.guest),
        ..dropped
    };
    crate::ledger::lemma_without_pending_wf(state, plan.token);
    crate::ledger::lemma_carved_wf(dropped, plan.range.guest);
    assert(carved.in_ram(plan.range.guest)) by {
        let r = choose|r: int|
            0 <= r < state.regions.len() && (#[trigger] state.regions[r]).range.guest.covers(
                plan.range.guest,
            );
        assert(carved.regions[r].range.guest.covers(plan.range.guest));
    }
    assert(!carved.meets_released(plan.range.guest)) by {
        if carved.meets_released(plan.range.guest) {
            let k = choose|k: u64| #[trigger]
                carved.released.contains_key(k) && carved.released[k].range.guest.meets(
                    plan.range.guest,
                );
            assert(state.released.contains_key(k));
        }
    }
    crate::ledger::lemma_meets_pending_same(dropped, carved, plan.range.guest);
    crate::ledger::lemma_released_added_wf(carved, plan);
    lemma_release_committed_follows(state, plan);
}

/// Taking out extents that are there, each once, leaves as many fewer.
proof fn lemma_released_after_len(
    released: Map<u64, crate::ledger::ReleasedExtent>,
    ranges: Seq<HostRange>,
    n: int,
)
    requires
        released.dom().finite(),
        0 <= n <= ranges.len(),
        forall|i: int|
            0 <= i < ranges.len() ==> released.contains_key((#[trigger] ranges[i]).guest.start),
        forall|i: int, j: int|
            0 <= i < j < ranges.len() ==> (#[trigger] ranges[i]).guest.start != (
            #[trigger] ranges[j]).guest.start,
    ensures
        ({
            let left = crate::ledger::released_after(released, ranges, n);
            &&& left.dom().finite()
            &&& left.len() == released.len() - n
            &&& forall|i: int|
                n <= i < ranges.len() ==> left.contains_key((#[trigger] ranges[i]).guest.start)
        }),
    decreases n,
{
    if n > 0 {
        lemma_released_after_len(released, ranges, n - 1);
        let before = crate::ledger::released_after(released, ranges, n - 1);
        let gone = ranges[n - 1].guest.start;
        assert(before.contains_key(gone));
        before.lemma_remove_key_len(gone);
        assert forall|i: int| n <= i < ranges.len() implies before.remove(gone).contains_key(
            (#[trigger] ranges[i]).guest.start,
        ) by {
            assert(ranges[n - 1].guest.start != ranges[i].guest.start);
        }
    }
}

/// An open restore is committed: exactly its ranges change from released to mapped, all with the
/// plan's generation, its lease becomes one of the active ones, and can be ended. Other leases and
/// other plans are as they were.
pub proof fn law_open_restore_is_committed(state: LedgerState, plan: RestorePlan)
    requires
        state.sound(),
        state.open_restore(plan),
    ensures
        ({
            let done = restore_committed(state, plan);
            &&& forall|i: int|
                0 < i <= plan.ranges@.len() ==> !(#[trigger] state.without_pending(
                    plan.token,
                ).restored(plan.ranges@, plan.generation, i)).over_limit()
            &&& done.follows(state, Some(plan.token))
            &&& forall|a: int, g: MappingGeneration| #[trigger]
                mapped_with(done.runs, a, g) <==> mapped_with(state.runs, a, g) || (g
                    == plan.generation && exists|i: int|
                    0 <= i < plan.ranges@.len() && (#[trigger] plan.ranges@[i]).guest.has(a))
            &&& forall|k: u64| #[trigger]
                done.released.contains_key(k) <==> state.released.contains_key(k) && forall|i: int|
                    0 <= i < plan.ranges@.len() ==> (#[trigger] plan.ranges@[i]).guest.start != k
            &&& done.released.len() == state.released.len() - plan.ranges@.len()
            &&& done.leases == state.leases.insert(plan.lease.0, plan.access)
            &&& done.leases.len() == state.leases.len() + 1
            &&& done.leases.contains_key(plan.lease.0)
            &&& forall|a: int| #[trigger] plan.access.has(a) ==> mapped(done.runs, a)
            &&& !done.awaits_restore(plan)
        }),
{
    let n = plan.ranges@.len() as int;
    let dropped = state.without_pending(plan.token);
    let restored = dropped.restored(plan.ranges@, plan.generation, n);
    let done = restore_committed(state, plan);
    assert forall|i: int| 0 < i <= n implies !(#[trigger] dropped.restored(
        plan.ranges@,
        plan.generation,
        i,
    )).over_limit() by {
        law_planned_restore_can_be_committed(state, plan, i);
    }
    law_restore_maps_with_the_plan_generation(state, plan, n);
    lemma_restore_unreserved(state, plan);
    lemma_released_after_len(state.released, plan.ranges@, n);
    assert(!state.leases.contains_key(plan.lease.0)) by {
        assert(state.reserved_leases.contains_key(plan.lease.0));
    }
    lemma_restore_committed_wf(state, plan);
    lemma_restore_committed_follows(state, plan);
    assert forall|a: int| #[trigger] plan.access.has(a) implies mapped(done.runs, a) by {
        assert(done.leases[plan.lease.0] == plan.access);
        crate::ledger_leases::law_leased_memory_is_mapped(done, plan.lease.0, a);
    }
}

/// A committed restore leaves a ledger well formed, with generations that were handed out.
proof fn lemma_restore_committed_wf(state: LedgerState, plan: RestorePlan)
    requires
        state.sound(),
        state.open_restore(plan),
    ensures
        restore_committed(state, plan).wf(),
        restore_committed(state, plan).generations_issued(),
{
    let n = plan.ranges@.len() as int;
    let restored = state.without_pending(plan.token).restored(plan.ranges@, plan.generation, n);
    let done = restore_committed(state, plan);
    law_restore_maps_with_the_plan_generation(state, plan, n);
    crate::ledger::lemma_released_wf_same(restored, done);
    crate::ledger::lemma_pending_same(restored, done);
    crate::ledger::lemma_ram_same(restored, done);
    assert(restored.reserved_leases.contains_key(plan.lease.0));
    assert(!restored.leases.contains_key(plan.lease.0));
    assert(done.leases_wf());
    assert forall|k: u64| #[trigger] done.released.contains_key(k) implies done.released[k]
        .generation.0 < done.next_generation by {
        assert(restored.released.contains_key(k));
        assert(state.released.contains_key(k));
    }
}

/// The number of addresses that the regions have.
pub open spec fn bytes_in(regions: Seq<RamRegion>) -> int
    decreases regions.len(),
{
    if regions.len() == 0 {
        0
    } else {
        bytes_in(regions.drop_last()) + regions.last().range.guest.size()
    }
}

/// Regions that are made of whole granules have as many addresses as their granules together.
proof fn lemma_granules_are_bytes(granule: u64, regions: Seq<RamRegion>)
    requires
        granule > 0,
        regions_wf(granule, regions),
    ensures
        granules_in(granule, regions) * granule == bytes_in(regions),
        granules_in(granule, regions) == bytes_in(regions) / granule as int,
    decreases regions.len(),
{
    let g = granule as int;
    if regions.len() > 0 {
        let rest = regions.drop_last();
        assert(regions_wf(granule, rest)) by {
            assert forall|i: int| 0 <= i < rest.len() implies (#[trigger] rest[i]).valid()
                && crate::ram_layout::region_aligned(granule, rest[i]) by {
                assert(rest[i] == regions[i]);
            }
            assert forall|i: int, j: int| 0 <= i < j < rest.len() implies {
                &&& (#[trigger] rest[i]).range.guest.end <= (#[trigger] rest[j]).range.guest.start
                &&& !crate::ram_layout::hosts_meet(rest[i], rest[j])
            } by {
                assert(rest[i] == regions[i] && rest[j] == regions[j]);
            }
        }
        lemma_granules_are_bytes(granule, rest);
        let size = regions.last().range.guest.size();
        assert(crate::ram_layout::region_aligned(granule, regions[regions.len() - 1]));
        vstd::arithmetic::div_mod::lemma_fundamental_div_mod(size, g);
        let earlier = granules_in(granule, rest);
        assert((earlier + size / g) * g == earlier * g + size) by (nonlinear_arith)
            requires
                size == g * (size / g),
        ;
    } else {
        assert(0 * g == 0);
    }
    vstd::arithmetic::div_mod::lemma_div_multiples_vanish(granules_in(granule, regions), g);
    vstd::arithmetic::mul::lemma_mul_is_commutative(granules_in(granule, regions), g);
}

/// The runs of a ledger are the largest stretches of RAM with one generation, each once, and there
/// are no more of them than the registered RAM has granules. The same bound holds of released
/// extents, of what is under way, and of leases.
pub proof fn law_runs_are_counted(state: LedgerState)
    requires
        state.sound(),
    ensures
        forall|run: MappingRun| #[trigger]
            state.runs.contains(run) <==> maximal(state.runs, run),
        state.runs.len() == Set::new(|run: MappingRun| maximal(state.runs, run)).len(),
        state.granule_limit == bytes_in(state.regions) / state.granule as int,
        state.runs.len() <= bytes_in(state.regions) / state.granule as int,
        state.released.len() <= bytes_in(state.regions) / state.granule as int,
        state.pending.len() <= bytes_in(state.regions) / state.granule as int,
        state.leases.len() + state.reserved_leases.len() <= bytes_in(state.regions)
            / state.granule as int,
{
    lemma_power_of_two_positive(state.granule);
    law_runs_are_the_maximal_stretches(state.runs);
    law_whole_granules_keep_the_bound(state);
    lemma_granules_are_bytes(state.granule, state.regions);
}

} // verus!
