//! What the reclaim ledger does to the very addresses that its callers name.
use crate::guest_memory::{
    is_power_of_two_spec, lemma_power_of_two_positive, GuestRange, HostRange, RamRegion,
    ReclaimError,
};
use crate::ledger::{
    overlapping_extents, AccessPlan, LeaseId, LedgerState, PendingKind, ReleasePlan, RestorePlan,
};
use crate::ledger_bounds::{lemma_generation_mapped, lemma_mapped_generation};
use crate::ledger_sound::{law_open_restore_is_committed, restore_committed};
use crate::mapping_runs::{
    all_mapped, insert_spec, law_coalesce_preserves_mapping, law_insert_adds_exactly_the_run,
    mapped, mapped_with, MappingGeneration, MappingRun,
};
use crate::ram_layout::lemma_region_inserted;
use vstd::prelude::*;

verus! {

impl LedgerState {
    /// Every lease of `before` is still held, and is of the same memory.
    pub open spec fn keeps_leases(self, before: LedgerState) -> bool {
        forall|k: u64| #[trigger]
            before.leases.contains_key(k) ==> self.leases.contains_key(k) && self.leases[k]
                == before.leases[k]
    }
}

/// An access that has nothing to wait for gets a lease under a number that was not in use, and
/// the lease holds an address exactly if the access asked for it. It is refused only where no
/// lease is left to give.
pub proof fn law_access_leases_what_was_asked(before: LedgerState, range: GuestRange, a: int)
    requires
        before.wf(),
        range.start < range.end,
    ensures
        ({
            let (result, after) = before.lease_outcome(range);
            match result {
                Ok(AccessPlan::Leased(lease)) => {
                    &&& !before.leases.contains_key(lease.0)
                    &&& !before.reserved_leases.contains_key(lease.0)
                    &&& after.leases.contains_key(lease.0)
                    &&& after.leases[lease.0].start <= a < after.leases[lease.0].end
                        <==> range.start <= a < range.end
                    &&& after.keeps_leases(before)
                    &&& after.leases.len() == before.leases.len() + 1
                    &&& after.reserved_leases == before.reserved_leases
                    &&& after.released == before.released
                    &&& after.pending == before.pending
                    &&& after.runs == before.runs
                },
                Ok(AccessPlan::Restore(_)) => false,
                Err(error) => {
                    &&& error == ReclaimError::LeaseExhausted
                    &&& after == before
                    &&& before.leases.len() + before.reserved_leases.len() >= before.granule_limit
                        || before.next_lease == u64::MAX
                },
            }
        }),
{
    assert(!before.leases.contains_key(before.next_lease));
    assert(!before.reserved_leases.contains_key(before.next_lease));
}

/// Memory that was leased cannot be taken: as long as the ledger holds the lease that an access
/// to `range` got, a release that shares an address `a` with `range` is refused and changes
/// nothing. It is refused for the lease unless it also reaches into memory that is released or
/// about to change.
pub proof fn law_accessed_memory_is_not_released(
    before: LedgerState,
    range: GuestRange,
    lease: LeaseId,
    later: LedgerState,
    wanted: HostRange,
    a: int,
)
    requires
        before.lease_outcome(range).0 == Ok::<AccessPlan, ReclaimError>(AccessPlan::Leased(lease)),
        later.keeps_leases(before.lease_outcome(range).1),
        range.start <= a < range.end,
        wanted.guest.start <= a < wanted.guest.end,
    ensures
        later.release_outcome(wanted).0 is Err,
        later.release_outcome(wanted).1 == later,
        (forall|k: u64| #[trigger]
            later.released.contains_key(k) ==> later.released[k].range.guest.end
                <= wanted.guest.start || wanted.guest.end <= later.released[k].range.guest.start)
            && (forall|i: int|
            0 <= i < later.pending.len() ==> (#[trigger] later.pending[i]).range.end
                <= wanted.guest.start || wanted.guest.end <= later.pending[i].range.start)
            ==> later.release_outcome(wanted).0 == Err::<Option<ReleasePlan>, ReclaimError>(
            ReclaimError::ActiveLease,
        ),
        later.sound() && range.start <= wanted.guest.start && wanted.guest.end <= range.end
            ==> later.release_outcome(wanted).0 == Err::<Option<ReleasePlan>, ReclaimError>(
            ReclaimError::ActiveLease,
        ),
{
    let after = before.lease_outcome(range).1;
    assert(after.leases.contains_key(lease.0));
    assert(later.leases.contains_key(lease.0) && later.leases[lease.0] == range);
    assert(later.meets_lease(wanted.guest));
    if later.sound() && range.start <= wanted.guest.start && wanted.guest.end <= range.end {
        assert(!later.meets_released(later.leases[lease.0]));
        assert(!later.releasing(later.leases[lease.0]));
        if later.meets_released(wanted.guest) {
            let k = choose|k: u64| #[trigger]
                later.released.contains_key(k) && later.released[k].range.guest.meets(wanted.guest);
            assert(later.released[k].range.guest.meets(range));
            assert(later.meets_released(range));
        }
        if later.meets_pending(wanted.guest) {
            let i = choose|i: int|
                0 <= i < later.pending.len() && (#[trigger] later.pending[i]).range.meets(
                    wanted.guest,
                );
            assert(later.pending[i].range.meets(range));
            if later.pending[i].kind == PendingKind::Release {
                assert(later.releasing(range));
            } else {
                let k = later.pending[i].range.start;
                assert(later.released.contains_key(k));
                assert(later.released[k].range.guest.meets(range));
                assert(later.meets_released(range));
            }
        }
    }
}

/// A lease lasts until it is ended: planning, committing or giving up a release or a restore,
/// granting another lease and adding memory all keep it, with its memory. Ending one lease ends
/// no other.
pub proof fn law_leases_last_until_they_end(
    state: LedgerState,
    wanted: HostRange,
    release: ReleasePlan,
    range: GuestRange,
    extents: Seq<HostRange>,
    restore: RestorePlan,
    token: u64,
    region: RamRegion,
    ended: u64,
    k: u64,
)
    requires
        state.wf(),
        state.leases.contains_key(k),
    ensures
        state.release_outcome(wanted).1.leases == state.leases,
        state.commit_release_outcome(release).1.leases == state.leases,
        state.without_pending(token).leases == state.leases,
        state.restore_reserved(range, extents).leases == state.leases,
        state.with_region(region).leases == state.leases,
        state.lease_outcome(range).1.leases.contains_key(k),
        state.lease_outcome(range).1.leases[k] == state.leases[k],
        state.awaits_restore(restore) ==> restore_committed(state, restore).leases.contains_key(k)
            && restore_committed(state, restore).leases[k] == state.leases[k],
        ended != k ==> state.leases.remove(ended).contains_key(k) && state.leases.remove(ended)[k]
            == state.leases[k],
{
    if state.awaits_restore(restore) {
        assert(state.reserved_leases.contains_key(restore.lease.0));
    }
}

/// A release that was planned is of the memory that was asked for, and of nothing that is
/// released, changing, leased or about to be: an address `a` of it lies in no such extent.
pub proof fn law_planned_release_is_of_idle_memory(
    before: LedgerState,
    wanted: HostRange,
    plan: ReleasePlan,
    a: int,
    key: u64,
    i: int,
)
    requires
        before.release_outcome(wanted).0 == Ok::<Option<ReleasePlan>, ReclaimError>(Some(plan)),
        wanted.guest.start <= a < wanted.guest.end,
    ensures
        plan.range == wanted,
        before.released.contains_key(key) ==> !(before.released[key].range.guest.start <= a
            < before.released[key].range.guest.end),
        before.leases.contains_key(key) ==> !(before.leases[key].start <= a
            < before.leases[key].end),
        before.reserved_leases.contains_key(key) ==> !(before.reserved_leases[key].start <= a
            < before.reserved_leases[key].end),
        0 <= i < before.pending.len() ==> !(before.pending[i].range.start <= a
            < before.pending[i].range.end),
        ({
            let after = before.release_outcome(wanted).1;
            let last = after.pending.last();
            &&& after.pending.len() == before.pending.len() + 1
            &&& last.token == plan.token
            &&& last.range.start <= a < last.range.end
            &&& last.kind == PendingKind::Release
            &&& after.released == before.released
            &&& after.runs == before.runs
            &&& after.leases == before.leases
            &&& after.reserved_leases == before.reserved_leases
        }),
{
}

/// Each refusal of a release has its reason: the answer tells of released memory, of a lease or
/// of a change under way only if an extent of that kind overlaps the range.
pub proof fn law_refused_release_has_a_reason(before: LedgerState, wanted: HostRange)
    requires
        before.release_outcome(wanted).0 is Err,
    ensures
        ({
            let error = before.release_outcome(wanted).0->Err_0;
            match error {
                ReclaimError::Released => exists|k: u64| #[trigger]
                    before.released.contains_key(k) && before.released[k].range.guest.start
                        < wanted.guest.end && wanted.guest.start
                        < before.released[k].range.guest.end,
                ReclaimError::ActiveLease => exists|k: u64| #[trigger]
                    before.leases.contains_key(k) && before.leases[k].start < wanted.guest.end
                        && wanted.guest.start < before.leases[k].end,
                ReclaimError::Busy => (exists|i: int|
                    0 <= i < before.pending.len() && (#[trigger] before.pending[i]).range.start
                        < wanted.guest.end && wanted.guest.start < before.pending[i].range.end) || (
                exists|k: u64| #[trigger]
                    before.reserved_leases.contains_key(k) && before.reserved_leases[k].start
                        < wanted.guest.end && wanted.guest.start < before.reserved_leases[k].end),
                ReclaimError::TokenExhausted => before.next_token == u64::MAX,
                ReclaimError::GenerationExhausted => before.next_generation == u64::MAX,
                _ => false,
            }
        }),
{
}

/// What is released of a range is the largest part whose bounds are multiples of the alignment:
/// it lies in the range, at either end less than one alignment is left over, and where nothing
/// is released no aligned block fits. Each guest address keeps its distance to the host address.
pub proof fn law_aligned_part_is_the_largest(
    region: RamRegion,
    requested: GuestRange,
    alignment: u64,
    block: int,
)
    requires
        region.valid(),
        requested.start < requested.end,
        block % (alignment as int) == 0,
    ensures
        match region.aligned_subrange_spec(requested, alignment) {
            Ok(Some(part)) => {
                &&& part.guest.start % alignment == 0
                &&& part.guest.end % alignment == 0
                &&& part.host_start % alignment == 0
                &&& requested.start <= part.guest.start < part.guest.end <= requested.end
                &&& part.guest.start - requested.start < alignment
                &&& requested.end - part.guest.end < alignment
                &&& requested.start <= block && block + alignment <= requested.end
                    ==> part.guest.start <= block && block + alignment <= part.guest.end
                &&& region.range.guest.start <= requested.start
                &&& requested.end <= region.range.guest.end
                &&& part.host_start - part.guest.start == region.range.host_start
                    - region.range.guest.start
                &&& part.permissions == region.range.permissions
            },
            Ok(None) => !(requested.start <= block && block + alignment <= requested.end),
            Err(ReclaimError::InvalidAlignment) => !is_power_of_two_spec(alignment),
            Err(ReclaimError::NotRam) => requested.start < region.range.guest.start
                || region.range.guest.end < requested.end,
            Err(ReclaimError::AddressOverflow) => requested.start + alignment - 1 > u64::MAX,
            Err(ReclaimError::MisalignedHostTranslation) => (region.range.host_start
                - region.range.guest.start) % (alignment as int) != 0,
            Err(_) => false,
        },
{
    if is_power_of_two_spec(alignment) {
        lemma_power_of_two_positive(alignment);
        let al = alignment as int;
        let up = requested.start + al - 1;
        let start = up - up % al;
        let end = requested.end - requested.end as int % al;
        lemma_multiple_below(up, al);
        lemma_multiple_below(requested.end as int, al);
        assert((block + al) % al == 0) by {
            vstd::arithmetic::div_mod::lemma_mod_add_multiples_vanish(block, al);
        }
        if requested.start <= block {
            lemma_multiples_apart(start, block, al);
        }
        if block + al <= requested.end {
            lemma_multiples_apart(block + al, end, al);
        }
        let shift = region.range.host_start - region.range.guest.start;
        assert(region.range.host_of(start) == shift + start);
        if shift % al == 0 {
            vstd::arithmetic::div_mod::lemma_add_mod_noop(shift, start, al);
            vstd::arithmetic::div_mod::lemma_small_mod(0, al as nat);
            assert((shift + start) % al == 0);
        }
    }
}

/// What rounding down leaves is a multiple that is less than one step below.
pub(crate) proof fn lemma_multiple_below(x: int, al: int)
    requires
        al > 0,
        x >= 0,
    ensures
        (x - x % al) % al == 0,
        0 <= x - x % al <= x < x - x % al + al,
{
    vstd::arithmetic::div_mod::lemma_fundamental_div_mod(x, al);
    vstd::arithmetic::div_mod::lemma_mod_multiples_basic(x / al, al);
    assert(x - x % al == (x / al) * al) by (nonlinear_arith)
        requires
            x == al * (x / al) + x % al,
    ;
}

/// A multiple that is less than one step above another is not above it.
pub(crate) proof fn lemma_multiples_apart(p: int, q: int, al: int)
    requires
        al > 0,
        p % al == 0,
        q % al == 0,
        p < q + al,
    ensures
        p <= q,
{
    vstd::arithmetic::div_mod::lemma_fundamental_div_mod(p, al);
    vstd::arithmetic::div_mod::lemma_fundamental_div_mod(q, al);
    assert(p <= q) by (nonlinear_arith)
        requires
            al > 0,
            p == al * (p / al),
            q == al * (q / al),
            p < q + al,
    ;
}

/// A planned restore brings back every released address of the access, and no extent that the
/// access does not overlap.
pub proof fn law_restore_covers_the_access(
    before: LedgerState,
    range: GuestRange,
    extents: Seq<HostRange>,
    k: u64,
    a: int,
    i: int,
)
    requires
        overlapping_extents(before.released, range, extents),
    ensures
        before.released.contains_key(k) && before.released[k].range.guest.start <= a
            < before.released[k].range.guest.end && range.start <= a < range.end
            ==> exists|j: int|
            0 <= j < extents.len() && (#[trigger] extents[j]).guest.start <= a
                < extents[j].guest.end && extents[j] == before.released[k].range,
        0 <= i < extents.len() ==> {
            &&& before.released.contains_key(extents[i].guest.start)
            &&& before.released[extents[i].guest.start].range == extents[i]
            &&& extents[i].guest.start < range.end
            &&& range.start < extents[i].guest.end
        },
        0 < i < extents.len() ==> extents[i - 1].guest.start < extents[i].guest.start,
{
    if before.released.contains_key(k) && before.released[k].range.guest.start <= a
        < before.released[k].range.guest.end && range.start <= a < range.end {
        assert(extents.contains(before.released[k].range));
        let j = choose|j: int| 0 <= j < extents.len() && extents[j] == before.released[k].range;
        assert(extents[j].guest.start <= a);
    }
}

/// A committed restore leases the whole access under the number that the plan has: the lease
/// holds an address exactly if the access asked for it, and every one of them is mapped and not
/// released.
pub proof fn law_restored_memory_is_leased(
    state: LedgerState,
    plan: RestorePlan,
    a: int,
    k: u64,
)
    requires
        state.sound(),
        state.open_restore(plan),
    ensures
        ({
            let done = restore_committed(state, plan);
            let lease = plan.lease.0;
            &&& done.leases.contains_key(lease)
            &&& done.leases[lease].start <= a < done.leases[lease].end <==> plan.access.start <= a
                < plan.access.end
            &&& !done.reserved_leases.contains_key(lease)
            &&& done.keeps_leases(state)
            &&& plan.access.start <= a < plan.access.end ==> mapped(done.runs, a)
            &&& plan.access.start <= a < plan.access.end && done.released.contains_key(k) ==> !(
            done.released[k].range.guest.start <= a < done.released[k].range.guest.end)
        }),
{
    let done = restore_committed(state, plan);
    law_open_restore_is_committed(state, plan);
    assert(state.reserved_leases.contains_key(plan.lease.0));
    if plan.access.start <= a < plan.access.end {
        assert(plan.access.has(a));
        assert(mapped(done.runs, a));
        if done.released.contains_key(k) && done.released[k].range.guest.has(a) {
            let r = choose|r: int| 0 <= r < done.runs.len() && (#[trigger] done.runs[r]).range.has(a);
            assert(!done.runs[r].range.meets(done.released[k].range.guest));
        }
    }
}

/// Adding memory adds the addresses of the region and no others, mapped with the first
/// generation; what was mapped stays as it was.
pub proof fn law_registering_adds_the_region(state: LedgerState, region: RamRegion, a: int)
    requires
        state.wf(),
        region.valid(),
        state.region_aligned(region),
        !state.region_overlaps(region),
        state.granule_limit + region.range.guest.size() / (state.granule as int) <= usize::MAX,
    ensures
        ({
            let next = state.with_region(region);
            let added = region.range.guest.start <= a < region.range.guest.end;
            &&& next.ram(a) <==> state.ram(a) || added
            &&& mapped(next.runs, a) <==> mapped(state.runs, a) || added
            &&& added ==> mapped_with(next.runs, a, MappingGeneration(0))
            &&& added ==> !state.ram(a)
            &&& next.released == state.released
            &&& next.leases == state.leases
            &&& next.regions.contains(region)
            &&& next.regions.len() == state.regions.len() + 1
        }),
{
    let next = state.with_region(region);
    let guest = region.range.guest;
    let run = MappingRun { range: guest, generation: MappingGeneration(0) };
    let place = lemma_region_inserted(state.granule, state.regions, region);
    crate::ledger::lemma_region_added_wf(state, region);
    law_insert_adds_exactly_the_run(state.runs, run);
    law_coalesce_preserves_mapping(insert_spec(state.runs, run));
    assert(next.regions[place] == region);
    if next.ram(a) {
        let r = choose|r: int|
            0 <= r < next.regions.len() && (#[trigger] next.regions[r]).range.guest.has(a);
        if r != place {
            let q = if r < place {
                r
            } else {
                r - 1
            };
            assert(state.regions[q].range.guest.has(a));
        }
    }
    if state.ram(a) {
        let q = choose|q: int|
            0 <= q < state.regions.len() && (#[trigger] state.regions[q]).range.guest.has(a);
        let r = if q < place {
            q
        } else {
            q + 1
        };
        assert(next.regions[r] == state.regions[q]);
        assert(next.regions[r].range.guest.has(a));
    }
    if guest.has(a) {
        assert(next.regions[place].range.guest.has(a));
        if state.ram(a) {
            let q = choose|q: int|
                0 <= q < state.regions.len() && (#[trigger] state.regions[q]).range.guest.has(a);
            assert(state.regions[q].range.guest.meets(guest));
        }
        assert(mapped_with(insert_spec(state.runs, run), a, MappingGeneration(0)));
        assert(mapped_with(next.runs, a, MappingGeneration(0)));
        lemma_generation_mapped(next.runs, a, MappingGeneration(0));
    }
    if mapped(state.runs, a) {
        let g = lemma_mapped_generation(state.runs, a);
        assert(mapped_with(next.runs, a, g));
        lemma_generation_mapped(next.runs, a, g);
    }
    if mapped(next.runs, a) {
        let g = lemma_mapped_generation(next.runs, a);
        assert(mapped_with(insert_spec(state.runs, run), a, g));
        if !guest.has(a) {
            assert(mapped_with(state.runs, a, g));
            lemma_generation_mapped(state.runs, a, g);
        }
    }
}

/// Every plan and every lease has a number of its own: a number that was given is used up, and
/// none is used up that was not given.
pub proof fn law_given_numbers_are_used_up(
    state: LedgerState,
    range: GuestRange,
    extents: Seq<HostRange>,
)
    requires
        state.next_token < u64::MAX,
        state.next_generation < u64::MAX,
        state.next_lease < u64::MAX,
    ensures
        ({
            let next = state.restore_reserved(range, extents);
            &&& next.next_token == state.next_token + 1
            &&& next.next_generation == state.next_generation + 1
            &&& next.next_lease == state.next_lease + 1
            &&& next.reserved_leases.contains_key(state.next_lease)
            &&& next.reserved_leases[state.next_lease] == range
            &&& next.leases == state.leases
            &&& next.runs == state.runs && next.released == state.released
        }),
        ({
            let (plan, next) = state.lease_outcome(range);
            &&& plan is Ok ==> next.next_lease == state.next_lease + 1
            &&& plan is Err ==> next == state
            &&& next.next_token == state.next_token
            &&& next.next_generation == state.next_generation
        }),
{
}

/// A lease is refused exactly where as many are held or promised as the memory has granules, or
/// where the numbers are used up.
pub proof fn law_leases_are_refused_when_used_up(state: LedgerState, range: GuestRange)
    ensures
        state.leases.len() + state.reserved_leases.len() >= state.granule_limit
            ==> state.lease_outcome(range).0 == Err::<AccessPlan, _>(ReclaimError::LeaseExhausted),
        state.next_lease == 0xffff_ffff_ffff_ffff ==> state.lease_outcome(range).0 == Err::<
            AccessPlan,
            _,
        >(ReclaimError::LeaseExhausted),
        state.leases.len() + state.reserved_leases.len() < state.granule_limit && state.next_lease
            < 0xffff_ffff_ffff_ffff ==> state.lease_outcome(range).0 == Ok::<_, ReclaimError>(
            AccessPlan::Leased(LeaseId(state.next_lease)),
        ),
{
}

/// A release that is not awaited changes nothing, and neither maps nor unmaps where its memory was
/// not mapped; both are refused as invalid. One that is awaited, of mapped memory, can only fail
/// for want of room.
pub proof fn law_refused_commit_releases_nothing(state: LedgerState, plan: ReleasePlan)
    ensures
        ({
            let (answer, next) = state.commit_release_outcome(plan);
            &&& !state.awaits_release(plan) ==> next == state
            &&& answer == Err::<(), _>(ReclaimError::InvalidTransition) ==> next.runs == state.runs
                && next.released == state.released && next.leases == state.leases
            &&& answer is Err ==> answer == Err::<(), _>(ReclaimError::InvalidTransition) || answer
                == Err::<(), _>(ReclaimError::MetadataLimit)
            &&& !state.awaits_release(plan) || !all_mapped(state.runs, plan.range.guest) ==> answer
                == Err::<(), _>(ReclaimError::InvalidTransition)
            &&& answer == Err::<(), _>(ReclaimError::InvalidTransition) ==> !state.awaits_release(
                plan,
            ) || !all_mapped(state.runs, plan.range.guest)
            &&& answer is Ok ==> next.released.contains_key(plan.range.guest.start)
                && next.released[plan.range.guest.start].range == plan.range
        }),
{
}

/// A planned release takes its token and its generation with it. A release that is refused before
/// that takes none; only where the generations are used up the token is.
pub proof fn law_planned_release_uses_up_its_numbers(state: LedgerState, range: HostRange)
    ensures
        ({
            let (answer, next) = state.release_outcome(range);
            &&& answer matches Ok(Some(plan)) ==> {
                &&& plan.token == state.next_token && plan.generation.0 == state.next_generation
                &&& next.next_token == plan.token + 1
                &&& next.next_generation == plan.generation.0 + 1
                &&& plan.range == range
            }
            &&& answer == Err::<Option<ReleasePlan>, _>(ReclaimError::GenerationExhausted)
                ==> next.next_token == state.next_token + 1 && next.pending == state.pending
            &&& answer is Err && answer != Err::<Option<ReleasePlan>, _>(
                ReclaimError::GenerationExhausted,
            ) ==> next == state
            &&& next.next_lease == state.next_lease && next.leases == state.leases && next.runs
                == state.runs && next.released == state.released
        }),
{
}

} // verus!
