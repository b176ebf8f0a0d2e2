//! What a release cycle does to the very addresses that it unmaps.
use crate::guest_memory::{GuestRange, RamPermissions};
use crate::ledger_memory::law_aligned_part_is_the_largest;
use crate::reclaim::{
    cycle_result, hvf_flags, with_extents, CallReply, CycleCall, CycleFailure, CycleReply, CycleRun,
    ExtentState, FaultResolution, FaultStep, ReclaimQualification, ReclaimState, ReclaimStateError,
    RegionExtents, ReleaseCycle,
};
use vstd::prelude::*;

verus! {

/// The two mebibytes of a region that hold `a` are in `state`.
pub open spec fn extent_is(regions: Seq<RegionExtents>, r: int, a: int, state: ExtentState) -> bool {
    let start = regions[r].region.range.guest.start;
    let number = (a - start) / 0x20_0000;
    &&& 0 <= r < regions.len()
    &&& start <= a < regions[r].region.range.guest.end
    &&& 0 <= number < regions[r].states@.len()
    &&& regions[r].states@[number] == state
}

impl ReclaimState {
    /// A release cycle is open that has claimed the memory around `a`.
    pub open spec fn in_transition(self, a: int) -> bool {
        &&& self.map is Some
        &&& exists|r: int| #[trigger]
            extent_is(self.map->0.regions@, r, a, ExtentState::Transitioning)
    }
}

/// The regions of a map share no address.
pub(crate) proof fn lemma_one_region(state: ReclaimState, r: int, q: int, a: int)
    requires
        state.wf(),
        state.map is Some,
        0 <= r < state.map->0.regions@.len(),
        0 <= q < state.map->0.regions@.len(),
        state.map->0.regions@[r].region.range.guest.start <= a
            < state.map->0.regions@[r].region.range.guest.end,
        state.map->0.regions@[q].region.range.guest.start <= a
            < state.map->0.regions@[q].region.range.guest.end,
    ensures
        r == q,
{
    let map = state.map->0;
    assert(map.regions@[r].region == map.layout.regions@[r]);
    assert(map.regions@[q].region == map.layout.regions@[q]);
    if r < q {
        assert(map.layout.regions@[r].range.guest.end <= map.layout.regions@[q].range.guest.start);
    } else if q < r {
        assert(map.layout.regions@[q].range.guest.end <= map.layout.regions@[r].range.guest.start);
    }
}

/// The cycle of a report unmaps a part of the report, in whole granules, of one region, and
/// claims every two mebibytes that hold an address `a` of what it unmaps; the first and the last
/// that it claims do hold one.
pub proof fn law_cycle_claims_all_that_it_unmaps(
    state: ReclaimState,
    range: GuestRange,
    cycle: ReleaseCycle,
    a: int,
)
    requires
        state.wf(),
        range.start < range.end,
        state.release_target(range) == Some(cycle),
    ensures
        state.map is Some,
        cycle.region < state.map->0.regions@.len(),
        ({
            let extents = state.map->0.regions@[cycle.region as int];
            let ram = extents.region.range;
            let granule = state.map->0.layout.granule;
            let part = cycle.host.guest;
            &&& ram.guest.start <= range.start <= part.start < part.end <= range.end
            &&& range.end <= ram.guest.end
            &&& part.start % granule == 0 && part.end % granule == 0
            &&& part.start - range.start < granule && range.end - part.end < granule
            &&& cycle.granule == granule
            &&& cycle.host.host_start - part.start == ram.host_start - ram.guest.start
            &&& cycle.host.permissions == ram.permissions
            &&& cycle.first * 0x20_0000 <= part.start - ram.guest.start < (cycle.first + 1)
                * 0x20_0000
            &&& cycle.last * 0x20_0000 <= part.end - 1 - ram.guest.start < (cycle.last + 1)
                * 0x20_0000
            &&& cycle.last < extents.states@.len()
            &&& part.start <= a < part.end ==> cycle.first <= (a - ram.guest.start) / 0x20_0000
                <= cycle.last
        }),
{
    let map = state.map->0;
    let region = choose|i: int|
        0 <= i < map.layout.regions@.len() && (
        #[trigger] map.layout.regions@[i]).range.guest.covers(range);
    assert(map.layout.in_ram(range));
    assert(map.regions@[region].wf());
    assert(map.regions@[region].region == map.layout.regions@[region]);
    crate::guest_memory::lemma_power_of_two_positive(map.layout.granule);
    vstd::arithmetic::div_mod::lemma_small_mod(0, map.layout.granule as nat);
    law_aligned_part_is_the_largest(map.layout.regions@[region], range, map.layout.granule, 0);
    let extents = map.regions@[region];
    let start = extents.region.range.guest.start;
    let part = cycle.host.guest;
    let size = extents.region.range.guest.size();
    assert(map.regions.len() <= usize::MAX);
    assert(cycle.region == region);
    assert(0 <= part.start - start <= part.end - 1 - start < size);
    assert(0 <= (part.start - start) / 0x20_0000 <= (part.end - 1 - start) / 0x20_0000);
    assert((part.end - 1 - start) / 0x20_0000 < extents.states@.len());
    assert(cycle.first == (part.start - start) / 0x20_0000);
    assert(cycle.last == (part.end - 1 - start) / 0x20_0000);
}

/// From the moment a cycle has its claim every address that it unmaps is in transition, and none
/// was before. A fault there is answered by waiting, wherever the vCPU entered the guest.
pub proof fn law_faults_wait_for_the_cycle(
    before: ReclaimState,
    after: ReclaimState,
    range: GuestRange,
    cycle: ReleaseCycle,
    a: int,
    entered: u64,
    waited: bool,
)
    requires
        before.wf(),
        after.wf(),
        range.start < range.end,
        before.release_target(range) == Some(cycle),
        before.all_free(cycle),
        after.map is Some,
        after.map->0.layout == before.map->0.layout,
        with_extents(
            before.map->0.regions@,
            after.map->0.regions@,
            cycle.region as int,
            cycle.first as int,
            cycle.last as int,
            ExtentState::Transitioning,
        ),
        cycle.host.guest.start <= a < cycle.host.guest.end,
    ensures
        after.in_transition(a),
        !before.in_transition(a),
        extent_is(before.map->0.regions@, cycle.region as int, a, ExtentState::Mapped),
        extent_is(after.map->0.regions@, cycle.region as int, a, ExtentState::Transitioning),
        after.fault_spec(
            after.map->0.regions@[cycle.region as int].states@[(a
                - after.map->0.regions@[cycle.region as int].region.range.guest.start)
                / 0x20_0000],
            entered,
            waited,
        ) == Ok::<FaultStep, ReclaimStateError>(FaultStep::Wait),
{
    law_cycle_claims_all_that_it_unmaps(before, range, cycle, a);
    let r = cycle.region as int;
    let old_regions = before.map->0.regions@;
    let new_regions = after.map->0.regions@;
    assert(new_regions[r].region == old_regions[r].region);
    let number = (a - old_regions[r].region.range.guest.start) / 0x20_0000;
    assert(new_regions[r].states@[number] == ExtentState::Transitioning);
    assert(old_regions[r].states@[number] == ExtentState::Mapped);
    assert(extent_is(new_regions, r, a, ExtentState::Transitioning));
    if before.in_transition(a) {
        let q = choose|q: int| #[trigger]
            extent_is(old_regions, q, a, ExtentState::Transitioning);
        lemma_one_region(before, r, q, a);
    }
}

/// Two cycles that are open at once share no address: while `a` is in transition no report gets
/// a cycle that would unmap it.
pub proof fn law_open_cycles_share_no_address(
    state: ReclaimState,
    range: GuestRange,
    cycle: ReleaseCycle,
    a: int,
)
    requires
        state.wf(),
        range.start < range.end,
        state.in_transition(a),
        state.release_target(range) == Some(cycle),
        cycle.host.guest.start <= a < cycle.host.guest.end,
    ensures
        !state.all_free(cycle),
{
    law_cycle_claims_all_that_it_unmaps(state, range, cycle, a);
    let regions = state.map->0.regions@;
    let r = choose|r: int| #[trigger] extent_is(regions, r, a, ExtentState::Transitioning);
    lemma_one_region(state, r, cycle.region as int, a);
    let number = (a - regions[r].region.range.guest.start) / 0x20_0000;
    if state.all_free(cycle) {
        assert(regions[cycle.region as int].states@[number] == ExtentState::Mapped);
    }
}

/// A cycle that ends gives back every address that it unmapped: none is in transition any more.
/// It is mapped again, or lost where the mapping failed.
pub proof fn law_ended_cycle_leaves_nothing_in_transition(
    opened: ReclaimState,
    range: GuestRange,
    cycle: ReleaseCycle,
    before: ReclaimState,
    after: ReclaimState,
    settled: ExtentState,
    a: int,
)
    requires
        opened.wf(),
        after.wf(),
        range.start < range.end,
        opened.release_target(range) == Some(cycle),
        before.map is Some,
        after.map is Some,
        before.map->0.regions@.len() == opened.map->0.regions@.len(),
        before.map->0.regions@[cycle.region as int].region == opened.map->0.regions@[
        cycle.region as int].region,
        before.map->0.regions@[cycle.region as int].states@.len() == opened.map->0.regions@[
        cycle.region as int].states@.len(),
        with_extents(
            before.map->0.regions@,
            after.map->0.regions@,
            cycle.region as int,
            cycle.first as int,
            cycle.last as int,
            settled,
        ),
        settled != ExtentState::Transitioning,
        cycle.host.guest.start <= a < cycle.host.guest.end,
    ensures
        extent_is(after.map->0.regions@, cycle.region as int, a, settled),
        !after.in_transition(a),
{
    law_cycle_claims_all_that_it_unmaps(opened, range, cycle, a);
    let r = cycle.region as int;
    let regions = after.map->0.regions@;
    assert(regions[r].region == before.map->0.regions@[r].region);
    let number = (a - regions[r].region.range.guest.start) / 0x20_0000;
    assert(regions[r].states@[number] == settled);
    if after.in_transition(a) {
        let q = choose|q: int| #[trigger] extent_is(regions, q, a, ExtentState::Transitioning);
        lemma_one_region(after, r, q, a);
    }
}

/// The hypervisor's permission bits are those of the RAM: reading is bit zero, writing bit one
/// and executing bit two in both.
pub proof fn law_permissions_stay_the_same(permissions: RamPermissions)
    requires
        permissions.0 <= 7,
    ensures
        hvf_flags(permissions) == permissions.0,
{
    let bits = permissions.0;
    assert((if bits & 1 != 0 {
        1int
    } else {
        0
    }) + (if bits & 2 != 0 {
        2int
    } else {
        0
    }) + (if bits & 4 != 0 {
        4int
    } else {
        0
    }) == bits) by (bit_vector)
        requires
            bits <= 7,
    ;
}

/// A cycle succeeds exactly if all three calls do. It costs the guest its memory exactly if the
/// range was unmapped and did not get mapped again; every other failure can be lived with, and
/// an error number that it reports is the one that the host gave.
pub proof fn law_cycle_is_judged_by_its_replies(reply: CycleReply)
    ensures
        cycle_result(reply) is Ok <==> reply.unmapped && reply.advice_error is None
            && reply.remapped,
        (cycle_result(reply) matches Err(CycleFailure::Fatal(_))) <==> reply.unmapped
            && !reply.remapped,
        cycle_result(reply) matches Err(CycleFailure::Recoverable(
            ReclaimStateError::DiscardAdvice(errno),
        )) ==> reply.advice_error == Some(errno),
        reply.unmapped && reply.remapped && reply.advice_error is Some ==> cycle_result(reply)
            == Err::<(), CycleFailure>(
            CycleFailure::Recoverable(ReclaimStateError::DiscardAdvice(reply.advice_error->0)),
        ),
        !reply.unmapped ==> cycle_result(reply) == Err::<(), CycleFailure>(
            CycleFailure::Recoverable(ReclaimStateError::ReleaseUnmap),
        ),
        reply.unmapped && !reply.remapped ==> cycle_result(reply) == Err::<(), CycleFailure>(
            CycleFailure::Fatal(ReclaimStateError::RestoreMap),
        ),
{
}

/// The calls of a cycle are of the range that was claimed, byte for byte: what is unmapped is
/// the guest range, what the host is advised of is the memory behind it, page by page, and what
/// is mapped again is the same memory at the same place with the same permissions. The outcome
/// is the one that the three replies call for.
pub proof fn law_cycle_puts_back_what_it_took(
    cycle: ReleaseCycle,
    advice_error: Option<i32>,
    remapped: bool,
)
    requires
        cycle.host.guest.start < cycle.host.guest.end,
        cycle.host.guest.end - cycle.host.guest.start <= usize::MAX,
        cycle.granule <= usize::MAX,
        cycle.host.permissions.0 <= 7,
    ensures
        ({
            let run = CycleRun::start(cycle);
            let unmapped = run.after(CallReply::Unmapped(true));
            let advised = unmapped.after(CallReply::Advised(advice_error));
            let ended = advised.after(CallReply::Mapped(remapped));
            &&& run.call_spec() matches CycleCall::Unmap { guest, size }
            &&& guest == cycle.host.guest.start && guest + size == cycle.host.guest.end
            &&& unmapped.call_spec() matches CycleCall::Advise { host, size: advised_size, page_size }
            &&& host == cycle.host.host_start && advised_size == size && page_size == cycle.granule
            &&& advised.call_spec() matches CycleCall::Restore {
                host: from,
                guest: to,
                size: again,
                flags,
            }
            &&& from == host && to == guest && again == size && flags == cycle.host.permissions.0
            &&& ended.call_spec() matches CycleCall::Finished(result)
            &&& result is Ok <==> remapped && advice_error is None
            &&& (result matches Err(CycleFailure::Fatal(_))) <==> !remapped
            &&& run.after(CallReply::Unmapped(false)).call_spec() matches CycleCall::Finished(left)
            &&& left matches Err(CycleFailure::Recoverable(_))
        }),
{
    law_permissions_stay_the_same(cycle.host.permissions);
}

/// Memory is released exactly while nothing has failed, the policy allows it, the probe passed and
/// there is a region of RAM.
pub proof fn law_releases_need_every_condition(state: ReclaimState)
    ensures
        state.effective() <==> !state.disabled && state.policy_enabled && state.qualification
            == ReclaimQualification::Passed && state.eligible(),
        state.eligible() <==> state.map is Some && state.map->0.layout.regions@.len() >= 1,
{
}

/// A cycle begins by taking its range away from the guest, unless the host cannot address it.
pub proof fn law_cycle_begins_mapped(cycle: ReleaseCycle)
    ensures
        CycleRun::start(cycle).cycle == cycle,
        cycle.host.guest.end - cycle.host.guest.start <= usize::MAX && cycle.granule <= usize::MAX
            ==> CycleRun::start(cycle).call_spec() is Unmap,
        cycle.host.guest.end - cycle.host.guest.start > usize::MAX || cycle.granule > usize::MAX
            ==> CycleRun::start(cycle).call_spec() == CycleCall::Finished(
            Err(CycleFailure::Recoverable(ReclaimStateError::ReleaseUnmap)),
        ),
{
}

/// A fault on mapped memory is the guest's own only if no cycle began or ended since the vCPU
/// entered and it did not wait for one; otherwise it is tried again. A fault on lost memory is an
/// error, and one on memory in transition waits, whatever came before.
pub proof fn law_faults_are_told_apart(state: ReclaimState, entered: u64, waited: bool)
    ensures
        state.fault_spec(ExtentState::Lost, entered, waited) == Err::<FaultStep, _>(
            ReclaimStateError::ExtentLost,
        ),
        state.fault_spec(ExtentState::Transitioning, entered, waited) == Ok::<
            _,
            ReclaimStateError,
        >(FaultStep::Wait),
        waited || state.transition_generation != entered ==> state.fault_spec(
            ExtentState::Mapped,
            entered,
            waited,
        ) == Ok::<_, ReclaimStateError>(FaultStep::Resolved(FaultResolution::Retry)),
        !waited && state.transition_generation == entered ==> state.fault_spec(
            ExtentState::Mapped,
            entered,
            waited,
        ) == Ok::<_, ReclaimStateError>(FaultStep::Resolved(FaultResolution::Invalid)),
{
}

} // verus!
