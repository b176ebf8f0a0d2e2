//! That no RAM is lost by the reclaim ledger, and that its bookkeeping stays within its bound.
use crate::guest_memory::{lemma_power_of_two_positive, GuestRange, RamRegion};
use crate::ledger::{
    lemma_awaited_release, lemma_pending_parts, LedgerState, PendingKind, PendingTransition,
    ReleasePlan, RestorePlan,
};
use crate::ledger_laws::{
    law_committed_release_unmaps_exactly, law_restore_maps_with_the_plan_generation,
};
use crate::mapping_runs::{
    all_mapped, carve_spec, coalesce_spec, insert_spec, law_coalesce_preserves_mapping,
    law_insert_adds_exactly_the_run, mapped, mapped_with, run_pieces,
    MappingGeneration, MappingRun,
};
use crate::ram_layout::{lemma_region_inserted, regions_wf};
use vstd::prelude::*;

verus! {

impl LedgerState {
    /// The address is of a released extent.
    pub open spec fn released_at(self, address: int) -> bool {
        exists|k: u64| #[trigger]
            self.released.contains_key(k) && self.released[k].range.guest.has(address)
    }

    /// Every address of RAM is mapped or released.
    pub open spec fn accounted(self) -> bool {
        forall|a: int| #[trigger] self.ram(a) ==> mapped(self.runs, a) || self.released_at(a)
    }
}

pub(crate) proof fn lemma_mapped_generation(runs: Seq<MappingRun>, a: int) -> (g: MappingGeneration)
    requires
        mapped(runs, a),
    ensures
        mapped_with(runs, a, g),
{
    let i = choose|i: int| 0 <= i < runs.len() && (#[trigger] runs[i]).range.has(a);
    runs[i].generation
}

pub(crate) proof fn lemma_generation_mapped(runs: Seq<MappingRun>, a: int, g: MappingGeneration)
    requires
        mapped_with(runs, a, g),
    ensures
        mapped(runs, a),
{
    let i = choose|i: int|
        0 <= i < runs.len() && (#[trigger] runs[i]).range.has(a) && runs[i].generation == g;
    assert(runs[i].range.has(a));
}

/// Registering a region loses no RAM: all of the new region is mapped.
pub proof fn law_registering_loses_no_ram(state: LedgerState, region: RamRegion)
    requires
        state.wf(),
        state.accounted(),
        region.valid(),
        state.region_aligned(region),
        !state.region_overlaps(region),
        state.granule_limit + region.range.guest.size() / (state.granule as int) <= usize::MAX,
    ensures
        state.with_region(region).accounted(),
{
    let next = state.with_region(region);
    let guest = region.range.guest;
    let run = MappingRun { range: guest, generation: MappingGeneration(0) };
    let place = lemma_region_inserted(state.granule, state.regions, region);
    crate::ledger::lemma_region_added_wf(state, region);
    law_insert_adds_exactly_the_run(state.runs, run);
    law_coalesce_preserves_mapping(insert_spec(state.runs, run));
    assert forall|a: int| #[trigger] next.ram(a) implies mapped(next.runs, a) || next.released_at(
        a,
    ) by {
        let r = choose|r: int|
            0 <= r < next.regions.len() && (#[trigger] next.regions[r]).range.guest.has(a);
        if r == place {
            assert(mapped_with(insert_spec(state.runs, run), a, MappingGeneration(0)));
            assert(mapped_with(next.runs, a, MappingGeneration(0)));
            lemma_generation_mapped(next.runs, a, MappingGeneration(0));
        } else {
            let q = if r < place {
                r
            } else {
                r - 1
            };
            assert(next.regions[r] == state.regions[q]);
            assert(state.regions[q].range.guest.has(a));
            assert(state.ram(a));
            if mapped(state.runs, a) {
                let g = lemma_mapped_generation(state.runs, a);
                assert(mapped_with(insert_spec(state.runs, run), a, g));
                assert(mapped_with(next.runs, a, g));
                lemma_generation_mapped(next.runs, a, g);
            } else {
                let k = choose|k: u64| #[trigger]
                    state.released.contains_key(k) && state.released[k].range.guest.has(a);
                assert(next.released.contains_key(k));
            }
        }
    }
}

/// A committed release loses no RAM: what it unmaps is released.
pub proof fn law_releasing_loses_no_ram(state: LedgerState, plan: ReleasePlan)
    requires
        state.wf(),
        state.accounted(),
        state.commit_release_outcome(plan).0 is Ok,
    ensures
        state.commit_release_outcome(plan).1.accounted(),
{
    law_committed_release_unmaps_exactly(state, plan);
    let done = state.commit_release_outcome(plan).1;
    assert forall|a: int| #[trigger] done.ram(a) implies mapped(done.runs, a) || done.released_at(
        a,
    ) by {
        let r = choose|r: int|
            0 <= r < done.regions.len() && (#[trigger] done.regions[r]).range.guest.has(a);
        assert(state.regions[r].range.guest.has(a));
        assert(state.ram(a));
        if plan.range.guest.has(a) {
            assert(done.released.contains_key(plan.range.guest.start));
        } else if mapped(state.runs, a) {
            let g = lemma_mapped_generation(state.runs, a);
            assert(mapped_with(done.runs, a, g));
            lemma_generation_mapped(done.runs, a, g);
        } else {
            let k = choose|k: u64| #[trigger]
                state.released.contains_key(k) && state.released[k].range.guest.has(a);
            assert(done.released.remove(plan.range.guest.start).contains_key(k));
            assert(done.released[k] == state.released[k]);
        }
    }
}

/// A restore loses no RAM, however far it has come: what is no longer released is mapped.
pub proof fn law_restoring_loses_no_ram(state: LedgerState, plan: RestorePlan, n: int)
    requires
        state.wf(),
        state.accounted(),
        state.awaits_restore(plan),
        0 <= n <= plan.ranges@.len(),
    ensures
        state.without_pending(plan.token).restored(
            plan.ranges@,
            plan.generation,
            n,
        ).accounted(),
{
    law_restore_maps_with_the_plan_generation(state, plan, n);
    let done = state.without_pending(plan.token).restored(plan.ranges@, plan.generation, n);
    assert forall|a: int| #[trigger] done.ram(a) implies mapped(done.runs, a) || done.released_at(
        a,
    ) by {
        let r = choose|r: int|
            0 <= r < done.regions.len() && (#[trigger] done.regions[r]).range.guest.has(a);
        assert(state.regions[r].range.guest.has(a));
        assert(state.ram(a));
        if mapped(state.runs, a) {
            let g = lemma_mapped_generation(state.runs, a);
            assert(mapped_with(done.runs, a, g));
            lemma_generation_mapped(done.runs, a, g);
        } else {
            let k = choose|k: u64| #[trigger]
                state.released.contains_key(k) && state.released[k].range.guest.has(a);
            if done.released.contains_key(k) {
                assert(done.released[k] == state.released[k]);
            } else {
                let i = choose|i: int|
                    0 <= i < n && (#[trigger] plan.ranges@[i]).guest.start == k;
                assert(state.released[plan.ranges@[i].guest.start].range == plan.ranges@[i]);
                assert(plan.ranges@[i].guest.has(a));
                assert(mapped_with(done.runs, a, plan.generation));
                lemma_generation_mapped(done.runs, a, plan.generation);
            }
        }
    }
}

/// The number of granules that the regions have.
pub open spec fn granules_in(granule: u64, regions: Seq<RamRegion>) -> int
    decreases regions.len(),
{
    if regions.len() == 0 {
        0
    } else {
        granules_in(granule, regions.drop_last()) + regions.last().range.guest.size() / (
        granule as int)
    }
}

/// The range is made of whole granules.
pub open spec fn whole(granule: u64, range: GuestRange) -> bool {
    range.start % granule == 0 && range.end % granule == 0
}

impl LedgerState {
    /// Whatever is mapped, released or under way is made of whole granules, and the bound on
    /// the bookkeeping is the number of granules.
    pub open spec fn in_whole_granules(self) -> bool {
        &&& self.granule_limit == granules_in(self.granule, self.regions)
        &&& forall|i: int|
            0 <= i < self.runs.len() ==> whole(self.granule, (#[trigger] self.runs[i]).range)
        &&& forall|k: u64| #[trigger]
            self.released.contains_key(k) ==> whole(self.granule, self.released[k].range.guest)
        &&& forall|i: int|
            0 <= i < self.pending.len() ==> whole(
                self.granule,
                (#[trigger] self.pending[i]).range,
            )
    }
}

/// As many starts of granules as lie in the regions are no more than the regions have.
proof fn lemma_starts_bounded(granule: u64, regions: Seq<RamRegion>, starts: Set<u64>)
    requires
        granule > 0,
        regions_wf(granule, regions),
        starts.finite(),
        forall|a: u64| #[trigger]
            starts.contains(a) ==> a % granule == 0 && exists|i: int|
                0 <= i < regions.len() && (#[trigger] regions[i]).range.guest.has(a as int),
    ensures
        starts.len() <= granules_in(granule, regions),
    decreases regions.len(),
{
    if regions.len() == 0 {
        assert(starts =~= Set::empty());
    } else {
        let last = regions.last().range.guest;
        let size = last.size();
        let g = granule as int;
        let here = starts.filter(|a: u64| last.has(a as int));
        let rest = starts.difference(here);
        let earlier = regions.drop_last();
        starts.lemma_len_filter(|a: u64| last.has(a as int));
        assert(rest.subset_of(starts));
        vstd::set_lib::lemma_len_subset(rest, starts);
        assert forall|a: u64| #[trigger] rest.contains(a) implies a % granule == 0 && exists|i: int|
            0 <= i < earlier.len() && (#[trigger] earlier[i]).range.guest.has(a as int) by {
            let i = choose|i: int|
                0 <= i < regions.len() && (#[trigger] regions[i]).range.guest.has(a as int);
            assert(earlier[i] == regions[i]);
        }
        lemma_starts_bounded(granule, earlier, rest);
        let number = |a: u64| (a - last.start) / g;
        let numbers = here.map(number);
        assert(regions[regions.len() - 1].valid());
        assert(crate::ram_layout::region_aligned(granule, regions[regions.len() - 1]));
        assert forall|a: u64, b: u64|
            here.contains(a) && here.contains(b) && #[trigger] number(a) == #[trigger] number(
                b,
            ) implies a == b by {
            lemma_same_granule(a as int, b as int, last.start as int, g);
        }
        vstd::set_lib::lemma_map_size(here, numbers, number);
        assert forall|n: int| numbers.contains(n) implies vstd::set_lib::set_int_range(
            0,
            size / g,
        ).contains(n) by {
            let a = choose|a: u64| here.contains(a) && number(a) == n;
            assert(last.has(a as int));
            lemma_granule_number(a as int, last.start as int, size, g);
        }
        vstd::arithmetic::div_mod::lemma_div_pos_is_pos(size, g);
        vstd::set_lib::lemma_int_range(0, size / g);
        vstd::set_lib::lemma_len_subset(numbers, vstd::set_lib::set_int_range(0, size / g));
        assert(starts =~= here.union(rest));
        vstd::set_lib::lemma_len_union(here, rest);
    }
}

/// Two multiples of the granule with the same number are the same.
proof fn lemma_same_granule(a: int, b: int, start: int, g: int)
    requires
        g > 0,
        a % g == 0,
        b % g == 0,
        start % g == 0,
        (a - start) / g == (b - start) / g,
    ensures
        a == b,
{
    vstd::arithmetic::div_mod::lemma_fundamental_div_mod(a, g);
    vstd::arithmetic::div_mod::lemma_fundamental_div_mod(b, g);
    vstd::arithmetic::div_mod::lemma_fundamental_div_mod(start, g);
    assert(a - start == g * (a / g - start / g)) by (nonlinear_arith)
        requires
            a == g * (a / g),
            start == g * (start / g),
    ;
    assert(b - start == g * (b / g - start / g)) by (nonlinear_arith)
        requires
            b == g * (b / g),
            start == g * (start / g),
    ;
    vstd::arithmetic::div_mod::lemma_div_multiples_vanish(a / g - start / g, g);
    vstd::arithmetic::div_mod::lemma_div_multiples_vanish(b / g - start / g, g);
}

/// A granule of a region has a number below the region's number of granules.
proof fn lemma_granule_number(a: int, start: int, size: int, g: int)
    requires
        g > 0,
        start <= a < start + size,
        a % g == 0,
        start % g == 0,
        size % g == 0,
    ensures
        0 <= (a - start) / g < size / g,
{
    vstd::arithmetic::div_mod::lemma_fundamental_div_mod(size, g);
    vstd::arithmetic::div_mod::lemma_fundamental_div_mod(a - start, g);
    vstd::arithmetic::div_mod::lemma_mod_bound(a - start, g);
    vstd::arithmetic::div_mod::lemma_div_pos_is_pos(a - start, g);
    assert((a - start) / g < size / g) by (nonlinear_arith)
        requires
            g > 0,
            a - start < size,
            size == g * (size / g),
            a - start == g * ((a - start) / g) + (a - start) % g,
            0 <= (a - start) % g,
    ;
}

/// Where everything is made of whole granules, the bookkeeping is within its bound.
pub proof fn law_whole_granules_keep_the_bound(state: LedgerState)
    requires
        state.wf(),
        state.in_whole_granules(),
    ensures
        !state.over_limit(),
{
    let g = state.granule;
    lemma_power_of_two_positive(g);
    assert forall|a: u64| #[trigger] state.released.dom().contains(a) implies a % g == 0 && exists|
        i: int,
    |
        0 <= i < state.regions.len() && (#[trigger] state.regions[i]).range.guest.has(a as int) by {
        assert(state.released.contains_key(a));
        let r = choose|r: int|
            0 <= r < state.regions.len() && (#[trigger] state.regions[r]).range.guest.covers(
                state.released[a].range.guest,
            );
        assert(state.regions[r].range.guest.has(a as int));
    }
    lemma_starts_bounded(g, state.regions, state.released.dom());
    let run_starts = state.runs.map_values(|run: MappingRun| run.range.start);
    assert forall|i: int, j: int|
        0 <= i < run_starts.len() && 0 <= j < run_starts.len() && i != j implies run_starts[i]
        != run_starts[j] by {
        assert(state.runs[i].range.valid() && state.runs[j].range.valid());
        if i < j {
            assert(state.runs[i].range.end <= state.runs[j].range.start);
        } else {
            assert(state.runs[j].range.end <= state.runs[i].range.start);
        }
    }
    run_starts.unique_seq_to_set();
    assert forall|a: u64| #[trigger] run_starts.to_set().contains(a) implies a % g == 0 && exists|
        i: int,
    |
        0 <= i < state.regions.len() && (#[trigger] state.regions[i]).range.guest.has(a as int) by {
        let k = choose|k: int| 0 <= k < run_starts.len() && run_starts[k] == a;
        assert(state.runs[k].range.valid());
        assert(state.runs[k].range.has(a as int));
        assert(mapped(state.runs, a as int));
        assert(state.ram(a as int));
    }
    lemma_starts_bounded(g, state.regions, run_starts.to_set());
    let pending_starts = state.pending.map_values(|p: PendingTransition| p.range.start);
    assert forall|i: int, j: int|
        0 <= i < pending_starts.len() && 0 <= j < pending_starts.len() && i
            != j implies pending_starts[i] != pending_starts[j] by {
        assert(state.pending[i].range.valid() && state.pending[j].range.valid());
        if i < j {
            assert(!state.pending[i].range.meets(state.pending[j].range));
        } else {
            assert(!state.pending[j].range.meets(state.pending[i].range));
        }
    }
    pending_starts.unique_seq_to_set();
    assert forall|a: u64| #[trigger] pending_starts.to_set().contains(a) implies a % g == 0
        && exists|i: int|
        0 <= i < state.regions.len() && (#[trigger] state.regions[i]).range.guest.has(a as int) by {
        let k = choose|k: int| 0 <= k < pending_starts.len() && pending_starts[k] == a;
        assert(state.pending[k].range.valid());
        let r = choose|r: int|
            0 <= r < state.regions.len() && (#[trigger] state.regions[r]).range.guest.covers(
                state.pending[k].range,
            );
        assert(state.regions[r].range.guest.has(a as int));
    }
    lemma_starts_bounded(g, state.regions, pending_starts.to_set());
}

proof fn lemma_carve_whole(granule: u64, runs: Seq<MappingRun>, cut: GuestRange)
    requires
        whole(granule, cut),
        forall|i: int| 0 <= i < runs.len() ==> whole(granule, (#[trigger] runs[i]).range),
    ensures
        forall|i: int|
            0 <= i < carve_spec(runs, cut).len() ==> whole(
                granule,
                (#[trigger] carve_spec(runs, cut)[i]).range,
            ),
    decreases runs.len(),
{
    if runs.len() > 0 {
        let rest = runs.drop_last();
        assert forall|i: int| 0 <= i < rest.len() implies whole(
            granule,
            (#[trigger] rest[i]).range,
        ) by {
            assert(rest[i] == runs[i]);
        }
        lemma_carve_whole(granule, rest, cut);
        assert(whole(granule, runs[runs.len() - 1].range));
        let before = carve_spec(rest, cut);
        let pieces = run_pieces(runs.last(), cut);
        assert forall|i: int| 0 <= i < carve_spec(runs, cut).len() implies whole(
            granule,
            (#[trigger] carve_spec(runs, cut)[i]).range,
        ) by {
            if i < before.len() {
                assert(carve_spec(runs, cut)[i] == before[i]);
            } else {
                assert(carve_spec(runs, cut)[i] == pieces[i - before.len()]);
            }
        }
    }
}

/// In a ledger in which all is made of whole granules and no RAM was lost, the release of
/// whole granules that was planned can be committed, and the ledger stays such.
pub proof fn law_planned_release_can_be_committed(state: LedgerState, plan: ReleasePlan)
    requires
        state.wf(),
        state.accounted(),
        state.in_whole_granules(),
        state.awaits_release(plan),
    ensures
        state.commit_release_outcome(plan).0 is Ok,
        state.commit_release_outcome(plan).1.accounted(),
        state.commit_release_outcome(plan).1.in_whole_granules(),
{
    lemma_awaited_release(state, plan);
    lemma_pending_parts(state.pending, plan.token);
    let guest = plan.range.guest;
    let of = crate::ledger::pending_of(state.pending, plan.token);
    let awaited = PendingTransition {
        token: plan.token,
        range: guest,
        kind: PendingKind::Release,
    };
    assert(of[0] == awaited);
    let at = choose|at: int| 0 <= at < state.pending.len() && state.pending[at] == of[0];
    assert(whole(state.granule, state.pending[at].range));
    assert(all_mapped(state.runs, guest)) by {
        assert forall|a: int| #[trigger] guest.has(a) implies mapped(state.runs, a) by {
            let r = choose|r: int|
                0 <= r < state.regions.len() && (#[trigger] state.regions[r]).range.guest.covers(
                    guest,
                );
            assert(state.regions[r].range.guest.has(a));
            assert(state.ram(a));
            if state.released_at(a) {
                let k = choose|k: u64| #[trigger]
                    state.released.contains_key(k) && state.released[k].range.guest.has(a);
                assert(state.released[k].range.guest.meets(guest));
                assert(state.meets_released(guest));
            }
        }
    }
    let dropped = state.without_pending(plan.token);
    let carved = LedgerState { runs: carve_spec(state.runs, guest), ..dropped };
    let done = LedgerState {
        released: state.released.insert(
            guest.start,
            crate::ledger::ReleasedExtent { range: plan.range, generation: plan.generation },
        ),
        ..carved
    };
    crate::ledger::lemma_without_pending_wf(state, plan.token);
    crate::ledger::lemma_carved_wf(dropped, guest);
    lemma_carve_whole(state.granule, state.runs, guest);
    assert forall|i: int| 0 <= i < carved.pending.len() implies whole(
        carved.granule,
        (#[trigger] carved.pending[i]).range,
    ) by {
        let k = choose|k: int| 0 <= k < state.pending.len() && state.pending[k] == carved.pending[i];
        assert(whole(state.granule, state.pending[k].range));
    }
    assert(carved.in_whole_granules());
    law_whole_granules_keep_the_bound(carved);
    assert(carved.in_ram(guest)) by {
        let r = choose|r: int|
            0 <= r < state.regions.len() && (#[trigger] state.regions[r]).range.guest.covers(guest);
        assert(carved.regions[r].range.guest.covers(guest));
    }
    assert(!carved.meets_released(guest)) by {
        if carved.meets_released(guest) {
            let k = choose|k: u64| #[trigger]
                carved.released.contains_key(k) && carved.released[k].range.guest.meets(guest);
            assert(state.released.contains_key(k));
        }
    }
    crate::ledger::lemma_meets_pending_same(dropped, carved, guest);
    crate::ledger::lemma_released_added_wf(carved, plan);
    assert(done.wf());
    assert forall|k: u64| #[trigger] done.released.contains_key(k) implies whole(
        done.granule,
        done.released[k].range.guest,
    ) by {
        if k != guest.start {
            assert(state.released.contains_key(k));
        }
    }
    assert(done.in_whole_granules());
    law_whole_granules_keep_the_bound(done);
    law_releasing_loses_no_ram(state, plan);
}

pub(crate) proof fn lemma_insert_whole(granule: u64, runs: Seq<MappingRun>, run: MappingRun)
    requires
        whole(granule, run.range),
        forall|i: int| 0 <= i < runs.len() ==> whole(granule, (#[trigger] runs[i]).range),
    ensures
        forall|i: int|
            0 <= i < insert_spec(runs, run).len() ==> whole(
                granule,
                (#[trigger] insert_spec(runs, run)[i]).range,
            ),
    decreases runs.len(),
{
    if runs.len() > 0 && runs.last().range.start > run.range.start {
        let rest = runs.drop_last();
        assert forall|i: int| 0 <= i < rest.len() implies whole(
            granule,
            (#[trigger] rest[i]).range,
        ) by {
            assert(rest[i] == runs[i]);
        }
        lemma_insert_whole(granule, rest, run);
        assert(whole(granule, runs[runs.len() - 1].range));
        let before = insert_spec(rest, run);
        assert forall|i: int| 0 <= i < insert_spec(runs, run).len() implies whole(
            granule,
            (#[trigger] insert_spec(runs, run)[i]).range,
        ) by {
            if i < before.len() {
                assert(insert_spec(runs, run)[i] == before[i]);
            }
        }
    }
}

pub(crate) proof fn lemma_coalesce_whole(granule: u64, runs: Seq<MappingRun>)
    requires
        forall|i: int| 0 <= i < runs.len() ==> whole(granule, (#[trigger] runs[i]).range),
    ensures
        forall|i: int|
            0 <= i < coalesce_spec(runs).len() ==> whole(
                granule,
                (#[trigger] coalesce_spec(runs)[i]).range,
            ),
    decreases runs.len(),
{
    if runs.len() > 0 {
        let rest = runs.drop_last();
        assert forall|i: int| 0 <= i < rest.len() implies whole(
            granule,
            (#[trigger] rest[i]).range,
        ) by {
            assert(rest[i] == runs[i]);
        }
        lemma_coalesce_whole(granule, rest);
        assert(whole(granule, runs[runs.len() - 1].range));
        let done = coalesce_spec(rest);
        assert forall|i: int| 0 <= i < coalesce_spec(runs).len() implies whole(
            granule,
            (#[trigger] coalesce_spec(runs)[i]).range,
        ) by {
            if i < done.len() - 1 {
                assert(coalesce_spec(runs)[i] == done[i]);
            } else if done.len() > 0 {
                assert(whole(granule, done[done.len() - 1].range));
            }
        }
    }
}

/// In a ledger in which all is made of whole granules, a restore that was planned stays within
/// the bound at every step, so that it can be committed, and the ledger stays such.
pub proof fn law_planned_restore_can_be_committed(state: LedgerState, plan: RestorePlan, n: int)
    requires
        state.wf(),
        state.in_whole_granules(),
        state.awaits_restore(plan),
        0 <= n <= plan.ranges@.len(),
    ensures
        ({
            let done = state.without_pending(plan.token).restored(
                plan.ranges@,
                plan.generation,
                n,
            );
            !done.over_limit() && done.in_whole_granules()
        }),
    decreases n,
{
    let dropped = state.without_pending(plan.token);
    let done = dropped.restored(plan.ranges@, plan.generation, n);
    law_restore_maps_with_the_plan_generation(state, plan, n);
    if n == 0 {
        lemma_pending_parts(state.pending, plan.token);
        assert forall|i: int| 0 <= i < done.pending.len() implies whole(
            done.granule,
            (#[trigger] done.pending[i]).range,
        ) by {
            let k = choose|k: int|
                0 <= k < state.pending.len() && state.pending[k] == done.pending[i];
            assert(whole(state.granule, state.pending[k].range));
        }
        assert(done.runs == state.runs);
        assert(done.released == state.released);
    } else {
        law_planned_restore_can_be_committed(state, plan, n - 1);
        let before = dropped.restored(plan.ranges@, plan.generation, n - 1);
        let range = plan.ranges@[n - 1];
        let run = MappingRun { range: range.guest, generation: plan.generation };
        assert(state.released.contains_key(range.guest.start));
        assert(whole(state.granule, range.guest));
        lemma_insert_whole(state.granule, before.runs, run);
        lemma_coalesce_whole(state.granule, insert_spec(before.runs, run));
        assert(done.runs == coalesce_spec(insert_spec(before.runs, run)));
        assert forall|k: u64| #[trigger] done.released.contains_key(k) implies whole(
            done.granule,
            done.released[k].range.guest,
        ) by {
            assert(state.released.contains_key(k));
            assert(done.released[k] == state.released[k]);
        }
        assert forall|i: int| 0 <= i < done.pending.len() implies whole(
            done.granule,
            (#[trigger] done.pending[i]).range,
        ) by {
            assert(done.pending[i] == before.pending[i]);
        }
    }
    assert(done.in_whole_granules());
    law_whole_granules_keep_the_bound(done);
}

} // verus!
