//! Checked bookkeeping for host reclaim of guest RAM.
//!
//! The ledger performs no hypervisor or host-memory operation. A caller first reserves a
//! release or restore transition, performs the operation, then commits or aborts the
//! exact token. Reservations exclude overlapping transitions and leases. Generations and
//! token numbers are checked and never reused, so exhaustion disables further
//! transitions.
use crate::guest_memory::{
    is_power_of_two, is_power_of_two_spec, lemma_power_of_two_positive, GuestRange, HostRange,
    RamRegion, ReclaimError,
};
use crate::ledger_bounds::{
    law_planned_release_can_be_committed, law_planned_restore_can_be_committed,
};
use crate::ledger_memory::law_aligned_part_is_the_largest;
use crate::ledger_sound::{
    law_aligned_ranges_are_whole_granules, lemma_counted_follows, lemma_lease_ended_follows,
    lemma_lease_granted_follows, lemma_planned_release_is_open, lemma_registered_follows,
    lemma_release_aborted_follows, lemma_release_committed_follows, lemma_release_planned_follows,
    lemma_restore_aborted_follows, lemma_restore_committed_follows, lemma_restore_planned_follows,
    restore_committed,
};
use crate::mapping_runs::{
    all_mapped, carve, carve_spec, coalesce, coalesce_spec, covers_range,
    find_generation, insert_run, insert_spec, law_carve_removes_exactly_the_cut,
    law_coalesce_preserves_mapping, law_insert_adds_exactly_the_run, mapped, mapped_with,
    runs_ordered, MappingGeneration, MappingRun,
};
use crate::ram_layout::{
    insert_region, insert_region_spec, lemma_region_inserted, overlaps_any, region_aligned,
    region_overlaps, regions_wf,
};
use std::collections::BTreeMap;
use vstd::prelude::*;
use vstd::std_specs::cmp::OrdSpec;
use vstd::std_specs::iter::IteratorSpec;

verus! {

broadcast use vstd::std_specs::btree::group_btree_axioms;

/// Names a host-access lease.
#[derive(Clone, Copy, Debug, PartialEq, Eq, PartialOrd, Ord, Structural)]
pub struct LeaseId(pub u64);

/// Permission to release a range; redeemed by a commit or an abort.
#[derive(Clone, Copy, Debug, PartialEq, Eq, Structural)]
pub struct ReleasePlan {
    pub token: u64,
    pub range: HostRange,
    pub generation: MappingGeneration,
}

impl ReleasePlan {
    pub fn range(self) -> (result: HostRange)
        ensures
            result == self.range,
    {
        self.range
    }
}

/// The released ranges that have to be restored before a range can be accessed.
#[derive(Clone, Debug, PartialEq, Eq)]
pub struct RestorePlan {
    pub token: u64,
    pub access: GuestRange,
    pub ranges: Vec<HostRange>,
    pub generation: MappingGeneration,
    pub lease: LeaseId,
}

impl RestorePlan {
    pub fn ranges(&self) -> (result: &Vec<HostRange>)
        ensures
            result@ == self.ranges@,
    {
        &self.ranges
    }
}

/// How a range becomes accessible: at once, or after a restore.
#[derive(Clone, Debug, PartialEq, Eq)]
pub enum AccessPlan {
    Leased(LeaseId),
    Restore(RestorePlan),
}

/// A stretch of RAM whose host memory was given back.
#[derive(Clone, Copy, Debug, PartialEq, Eq, Structural)]
pub struct ReleasedExtent {
    pub range: HostRange,
    pub generation: MappingGeneration,
}

#[derive(Clone, Copy, Debug, PartialEq, Eq, Structural)]
pub enum PendingKind {
    Release,
    /// For an access, whose lease is reserved.
    Restore { lease: u64 },
}

/// A range reserved under a token until the transition is committed or aborted.
#[derive(Clone, Copy, Debug, PartialEq, Eq, Structural)]
pub struct PendingTransition {
    pub token: u64,
    pub range: GuestRange,
    pub kind: PendingKind,
}

/// The reclaim ledger: which RAM is mapped, which is released, and what is under way.
///
/// `pending` holds the reserved ranges in the order in which they were reserved.
#[derive(Debug)]
pub struct ReclaimLedger {
    pub granule: u64,
    pub regions: Vec<RamRegion>,
    pub released: BTreeMap<u64, ReleasedExtent>,
    pub leases: BTreeMap<u64, GuestRange>,
    pub reserved_leases: BTreeMap<u64, GuestRange>,
    pub pending: Vec<PendingTransition>,
    pub mapping_runs: Vec<MappingRun>,
    pub granule_limit: usize,
    pub next_generation: u64,
    pub next_lease: u64,
    pub next_token: u64,
}

/// The contents of a ledger.
#[verifier::ext_equal]
pub struct LedgerState {
    pub granule: u64,
    pub regions: Seq<RamRegion>,
    pub released: Map<u64, ReleasedExtent>,
    pub leases: Map<u64, GuestRange>,
    pub reserved_leases: Map<u64, GuestRange>,
    pub pending: Seq<PendingTransition>,
    pub runs: Seq<MappingRun>,
    pub granule_limit: usize,
    pub next_generation: u64,
    pub next_lease: u64,
    pub next_token: u64,
}

impl View for ReclaimLedger {
    type V = LedgerState;

    open spec fn view(&self) -> LedgerState {
        LedgerState {
            granule: self.granule,
            regions: self.regions@,
            released: self.released@,
            leases: self.leases@,
            reserved_leases: self.reserved_leases@,
            pending: self.pending@,
            runs: self.mapping_runs@,
            granule_limit: self.granule_limit,
            next_generation: self.next_generation,
            next_lease: self.next_lease,
            next_token: self.next_token,
        }
    }
}

/// The transitions reserved under `token`, in order.
pub open spec fn pending_of(pending: Seq<PendingTransition>, token: u64) -> Seq<PendingTransition>
    decreases pending.len(),
{
    if pending.len() == 0 {
        seq![]
    } else {
        let head = pending_of(pending.drop_last(), token);
        if pending.last().token == token {
            head.push(pending.last())
        } else {
            head
        }
    }
}

/// The transitions reserved under other tokens than `token`, in order.
pub open spec fn pending_without(pending: Seq<PendingTransition>, token: u64) -> Seq<
    PendingTransition,
>
    decreases pending.len(),
{
    if pending.len() == 0 {
        seq![]
    } else {
        let head = pending_without(pending.drop_last(), token);
        if pending.last().token == token {
            head
        } else {
            head.push(pending.last())
        }
    }
}

/// The restore transitions for `ranges` under `token`, for the access with that lease.
pub open spec fn restore_transitions(token: u64, lease: u64, ranges: Seq<HostRange>) -> Seq<
    PendingTransition,
> {
    Seq::new(
        ranges.len(),
        |i: int|
            PendingTransition {
                token,
                range: ranges[i].guest,
                kind: PendingKind::Restore { lease },
            },
    )
}

/// The runs after the first `n` of `ranges` were mapped again with `generation`.
pub open spec fn restored_runs(
    runs: Seq<MappingRun>,
    ranges: Seq<HostRange>,
    generation: MappingGeneration,
    n: int,
) -> Seq<MappingRun>
    decreases n,
{
    if n <= 0 {
        runs
    } else {
        coalesce_spec(
            insert_spec(
                restored_runs(runs, ranges, generation, n - 1),
                MappingRun { range: ranges[n - 1].guest, generation },
            ),
        )
    }
}

/// The released extents after the first `n` of `ranges` were taken out.
pub open spec fn released_after(
    released: Map<u64, ReleasedExtent>,
    ranges: Seq<HostRange>,
    n: int,
) -> Map<u64, ReleasedExtent>
    decreases n,
{
    if n <= 0 {
        released
    } else {
        released_after(released, ranges, n - 1).remove(ranges[n - 1].guest.start)
    }
}

/// `extents` are the ranges of the released extents that overlap `range`, by address.
pub open spec fn overlapping_extents(
    released: Map<u64, ReleasedExtent>,
    range: GuestRange,
    extents: Seq<HostRange>,
) -> bool {
    &&& forall|i: int|
        0 <= i < extents.len() ==> {
            &&& released.contains_key((#[trigger] extents[i]).guest.start)
            &&& released[extents[i].guest.start].range == extents[i]
            &&& extents[i].guest.meets(range)
        }
    &&& forall|i: int, j: int|
        0 <= i < j < extents.len() ==> (#[trigger] extents[i]).guest.start < (
        #[trigger] extents[j]).guest.start
    &&& forall|k: u64| #[trigger]
        released.contains_key(k) && released[k].range.guest.meets(range) ==> extents.contains(
            released[k].range,
        )
}

/// `keys` are the keys of `map` in increasing order, and `values` are their values.
pub open spec fn lists_map<V>(map: Map<u64, V>, keys: Seq<u64>, values: Seq<V>) -> bool {
    &&& keys.len() == values.len()
    &&& forall|i: int| 0 <= i < keys.len() ==> map.contains_key(#[trigger] keys[i])
    &&& forall|i: int| 0 <= i < keys.len() ==> values[i] == map[#[trigger] keys[i]]
    &&& forall|k: u64| #[trigger] map.contains_key(k) ==> keys.contains(k)
    &&& forall|i: int, j: int| 0 <= i < j < keys.len() ==> #[trigger] keys[i] < #[trigger] keys[j]
}

impl LedgerState {
    /// `range` lies wholly in one registered region.
    pub open spec fn in_ram(self, range: GuestRange) -> bool {
        exists|i: int| 0 <= i < self.regions.len() && (#[trigger] self.regions[i]).range.guest.covers(range)
    }

    /// `region` is the registered region that holds `range`.
    pub open spec fn region_of(self, range: GuestRange, region: RamRegion) -> bool {
        self.regions.contains(region) && region.range.guest.covers(range)
    }

    /// `address` lies in a registered region.
    pub open spec fn ram(self, address: int) -> bool {
        exists|i: int|
            0 <= i < self.regions.len() && (#[trigger] self.regions[i]).range.guest.has(address)
    }

    /// Every generation in use was handed out by this ledger.
    pub open spec fn generations_issued(self) -> bool {
        &&& forall|a: int, g: MappingGeneration| #[trigger]
            mapped_with(self.runs, a, g) ==> g.0 < self.next_generation
        &&& forall|k: u64| #[trigger]
            self.released.contains_key(k) ==> self.released[k].generation.0 < self.next_generation
    }

    pub open spec fn meets_released(self, range: GuestRange) -> bool {
        exists|k: u64| #[trigger]
            self.released.contains_key(k) && self.released[k].range.guest.meets(range)
    }

    pub open spec fn meets_pending(self, range: GuestRange) -> bool {
        exists|i: int| 0 <= i < self.pending.len() && (#[trigger] self.pending[i]).range.meets(range)
    }

    pub open spec fn meets_lease(self, range: GuestRange) -> bool {
        exists|k: u64| #[trigger] self.leases.contains_key(k) && self.leases[k].meets(range)
    }

    /// A restore is under way for an access to a part of `range`.
    pub open spec fn meets_reserved(self, range: GuestRange) -> bool {
        exists|k: u64| #[trigger]
            self.reserved_leases.contains_key(k) && self.reserved_leases[k].meets(range)
    }

    /// Some count of bookkeeping entries is above the number of RAM granules.
    pub open spec fn over_limit(self) -> bool {
        ||| self.released.len() > self.granule_limit
        ||| self.pending.len() > self.granule_limit
        ||| self.runs.len() > self.granule_limit
        ||| self.leases.len() + self.reserved_leases.len() > self.granule_limit
    }

    /// The regions are valid, aligned, ordered, and share no guest or host address.
    pub open spec fn regions_wf(self) -> bool {
        regions_wf(self.granule, self.regions)
    }

    /// Released extents are found under their start, do not overlap and are not mapped.
    pub open spec fn released_wf(self) -> bool {
        &&& forall|k: u64| #[trigger]
            self.released.contains_key(k) ==> {
                &&& self.released[k].range.guest.start == k
                &&& self.released[k].range.guest.valid()
                &&& self.in_ram(self.released[k].range.guest)
            }
        &&& forall|k: u64, l: u64| #[trigger]
            self.released.contains_key(k) && #[trigger] self.released.contains_key(l) && k != l
                ==> !self.released[k].range.guest.meets(self.released[l].range.guest)
        &&& forall|k: u64, i: int| #[trigger]
            self.released.contains_key(k) && 0 <= i < self.runs.len()
                ==> !(#[trigger] self.runs[i]).range.meets(self.released[k].range.guest)
    }

    /// Pending transitions do not overlap; what is to be released is not released yet,
    /// what is to be restored is a released extent.
    pub open spec fn pending_wf(self) -> bool {
        &&& forall|i: int|
            0 <= i < self.pending.len() ==> {
                &&& (#[trigger] self.pending[i]).range.valid()
                &&& self.in_ram(self.pending[i].range)
                &&& self.pending[i].token < self.next_token
                &&& self.pending[i].kind == PendingKind::Release ==> !self.meets_released(
                    self.pending[i].range,
                )
                &&& self.pending[i].kind is Restore ==> {
                    &&& self.released.contains_key(self.pending[i].range.start)
                    &&& self.released[self.pending[i].range.start].range.guest
                        == self.pending[i].range
                }
            }
        &&& forall|i: int, j: int|
            0 <= i < j < self.pending.len() ==> {
                &&& !(#[trigger] self.pending[i]).range.meets((#[trigger] self.pending[j]).range)
                &&& self.pending[i].token <= self.pending[j].token
            }
    }

    /// Lease numbers in use were all handed out, each once.
    pub open spec fn leases_wf(self) -> bool {
        &&& forall|k: u64| #[trigger] self.leases.contains_key(k) ==> k < self.next_lease
        &&& forall|k: u64| #[trigger] self.reserved_leases.contains_key(k) ==> k < self.next_lease
        &&& forall|k: u64|
            #![trigger self.leases.contains_key(k)]
            #![trigger self.reserved_leases.contains_key(k)]
            !(self.leases.contains_key(k) && self.reserved_leases.contains_key(k))
        &&& self.leases.dom().finite()
        &&& self.reserved_leases.dom().finite()
        &&& self.leases.len() + self.reserved_leases.len() <= self.granule_limit
    }

    /// What holds of every ledger, whatever was done to it.
    pub open spec fn wf(self) -> bool {
        &&& is_power_of_two_spec(self.granule)
        &&& self.regions_wf()
        &&& runs_ordered(self.runs)
        &&& forall|a: int| #[trigger] mapped(self.runs, a) ==> self.ram(a)
        &&& self.released.dom().finite()
        &&& self.released_wf()
        &&& self.pending_wf()
        &&& self.leases_wf()
        &&& self.next_generation >= 1
        &&& self.next_lease >= 1
        &&& self.next_token >= 1
    }

    /// The transitions reserved under the plan's token are the release of its range.
    pub open spec fn awaits_release(self, plan: ReleasePlan) -> bool {
        pending_of(self.pending, plan.token) == seq![
            PendingTransition {
                token: plan.token,
                range: plan.range.guest,
                kind: PendingKind::Release,
            },
        ]
    }

    /// The plan's token, lease and ranges are the reserved ones.
    pub open spec fn awaits_restore(self, plan: RestorePlan) -> bool {
        &&& plan.ranges@.len() > 0
        &&& pending_of(self.pending, plan.token) == restore_transitions(
            plan.token,
            plan.lease.0,
            plan.ranges@,
        )
        &&& self.reserved_leases.contains_key(plan.lease.0)
        &&& self.reserved_leases[plan.lease.0] == plan.access
        &&& forall|i: int|
            0 <= i < plan.ranges@.len() ==> {
                &&& self.released.contains_key((#[trigger] plan.ranges@[i]).guest.start)
                &&& self.released[plan.ranges@[i].guest.start].range == plan.ranges@[i]
            }
    }

    /// The state after the reservation under `token` was dropped.
    pub open spec fn without_pending(self, token: u64) -> LedgerState {
        LedgerState { pending: pending_without(self.pending, token), ..self }
    }

    /// What `prepare_release` answers for an aligned range, and the state it leaves.
    pub open spec fn release_outcome(self, range: HostRange) -> (
        Result<Option<ReleasePlan>, ReclaimError>,
        LedgerState,
    ) {
        if self.meets_released(range.guest) {
            (Err(ReclaimError::Released), self)
        } else if self.meets_pending(range.guest) {
            (Err(ReclaimError::Busy), self)
        } else if self.meets_lease(range.guest) {
            (Err(ReclaimError::ActiveLease), self)
        } else if self.meets_reserved(range.guest) {
            (Err(ReclaimError::Busy), self)
        } else if self.next_token == u64::MAX {
            (Err(ReclaimError::TokenExhausted), self)
        } else if self.next_generation == u64::MAX {
            (
                Err(ReclaimError::GenerationExhausted),
                LedgerState { next_token: (self.next_token + 1) as u64, ..self },
            )
        } else {
            (
                Ok(
                    Some(
                        ReleasePlan {
                            token: self.next_token,
                            range,
                            generation: MappingGeneration(self.next_generation),
                        },
                    ),
                ),
                LedgerState {
                    pending: self.pending.push(
                        PendingTransition {
                            token: self.next_token,
                            range: range.guest,
                            kind: PendingKind::Release,
                        },
                    ),
                    next_token: (self.next_token + 1) as u64,
                    next_generation: (self.next_generation + 1) as u64,
                    ..self
                },
            )
        }
    }

    /// What `commit_release` answers and the state it leaves.
    pub open spec fn commit_release_outcome(self, plan: ReleasePlan) -> (
        Result<(), ReclaimError>,
        LedgerState,
    ) {
        let dropped = self.without_pending(plan.token);
        let carved = LedgerState { runs: carve_spec(self.runs, plan.range.guest), ..dropped };
        let done = LedgerState {
            released: self.released.insert(
                plan.range.guest.start,
                ReleasedExtent { range: plan.range, generation: plan.generation },
            ),
            ..carved
        };
        if !self.awaits_release(plan) {
            (Err(ReclaimError::InvalidTransition), self)
        } else if !all_mapped(self.runs, plan.range.guest) {
            (Err(ReclaimError::InvalidTransition), dropped)
        } else if carved.over_limit() {
            (Err(ReclaimError::MetadataLimit), carved)
        } else if done.over_limit() {
            (Err(ReclaimError::MetadataLimit), done)
        } else {
            (Ok(()), done)
        }
    }

    /// No further lease can be handed out.
    pub open spec fn leases_exhausted(self) -> bool {
        self.leases.len() + self.reserved_leases.len() >= self.granule_limit || self.next_lease
            == u64::MAX
    }

    /// What `prepare_access` answers where nothing has to be restored.
    pub open spec fn lease_outcome(self, range: GuestRange) -> (
        Result<AccessPlan, ReclaimError>,
        LedgerState,
    ) {
        if self.leases_exhausted() {
            (Err(ReclaimError::LeaseExhausted), self)
        } else {
            (
                Ok(AccessPlan::Leased(LeaseId(self.next_lease))),
                LedgerState {
                    leases: self.leases.insert(self.next_lease, range),
                    next_lease: (self.next_lease + 1) as u64,
                    ..self
                },
            )
        }
    }

    /// The state after a restore of `extents` for `range` was reserved.
    pub open spec fn restore_reserved(self, range: GuestRange, extents: Seq<HostRange>) -> LedgerState {
        LedgerState {
            pending: self.pending + restore_transitions(
                self.next_token,
                self.next_lease,
                extents,
            ),
            reserved_leases: self.reserved_leases.insert(self.next_lease, range),
            next_token: (self.next_token + 1) as u64,
            next_generation: (self.next_generation + 1) as u64,
            next_lease: (self.next_lease + 1) as u64,
            ..self
        }
    }

    /// The state after the first `n` ranges of a restore were mapped again.
    pub open spec fn restored(
        self,
        ranges: Seq<HostRange>,
        generation: MappingGeneration,
        n: int,
    ) -> LedgerState {
        LedgerState {
            runs: restored_runs(self.runs, ranges, generation, n),
            released: released_after(self.released, ranges, n),
            ..self
        }
    }
}

proof fn lemma_increasing(keys: Seq<u64>)
    requires
        vstd::std_specs::btree::increasing_seq(keys),
    ensures
        forall|i: int, j: int| 0 <= i < j < keys.len() ==> #[trigger] keys[i] < #[trigger] keys[j],
{
    broadcast use vstd::std_specs::btree::axiom_increasing_seq_meaning;

    assert forall|i: int, j: int| 0 <= i < j < keys.len() implies #[trigger] keys[i]
        < #[trigger] keys[j] by {
        assert(keys[i].cmp_spec(&keys[j]) is Less);
    }
}

/// The values of a map in the order of their keys.
fn values_in_order<V: Copy>(map: &BTreeMap<u64, V>) -> (result: Vec<V>)
    ensures
        exists|keys: Seq<u64>| #[trigger] lists_map(map@, keys, result@),
{
    let mut values: Vec<V> = Vec::new();
    let walk = map.values();
    let ghost order = walk.remaining();
    let ghost keys = choose|keys: Seq<u64>|
        {
            &&& vstd::std_specs::btree::increasing_seq(keys)
            &&& keys.to_set() == map@.dom()
            &&& keys.no_duplicates()
            &&& order == keys.map(|i: int, k| &map@[k])
        };
    for value in iter: walk
        invariant
            iter.seq() == order,
            values@ == order.take(iter.index() as int).unref(),
    {
        values.push(*value);
    }
    proof {
        assert(order.take(order.len() as int) == order);
        assert(values@ == order.unref());
        assert forall|i: int| 0 <= i < keys.len() implies map@.contains_key(
            #[trigger] keys[i],
        ) by {
            assert(keys.to_set().contains(keys[i]));
        }
        assert forall|k: u64| #[trigger] map@.contains_key(k) implies keys.contains(k) by {
            assert(keys.to_set().contains(k));
        }
        assert forall|i: int| 0 <= i < keys.len() implies values@[i] == map@[#[trigger] keys[i]] by {
            assert(*order[i] == map@[keys[i]]);
        }
        lemma_increasing(keys);
        assert(lists_map(map@, keys, values@));
    }
    values
}

/// Whether some range of the map overlaps `range`.
fn any_overlaps(map: &BTreeMap<u64, GuestRange>, range: GuestRange) -> (result: bool)
    ensures
        result == exists|k: u64| #[trigger] map@.contains_key(k) && map@[k].meets(range),
{
    let ranges = values_in_order(map);
    let ghost keys = choose|keys: Seq<u64>| #[trigger] lists_map(map@, keys, ranges@);
    let mut i: usize = 0;
    while i < ranges.len()
        invariant
            i <= ranges.len(),
            lists_map(map@, keys, ranges@),
            forall|k: int| 0 <= k < i ==> !(#[trigger] ranges@[k]).meets(range),
        decreases ranges.len() - i,
    {
        if ranges[i].overlaps(range) {
            assert(map@.contains_key(keys[i as int]));
            return true;
        }
        i = i + 1;
    }
    proof {
        if exists|k: u64| #[trigger] map@.contains_key(k) && map@[k].meets(range) {
            let k = choose|k: u64| #[trigger] map@.contains_key(k) && map@[k].meets(range);
            let j = choose|j: int| 0 <= j < keys.len() && keys[j] == k;
            assert(ranges@[j] == map@[keys[j]]);
        }
    }
    false
}

pub(crate) proof fn lemma_pending_parts(pending: Seq<PendingTransition>, token: u64)
    ensures
        forall|i: int|
            0 <= i < pending_of(pending, token).len() ==> {
                &&& (#[trigger] pending_of(pending, token)[i]).token == token
                &&& pending.contains(pending_of(pending, token)[i])
            },
        forall|i: int|
            0 <= i < pending_without(pending, token).len() ==> {
                &&& (#[trigger] pending_without(pending, token)[i]).token != token
                &&& pending.contains(pending_without(pending, token)[i])
            },
        pending_without(pending, token).len() + pending_of(pending, token).len() == pending.len(),
    decreases pending.len(),
{
    if pending.len() > 0 {
        let rest = pending.drop_last();
        lemma_pending_parts(rest, token);
        let of = pending_of(pending, token);
        let without = pending_without(pending, token);
        assert(pending[pending.len() - 1] == pending.last());
        assert forall|i: int| 0 <= i < of.len() implies (#[trigger] of[i]).token == token
            && pending.contains(of[i]) by {
            if i < pending_of(rest, token).len() {
                assert(of[i] == pending_of(rest, token)[i]);
                let k = choose|k: int| 0 <= k < rest.len() && rest[k] == of[i];
                assert(pending[k] == of[i]);
            }
        }
        assert forall|i: int| 0 <= i < without.len() implies (#[trigger] without[i]).token != token
            && pending.contains(without[i]) by {
            if i < pending_without(rest, token).len() {
                assert(without[i] == pending_without(rest, token)[i]);
                let k = choose|k: int| 0 <= k < rest.len() && rest[k] == without[i];
                assert(pending[k] == without[i]);
            }
        }
    }
}

/// Transitions that do not overlap and are ordered by token stay so when one token's are
/// taken out, and among one token's.
proof fn lemma_pending_pairs(pending: Seq<PendingTransition>, token: u64)
    requires
        forall|i: int, j: int|
            0 <= i < j < pending.len() ==> !(#[trigger] pending[i]).range.meets(
                (#[trigger] pending[j]).range,
            ) && pending[i].token <= pending[j].token,
    ensures
        forall|i: int, j: int|
            0 <= i < j < pending_of(pending, token).len() ==> !(#[trigger] pending_of(
                pending,
                token,
            )[i]).range.meets((#[trigger] pending_of(pending, token)[j]).range),
        forall|i: int, j: int|
            0 <= i < j < pending_without(pending, token).len() ==> !(#[trigger] pending_without(
                pending,
                token,
            )[i]).range.meets((#[trigger] pending_without(pending, token)[j]).range)
                && pending_without(pending, token)[i].token <= pending_without(
                pending,
                token,
            )[j].token,
    decreases pending.len(),
{
    if pending.len() > 0 {
        let rest = pending.drop_last();
        assert forall|i: int, j: int| 0 <= i < j < rest.len() implies !(
        #[trigger] rest[i]).range.meets((#[trigger] rest[j]).range) && rest[i].token
            <= rest[j].token by {
            assert(rest[i] == pending[i] && rest[j] == pending[j]);
        }
        lemma_pending_pairs(rest, token);
        lemma_pending_parts(rest, token);
        let of = pending_of(pending, token);
        let without = pending_without(pending, token);
        let last = pending.len() - 1;
        assert forall|i: int, j: int| 0 <= i < j < of.len() implies !(#[trigger] of[i]).range.meets(
            (#[trigger] of[j]).range,
        ) by {
            assert(of[i] == pending_of(rest, token)[i]);
            if j < pending_of(rest, token).len() {
                assert(of[j] == pending_of(rest, token)[j]);
            } else {
                let k = choose|k: int| 0 <= k < rest.len() && rest[k] == of[i];
                assert(pending[k] == of[i] && pending[last] == of[j]);
            }
        }
        assert forall|i: int, j: int| 0 <= i < j < without.len() implies !(
        #[trigger] without[i]).range.meets((#[trigger] without[j]).range) && without[i].token
            <= without[j].token by {
            assert(without[i] == pending_without(rest, token)[i]);
            if j < pending_without(rest, token).len() {
                assert(without[j] == pending_without(rest, token)[j]);
            } else {
                let k = choose|k: int| 0 <= k < rest.len() && rest[k] == without[i];
                assert(pending[k] == without[i] && pending[last] == without[j]);
            }
        }
    }
}

/// Appending transitions under a token that no other transition has.
pub(crate) proof fn lemma_pending_append(
    pending: Seq<PendingTransition>,
    added: Seq<PendingTransition>,
    token: u64,
)
    requires
        forall|i: int| 0 <= i < pending.len() ==> (#[trigger] pending[i]).token != token,
        forall|i: int| 0 <= i < added.len() ==> (#[trigger] added[i]).token == token,
    ensures
        pending_of(pending + added, token) == added,
        pending_without(pending + added, token) == pending,
    decreases pending.len() + added.len(),
{
    let all = pending + added;
    if added.len() > 0 {
        let less = added.drop_last();
        lemma_pending_append(pending, less, token);
        assert(all.drop_last() == pending + less);
        assert(all.last() == added.last());
        assert(added[added.len() - 1] == added.last());
        assert(less.push(added.last()) == added);
    } else {
        assert(all == pending);
        if pending.len() > 0 {
            let rest = pending.drop_last();
            assert forall|i: int| 0 <= i < rest.len() implies (#[trigger] rest[i]).token
                != token by {
                assert(rest[i] == pending[i]);
            }
            lemma_pending_append(rest, added, token);
            assert(rest + added == rest);
            assert(pending[pending.len() - 1] == pending.last());
            assert(rest.push(pending.last()) == pending);
        }
    }
}

/// Dropping a reservation keeps a ledger well formed.
pub(crate) proof fn lemma_without_pending_wf(state: LedgerState, token: u64)
    requires
        state.wf(),
    ensures
        state.without_pending(token).wf(),
{
    let next = state.without_pending(token);
    lemma_pending_parts(state.pending, token);
    lemma_pending_pairs(state.pending, token);
    assert forall|i: int| 0 <= i < next.pending.len() implies {
        &&& (#[trigger] next.pending[i]).range.valid()
        &&& next.in_ram(next.pending[i].range)
        &&& next.pending[i].token < next.next_token
        &&& next.pending[i].kind == PendingKind::Release ==> !next.meets_released(
            next.pending[i].range,
        )
        &&& next.pending[i].kind is Restore ==> {
            &&& next.released.contains_key(next.pending[i].range.start)
            &&& next.released[next.pending[i].range.start].range.guest == next.pending[i].range
        }
    } by {
        let k = choose|k: int| 0 <= k < state.pending.len() && state.pending[k] == next.pending[i];
        assert(state.pending[k].range.valid());
        assert(state.in_ram(state.pending[k].range));
        let r = choose|r: int|
            0 <= r < state.regions.len() && (#[trigger] state.regions[r]).range.guest.covers(
                state.pending[k].range,
            );
        assert(next.regions[r].range.guest.covers(next.pending[i].range));
        if next.pending[i].kind == PendingKind::Release && next.meets_released(
            next.pending[i].range,
        ) {
            let x = choose|x: u64| #[trigger]
                next.released.contains_key(x) && next.released[x].range.guest.meets(
                    next.pending[i].range,
                );
            assert(state.released.contains_key(x));
            assert(state.meets_released(state.pending[k].range));
        }
    }
    assert(next.pending_wf());
    assert forall|a: int| #[trigger] mapped(next.runs, a) implies next.ram(a) by {
        assert(state.ram(a));
        let r = choose|r: int|
            0 <= r < state.regions.len() && (#[trigger] state.regions[r]).range.guest.has(a);
        assert(next.regions[r].range.guest.has(a));
    }
    lemma_released_wf_same(state, next);
}

/// Whether released extents are well formed depends on nothing but regions, runs and extents.
pub(crate) proof fn lemma_released_wf_same(state: LedgerState, next: LedgerState)
    requires
        state.released_wf(),
        next.regions == state.regions,
        next.runs == state.runs,
        next.released == state.released,
    ensures
        next.released_wf(),
{
    assert forall|k: u64| #[trigger] next.released.contains_key(k) implies {
        &&& next.released[k].range.guest.start == k
        &&& next.released[k].range.guest.valid()
        &&& next.in_ram(next.released[k].range.guest)
    } by {
        assert(state.released.contains_key(k));
        let r = choose|r: int|
            0 <= r < state.regions.len() && (#[trigger] state.regions[r]).range.guest.covers(
                state.released[k].range.guest,
            );
        assert(next.regions[r].range.guest.covers(next.released[k].range.guest));
    }
}


impl ReclaimLedger {
    pub fn new(granule: u64) -> (result: Result<ReclaimLedger, ReclaimError>)
        ensures
            result is Ok <==> is_power_of_two_spec(granule),
            result matches Err(error) ==> error == ReclaimError::InvalidAlignment,
            result matches Ok(ledger) ==> {
                &&& ledger@ == (LedgerState {
                    granule,
                    regions: seq![],
                    released: Map::empty(),
                    leases: Map::empty(),
                    reserved_leases: Map::empty(),
                    pending: seq![],
                    runs: seq![],
                    granule_limit: 0,
                    next_generation: 1,
                    next_lease: 1,
                    next_token: 1,
                })
                &&& ledger@.wf()
                &&& ledger@.sound()
            },
    {
        if !is_power_of_two(granule) {
            return Err(ReclaimError::InvalidAlignment);
        }
        Ok(
            ReclaimLedger {
                granule,
                regions: Vec::new(),
                released: BTreeMap::new(),
                leases: BTreeMap::new(),
                reserved_leases: BTreeMap::new(),
                pending: Vec::new(),
                mapping_runs: Vec::new(),
                granule_limit: 0,
                next_generation: 1,
                next_lease: 1,
                next_token: 1,
            },
        )
    }

    pub fn granule(&self) -> (result: u64)
        ensures
            result == self@.granule,
    {
        self.granule
    }

    pub fn has_registered_regions(&self) -> (result: bool)
        ensures
            result == (self@.regions.len() > 0),
    {
        self.regions.len() > 0
    }

    pub fn active_lease_count(&self) -> (result: usize)
        ensures
            result == self@.leases.len(),
    {
        self.leases.len()
    }

    pub fn released_extent_count(&self) -> (result: usize)
        ensures
            result == self@.released.len(),
    {
        self.released.len()
    }

    pub fn mapping_run_count(&self) -> (result: usize)
        ensures
            result == self@.runs.len(),
    {
        self.mapping_runs.len()
    }

    /// The generation handed out last, or the initial one.
    pub fn current_generation(&self) -> (result: MappingGeneration)
        requires
            self@.wf(),
        ensures
            result.0 == self@.next_generation - 1,
    {
        MappingGeneration(self.next_generation - 1)
    }

    fn region_containing(&self, range: GuestRange) -> (result: Result<RamRegion, ReclaimError>)
        requires
            self@.wf(),
            range.valid(),
        ensures
            result is Err <==> !self@.in_ram(range),
            result matches Err(error) ==> error == ReclaimError::NotRam,
            result matches Ok(region) ==> region.valid() && forall|other: RamRegion| #[trigger]
                self@.region_of(range, other) <==> other == region,
    {
        let mut i: usize = 0;
        while i < self.regions.len()
            invariant
                i <= self.regions.len(),
                self@.wf(),
                range.valid(),
                forall|k: int|
                    0 <= k < i ==> !(#[trigger] self@.regions[k]).range.guest.covers(range),
            decreases self.regions.len() - i,
        {
            if self.regions[i].range.guest.contains(range) {
                proof {
                    let region = self@.regions[i as int];
                    assert(self@.regions.contains(region));
                    assert forall|other: RamRegion| #[trigger]
                        self@.region_of(range, other) implies other == region by {
                        let k = choose|k: int|
                            0 <= k < self@.regions.len() && self@.regions[k] == other;
                        if k < i {
                            assert(self@.regions[k].range.guest.end
                                <= self@.regions[i as int].range.guest.start);
                        } else if i < k {
                            assert(self@.regions[i as int].range.guest.end
                                <= self@.regions[k].range.guest.start);
                        }
                    }
                }
                return Ok(self.regions[i]);
            }
            i = i + 1;
        }
        Err(ReclaimError::NotRam)
    }

    fn released_overlaps(&self, range: GuestRange) -> (result: bool)
        ensures
            result == self@.meets_released(range),
    {
        let extents = values_in_order(&self.released);
        let ghost keys = choose|keys: Seq<u64>| #[trigger]
            lists_map(self@.released, keys, extents@);
        let mut i: usize = 0;
        while i < extents.len()
            invariant
                i <= extents.len(),
                lists_map(self@.released, keys, extents@),
                forall|k: int| 0 <= k < i ==> !(#[trigger] extents@[k]).range.guest.meets(range),
            decreases extents.len() - i,
        {
            if extents[i].range.guest.overlaps(range) {
                assert(self@.released.contains_key(keys[i as int]));
                return true;
            }
            i = i + 1;
        }
        proof {
            if self@.meets_released(range) {
                let k = choose|k: u64| #[trigger]
                    self@.released.contains_key(k) && self@.released[k].range.guest.meets(range);
                let j = choose|j: int| 0 <= j < keys.len() && keys[j] == k;
                assert(extents@[j] == self@.released[keys[j]]);
            }
        }
        false
    }

    fn pending_overlaps(&self, range: GuestRange) -> (result: bool)
        ensures
            result == self@.meets_pending(range),
    {
        let mut i: usize = 0;
        while i < self.pending.len()
            invariant
                i <= self.pending.len(),
                forall|k: int| 0 <= k < i ==> !(#[trigger] self@.pending[k]).range.meets(range),
            decreases self.pending.len() - i,
        {
            if self.pending[i].range.overlaps(range) {
                assert(self@.pending[i as int].range.meets(range));
                return true;
            }
            i = i + 1;
        }
        false
    }

    /// The released extents that overlap `range`, by address.
    fn released_in(&self, range: GuestRange) -> (result: Vec<HostRange>)
        requires
            self@.wf(),
        ensures
            overlapping_extents(self@.released, range, result@),
            result.len() == 0 <==> !self@.meets_released(range),
    {
        let extents = values_in_order(&self.released);
        let ghost keys = choose|keys: Seq<u64>| #[trigger]
            lists_map(self@.released, keys, extents@);
        let mut found: Vec<HostRange> = Vec::new();
        let mut i: usize = 0;
        while i < extents.len()
            invariant
                i <= extents.len(),
                self@.wf(),
                lists_map(self@.released, keys, extents@),
                forall|k: int|
                    0 <= k < found.len() ==> {
                        &&& self@.released.contains_key((#[trigger] found@[k]).guest.start)
                        &&& self@.released[found@[k].guest.start].range == found@[k]
                        &&& found@[k].guest.meets(range)
                        &&& exists|j: int| 0 <= j < i && #[trigger] keys[j] == found@[k].guest.start
                    },
                forall|k: int, l: int|
                    0 <= k < l < found.len() ==> (#[trigger] found@[k]).guest.start < (
                    #[trigger] found@[l]).guest.start,
                forall|j: int|
                    0 <= j < i && self@.released[#[trigger] keys[j]].range.guest.meets(range)
                        ==> found@.contains(self@.released[keys[j]].range),
            decreases extents.len() - i,
        {
            let ghost before = found@;
            assert(self@.released.contains_key(keys[i as int]));
            if extents[i].range.guest.overlaps(range) {
                found.push(extents[i].range);
                proof {
                    let added = extents@[i as int].range;
                    assert(found@ == before.push(added));
                    assert(added.guest.start == keys[i as int]);
                    assert forall|k: int, l: int| 0 <= k < l < found.len() implies (
                    #[trigger] found@[k]).guest.start < (#[trigger] found@[l]).guest.start by {
                        assert(found@[k] == before[k]);
                        if l == before.len() {
                            let j = choose|j: int|
                                0 <= j < i && #[trigger] keys[j] == before[k].guest.start;
                            assert(keys[j] < keys[i as int]);
                        }
                    }
                    assert forall|k: int| 0 <= k < found.len() implies {
                        &&& self@.released.contains_key((#[trigger] found@[k]).guest.start)
                        &&& self@.released[found@[k].guest.start].range == found@[k]
                        &&& found@[k].guest.meets(range)
                        &&& exists|j: int|
                            0 <= j < i + 1 && #[trigger] keys[j] == found@[k].guest.start
                    } by {
                        if k < before.len() {
                            let j = choose|j: int|
                                0 <= j < i && #[trigger] keys[j] == before[k].guest.start;
                            assert(keys[j] == found@[k].guest.start);
                        } else {
                            assert(keys[i as int] == found@[k].guest.start);
                        }
                    }
                    assert forall|j: int|
                        0 <= j < i + 1 && self@.released[#[trigger] keys[j]].range.guest.meets(
                            range,
                        ) implies found@.contains(self@.released[keys[j]].range) by {
                        if j < i {
                            let m = choose|m: int|
                                0 <= m < before.len() && before[m]
                                    == self@.released[keys[j]].range;
                            assert(found@[m] == before[m]);
                        } else {
                            assert(found@[before.len() as int] == added);
                        }
                    }
                }
            }
            i = i + 1;
        }
        proof {
            assert forall|k: u64| #[trigger]
                self@.released.contains_key(k) && self@.released[k].range.guest.meets(
                    range,
                ) implies found@.contains(self@.released[k].range) by {
                let j = choose|j: int| 0 <= j < keys.len() && keys[j] == k;
                assert(found@.contains(self@.released[keys[j]].range));
            }
            if found.len() > 0 {
                assert(self@.released.contains_key(found@[0].guest.start));
            }
            if self@.meets_released(range) {
                let k = choose|k: u64| #[trigger]
                    self@.released.contains_key(k) && self@.released[k].range.guest.meets(range);
                assert(found@.contains(self@.released[k].range));
            }
        }
        found
    }

    fn metadata_exceeded(&self) -> (result: bool)
        ensures
            result == self@.over_limit(),
    {
        self.released.len() > self.granule_limit || self.pending.len() > self.granule_limit
            || self.mapping_runs.len() > self.granule_limit || self.leases.len()
            > self.granule_limit || self.reserved_leases.len() > self.granule_limit
            - self.leases.len()
    }

    pub fn prepare_release(&mut self, requested: GuestRange, host_alignment: u64) -> (result:
        Result<Option<ReleasePlan>, ReclaimError>)
        requires
            old(self)@.wf(),
            requested.valid(),
        ensures
            final(self)@.wf(),
            final(self)@.keeps_leases(old(self)@),
            result matches Ok(Some(plan)) ==> {
                let part = plan.range.guest;
                &&& part.start % host_alignment == 0 && part.end % host_alignment == 0
                &&& requested.start <= part.start < part.end <= requested.end
                &&& part.start - requested.start < host_alignment
                &&& requested.end - part.end < host_alignment
                &&& forall|k: u64| #[trigger]
                    old(self)@.leases.contains_key(k) ==> old(self)@.leases[k].end <= part.start
                        || part.end <= old(self)@.leases[k].start
            },
            old(self)@.generations_issued() ==> final(self)@.generations_issued(),
            host_alignment >= old(self)@.granule ==> final(self)@.follows(old(self)@, None),
            result matches Ok(Some(plan)) ==> final(self)@.open_release(plan),
            !old(self)@.in_ram(requested) ==> result == Err::<Option<ReleasePlan>, _>(
                ReclaimError::NotRam,
            ) && final(self)@ == old(self)@,
            forall|region: RamRegion| #[trigger]
                old(self)@.region_of(requested, region) ==> match region.aligned_subrange_spec(
                    requested,
                    host_alignment,
                ) {
                    Err(error) => result == Err::<Option<ReleasePlan>, _>(error) && final(self)@
                        == old(self)@,
                    Ok(None) => result == Ok::<Option<ReleasePlan>, ReclaimError>(None)
                        && final(self)@ == old(self)@,
                    Ok(Some(range)) => (result, final(self)@) == old(self)@.release_outcome(range),
                },
    {
        let region = match self.region_containing(requested) {
            Ok(region) => region,
            Err(error) => return Err(error),
        };
        proof {
            assert(self@.region_of(requested, region));
        }
        let range = match region.aligned_subrange(requested, host_alignment) {
            Ok(Some(range)) => range,
            Ok(None) => return Ok(None),
            Err(error) => return Err(error),
        };
        proof {
            lemma_power_of_two_positive(host_alignment);
            vstd::arithmetic::div_mod::lemma_small_mod(0, host_alignment as nat);
            law_aligned_part_is_the_largest(region, requested, host_alignment, 0);
        }
        if self.released_overlaps(range.guest) {
            return Err(ReclaimError::Released);
        }
        if self.pending_overlaps(range.guest) {
            return Err(ReclaimError::Busy);
        }
        if any_overlaps(&self.leases, range.guest) {
            return Err(ReclaimError::ActiveLease);
        }
        if any_overlaps(&self.reserved_leases, range.guest) {
            return Err(ReclaimError::Busy);
        }
        if self.next_token == u64::MAX {
            return Err(ReclaimError::TokenExhausted);
        }
        let token: u64 = self.next_token;
        self.next_token = token + 1;
        if self.next_generation == u64::MAX {
            proof {
                lemma_counters_wf(old(self)@, self@);
                lemma_counted_follows(old(self)@, self@);
            }
            return Err(ReclaimError::GenerationExhausted);
        }
        let generation: u64 = self.next_generation;
        self.next_generation = generation + 1;
        self.pending.push(
            PendingTransition { token, range: range.guest, kind: PendingKind::Release },
        );
        proof {
            lemma_release_reserved_wf(old(self)@, range, region);
            assert(self@ == old(self)@.release_outcome(range).1);
            if host_alignment >= old(self)@.granule {
                law_aligned_ranges_are_whole_granules(
                    old(self)@.granule,
                    region,
                    requested,
                    host_alignment,
                    range,
                );
                lemma_release_planned_follows(old(self)@, range);
            }
            lemma_planned_release_is_open(old(self)@, range);
        }
        Ok(Some(ReleasePlan { token, range, generation: MappingGeneration(generation) }))
    }

    /// Whether a release of `requested` would have an aligned part to release.
    pub fn validate_release(&self, requested: GuestRange, host_alignment: u64) -> (result: Result<
        bool,
        ReclaimError,
    >)
        requires
            self@.wf(),
            requested.valid(),
        ensures
            !self@.in_ram(requested) ==> result == Err::<bool, _>(ReclaimError::NotRam),
            forall|region: RamRegion| #[trigger]
                self@.region_of(requested, region) ==> result == match region.aligned_subrange_spec(
                    requested,
                    host_alignment,
                ) {
                    Err(error) => Err::<bool, ReclaimError>(error),
                    Ok(range) => Ok(range is Some),
                },
    {
        let region = match self.region_containing(requested) {
            Ok(region) => region,
            Err(error) => return Err(error),
        };
        match region.aligned_subrange(requested, host_alignment) {
            Ok(range) => Ok(range.is_some()),
            Err(error) => Err(error),
        }
    }

    /// Drops the reservation under `token` if it is the release of `range`.
    fn take_pending(&mut self, token: u64, range: GuestRange) -> (result: Result<
        (),
        ReclaimError,
    >)
        requires
            old(self)@.wf(),
        ensures
            final(self)@.wf(),
            result is Ok <==> pending_of(old(self)@.pending, token) == seq![
                PendingTransition { token, range, kind: PendingKind::Release },
            ],
            result is Ok ==> final(self)@ == old(self)@.without_pending(token),
            result is Err ==> *final(self) == *old(self),
            result matches Err(error) ==> error == ReclaimError::InvalidTransition,
    {
        let wanted = PendingTransition { token, range, kind: PendingKind::Release };
        let found = self.reserved_under(token);
        if found.len() != 1 || found[0] != wanted {
            proof {
                assert(seq![wanted][0] == wanted);
            }
            return Err(ReclaimError::InvalidTransition);
        }
        assert(found@ == seq![wanted]);
        self.drop_pending(token);
        Ok(())
    }

    /// The transitions reserved under `token`.
    fn reserved_under(&self, token: u64) -> (result: Vec<PendingTransition>)
        ensures
            result@ == pending_of(self@.pending, token),
    {
        let mut found: Vec<PendingTransition> = Vec::new();
        let mut i: usize = 0;
        while i < self.pending.len()
            invariant
                i <= self.pending.len(),
                found@ == pending_of(self@.pending.take(i as int), token),
            decreases self.pending.len() - i,
        {
            proof {
                let next = self@.pending.take(i + 1);
                assert(next.drop_last() == self@.pending.take(i as int));
                assert(next.last() == self@.pending[i as int]);
            }
            if self.pending[i].token == token {
                found.push(self.pending[i]);
            }
            i = i + 1;
        }
        assert(self@.pending.take(self.pending.len() as int) == self@.pending);
        found
    }

    fn drop_pending(&mut self, token: u64)
        requires
            old(self)@.wf(),
        ensures
            final(self)@ == old(self)@.without_pending(token),
            final(self)@.wf(),
    {
        let mut kept: Vec<PendingTransition> = Vec::new();
        let mut i: usize = 0;
        while i < self.pending.len()
            invariant
                i <= self.pending.len(),
                kept@ == pending_without(self@.pending.take(i as int), token),
            decreases self.pending.len() - i,
        {
            proof {
                let next = self@.pending.take(i + 1);
                assert(next.drop_last() == self@.pending.take(i as int));
                assert(next.last() == self@.pending[i as int]);
            }
            if self.pending[i].token != token {
                kept.push(self.pending[i]);
            }
            i = i + 1;
        }
        assert(self@.pending.take(self.pending.len() as int) == self@.pending);
        self.pending = kept;
        proof {
            lemma_without_pending_wf(old(self)@, token);
            assert(self@ == old(self)@.without_pending(token));
        }
    }

    /// Records that the planned range was released.
    pub fn commit_release(&mut self, plan: ReleasePlan) -> (result: Result<(), ReclaimError>)
        requires
            old(self)@.wf(),
        ensures
            final(self)@.wf(),
            final(self)@.keeps_leases(old(self)@),
            old(self)@.generations_issued() && plan.generation.0 < old(self)@.next_generation
                ==> final(self)@.generations_issued(),
            plan.generation.0 < old(self)@.next_generation ==> final(self)@.follows(
                old(self)@,
                Some(plan.token),
            ),
            old(self)@.sound() && old(self)@.open_release(plan) ==> result is Ok,
            (result, final(self)@) == old(self)@.commit_release_outcome(plan),
    {
        let ghost redeemable = old(self)@.sound() && old(self)@.open_release(plan);
        proof {
            lemma_awaited_release(old(self)@, plan);
            if redeemable {
                law_planned_release_can_be_committed(old(self)@, plan);
            }
        }
        match self.take_pending(plan.token, plan.range.guest) {
            Ok(()) => {},
            Err(error) => return Err(error),
        }
        if !covers_range(&self.mapping_runs, plan.range.guest) {
            return Err(ReclaimError::InvalidTransition);
        }
        let carved = carve(&self.mapping_runs, plan.range.guest);
        self.mapping_runs = carved;
        proof {
            lemma_carved_wf(old(self)@.without_pending(plan.token), plan.range.guest);
        }
        if self.metadata_exceeded() {
            return Err(ReclaimError::MetadataLimit);
        }
        let ghost before = self@;
        self.released.insert(
            plan.range.guest.start,
            ReleasedExtent { range: plan.range, generation: plan.generation },
        );
        proof {
            lemma_ram_same(old(self)@, before);
            assert(before.in_ram(plan.range.guest) == old(self)@.in_ram(plan.range.guest));
            lemma_meets_released_same(old(self)@, before, plan.range.guest);
            assert(!before.meets_pending(plan.range.guest));
            lemma_released_added_wf(before, plan);
            assert(self@ == old(self)@.commit_release_outcome(plan).1);
        }
        if self.metadata_exceeded() {
            return Err(ReclaimError::MetadataLimit);
        }
        proof {
            if plan.generation.0 < old(self)@.next_generation {
                lemma_release_committed_follows(old(self)@, plan);
            }
        }
        Ok(())
    }

    /// Gives up a planned release.
    pub fn abort_release(&mut self, plan: ReleasePlan) -> (result: Result<(), ReclaimError>)
        requires
            old(self)@.wf(),
        ensures
            final(self)@.wf(),
            final(self)@.keeps_leases(old(self)@),
            old(self)@.generations_issued() ==> final(self)@.generations_issued(),
            final(self)@.follows(old(self)@, Some(plan.token)),
            old(self)@.awaits_release(plan) ==> result is Ok && final(self)@
                == old(self)@.without_pending(plan.token),
            !old(self)@.awaits_release(plan) ==> result == Err::<(), _>(
                ReclaimError::InvalidTransition,
            ) && final(self)@ == old(self)@,
    {
        let result = self.take_pending(plan.token, plan.range.guest);
        proof {
            if result is Ok {
                lemma_release_aborted_follows(old(self)@, plan);
            }
        }
        result
    }
}

/// Counters may move on.
proof fn lemma_counters_wf(state: LedgerState, next: LedgerState)
    requires
        state.wf(),
        next == (LedgerState {
            next_token: next.next_token,
            next_generation: next.next_generation,
            next_lease: next.next_lease,
            ..state
        }),
        next.next_token >= state.next_token,
        next.next_generation >= state.next_generation,
        next.next_lease >= state.next_lease,
    ensures
        next.wf(),
        state.generations_issued() ==> next.generations_issued(),
{
    lemma_released_wf_same(state, next);
    lemma_pending_same(state, next);
    lemma_ram_same(state, next);
}

pub(crate) proof fn lemma_ram_same(state: LedgerState, next: LedgerState)
    requires
        next.regions == state.regions,
    ensures
        forall|a: int| #[trigger] next.ram(a) == state.ram(a),
        forall|range: GuestRange| #[trigger] next.in_ram(range) == state.in_ram(range),
{
    assert forall|a: int| #[trigger] next.ram(a) == state.ram(a) by {
        if next.ram(a) {
            let r = choose|r: int|
                0 <= r < next.regions.len() && (#[trigger] next.regions[r]).range.guest.has(a);
            assert(state.regions[r].range.guest.has(a));
        }
        if state.ram(a) {
            let r = choose|r: int|
                0 <= r < state.regions.len() && (#[trigger] state.regions[r]).range.guest.has(a);
            assert(next.regions[r].range.guest.has(a));
        }
    }
    assert forall|range: GuestRange| #[trigger] next.in_ram(range) == state.in_ram(range) by {
        if next.in_ram(range) {
            let r = choose|r: int|
                0 <= r < next.regions.len() && (#[trigger] next.regions[r]).range.guest.covers(range);
            assert(state.regions[r].range.guest.covers(range));
        }
        if state.in_ram(range) {
            let r = choose|r: int|
                0 <= r < state.regions.len() && (#[trigger] state.regions[r]).range.guest.covers(
                    range,
                );
            assert(next.regions[r].range.guest.covers(range));
        }
    }
}

/// Whether pending transitions are well formed depends on nothing but regions, extents,
/// transitions and a bound on their tokens.
pub(crate) proof fn lemma_pending_same(state: LedgerState, next: LedgerState)
    requires
        state.pending_wf(),
        next.regions == state.regions,
        next.pending == state.pending,
        next.released == state.released,
        next.next_token >= state.next_token,
    ensures
        next.pending_wf(),
{
    lemma_ram_same(state, next);
    assert forall|range: GuestRange| #[trigger]
        next.meets_released(range) == state.meets_released(range) by {
        lemma_meets_released_same(state, next, range);
    }
    assert forall|i: int| 0 <= i < next.pending.len() implies {
        &&& (#[trigger] next.pending[i]).range.valid()
        &&& next.in_ram(next.pending[i].range)
        &&& next.pending[i].token < next.next_token
        &&& next.pending[i].kind == PendingKind::Release ==> !next.meets_released(
            next.pending[i].range,
        )
        &&& next.pending[i].kind is Restore ==> {
            &&& next.released.contains_key(next.pending[i].range.start)
            &&& next.released[next.pending[i].range.start].range.guest == next.pending[i].range
        }
    } by {
        assert(state.pending[i].range.valid());
        assert(state.in_ram(state.pending[i].range));
        assert(next.in_ram(next.pending[i].range) == state.in_ram(next.pending[i].range));
        assert(next.meets_released(next.pending[i].range) == state.meets_released(
            next.pending[i].range,
        ));
    }
}

proof fn lemma_meets_released_same(state: LedgerState, next: LedgerState, range: GuestRange)
    requires
        next.released == state.released,
    ensures
        next.meets_released(range) == state.meets_released(range),
{
    if next.meets_released(range) {
        let k = choose|k: u64| #[trigger]
            next.released.contains_key(k) && next.released[k].range.guest.meets(range);
        assert(state.released.contains_key(k));
    }
    if state.meets_released(range) {
        let k = choose|k: u64| #[trigger]
            state.released.contains_key(k) && state.released[k].range.guest.meets(range);
        assert(next.released.contains_key(k));
    }
}

/// Reserving the release of mapped, unreserved RAM keeps a ledger well formed.
proof fn lemma_release_reserved_wf(state: LedgerState, range: HostRange, region: RamRegion)
    requires
        state.wf(),
        range.valid(),
        state.regions.contains(region),
        region.range.guest.covers(range.guest),
        !state.meets_released(range.guest),
        !state.meets_pending(range.guest),
        state.next_token < u64::MAX,
        state.next_generation < u64::MAX,
    ensures
        state.release_outcome(range).0 is Ok ==> state.release_outcome(range).1.wf(),
        state.generations_issued() ==> state.release_outcome(range).1.generations_issued(),
{
    let next = state.release_outcome(range).1;
    if state.release_outcome(range).0 is Ok {
        lemma_ram_same(state, next);
        lemma_released_wf_same(state, next);
        let r = choose|r: int| 0 <= r < state.regions.len() && state.regions[r] == region;
        assert(state.regions[r].range.guest.covers(range.guest));
        assert(state.in_ram(range.guest));
        let n = state.pending.len() as int;
        assert forall|i: int| 0 <= i < next.pending.len() implies {
            &&& (#[trigger] next.pending[i]).range.valid()
            &&& next.in_ram(next.pending[i].range)
            &&& next.pending[i].token < next.next_token
            &&& next.pending[i].kind == PendingKind::Release ==> !next.meets_released(
                next.pending[i].range,
            )
            &&& next.pending[i].kind is Restore ==> {
                &&& next.released.contains_key(next.pending[i].range.start)
                &&& next.released[next.pending[i].range.start].range.guest
                    == next.pending[i].range
            }
        } by {
            lemma_meets_released_same(state, next, next.pending[i].range);
            assert(next.in_ram(next.pending[i].range) == state.in_ram(next.pending[i].range));
            if i < n {
                assert(next.pending[i] == state.pending[i]);
                assert(state.in_ram(state.pending[i].range));
            }
        }
        assert forall|i: int, j: int| 0 <= i < j < next.pending.len() implies {
            &&& !(#[trigger] next.pending[i]).range.meets((#[trigger] next.pending[j]).range)
            &&& next.pending[i].token <= next.pending[j].token
        } by {
            assert(next.pending[i] == state.pending[i]);
            if j < n {
                assert(next.pending[j] == state.pending[j]);
            }
        }
        assert(next.pending_wf());
    } else {
        assert(next == state || next == (LedgerState { next_token: next.next_token, ..state }));
    }
}

/// A range whose release is awaited lies in RAM and meets no released extent.
pub(crate) proof fn lemma_awaited_release(state: LedgerState, plan: ReleasePlan)
    requires
        state.wf(),
    ensures
        state.awaits_release(plan) ==> {
            &&& plan.range.guest.valid()
            &&& state.in_ram(plan.range.guest)
            &&& !state.meets_released(plan.range.guest)
            &&& !state.without_pending(plan.token).meets_pending(plan.range.guest)
        },
{
    if state.awaits_release(plan) {
        lemma_pending_parts(state.pending, plan.token);
        let p = PendingTransition {
            token: plan.token,
            range: plan.range.guest,
            kind: PendingKind::Release,
        };
        assert(seq![p][0] == p);
        let of = pending_of(state.pending, plan.token);
        assert(of[0] == p);
        let k = choose|k: int| 0 <= k < state.pending.len() && state.pending[k] == p;
        assert(state.pending[k].range.valid());
        let without = state.without_pending(plan.token);
        if without.meets_pending(plan.range.guest) {
            let i = choose|i: int|
                0 <= i < without.pending.len() && (#[trigger] without.pending[i]).range.meets(
                    plan.range.guest,
                );
            assert(pending_without(state.pending, plan.token)[i].token != plan.token);
            let m = choose|m: int|
                0 <= m < state.pending.len() && state.pending[m] == without.pending[i];
            if m < k {
                assert(!state.pending[m].range.meets(state.pending[k].range));
            } else {
                assert(m != k);
                assert(!state.pending[k].range.meets(state.pending[m].range));
            }
        }
    }
}

/// Taking mapped RAM out of the runs keeps a ledger well formed.
pub(crate) proof fn lemma_carved_wf(state: LedgerState, cut: GuestRange)
    requires
        state.wf(),
        cut.valid(),
    ensures
        ({
            let next = LedgerState { runs: carve_spec(state.runs, cut), ..state };
            &&& next.wf()
            &&& state.generations_issued() ==> next.generations_issued()
            &&& forall|i: int|
                0 <= i < next.runs.len() ==> !(#[trigger] next.runs[i]).range.meets(cut)
        }),
{
    let next = LedgerState { runs: carve_spec(state.runs, cut), ..state };
    law_carve_removes_exactly_the_cut(state.runs, cut);
    lemma_ram_same(state, next);
    lemma_pending_same(state, next);
    assert forall|a: int| #[trigger] mapped(next.runs, a) implies next.ram(a) && mapped(
        state.runs,
        a,
    ) && !cut.has(a) by {
        lemma_mapped_has_generation(next.runs, state.runs, a);
    }
    assert forall|i: int| 0 <= i < next.runs.len() implies !(#[trigger] next.runs[i]).range.meets(
        cut,
    ) by {
        let run = next.runs[i];
        assert(run.range.valid());
        if run.range.meets(cut) {
            let a: int = if run.range.start < cut.start {
                cut.start as int
            } else {
                run.range.start as int
            };
            assert(run.range.has(a) && cut.has(a));
            assert(mapped(next.runs, a));
        }
    }
    assert forall|k: u64, i: int| #[trigger]
        next.released.contains_key(k) && 0 <= i < next.runs.len() implies !(
    #[trigger] next.runs[i]).range.meets(next.released[k].range.guest) by {
        let run = next.runs[i];
        let extent = next.released[k].range.guest;
        assert(run.range.valid() && extent.valid());
        if run.range.meets(extent) {
            let a: int = if run.range.start < extent.start {
                extent.start as int
            } else {
                run.range.start as int
            };
            assert(run.range.has(a) && extent.has(a));
            assert(mapped(next.runs, a));
            assert(mapped(state.runs, a));
            let j = choose|j: int| 0 <= j < state.runs.len() && (#[trigger] state.runs[j]).range.has(a);
            assert(state.released.contains_key(k));
            assert(!state.runs[j].range.meets(state.released[k].range.guest));
        }
    }
    assert(next.released_wf()) by {
        assert forall|k: u64| #[trigger] next.released.contains_key(k) implies next.in_ram(
            next.released[k].range.guest,
        ) by {
            assert(state.released.contains_key(k));
            assert(next.in_ram(next.released[k].range.guest) == state.in_ram(
                next.released[k].range.guest,
            ));
        }
    }
}

/// Where `next` maps nothing that `state` did not map with the same generation, an
/// address mapped by `next` is mapped by `state`.
proof fn lemma_mapped_has_generation(next: Seq<MappingRun>, state: Seq<MappingRun>, a: int)
    requires
        mapped(next, a),
    ensures
        exists|g: MappingGeneration| #[trigger] mapped_with(next, a, g),
        (forall|g: MappingGeneration| #[trigger] mapped_with(next, a, g) ==> mapped_with(state, a, g))
            ==> mapped(state, a),
{
    let i = choose|i: int| 0 <= i < next.len() && (#[trigger] next[i]).range.has(a);
    let g = next[i].generation;
    assert(mapped_with(next, a, g));
    if forall|g: MappingGeneration| #[trigger] mapped_with(next, a, g) ==> mapped_with(state, a, g) {
        assert(mapped_with(state, a, g));
        let j = choose|j: int|
            0 <= j < state.len() && (#[trigger] state[j]).range.has(a) && state[j].generation == g;
        assert(state[j].range.has(a));
    }
}

/// Recording a release of unmapped, unreserved RAM keeps a ledger well formed.
pub(crate) proof fn lemma_released_added_wf(state: LedgerState, plan: ReleasePlan)
    requires
        state.wf(),
        plan.range.guest.valid(),
        state.in_ram(plan.range.guest),
        !state.meets_released(plan.range.guest),
        !state.meets_pending(plan.range.guest),
        forall|i: int|
            0 <= i < state.runs.len() ==> !(#[trigger] state.runs[i]).range.meets(plan.range.guest),
    ensures
        ({
            let next = LedgerState {
                released: state.released.insert(
                    plan.range.guest.start,
                    ReleasedExtent { range: plan.range, generation: plan.generation },
                ),
                ..state
            };
            &&& next.wf()
            &&& state.generations_issued() && plan.generation.0 < state.next_generation
                ==> next.generations_issued()
        }),
{
    let extent = ReleasedExtent { range: plan.range, generation: plan.generation };
    let start = plan.range.guest.start;
    let next = LedgerState { released: state.released.insert(start, extent), ..state };
    lemma_ram_same(state, next);
    assert forall|k: u64| #[trigger] next.released.contains_key(k) implies {
        &&& next.released[k].range.guest.start == k
        &&& next.released[k].range.guest.valid()
        &&& next.in_ram(next.released[k].range.guest)
    } by {
        assert(next.in_ram(next.released[k].range.guest) == state.in_ram(
            next.released[k].range.guest,
        ));
        if k != start {
            assert(state.released.contains_key(k));
        }
    }
    assert forall|k: u64, l: u64| #[trigger]
        next.released.contains_key(k) && #[trigger] next.released.contains_key(l) && k
            != l implies !next.released[k].range.guest.meets(next.released[l].range.guest) by {
        if k == start {
            assert(state.released.contains_key(l));
            if plan.range.guest.meets(state.released[l].range.guest) {
                assert(state.meets_released(plan.range.guest));
            }
        } else {
            assert(state.released.contains_key(k));
            if l == start {
                if state.released[k].range.guest.meets(plan.range.guest) {
                    assert(state.meets_released(plan.range.guest));
                }
            } else {
                assert(state.released.contains_key(l));
            }
        }
    }
    assert forall|k: u64, i: int| #[trigger]
        next.released.contains_key(k) && 0 <= i < next.runs.len() implies !(
    #[trigger] next.runs[i]).range.meets(next.released[k].range.guest) by {
        if k != start {
            assert(state.released.contains_key(k));
            assert(!state.runs[i].range.meets(state.released[k].range.guest));
        } else {
            assert(!state.runs[i].range.meets(plan.range.guest));
        }
    }
    assert(next.released_wf());
    assert forall|i: int| 0 <= i < next.pending.len() implies {
        &&& (#[trigger] next.pending[i]).range.valid()
        &&& next.in_ram(next.pending[i].range)
        &&& next.pending[i].token < next.next_token
        &&& next.pending[i].kind == PendingKind::Release ==> !next.meets_released(
            next.pending[i].range,
        )
        &&& next.pending[i].kind is Restore ==> {
            &&& next.released.contains_key(next.pending[i].range.start)
            &&& next.released[next.pending[i].range.start].range.guest == next.pending[i].range
        }
    } by {
        let p = state.pending[i];
        assert(p == next.pending[i]);
        assert(p.range.valid() && state.in_ram(p.range));
        assert(next.in_ram(p.range) == state.in_ram(p.range));
        assert(!p.range.meets(plan.range.guest)) by {
            if p.range.meets(plan.range.guest) {
                assert(state.meets_pending(plan.range.guest));
            }
        }
        if next.meets_released(p.range) {
            let k = choose|k: u64| #[trigger]
                next.released.contains_key(k) && next.released[k].range.guest.meets(p.range);
            if k != start {
                assert(state.released.contains_key(k));
                assert(state.meets_released(p.range));
            }
        }
    }
    assert(next.pending_wf());
}

/// Reserving a restore of all released extents that a free range meets keeps a ledger
/// well formed.
proof fn lemma_restore_reserved_wf(state: LedgerState, range: GuestRange, extents: Seq<HostRange>)
    requires
        state.wf(),
        !state.meets_pending(range),
        overlapping_extents(state.released, range, extents),
        state.next_token < u64::MAX,
        state.next_generation < u64::MAX,
        !state.leases_exhausted(),
    ensures
        state.restore_reserved(range, extents).wf(),
        state.generations_issued() ==> state.restore_reserved(range, extents).generations_issued(),
{
    let next = state.restore_reserved(range, extents);
    let added = restore_transitions(state.next_token, state.next_lease, extents);
    lemma_ram_same(state, next);
    lemma_released_wf_same(state, next);
    let n = state.pending.len() as int;
    assert forall|i: int| 0 <= i < next.pending.len() implies {
        &&& (#[trigger] next.pending[i]).range.valid()
        &&& next.in_ram(next.pending[i].range)
        &&& next.pending[i].token < next.next_token
        &&& next.pending[i].kind == PendingKind::Release ==> !next.meets_released(
            next.pending[i].range,
        )
        &&& next.pending[i].kind is Restore ==> {
            &&& next.released.contains_key(next.pending[i].range.start)
            &&& next.released[next.pending[i].range.start].range.guest == next.pending[i].range
        }
    } by {
        lemma_meets_released_same(state, next, next.pending[i].range);
        assert(next.in_ram(next.pending[i].range) == state.in_ram(next.pending[i].range));
        if i < n {
            assert(next.pending[i] == state.pending[i]);
            assert(state.in_ram(state.pending[i].range));
        } else {
            assert(next.pending[i] == added[i - n]);
            assert(state.released.contains_key(extents[i - n].guest.start));
        }
    }
    assert forall|i: int, j: int| 0 <= i < j < next.pending.len() implies {
        &&& !(#[trigger] next.pending[i]).range.meets((#[trigger] next.pending[j]).range)
        &&& next.pending[i].token <= next.pending[j].token
    } by {
        if j < n {
            assert(next.pending[i] == state.pending[i] && next.pending[j] == state.pending[j]);
        } else {
            let extent = extents[j - n];
            assert(next.pending[j] == added[j - n]);
            assert(state.released.contains_key(extent.guest.start));
            if i < n {
                let p = state.pending[i];
                assert(next.pending[i] == p);
                if p.range.meets(extent.guest) {
                    if p.kind == PendingKind::Release {
                        assert(state.meets_released(p.range));
                    } else {
                        assert(state.released.contains_key(p.range.start));
                        assert(p.range.start == extent.guest.start);
                        assert(p.range.meets(range));
                        assert(state.meets_pending(range));
                    }
                }
            } else {
                assert(next.pending[i] == added[i - n]);
                assert(extents[i - n].guest.start < extents[j - n].guest.start);
                assert(state.released.contains_key(extents[i - n].guest.start));
            }
        }
    }
    assert(next.pending_wf());
    assert(!state.reserved_leases.contains_key(state.next_lease));
    assert(next.leases_wf());
}

/// Mapping a released, unreserved extent again keeps a ledger well formed.
pub(crate) proof fn lemma_restore_step_wf(state: LedgerState, range: HostRange, generation: MappingGeneration)
    requires
        state.wf(),
        state.released.contains_key(range.guest.start),
        state.released[range.guest.start].range == range,
        !state.meets_pending(range.guest),
    ensures
        ({
            let run = MappingRun { range: range.guest, generation };
            let next = LedgerState {
                runs: coalesce_spec(insert_spec(state.runs, run)),
                released: state.released.remove(range.guest.start),
                ..state
            };
            &&& next.wf()
            &&& forall|i: int|
                0 <= i < state.runs.len() ==> !(#[trigger] state.runs[i]).range.meets(range.guest)
            &&& forall|a: int, g: MappingGeneration| #[trigger]
                mapped_with(next.runs, a, g) <==> mapped_with(state.runs, a, g) || (
                range.guest.has(a) && g == generation)
            &&& state.generations_issued() && generation.0 < state.next_generation
                ==> next.generations_issued()
        }),
{
    let run = MappingRun { range: range.guest, generation };
    let start = range.guest.start;
    let next = LedgerState {
        runs: coalesce_spec(insert_spec(state.runs, run)),
        released: state.released.remove(start),
        ..state
    };
    assert forall|i: int| 0 <= i < state.runs.len() implies !(#[trigger] state.runs[i]).range.meets(
        range.guest,
    ) by {
        assert(state.released.contains_key(start));
    }
    law_insert_adds_exactly_the_run(state.runs, run);
    law_coalesce_preserves_mapping(insert_spec(state.runs, run));
    lemma_ram_same(state, next);
    assert forall|a: int, g: MappingGeneration| #[trigger]
        mapped_with(next.runs, a, g) <==> mapped_with(state.runs, a, g) || (range.guest.has(a) && g
            == generation) by {
        assert(mapped_with(insert_spec(state.runs, run), a, g) <==> mapped_with(state.runs, a, g)
            || (run.range.has(a) && run.generation == g));
    }
    assert forall|a: int| #[trigger] mapped(next.runs, a) implies next.ram(a) && (mapped(
        state.runs,
        a,
    ) || range.guest.has(a)) by {
        let i = choose|i: int| 0 <= i < next.runs.len() && (#[trigger] next.runs[i]).range.has(a);
        assert(mapped_with(next.runs, a, next.runs[i].generation));
        if mapped_with(state.runs, a, next.runs[i].generation) {
            let j = choose|j: int|
                0 <= j < state.runs.len() && (#[trigger] state.runs[j]).range.has(a)
                    && state.runs[j].generation == next.runs[i].generation;
            assert(state.runs[j].range.has(a));
            assert(mapped(state.runs, a));
        } else {
            assert(state.in_ram(range.guest));
            let r = choose|r: int|
                0 <= r < state.regions.len() && (#[trigger] state.regions[r]).range.guest.covers(
                    range.guest,
                );
            assert(next.regions[r].range.guest.has(a));
        }
    }
    assert forall|k: u64| #[trigger] next.released.contains_key(k) implies {
        &&& next.released[k].range.guest.start == k
        &&& next.released[k].range.guest.valid()
        &&& next.in_ram(next.released[k].range.guest)
        &&& k != start
        &&& state.released.contains_key(k)
        &&& next.released[k] == state.released[k]
    } by {
        assert(state.released.contains_key(k));
        assert(next.in_ram(next.released[k].range.guest) == state.in_ram(
            next.released[k].range.guest,
        ));
    }
    assert forall|k: u64, i: int| #[trigger]
        next.released.contains_key(k) && 0 <= i < next.runs.len() implies !(
    #[trigger] next.runs[i]).range.meets(next.released[k].range.guest) by {
        let piece = next.runs[i];
        let extent = next.released[k].range.guest;
        assert(piece.range.valid() && extent.valid());
        assert(state.released.contains_key(k) && state.released.contains_key(start));
        if piece.range.meets(extent) {
            let a: int = if piece.range.start < extent.start {
                extent.start as int
            } else {
                piece.range.start as int
            };
            assert(piece.range.has(a) && extent.has(a));
            assert(mapped(next.runs, a));
            if mapped(state.runs, a) {
                let j = choose|j: int|
                    0 <= j < state.runs.len() && (#[trigger] state.runs[j]).range.has(a);
                assert(!state.runs[j].range.meets(state.released[k].range.guest));
            } else {
                assert(range.guest.has(a));
                assert(!state.released[start].range.guest.meets(state.released[k].range.guest));
            }
        }
    }
    assert(next.released_wf());
    assert forall|i: int| 0 <= i < next.pending.len() implies {
        &&& (#[trigger] next.pending[i]).range.valid()
        &&& next.in_ram(next.pending[i].range)
        &&& next.pending[i].token < next.next_token
        &&& next.pending[i].kind == PendingKind::Release ==> !next.meets_released(
            next.pending[i].range,
        )
        &&& next.pending[i].kind is Restore ==> {
            &&& next.released.contains_key(next.pending[i].range.start)
            &&& next.released[next.pending[i].range.start].range.guest == next.pending[i].range
        }
    } by {
        let p = state.pending[i];
        assert(p == next.pending[i]);
        assert(p.range.valid() && state.in_ram(p.range));
        assert(next.in_ram(p.range) == state.in_ram(p.range));
        if next.meets_released(p.range) {
            let k = choose|k: u64| #[trigger]
                next.released.contains_key(k) && next.released[k].range.guest.meets(p.range);
            assert(state.released.contains_key(k));
            assert(state.meets_released(p.range));
        }
        if p.kind is Restore && p.range.start == start {
            assert(p.range.meets(range.guest));
            assert(state.meets_pending(range.guest));
        }
    }
    assert(next.pending_wf());
}

impl ReclaimLedger {
    /// Makes `range` accessible: leases it, or plans the restore that it needs first.
    pub fn prepare_access(&mut self, range: GuestRange) -> (result: Result<AccessPlan, ReclaimError>)
        requires
            old(self)@.wf(),
            range.valid(),
        ensures
            final(self)@.wf(),
            final(self)@.keeps_leases(old(self)@),
            result matches Ok(AccessPlan::Leased(lease)) ==> {
                &&& !old(self)@.leases.contains_key(lease.0)
                &&& final(self)@.leases == old(self)@.leases.insert(lease.0, range)
            },
            result matches Ok(AccessPlan::Restore(plan)) ==> {
                &&& plan.access == range
                &&& !old(self)@.reserved_leases.contains_key(plan.lease.0)
                &&& final(self)@.reserved_leases == old(self)@.reserved_leases.insert(
                    plan.lease.0,
                    range,
                )
            },
            old(self)@.generations_issued() ==> final(self)@.generations_issued(),
            final(self)@.follows(old(self)@, None),
            result matches Ok(AccessPlan::Restore(plan)) ==> final(self)@.open_restore(plan),
            ({
                let before = old(self)@;
                let after = final(self)@;
                if !before.in_ram(range) {
                    result == Err::<AccessPlan, _>(ReclaimError::NotRam) && after == before
                } else if before.meets_pending(range) {
                    result == Err::<AccessPlan, _>(ReclaimError::Busy) && after == before
                } else if !before.meets_released(range) {
                    (result, after) == before.lease_outcome(range)
                } else if before.next_token == u64::MAX {
                    result == Err::<AccessPlan, _>(ReclaimError::TokenExhausted) && after == before
                } else if before.next_generation == u64::MAX {
                    result == Err::<AccessPlan, _>(ReclaimError::GenerationExhausted) && after == (
                    LedgerState { next_token: (before.next_token + 1) as u64, ..before })
                } else if before.leases_exhausted() {
                    result == Err::<AccessPlan, _>(ReclaimError::LeaseExhausted) && after == (
                    LedgerState {
                        next_token: (before.next_token + 1) as u64,
                        next_generation: (before.next_generation + 1) as u64,
                        ..before
                    })
                } else {
                    &&& result matches Ok(AccessPlan::Restore(plan))
                    &&& plan.token == before.next_token
                    &&& plan.access == range
                    &&& plan.generation == MappingGeneration(before.next_generation)
                    &&& plan.lease == LeaseId(before.next_lease)
                    &&& overlapping_extents(before.released, range, plan.ranges@)
                    &&& after == before.restore_reserved(range, plan.ranges@)
                    &&& after.awaits_restore(plan)
                }
            }),
    {
        match self.region_containing(range) {
            Ok(_) => {},
            Err(error) => return Err(error),
        }
        if self.pending_overlaps(range) {
            return Err(ReclaimError::Busy);
        }
        let released = self.released_in(range);
        if released.len() == 0 {
            let lease = match self.allocate_lease_id(range, false) {
                Ok(lease) => lease,
                Err(error) => return Err(error),
            };
            let ghost counted = self@;
            self.leases.insert(lease.0, range);
            proof {
                lemma_counters_wf(old(self)@, counted);
                assert(self@ == old(self)@.lease_outcome(range).1);
                lemma_released_wf_same(counted, self@);
                lemma_pending_same(counted, self@);
                lemma_ram_same(counted, self@);
                assert(!old(self)@.leases.contains_key(lease.0));
                lemma_lease_granted_follows(old(self)@, range);
            }
            return Ok(AccessPlan::Leased(lease));
        }
        if self.next_token == u64::MAX {
            return Err(ReclaimError::TokenExhausted);
        }
        let token: u64 = self.next_token;
        self.next_token = token + 1;
        if self.next_generation == u64::MAX {
            proof {
                lemma_counters_wf(old(self)@, self@);
                lemma_counted_follows(old(self)@, self@);
            }
            return Err(ReclaimError::GenerationExhausted);
        }
        let generation: u64 = self.next_generation;
        self.next_generation = generation + 1;
        proof {
            lemma_counters_wf(old(self)@, self@);
            lemma_counted_follows(old(self)@, self@);
        }
        let lease = match self.allocate_lease_id(range, true) {
            Ok(lease) => lease,
            Err(error) => return Err(error),
        };
        let mut i: usize = 0;
        let ghost base = self@.pending;
        let ghost held = self@;
        while i < released.len()
            invariant
                i <= released.len(),
                self@ == (LedgerState {
                    pending: base + restore_transitions(token, lease.0, released@).take(i as int),
                    ..held
                }),
            decreases released.len() - i,
        {
            let ghost before = self@.pending;
            self.pending.push(
                PendingTransition {
                    token,
                    range: released[i].guest,
                    kind: PendingKind::Restore { lease: lease.0 },
                },
            );
            proof {
                let all = restore_transitions(token, lease.0, released@);
                assert(all.take(i + 1) == all.take(i as int).push(all[i as int]));
                assert(self@.pending == base + all.take(i + 1));
            }
            i = i + 1;
        }
        proof {
            let all = restore_transitions(token, lease.0, released@);
            assert(all.take(released.len() as int) == all);
            lemma_restore_reserved_wf(old(self)@, range, released@);
            assert(self@ == old(self)@.restore_reserved(range, released@));
            lemma_pending_append(old(self)@.pending, all, token);
            lemma_restore_planned_follows(old(self)@, range, released@);
        }
        Ok(
            AccessPlan::Restore(
                RestorePlan {
                    token,
                    access: range,
                    ranges: released,
                    generation: MappingGeneration(generation),
                    lease,
                },
            ),
        )
    }

    /// Takes the next lease number, and reserves it where a restore comes first.
    fn allocate_lease_id(&mut self, range: GuestRange, reserve: bool) -> (result: Result<
        LeaseId,
        ReclaimError,
    >)
        requires
            old(self)@.wf(),
        ensures
            old(self)@.leases_exhausted() ==> result == Err::<LeaseId, _>(
                ReclaimError::LeaseExhausted,
            ) && *final(self) == *old(self),
            !old(self)@.leases_exhausted() ==> {
                &&& result == Ok::<LeaseId, ReclaimError>(LeaseId(old(self)@.next_lease))
                &&& final(self)@ == (LedgerState {
                    next_lease: (old(self)@.next_lease + 1) as u64,
                    reserved_leases: if reserve {
                        old(self)@.reserved_leases.insert(old(self)@.next_lease, range)
                    } else {
                        old(self)@.reserved_leases
                    },
                    ..old(self)@
                })
            },
    {
        if self.leases.len() >= self.granule_limit || self.reserved_leases.len()
            >= self.granule_limit - self.leases.len() {
            return Err(ReclaimError::LeaseExhausted);
        }
        if self.next_lease == u64::MAX {
            return Err(ReclaimError::LeaseExhausted);
        }
        let id: u64 = self.next_lease;
        self.next_lease = id + 1;
        if reserve {
            self.reserved_leases.insert(id, range);
        }
        Ok(LeaseId(id))
    }

    /// Whether the plan's reservation is the one on record.
    fn validate_restore_pending(&self, plan: &RestorePlan) -> (result: bool)
        ensures
            result == self@.awaits_restore(*plan),
    {
        let found = self.reserved_under(plan.token);
        if found.len() == 0 || found.len() != plan.ranges.len() {
            return false;
        }
        let ghost expected = restore_transitions(plan.token, plan.lease.0, plan.ranges@);
        let mut i: usize = 0;
        while i < found.len()
            invariant
                i <= found.len(),
                found.len() == plan.ranges.len(),
                found@ == pending_of(self@.pending, plan.token),
                expected == restore_transitions(plan.token, plan.lease.0, plan.ranges@),
                forall|k: int| 0 <= k < i ==> found@[k] == expected[k],
                forall|k: int|
                    0 <= k < i ==> {
                        &&& self@.released.contains_key((#[trigger] plan.ranges@[k]).guest.start)
                        &&& self@.released[plan.ranges@[k].guest.start].range == plan.ranges@[k]
                    },
            decreases found.len() - i,
        {
            let range = plan.ranges[i];
            if found[i] != (PendingTransition {
                token: plan.token,
                range: range.guest,
                kind: PendingKind::Restore { lease: plan.lease.0 },
            }) {
                assert(found@[i as int] != expected[i as int]);
                return false;
            }
            match self.released.get(&range.guest.start) {
                Some(extent) => {
                    if extent.range != range {
                        assert(self@.released[plan.ranges@[i as int].guest.start].range
                            != plan.ranges@[i as int]);
                        return false;
                    }
                },
                None => {
                    assert(!self@.released.contains_key(plan.ranges@[i as int].guest.start));
                    return false;
                },
            }
            i = i + 1;
        }
        assert(found@ == expected);
        match self.reserved_leases.get(&plan.lease.0) {
            Some(access) => *access == plan.access,
            None => false,
        }
    }

    /// Records that the planned ranges were restored, and activates the lease.
    pub fn commit_restore(&mut self, plan: RestorePlan) -> (result: Result<LeaseId, ReclaimError>)
        requires
            old(self)@.wf(),
        ensures
            final(self)@.wf(),
            final(self)@.keeps_leases(old(self)@),
            result is Ok ==> final(self)@.leases == old(self)@.leases.insert(
                plan.lease.0,
                plan.access,
            ),
            old(self)@.generations_issued() && plan.generation.0 < old(self)@.next_generation
                ==> final(self)@.generations_issued(),
            plan.generation.0 < old(self)@.next_generation ==> final(self)@.follows(
                old(self)@,
                Some(plan.token),
            ),
            old(self)@.sound() && old(self)@.open_restore(plan) ==> result == Ok::<
                LeaseId,
                ReclaimError,
            >(plan.lease),
            ({
                let before = old(self)@;
                let dropped = before.without_pending(plan.token);
                let n = plan.ranges@.len() as int;
                match result {
                    Ok(lease) => {
                        &&& before.awaits_restore(plan)
                        &&& lease == plan.lease
                        &&& forall|i: int|
                            0 < i <= n ==> !(#[trigger] dropped.restored(
                                plan.ranges@,
                                plan.generation,
                                i,
                            )).over_limit()
                        &&& final(self)@ == (LedgerState {
                            reserved_leases: before.reserved_leases.remove(plan.lease.0),
                            leases: before.leases.insert(plan.lease.0, plan.access),
                            ..dropped.restored(plan.ranges@, plan.generation, n)
                        })
                    },
                    Err(ReclaimError::InvalidTransition) => !before.awaits_restore(plan)
                        && final(self)@ == before,
                    Err(ReclaimError::MetadataLimit) => {
                        &&& before.awaits_restore(plan)
                        &&& exists|i: int|
                            0 < i <= n && final(self)@ == #[trigger] dropped.restored(
                                plan.ranges@,
                                plan.generation,
                                i,
                            ) && final(self)@.over_limit() && forall|j: int|
                                0 < j < i ==> !(#[trigger] dropped.restored(
                                    plan.ranges@,
                                    plan.generation,
                                    j,
                                )).over_limit()
                    },
                    _ => false,
                }
            }),
    {
        if !self.validate_restore_pending(&plan) {
            return Err(ReclaimError::InvalidTransition);
        }
        self.drop_pending(plan.token);
        let ghost dropped = self@;
        let ghost n = plan.ranges@.len() as int;
        proof {
            lemma_restore_unreserved(old(self)@, plan);
        }
        let mut i: usize = 0;
        while i < plan.ranges.len()
            invariant
                i <= plan.ranges.len(),
                dropped == old(self)@.without_pending(plan.token),
                old(self)@.wf(),
                old(self)@.awaits_restore(plan),
                self@ == dropped.restored(plan.ranges@, plan.generation, i as int),
                self@.wf(),
                old(self)@.generations_issued() && plan.generation.0 < old(self)@.next_generation
                    ==> self@.generations_issued(),
                forall|k: int|
                    i <= k < plan.ranges@.len() ==> {
                        &&& self@.released.contains_key((#[trigger] plan.ranges@[k]).guest.start)
                        &&& self@.released[plan.ranges@[k].guest.start].range == plan.ranges@[k]
                        &&& !dropped.meets_pending(plan.ranges@[k].guest)
                    },
                forall|k: int, l: int|
                    0 <= k < l < plan.ranges@.len() ==> (#[trigger] plan.ranges@[k]).guest.start != (
                    #[trigger] plan.ranges@[l]).guest.start,
                forall|k: int|
                    0 < k <= i ==> !(#[trigger] dropped.restored(
                        plan.ranges@,
                        plan.generation,
                        k,
                    )).over_limit(),
            decreases plan.ranges.len() - i,
        {
            let range = plan.ranges[i];
            let ghost before = self@;
            proof {
                assert(plan.ranges@[i as int] == range);
                lemma_meets_pending_same(dropped, before, range.guest);
                lemma_restore_step_wf(before, range, plan.generation);
            }
            self.released.remove(&range.guest.start);
            insert_run(
                &mut self.mapping_runs,
                MappingRun { range: range.guest, generation: plan.generation },
            );
            let joined = coalesce(&self.mapping_runs);
            self.mapping_runs = joined;
            proof {
                assert(self@ == dropped.restored(plan.ranges@, plan.generation, i + 1));
                assert forall|k: int| i + 1 <= k < plan.ranges@.len() implies {
                    &&& self@.released.contains_key((#[trigger] plan.ranges@[k]).guest.start)
                    &&& self@.released[plan.ranges@[k].guest.start].range == plan.ranges@[k]
                    &&& !dropped.meets_pending(plan.ranges@[k].guest)
                } by {
                    assert(plan.ranges@[i as int].guest.start != plan.ranges@[k].guest.start);
                }
            }
            if self.metadata_exceeded() {
                proof {
                    if old(self)@.sound() {
                        law_planned_restore_can_be_committed(old(self)@, plan, i + 1);
                    }
                }
                return Err(ReclaimError::MetadataLimit);
            }
            i = i + 1;
        }
        let ghost mapped_again = self@;
        self.reserved_leases.remove(&plan.lease.0);
        self.leases.insert(plan.lease.0, plan.access);
        proof {
            lemma_released_wf_same(mapped_again, self@);
            lemma_pending_same(mapped_again, self@);
            lemma_ram_same(mapped_again, self@);
            assert(mapped_again.reserved_leases.contains_key(plan.lease.0));
            assert(!mapped_again.leases.contains_key(plan.lease.0));
            assert(self@.leases_wf());
            assert(self@ == restore_committed(old(self)@, plan));
            if plan.generation.0 < old(self)@.next_generation {
                lemma_restore_committed_follows(old(self)@, plan);
            }
        }
        Ok(plan.lease)
    }

    /// Gives up a planned restore; the ranges stay released.
    pub fn abort_restore(&mut self, plan: RestorePlan) -> (result: Result<(), ReclaimError>)
        requires
            old(self)@.wf(),
        ensures
            final(self)@.wf(),
            final(self)@.keeps_leases(old(self)@),
            old(self)@.generations_issued() ==> final(self)@.generations_issued(),
            final(self)@.follows(old(self)@, Some(plan.token)),
            old(self)@.awaits_restore(plan) ==> result is Ok && final(self)@ == (LedgerState {
                reserved_leases: old(self)@.reserved_leases.remove(plan.lease.0),
                ..old(self)@.without_pending(plan.token)
            }),
            !old(self)@.awaits_restore(plan) ==> result == Err::<(), _>(
                ReclaimError::InvalidTransition,
            ) && final(self)@ == old(self)@,
    {
        if !self.validate_restore_pending(&plan) {
            return Err(ReclaimError::InvalidTransition);
        }
        self.drop_pending(plan.token);
        let ghost dropped = self@;
        self.reserved_leases.remove(&plan.lease.0);
        proof {
            lemma_released_wf_same(dropped, self@);
            lemma_pending_same(dropped, self@);
            lemma_ram_same(dropped, self@);
            lemma_restore_aborted_follows(old(self)@, plan);
        }
        Ok(())
    }

    /// Ends a lease.
    pub fn release_lease(&mut self, lease: LeaseId) -> (result: Result<(), ReclaimError>)
        requires
            old(self)@.wf(),
        ensures
            final(self)@.wf(),
            !final(self)@.leases.contains_key(lease.0),
            forall|k: u64| #[trigger]
                old(self)@.leases.contains_key(k) && k != lease.0
                    ==> final(self)@.leases.contains_key(k) && final(self)@.leases[k] == old(
                    self,
                )@.leases[k],
            old(self)@.generations_issued() ==> final(self)@.generations_issued(),
            final(self)@.follows(old(self)@, None),
            final(self)@ == (LedgerState {
                leases: old(self)@.leases.remove(lease.0),
                ..old(self)@
            }),
            result == if old(self)@.leases.contains_key(lease.0) {
                Ok::<(), ReclaimError>(())
            } else {
                Err(ReclaimError::UnknownLease)
            },
    {
        let removed = self.leases.remove(&lease.0);
        proof {
            lemma_released_wf_same(old(self)@, self@);
            lemma_pending_same(old(self)@, self@);
            lemma_ram_same(old(self)@, self@);
            lemma_lease_ended_follows(old(self)@, lease.0);
        }
        if removed.is_some() {
            Ok(())
        } else {
            Err(ReclaimError::UnknownLease)
        }
    }

    /// The generation with which an address is mapped, if it is.
    pub fn generation_at(&self, guest_address: u64) -> (result: Result<
        Option<MappingGeneration>,
        ReclaimError,
    >)
        requires
            self@.wf(),
        ensures
            guest_address == u64::MAX ==> result == Err::<Option<MappingGeneration>, _>(
                ReclaimError::AddressOverflow,
            ),
            guest_address < u64::MAX && !self@.ram(guest_address as int) ==> result == Err::<
                Option<MappingGeneration>,
                _,
            >(ReclaimError::NotRam),
            guest_address < u64::MAX && self@.ram(guest_address as int) ==> {
                &&& result is Ok
                &&& forall|g: MappingGeneration| #[trigger]
                    mapped_with(self@.runs, guest_address as int, g) <==> result == Ok::<
                        Option<MappingGeneration>,
                        ReclaimError,
                    >(Some(g))
            },
    {
        let range = match GuestRange::new(guest_address, 1) {
            Ok(range) => range,
            Err(error) => return Err(error),
        };
        proof {
            lemma_one_address_in_ram(self@, range);
        }
        match self.region_containing(range) {
            Ok(_) => {},
            Err(error) => return Err(error),
        }
        Ok(find_generation(&self.mapping_runs, guest_address))
    }

    /// The generation with which an address was released, if it was.
    pub fn released_generation_at(&self, guest_address: u64) -> (result: Result<
        Option<MappingGeneration>,
        ReclaimError,
    >)
        requires
            self@.wf(),
        ensures
            guest_address == u64::MAX ==> result == Err::<Option<MappingGeneration>, _>(
                ReclaimError::AddressOverflow,
            ),
            guest_address < u64::MAX && !self@.ram(guest_address as int) ==> result == Err::<
                Option<MappingGeneration>,
                _,
            >(ReclaimError::NotRam),
            guest_address < u64::MAX && self@.ram(guest_address as int) ==> match result {
                Ok(Some(generation)) => exists|k: u64| #[trigger]
                    self@.released.contains_key(k) && self@.released[k].range.guest.has(
                        guest_address as int,
                    ) && self@.released[k].generation == generation,
                Ok(None) => forall|k: u64| #[trigger]
                    self@.released.contains_key(k) ==> !self@.released[k].range.guest.has(
                        guest_address as int,
                    ),
                Err(_) => false,
            },
    {
        let range = match GuestRange::new(guest_address, 1) {
            Ok(range) => range,
            Err(error) => return Err(error),
        };
        proof {
            lemma_one_address_in_ram(self@, range);
        }
        match self.region_containing(range) {
            Ok(_) => {},
            Err(error) => return Err(error),
        }
        let extents = values_in_order(&self.released);
        let ghost keys = choose|keys: Seq<u64>| #[trigger]
            lists_map(self@.released, keys, extents@);
        let mut i: usize = 0;
        while i < extents.len()
            invariant
                i <= extents.len(),
                range.start == guest_address,
                range.end == guest_address + 1,
                self@.ram(guest_address as int),
                lists_map(self@.released, keys, extents@),
                forall|k: int|
                    0 <= k < i ==> !(#[trigger] extents@[k]).range.guest.has(guest_address as int),
            decreases extents.len() - i,
        {
            if extents[i].range.guest.contains(range) {
                assert(self@.released.contains_key(keys[i as int]));
                return Ok(Some(extents[i].generation));
            }
            i = i + 1;
        }
        proof {
            assert forall|k: u64| #[trigger]
                self@.released.contains_key(k) implies !self@.released[k].range.guest.has(
                guest_address as int,
            ) by {
                let j = choose|j: int| 0 <= j < keys.len() && keys[j] == k;
                assert(extents@[j] == self@.released[keys[j]]);
            }
        }
        Ok(None)
    }
}

proof fn lemma_one_address_in_ram(state: LedgerState, range: GuestRange)
    requires
        range.end == range.start + 1,
    ensures
        state.in_ram(range) == state.ram(range.start as int),
{
    if state.in_ram(range) {
        let r = choose|r: int|
            0 <= r < state.regions.len() && (#[trigger] state.regions[r]).range.guest.covers(range);
        assert(state.regions[r].range.guest.has(range.start as int));
    }
    if state.ram(range.start as int) {
        let r = choose|r: int|
            0 <= r < state.regions.len() && (#[trigger] state.regions[r]).range.guest.has(
                range.start as int,
            );
        assert(state.regions[r].range.guest.covers(range));
    }
}

pub(crate) proof fn lemma_meets_pending_same(state: LedgerState, next: LedgerState, range: GuestRange)
    requires
        next.pending == state.pending,
    ensures
        next.meets_pending(range) == state.meets_pending(range),
{
    if next.meets_pending(range) {
        let i = choose|i: int|
            0 <= i < next.pending.len() && (#[trigger] next.pending[i]).range.meets(range);
        assert(state.pending[i].range.meets(range));
    }
    if state.meets_pending(range) {
        let i = choose|i: int|
            0 <= i < state.pending.len() && (#[trigger] state.pending[i]).range.meets(range);
        assert(next.pending[i].range.meets(range));
    }
}

/// The ranges of an awaited restore start at different addresses, and once the
/// reservation is dropped nothing else is pending on them.
pub(crate) proof fn lemma_restore_unreserved(state: LedgerState, plan: RestorePlan)
    requires
        state.wf(),
        state.awaits_restore(plan),
    ensures
        forall|k: int, l: int|
            0 <= k < l < plan.ranges@.len() ==> (#[trigger] plan.ranges@[k]).guest.start != (
            #[trigger] plan.ranges@[l]).guest.start,
        forall|k: int|
            0 <= k < plan.ranges@.len() ==> !state.without_pending(plan.token).meets_pending(
                (#[trigger] plan.ranges@[k]).guest,
            ),
{
    let of = pending_of(state.pending, plan.token);
    let without = state.without_pending(plan.token);
    lemma_pending_parts(state.pending, plan.token);
    lemma_pending_pairs(state.pending, plan.token);
    assert forall|k: int, l: int| 0 <= k < l < plan.ranges@.len() implies (
    #[trigger] plan.ranges@[k]).guest.start != (#[trigger] plan.ranges@[l]).guest.start by {
        assert(!of[k].range.meets(of[l].range));
        assert(of[k].range == plan.ranges@[k].guest && of[l].range == plan.ranges@[l].guest);
        assert(state.released.contains_key(plan.ranges@[k].guest.start));
        assert(state.released.contains_key(plan.ranges@[l].guest.start));
    }
    assert forall|k: int| 0 <= k < plan.ranges@.len() implies !without.meets_pending(
        (#[trigger] plan.ranges@[k]).guest,
    ) by {
        assert(of[k].range == plan.ranges@[k].guest);
        let m = choose|m: int| 0 <= m < state.pending.len() && state.pending[m] == of[k];
        if without.meets_pending(plan.ranges@[k].guest) {
            let i = choose|i: int|
                0 <= i < without.pending.len() && (#[trigger] without.pending[i]).range.meets(
                    plan.ranges@[k].guest,
                );
            assert(pending_without(state.pending, plan.token)[i].token != plan.token);
            let p = choose|p: int|
                0 <= p < state.pending.len() && state.pending[p] == without.pending[i];
            if p < m {
                assert(!state.pending[p].range.meets(state.pending[m].range));
            } else {
                assert(p != m);
                assert(!state.pending[m].range.meets(state.pending[p].range));
            }
        }
    }
}

impl LedgerState {
    /// The bounds of `region` are multiples of the granule.
    pub open spec fn region_aligned(self, region: RamRegion) -> bool {
        region_aligned(self.granule, region)
    }

    /// `region` shares guest or host addresses with a registered region.
    pub open spec fn region_overlaps(self, region: RamRegion) -> bool {
        region_overlaps(self.regions, region)
    }

    /// The state after `region` was registered.
    pub open spec fn with_region(self, region: RamRegion) -> LedgerState {
        LedgerState {
            regions: insert_region_spec(self.regions, region),
            runs: coalesce_spec(
                insert_spec(
                    self.runs,
                    MappingRun { range: region.range.guest, generation: MappingGeneration(0) },
                ),
            ),
            granule_limit: (self.granule_limit + region.range.guest.size() / (
            self.granule as int)) as usize,
            ..self
        }
    }
}

/// Registering an aligned region that overlaps none keeps a ledger well formed.
pub(crate) proof fn lemma_region_added_wf(state: LedgerState, region: RamRegion)
    requires
        state.wf(),
        region.valid(),
        state.region_aligned(region),
        !state.region_overlaps(region),
        state.granule_limit + region.range.guest.size() / (state.granule as int) <= usize::MAX,
    ensures
        state.with_region(region).wf(),
        state.generations_issued() ==> state.with_region(region).generations_issued(),
        forall|i: int|
            0 <= i < state.runs.len() ==> !(#[trigger] state.runs[i]).range.meets(
                region.range.guest,
            ),
{
    let next = state.with_region(region);
    let guest = region.range.guest;
    let run = MappingRun { range: guest, generation: MappingGeneration(0) };
    lemma_power_of_two_positive(state.granule);
    vstd::arithmetic::div_mod::lemma_div_pos_is_pos(guest.size(), state.granule as int);
    let place = lemma_region_inserted(state.granule, state.regions, region);
    assert(next.regions == state.regions.insert(place, region));
    assert(next.regions_wf());
    assert forall|a: int| #[trigger] state.ram(a) implies next.ram(a) by {
        let r = choose|r: int|
            0 <= r < state.regions.len() && (#[trigger] state.regions[r]).range.guest.has(a);
        let q = if r < place {
            r
        } else {
            r + 1
        };
        assert(next.regions[q].range.guest.has(a));
    }
    assert forall|range: GuestRange| #[trigger] state.in_ram(range) implies next.in_ram(range) by {
        let r = choose|r: int|
            0 <= r < state.regions.len() && (#[trigger] state.regions[r]).range.guest.covers(range);
        let q = if r < place {
            r
        } else {
            r + 1
        };
        assert(next.regions[q].range.guest.covers(range));
    }
    assert forall|i: int| 0 <= i < state.runs.len() implies !(#[trigger] state.runs[i]).range.meets(
        guest,
    ) by {
        let piece = state.runs[i].range;
        if piece.meets(guest) {
            let a: int = if piece.start < guest.start {
                guest.start as int
            } else {
                piece.start as int
            };
            assert(piece.has(a) && guest.has(a));
            assert(mapped(state.runs, a));
            let r = choose|r: int|
                0 <= r < state.regions.len() && (#[trigger] state.regions[r]).range.guest.has(a);
            assert(state.regions[r].range.guest.meets(guest));
        }
    }
    law_insert_adds_exactly_the_run(state.runs, run);
    law_coalesce_preserves_mapping(insert_spec(state.runs, run));
    assert forall|a: int, g: MappingGeneration| #[trigger]
        mapped_with(next.runs, a, g) <==> mapped_with(state.runs, a, g) || (guest.has(a) && g
            == MappingGeneration(0)) by {
        assert(mapped_with(insert_spec(state.runs, run), a, g) <==> mapped_with(state.runs, a, g)
            || (run.range.has(a) && run.generation == g));
    }
    assert forall|a: int| #[trigger] mapped(next.runs, a) implies next.ram(a) && (mapped(
        state.runs,
        a,
    ) || guest.has(a)) by {
        let i = choose|i: int| 0 <= i < next.runs.len() && (#[trigger] next.runs[i]).range.has(a);
        assert(mapped_with(next.runs, a, next.runs[i].generation));
        if mapped_with(state.runs, a, next.runs[i].generation) {
            let j = choose|j: int|
                0 <= j < state.runs.len() && (#[trigger] state.runs[j]).range.has(a)
                    && state.runs[j].generation == next.runs[i].generation;
            assert(state.runs[j].range.has(a));
            assert(mapped(state.runs, a));
            assert(state.ram(a));
        } else {
            assert(next.regions[place].range.guest.has(a));
        }
    }
    assert forall|k: u64, i: int| #[trigger]
        next.released.contains_key(k) && 0 <= i < next.runs.len() implies !(
    #[trigger] next.runs[i]).range.meets(next.released[k].range.guest) by {
        let piece = next.runs[i];
        let extent = next.released[k].range.guest;
        assert(state.released.contains_key(k));
        assert(piece.range.valid() && extent.valid());
        if piece.range.meets(extent) {
            let a: int = if piece.range.start < extent.start {
                extent.start as int
            } else {
                piece.range.start as int
            };
            assert(piece.range.has(a) && extent.has(a));
            assert(mapped(next.runs, a));
            if mapped(state.runs, a) {
                let j = choose|j: int|
                    0 <= j < state.runs.len() && (#[trigger] state.runs[j]).range.has(a);
                assert(!state.runs[j].range.meets(state.released[k].range.guest));
            } else {
                let r = choose|r: int|
                    0 <= r < state.regions.len() && (
                    #[trigger] state.regions[r]).range.guest.covers(extent);
                assert(!state.regions[r].range.guest.meets(guest));
            }
        }
    }
    assert(next.released_wf()) by {
        assert forall|k: u64| #[trigger] next.released.contains_key(k) implies next.in_ram(
            next.released[k].range.guest,
        ) by {
            assert(state.released.contains_key(k));
            assert(state.in_ram(state.released[k].range.guest));
        }
    }
    assert forall|i: int| 0 <= i < next.pending.len() implies {
        &&& (#[trigger] next.pending[i]).range.valid()
        &&& next.in_ram(next.pending[i].range)
        &&& next.pending[i].token < next.next_token
        &&& next.pending[i].kind == PendingKind::Release ==> !next.meets_released(
            next.pending[i].range,
        )
        &&& next.pending[i].kind is Restore ==> {
            &&& next.released.contains_key(next.pending[i].range.start)
            &&& next.released[next.pending[i].range.start].range.guest == next.pending[i].range
        }
    } by {
        assert(state.pending[i].range.valid());
        assert(state.in_ram(state.pending[i].range));
        lemma_meets_released_same(state, next, state.pending[i].range);
    }
    assert(next.pending_wf());
}

impl ReclaimLedger {
    /// Adds a region of RAM, mapped as it is, to the ledger.
    pub fn register_region(&mut self, region: RamRegion) -> (result: Result<(), ReclaimError>)
        requires
            old(self)@.wf(),
            region.valid(),
        ensures
            final(self)@.wf(),
            final(self)@.keeps_leases(old(self)@),
            old(self)@.generations_issued() ==> final(self)@.generations_issued(),
            final(self)@.follows(old(self)@, None),
            (result, final(self)@) == if !old(self)@.region_aligned(region) {
                (Err::<(), ReclaimError>(ReclaimError::InvalidAlignment), old(self)@)
            } else if old(self)@.region_overlaps(region) {
                (Err(ReclaimError::OverlappingRegion), old(self)@)
            } else if old(self)@.granule_limit + region.range.guest.size() / (
            old(self)@.granule as int) > usize::MAX {
                (Err(ReclaimError::MetadataLimit), old(self)@)
            } else {
                (Ok(()), old(self)@.with_region(region))
            },
    {
        let host = region.host_range();
        let len: u64 = host.byte_len();
        proof {
            lemma_power_of_two_positive(self.granule);
            vstd::arithmetic::div_mod::lemma_div_pos_is_pos(len as int, self.granule as int);
        }
        if host.guest.start % self.granule != 0 || host.host_start % self.granule != 0 || len
            % self.granule != 0 {
            return Err(ReclaimError::InvalidAlignment);
        }
        if overlaps_any(&self.regions, region) {
            return Err(ReclaimError::OverlappingRegion);
        }
        let granules: u64 = len / self.granule;
        if granules > (usize::MAX - self.granule_limit) as u64 {
            return Err(ReclaimError::MetadataLimit);
        }
        proof {
            lemma_region_added_wf(self@, region);
            lemma_registered_follows(self@, region);
        }
        self.granule_limit = self.granule_limit + granules as usize;
        insert_region(&mut self.regions, region);
        insert_run(
            &mut self.mapping_runs,
            MappingRun { range: host.guest, generation: MappingGeneration::initial() },
        );
        let joined = coalesce(&self.mapping_runs);
        self.mapping_runs = joined;
        assert(self@ == old(self)@.with_region(region));
        Ok(())
    }
}

} // verus!
