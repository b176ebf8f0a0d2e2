//! The balloon device: features, configuration, and free-page reports.
use crate::config_space::{config_read, le_bytes, push_le, read_config_space};
use crate::frq::{FrqRun, FrqSession, FrqState};
use crate::guest_memory::GuestRange;
use crate::platform::HostPlatform;
use crate::reclaim::ReclaimState;
use vstd::prelude::*;

verus! {

/// Queue numbers: inflate, deflate, statistics, page hints, free-page reports.
pub const IFQ_INDEX: usize = 0;
pub const DFQ_INDEX: usize = 1;
pub const STQ_INDEX: usize = 2;
pub const PHQ_INDEX: usize = 3;
pub const FRQ_INDEX: usize = 4;
pub const NUM_QUEUES: usize = 5;

pub const VIRTIO_ID_BALLOON: u32 = 5;
pub const VIRTIO_F_VERSION_1: u32 = 32;
pub const VIRTIO_BALLOON_F_STATS_VQ: u32 = 1;
pub const VIRTIO_BALLOON_F_FREE_PAGE_HINT: u32 = 3;
pub const VIRTIO_BALLOON_F_REPORTING: u32 = 5;

/// The feature bit of free-page reporting.
pub const REPORTING_BIT: u64 = 0x20;

/// All features: the virtio version, statistics, page hints and free-page reporting.
pub const AVAIL_FEATURES: u64 = 0x1_0000_002a;

/// A descriptor names a next one.
pub const VIRTQ_DESC_F_NEXT: u16 = 1;

/// The features offered with or without free-page reporting.
pub fn reporting_features(enabled: bool) -> (result: u64)
    ensures
        result == if enabled {
            AVAIL_FEATURES
        } else {
            AVAIL_FEATURES & !REPORTING_BIT
        },
{
    if enabled {
        AVAIL_FEATURES
    } else {
        AVAIL_FEATURES & !REPORTING_BIT
    }
}

/// Free-page reporting is on offer exactly where it is enabled, and no other feature
/// depends on that.
pub proof fn law_reporting_changes_no_other_feature()
    ensures
        AVAIL_FEATURES & REPORTING_BIT != 0,
        (AVAIL_FEATURES & !REPORTING_BIT) & REPORTING_BIT == 0,
        (AVAIL_FEATURES & !REPORTING_BIT) | REPORTING_BIT == AVAIL_FEATURES,
        AVAIL_FEATURES == (1u64 << VIRTIO_F_VERSION_1) | (1u64 << VIRTIO_BALLOON_F_STATS_VQ) | (
        1u64 << VIRTIO_BALLOON_F_FREE_PAGE_HINT) | (1u64 << VIRTIO_BALLOON_F_REPORTING),
{
    assert(0x1_0000_002au64 & 0x20u64 != 0) by (bit_vector);
    assert((0x1_0000_002au64 & !0x20u64) & 0x20u64 == 0) by (bit_vector);
    assert((0x1_0000_002au64 & !0x20u64) | 0x20u64 == 0x1_0000_002au64) by (bit_vector);
    assert(0x1_0000_002au64 == (1u64 << 32u32) | (1u64 << 1u32) | (1u64 << 3u32) | (1u64 << 5u32))
        by (bit_vector);
}

/// The device's configuration space.
#[derive(Clone, Copy, Debug, PartialEq, Eq, Structural)]
pub struct VirtioBalloonConfig {
    /// Pages that the host wants the guest to give up.
    pub num_pages: u32,
    /// Pages that are in the balloon.
    pub actual: u32,
    /// Command number of free-page hints; the guest only reads it.
    pub free_page_report_cmd_id: u32,
    /// The poison value, where the guest poisons pages.
    pub poison_val: u32,
}

impl VirtioBalloonConfig {
    /// The configuration as the guest reads it.
    pub open spec fn bytes(self) -> Seq<u8> {
        le_bytes(self.num_pages) + le_bytes(self.actual) + le_bytes(self.free_page_report_cmd_id)
            + le_bytes(self.poison_val)
    }

    pub fn to_bytes(&self) -> (result: Vec<u8>)
        ensures
            result@ == self.bytes(),
    {
        let mut bytes: Vec<u8> = Vec::new();
        push_le(&mut bytes, self.num_pages);
        push_le(&mut bytes, self.actual);
        push_le(&mut bytes, self.free_page_report_cmd_id);
        push_le(&mut bytes, self.poison_val);
        assert(bytes@ == self.bytes());
        bytes
    }
}

impl Default for VirtioBalloonConfig {
    fn default() -> (result: VirtioBalloonConfig)
        ensures
            result == (VirtioBalloonConfig {
                num_pages: 0,
                actual: 0,
                free_page_report_cmd_id: 0,
                poison_val: 0,
            }),
    {
        VirtioBalloonConfig { num_pages: 0, actual: 0, free_page_report_cmd_id: 0, poison_val: 0 }
    }
}

/// Why a device was not activated.
#[derive(Clone, Copy, Debug, PartialEq, Eq, Structural)]
pub enum ActivateError {
    BadActivate,
}

/// The balloon device.
#[derive(Debug)]
pub struct Balloon {
    pub platform: HostPlatform,
    pub avail_features: u64,
    pub acked_features: u64,
    pub config: VirtioBalloonConfig,
    pub activated: bool,
    /// Reports go through the reclaim state.
    pub has_reclaim_state: bool,
    /// Host mappings are normalised before reports.
    pub has_remapper: bool,
    /// A fatal error can be signalled.
    pub has_failure_signal: bool,
}

/// How a fatal reporting error reaches the rest of the machine monitor.
#[derive(Clone, Copy, Debug, PartialEq, Eq, Structural)]
pub enum FailureAction {
    /// Only the log tells of it.
    LogOnly,
    /// Set this exit code, then signal the exit event.
    SignalExit { exit_code: i32 },
}

/// A chain of descriptors from the reporting queue, as it was walked.
#[derive(Debug)]
pub struct ReportChain {
    /// The number under which the chain is given back.
    pub index: u16,
    /// Address and length of each descriptor.
    pub descriptors: Vec<(u64, u32)>,
    /// The last descriptor names a next one that is not there.
    pub truncated: bool,
}

/// What a walk along a chain of descriptors does next.
#[derive(Clone, Copy, Debug, PartialEq, Eq, Structural)]
pub enum WalkStep {
    /// Go on with the next descriptor.
    More,
    /// The chain is complete.
    Complete,
    /// A next descriptor is named and not there.
    Truncated,
}

impl ReportChain {
    pub fn new(index: u16) -> (result: ReportChain)
        ensures
            result.index == index,
            result.descriptors@.len() == 0,
            !result.truncated,
    {
        ReportChain { index, descriptors: Vec::new(), truncated: false }
    }

    /// Takes up a descriptor; `next_found` says whether a next descriptor could be read.
    pub fn push(&mut self, address: u64, len: u32, flags: u16, next_found: bool) -> (result:
        WalkStep)
        ensures
            final(self).index == old(self).index,
            final(self).descriptors@ == old(self).descriptors@.push((address, len)),
            result == if next_found {
                WalkStep::More
            } else if flags & VIRTQ_DESC_F_NEXT != 0 {
                WalkStep::Truncated
            } else {
                WalkStep::Complete
            },
            final(self).truncated == (old(self).truncated || result == WalkStep::Truncated),
    {
        self.descriptors.push((address, len));
        if next_found {
            return WalkStep::More;
        }
        if flags & VIRTQ_DESC_F_NEXT != 0 {
            self.truncated = true;
            return WalkStep::Truncated;
        }
        WalkStep::Complete
    }
}

impl Balloon {
    pub fn new(platform: HostPlatform) -> (result: Balloon)
        ensures
            result == (Balloon {
                platform,
                avail_features: if platform == HostPlatform::Macos {
                    AVAIL_FEATURES & !REPORTING_BIT
                } else {
                    AVAIL_FEATURES
                },
                acked_features: 0,
                config: VirtioBalloonConfig {
                    num_pages: 0,
                    actual: 0,
                    free_page_report_cmd_id: 0,
                    poison_val: 0,
                },
                activated: false,
                has_reclaim_state: false,
                has_remapper: false,
                has_failure_signal: false,
            }),
    {
        Balloon {
            platform,
            avail_features: reporting_features(platform != HostPlatform::Macos),
            acked_features: 0,
            config: VirtioBalloonConfig::default(),
            activated: false,
            has_reclaim_state: false,
            has_remapper: false,
            has_failure_signal: false,
        }
    }

    /// Sends reports through the reclaim state; reporting is offered only where the state
    /// is effective now.
    pub fn set_reclaim_state(&mut self, state: &ReclaimState)
        ensures
            *final(self) == (Balloon {
                avail_features: if state.effective() {
                    AVAIL_FEATURES
                } else {
                    AVAIL_FEATURES & !REPORTING_BIT
                },
                has_reclaim_state: true,
                ..*old(self)
            }),
    {
        self.avail_features = reporting_features(state.is_effective());
        self.has_reclaim_state = true;
    }

    pub fn set_host_memory_remapper(&mut self, present: bool)
        ensures
            *final(self) == (Balloon { has_remapper: present, ..*old(self) }),
    {
        self.has_remapper = present;
    }

    pub fn set_failure_signal(&mut self)
        ensures
            *final(self) == (Balloon { has_failure_signal: true, ..*old(self) }),
    {
        self.has_failure_signal = true;
    }

    /// What a fatal reporting error leads to.
    pub fn fail_vm(&self) -> (result: FailureAction)
        ensures
            result == if self.has_failure_signal && self.platform == HostPlatform::Macos {
                FailureAction::SignalExit { exit_code: 1 }
            } else {
                FailureAction::LogOnly
            },
    {
        if self.has_failure_signal && self.platform == HostPlatform::Macos {
            FailureAction::SignalExit { exit_code: 1 }
        } else {
            FailureAction::LogOnly
        }
    }

    pub fn id(&self) -> (result: &'static str)
        ensures
            result@ == "balloon"@,
    {
        "balloon"
    }

    pub fn device_type(&self) -> (result: u32)
        ensures
            result == VIRTIO_ID_BALLOON,
    {
        VIRTIO_ID_BALLOON
    }

    pub fn avail_features(&self) -> (result: u64)
        ensures
            result == self.avail_features,
    {
        self.avail_features
    }

    pub fn acked_features(&self) -> (result: u64)
        ensures
            result == self.acked_features,
    {
        self.acked_features
    }

    pub fn set_acked_features(&mut self, acked_features: u64)
        ensures
            *final(self) == (Balloon { acked_features, ..*old(self) }),
    {
        self.acked_features = acked_features;
    }

    pub open spec fn negotiated(self) -> bool {
        self.acked_features & REPORTING_BIT != 0
    }

    pub fn reporting_negotiated(&self) -> (result: bool)
        ensures
            result == self.negotiated(),
    {
        self.acked_features & REPORTING_BIT != 0
    }

    pub fn read_config(&self, offset: u64, data: &mut Vec<u8>)
        ensures
            final(data)@ == config_read(self.config.bytes(), offset, old(data)@),
    {
        let bytes = self.config.to_bytes();
        read_config_space(&bytes, offset, data);
    }

    /// Activates the device with its queues; `signalled` says whether the activation event
    /// could be written.
    pub fn activate(&mut self, queues: usize, signalled: bool) -> (result: Result<(), ActivateError>)
        ensures
            result == if queues == NUM_QUEUES && signalled {
                Ok::<(), ActivateError>(())
            } else {
                Err(ActivateError::BadActivate)
            },
            *final(self) == (Balloon {
                activated: old(self).activated || result is Ok,
                ..*old(self)
            }),
    {
        if queues != NUM_QUEUES {
            return Err(ActivateError::BadActivate);
        }
        if !signalled {
            return Err(ActivateError::BadActivate);
        }
        self.activated = true;
        Ok(())
    }

    pub fn is_activated(&self) -> (result: bool)
        ensures
            result == self.activated,
    {
        self.activated
    }

    /// What the device brings to the handling of reports.
    pub open spec fn session(self) -> FrqSession {
        FrqSession {
            platform: self.platform,
            negotiated: self.negotiated(),
            has_reclaim_state: self.has_reclaim_state,
            has_remapper: self.has_remapper,
            prepared: false,
            have_used: false,
        }
    }

    /// Begins to handle the reports that wait in the queue. The device must be activated.
    pub fn process_frq(&self) -> (run: FrqRun)
        requires
            self.activated,
        ensures
            run.wf(),
            run@ == FrqState::start(self.session()),
    {
        FrqRun::new(
            FrqSession {
                platform: self.platform,
                negotiated: self.reporting_negotiated(),
                has_reclaim_state: self.has_reclaim_state,
                has_remapper: self.has_remapper,
                prepared: false,
                have_used: false,
            },
        )
    }
}

/// A descriptor holds an address; one that is empty or runs past the last address holds
/// none.
pub open spec fn descriptor_has(descriptor: (u64, u32), address: int) -> bool {
    descriptor.0 + descriptor.1 <= u64::MAX && descriptor.0 <= address < descriptor.0
        + descriptor.1
}

/// The ranges are valid and stand in order, with a gap before each next one.
pub open spec fn separated(runs: Seq<GuestRange>) -> bool {
    &&& forall|i: int| 0 <= i < runs.len() ==> (#[trigger] runs[i]).valid()
    &&& forall|i: int, j: int|
        0 <= i < j < runs.len() ==> (#[trigger] runs[i]).end < (#[trigger] runs[j]).start
}

/// `runs` are the addresses of `descriptors` as maximal ranges: in order, nonempty, with a
/// gap before each next one, and holding exactly the addresses that some descriptor holds.
pub open spec fn coalesced(descriptors: Seq<(u64, u32)>, runs: Seq<GuestRange>) -> bool {
    &&& separated(runs)
    &&& forall|a: int| #[trigger] any_run_has(runs, a) <==> any_descriptor_has(descriptors, a)
}

/// The addresses of `descriptors` as maximal ranges.
pub open spec fn merged(descriptors: Seq<(u64, u32)>) -> Seq<GuestRange> {
    choose|runs: Seq<GuestRange>| coalesced(descriptors, runs)
}

pub open spec fn any_run_has(runs: Seq<GuestRange>, a: int) -> bool {
    exists|i: int| 0 <= i < runs.len() && (#[trigger] runs[i]).has(a)
}

pub open spec fn any_descriptor_has(descriptors: Seq<(u64, u32)>, a: int) -> bool {
    exists|i: int| 0 <= i < descriptors.len() && descriptor_has(#[trigger] descriptors[i], a)
}

/// Ranges in order of their starts.
pub open spec fn by_start(spans: Seq<GuestRange>) -> bool {
    forall|i: int, j: int|
        0 <= i < j < spans.len() ==> (#[trigger] spans[i]).start <= (#[trigger] spans[j]).start
}

/// Puts a range behind those that start no later.
fn insert_span(spans: &mut Vec<GuestRange>, span: GuestRange)
    requires
        by_start(old(spans)@),
        span.valid(),
        forall|i: int| 0 <= i < old(spans)@.len() ==> (#[trigger] old(spans)@[i]).valid(),
    ensures
        by_start(final(spans)@),
        final(spans)@.len() == old(spans)@.len() + 1,
        forall|i: int| 0 <= i < final(spans)@.len() ==> (#[trigger] final(spans)@[i]).valid(),
        forall|a: int| #[trigger]
            any_run_has(final(spans)@, a) <==> any_run_has(old(spans)@, a) || span.has(a),
{
    let mut place: usize = spans.len();
    while place > 0 && spans[place - 1].start > span.start
        invariant
            place <= spans.len(),
            by_start(spans@),
            forall|i: int| place <= i < spans.len() ==> (#[trigger] spans@[i]).start > span.start,
        decreases place,
    {
        place = place - 1;
    }
    let ghost before = spans@;
    spans.insert(place, span);
    proof {
        let after = spans@;
        assert(after == before.insert(place as int, span));
        assert forall|i: int, j: int| 0 <= i < j < after.len() implies (#[trigger] after[i]).start
            <= (#[trigger] after[j]).start by {
            if place > 0 {
                assert(before[place - 1].start <= span.start);
            }
            if i < place {
                assert(after[i] == before[i]);
                if place > 0 && i < place - 1 {
                    assert(before[i].start <= before[place - 1].start);
                }
            } else if i > place {
                assert(after[i] == before[i - 1]);
            }
            if j < place {
                assert(after[j] == before[j]);
            } else if j > place {
                assert(after[j] == before[j - 1]);
            }
        }
        assert forall|i: int| 0 <= i < after.len() implies (#[trigger] after[i]).valid() by {
            if i < place {
                assert(after[i] == before[i]);
            } else if i > place {
                assert(after[i] == before[i - 1]);
            }
        }
        assert forall|a: int| #[trigger]
            any_run_has(after, a) <==> any_run_has(before, a) || span.has(a) by {
            if any_run_has(before, a) {
                let i = choose|i: int| 0 <= i < before.len() && (#[trigger] before[i]).has(a);
                let k = if i < place {
                    i
                } else {
                    i + 1
                };
                assert(after[k].has(a));
            }
            if span.has(a) {
                assert(after[place as int].has(a));
            }
            if any_run_has(after, a) {
                let i = choose|i: int| 0 <= i < after.len() && (#[trigger] after[i]).has(a);
                if i < place {
                    assert(before[i].has(a));
                } else if i > place {
                    assert(before[i - 1].has(a));
                }
            }
        }
    }
}

/// Merges the descriptors of one free-page report into maximal contiguous guest ranges,
/// dropping descriptors that are empty or overflow.
pub fn coalesce_free_page_ranges(descriptors: &Vec<(u64, u32)>) -> (result: Vec<GuestRange>)
    ensures
        coalesced(descriptors@, result@),
{
    let mut spans: Vec<GuestRange> = Vec::new();
    let mut i: usize = 0;
    while i < descriptors.len()
        invariant
            i <= descriptors.len(),
            by_start(spans@),
            forall|k: int| 0 <= k < spans@.len() ==> (#[trigger] spans@[k]).valid(),
            forall|a: int| #[trigger]
                any_run_has(spans@, a) <==> any_descriptor_has(
                    descriptors@.take(i as int),
                    a,
                ),
        decreases descriptors.len() - i,
    {
        let (start, len) = descriptors[i];
        let ghost before = spans@;
        let ghost added = descriptors@[i as int];
        match start.checked_add(len as u64) {
            Some(end) => {
                if end > start {
                    insert_span(&mut spans, GuestRange { start, end });
                }
            },
            None => {},
        }
        proof {
            let done = descriptors@.take(i as int);
            let more = descriptors@.take(i + 1);
            assert(more == done.push(added));
            assert forall|a: int| #[trigger]
                any_run_has(spans@, a) <==> any_descriptor_has(more, a) by {
                assert(any_run_has(before, a) <==> any_descriptor_has(done, a));
                if any_descriptor_has(done, a) {
                    let k = choose|k: int|
                        0 <= k < done.len() && descriptor_has(#[trigger] done[k], a);
                    assert(descriptor_has(more[k], a));
                }
                if descriptor_has(added, a) {
                    assert(descriptor_has(more[i as int], a));
                }
                if any_descriptor_has(more, a) {
                    let k = choose|k: int|
                        0 <= k < more.len() && descriptor_has(#[trigger] more[k], a);
                    if k < i {
                        assert(descriptor_has(done[k], a));
                    }
                }
            }
        }
        i = i + 1;
    }
    assert(descriptors@.take(descriptors.len() as int) == descriptors@);
    merge_spans(&spans)
}

/// Merges ranges that touch or overlap.
fn merge_spans(spans: &Vec<GuestRange>) -> (runs: Vec<GuestRange>)
    requires
        by_start(spans@),
        forall|k: int| 0 <= k < spans@.len() ==> (#[trigger] spans@[k]).valid(),
    ensures
        separated(runs@),
        forall|a: int| #[trigger] any_run_has(runs@, a) <==> any_run_has(spans@, a),
{
    let mut runs: Vec<GuestRange> = Vec::new();
    let mut i: usize = 0;
    while i < spans.len()
        invariant
            i <= spans.len(),
            by_start(spans@),
            forall|k: int| 0 <= k < spans@.len() ==> (#[trigger] spans@[k]).valid(),
            i > 0 ==> runs@.len() > 0 && runs@.last().start <= spans@[i - 1].start,
            i == 0 ==> runs@.len() == 0,
            forall|k: int| 0 <= k < runs@.len() ==> (#[trigger] runs@[k]).valid(),
            forall|k: int, l: int|
                0 <= k < l < runs@.len() ==> (#[trigger] runs@[k]).end < (
                #[trigger] runs@[l]).start,
            forall|a: int| #[trigger]
                any_run_has(runs@, a) <==> any_run_has(spans@.take(i as int), a),
        decreases spans.len() - i,
    {
        let span = spans[i];
        let ghost before = runs@;
        let ghost done = spans@.take(i as int);
        let count: usize = runs.len();
        if count > 0 && span.start <= runs[count - 1].end {
            let last = runs[count - 1];
            let end: u64 = if last.end < span.end {
                span.end
            } else {
                last.end
            };
            runs.set(count - 1, GuestRange { start: last.start, end });
            proof {
                let n = count - 1;
                assert(i > 0);
                assert(spans@[i - 1].start <= spans@[i as int].start);
                assert forall|k: int, l: int| 0 <= k < l < runs@.len() implies (
                #[trigger] runs@[k]).end < (#[trigger] runs@[l]).start by {
                    assert(runs@[k] == before[k]);
                    assert(before[k].end < before[l].start);
                }
                assert forall|a: int| #[trigger]
                    any_run_has(runs@, a) <==> any_run_has(before, a) || span.has(a) by {
                    if any_run_has(before, a) {
                        let k = choose|k: int|
                            0 <= k < before.len() && (#[trigger] before[k]).has(a);
                        assert(runs@[k].has(a));
                    }
                    if span.has(a) {
                        assert(runs@[n as int].has(a));
                    }
                    if any_run_has(runs@, a) {
                        let k = choose|k: int| 0 <= k < runs@.len() && (#[trigger] runs@[k]).has(a);
                        if k < n {
                            assert(before[k].has(a));
                        } else if a < last.end {
                            assert(before[n as int].has(a));
                        }
                    }
                }
            }
        } else {
            runs.push(span);
            proof {
                assert forall|k: int, l: int| 0 <= k < l < runs@.len() implies (
                #[trigger] runs@[k]).end < (#[trigger] runs@[l]).start by {
                    assert(runs@[k] == before[k]);
                    if l == before.len() {
                        if k < before.len() - 1 {
                            assert(before[k].end < before[before.len() - 1].start);
                            assert(before[before.len() - 1].valid());
                        }
                    }
                }
                assert forall|a: int| #[trigger]
                    any_run_has(runs@, a) <==> any_run_has(before, a) || span.has(a) by {
                    if any_run_has(before, a) {
                        let k = choose|k: int|
                            0 <= k < before.len() && (#[trigger] before[k]).has(a);
                        assert(runs@[k].has(a));
                    }
                    if span.has(a) {
                        assert(runs@[before.len() as int].has(a));
                    }
                    if any_run_has(runs@, a) {
                        let k = choose|k: int| 0 <= k < runs@.len() && (#[trigger] runs@[k]).has(a);
                        if k < before.len() {
                            assert(before[k].has(a));
                        }
                    }
                }
            }
        }
        proof {
            let more = spans@.take(i + 1);
            assert(more == done.push(span));
            assert forall|a: int| #[trigger]
                any_run_has(runs@, a) <==> any_run_has(more, a) by {
                assert(any_run_has(before, a) <==> any_run_has(done, a));
                if any_run_has(done, a) {
                    let k = choose|k: int| 0 <= k < done.len() && (#[trigger] done[k]).has(a);
                    assert(more[k].has(a));
                }
                if span.has(a) {
                    assert(more[i as int].has(a));
                }
                if any_run_has(more, a) {
                    let k = choose|k: int| 0 <= k < more.len() && (#[trigger] more[k]).has(a);
                    if k < i {
                        assert(done[k].has(a));
                    }
                }
            }
        }
        i = i + 1;
    }
    assert(spans@.take(spans.len() as int) == spans@);
    runs
}

/// The merged ranges depend on nothing but which addresses were reported: reports of the
/// same addresses, in any order, merge to the same ranges.
pub proof fn law_merge_ignores_order(
    first: Seq<(u64, u32)>,
    second: Seq<(u64, u32)>,
    runs: Seq<GuestRange>,
    others: Seq<GuestRange>,
)
    requires
        coalesced(first, runs),
        coalesced(second, others),
        forall|a: int| #[trigger] any_descriptor_has(first, a) <==> any_descriptor_has(second, a),
    ensures
        runs == others,
{
    assert forall|a: int| #[trigger] any_run_has(runs, a) <==> any_run_has(others, a) by {
        assert(any_descriptor_has(first, a) <==> any_descriptor_has(second, a));
    }
    lemma_same_prefix(runs, others, runs.len() as int);
    lemma_same_prefix(others, runs, others.len() as int);
    if runs.len() < others.len() {
        lemma_same_prefix(others, runs, others.len() as int);
    }
    assert(runs =~= others);
}

/// Descriptors can always be merged, and in no other way.
pub proof fn law_merged_is_coalesced(descriptors: Seq<(u64, u32)>)
    ensures
        coalesced(descriptors, merged(descriptors)),
        forall|runs: Seq<GuestRange>| #[trigger]
            coalesced(descriptors, runs) ==> runs == merged(descriptors),
{
    lemma_mergeable(descriptors);
    assert forall|runs: Seq<GuestRange>| #[trigger] coalesced(descriptors, runs) implies runs
        == merged(descriptors) by {
        law_merge_ignores_order(descriptors, descriptors, runs, merged(descriptors));
    }
}

proof fn lemma_mergeable(descriptors: Seq<(u64, u32)>)
    ensures
        exists|runs: Seq<GuestRange>| coalesced(descriptors, runs),
    decreases descriptors.len(),
{
    if descriptors.len() == 0 {
        assert(coalesced(descriptors, Seq::<GuestRange>::empty()));
    } else {
        let front = descriptors.drop_last();
        lemma_mergeable(front);
        let runs = merged(front);
        let (start, len) = descriptors.last();
        assert forall|a: int| #[trigger]
            any_descriptor_has(descriptors, a) <==> any_descriptor_has(front, a) || descriptor_has(
                descriptors.last(),
                a,
            ) by {
            if any_descriptor_has(front, a) {
                let i = choose|i: int|
                    0 <= i < front.len() && descriptor_has(#[trigger] front[i], a);
                assert(descriptor_has(descriptors[i], a));
            }
            if any_descriptor_has(descriptors, a) {
                let i = choose|i: int|
                    0 <= i < descriptors.len() && descriptor_has(#[trigger] descriptors[i], a);
                if i < front.len() {
                    assert(descriptor_has(front[i], a));
                }
            }
        }
        if len == 0 || start + len > u64::MAX {
            assert(coalesced(descriptors, runs));
        } else {
            let span = GuestRange { start, end: (start + len) as u64 };
            lemma_joined(runs, span);
            let more = joined(runs, span);
            assert forall|a: int| #[trigger]
                any_run_has(more, a) <==> any_descriptor_has(descriptors, a) by {
                assert(any_run_has(runs, a) <==> any_descriptor_has(front, a));
            }
            assert(coalesced(descriptors, more));
        }
    }
}

/// How many ranges end before an address.
spec fn ended_before(runs: Seq<GuestRange>, a: u64) -> int
    decreases runs.len(),
{
    if runs.len() == 0 {
        0
    } else if runs.last().end < a {
        runs.len() as int
    } else {
        ended_before(runs.drop_last(), a)
    }
}

/// How many ranges start up to an address.
spec fn started_by(runs: Seq<GuestRange>, a: u64) -> int
    decreases runs.len(),
{
    if runs.len() == 0 {
        0
    } else if runs.last().start <= a {
        runs.len() as int
    } else {
        started_by(runs.drop_last(), a)
    }
}

/// Separated ranges, with those that touch or meet a new one joined to it.
spec fn joined(runs: Seq<GuestRange>, span: GuestRange) -> Seq<GuestRange> {
    let first = ended_before(runs, span.start);
    let past = started_by(runs, span.end);
    runs.take(first).push(
        GuestRange {
            start: if first < past && runs[first].start < span.start {
                runs[first].start
            } else {
                span.start
            },
            end: if first < past && runs[past - 1].end > span.end {
                runs[past - 1].end
            } else {
                span.end
            },
        },
    ) + runs.skip(past)
}

proof fn lemma_places(runs: Seq<GuestRange>, a: u64)
    requires
        separated(runs),
    ensures
        0 <= ended_before(runs, a) <= runs.len(),
        forall|i: int| 0 <= i < ended_before(runs, a) ==> (#[trigger] runs[i]).end < a,
        forall|i: int| ended_before(runs, a) <= i < runs.len() ==> (#[trigger] runs[i]).end >= a,
        0 <= started_by(runs, a) <= runs.len(),
        forall|i: int| 0 <= i < started_by(runs, a) ==> (#[trigger] runs[i]).start <= a,
        forall|i: int| started_by(runs, a) <= i < runs.len() ==> (#[trigger] runs[i]).start > a,
    decreases runs.len(),
{
    if runs.len() > 0 {
        let front = runs.drop_last();
        lemma_places(front, a);
        assert(forall|i: int| 0 <= i < front.len() ==> #[trigger] front[i] == runs[i]);
        assert forall|i: int| 0 <= i < runs.len() implies (#[trigger] runs[i]).end
            <= runs.last().end && runs[i].start <= runs.last().start by {
            if i < runs.len() - 1 {
                assert(runs[i].end < runs[runs.len() - 1].start);
            }
        }
        assert forall|i: int| 0 <= i < ended_before(runs, a) implies (#[trigger] runs[i]).end
            < a by {
            if runs.last().end >= a {
                assert(front[i].end < a);
            }
        }
        assert forall|i: int| 0 <= i < started_by(runs, a) implies (#[trigger] runs[i]).start
            <= a by {
            if runs.last().start > a {
                assert(front[i].start <= a);
            }
        }
        assert forall|i: int| ended_before(runs, a) <= i < runs.len() implies (
        #[trigger] runs[i]).end >= a by {
            if i < front.len() {
                assert(front[i].end >= a);
            }
        }
        assert forall|i: int| started_by(runs, a) <= i < runs.len() implies (
        #[trigger] runs[i]).start > a by {
            if i < front.len() {
                assert(front[i].start > a);
            }
        }
    }
}

/// How the joined ranges are made of the others.
proof fn lemma_joined_parts(runs: Seq<GuestRange>, span: GuestRange, first: int, past: int)
    requires
        separated(runs),
        span.valid(),
        first == ended_before(runs, span.start),
        past == started_by(runs, span.end),
    ensures
        0 <= first <= past <= runs.len(),
        forall|i: int| 0 <= i < first ==> (#[trigger] runs[i]).end < span.start,
        forall|i: int| past <= i < runs.len() ==> (#[trigger] runs[i]).start > span.end,
        first < past ==> runs[first].end >= span.start && runs[past - 1].start <= span.end,
        joined(runs, span).len() == first + 1 + runs.len() - past,
        forall|i: int| 0 <= i < first ==> #[trigger] joined(runs, span)[i] == runs[i],
        forall|i: int|
            first < i < joined(runs, span).len() ==> #[trigger] joined(runs, span)[i]
                == runs[past + i - first - 1],
{
    lemma_places(runs, span.start);
    lemma_places(runs, span.end);
    if past < first {
        assert(runs[past].start > span.end);
        assert(runs[past].end < span.start);
        assert(runs[past].valid());
    }
}

proof fn lemma_joined(runs: Seq<GuestRange>, span: GuestRange)
    requires
        separated(runs),
        span.valid(),
    ensures
        separated(joined(runs, span)),
        forall|a: int| #[trigger]
            any_run_has(joined(runs, span), a) <==> any_run_has(runs, a) || span.has(a),
{
    let first = ended_before(runs, span.start);
    let past = started_by(runs, span.end);
    lemma_joined_parts(runs, span, first, past);
    let more = joined(runs, span);
    if first < past {
        assert(runs[first].valid() && runs[past - 1].valid());
    }
    assert(separated(more)) by {
        assert forall|i: int| 0 <= i < more.len() implies (#[trigger] more[i]).valid() by {
            if i < first {
                assert(runs[i].valid());
            } else if i > first {
                assert(runs[past + i - first - 1].valid());
            }
        }
        assert forall|i: int, j: int| 0 <= i < j < more.len() implies (#[trigger] more[i]).end < (
        #[trigger] more[j]).start by {
            if j < first {
                assert(runs[i].end < runs[j].start);
            } else if j == first {
                assert(runs[i].end < span.start);
                if first < past {
                    assert(runs[i].end < runs[first].start);
                }
            } else {
                let k = past + j - first - 1;
                assert(runs[k].start > span.end);
                if i < first {
                    assert(runs[i].end < runs[k].start);
                } else if i == first {
                    if first < past {
                        assert(runs[past - 1].end < runs[k].start);
                    }
                } else {
                    assert(runs[past + i - first - 1].end < runs[k].start);
                }
            }
        }
    }
    assert forall|a: int| #[trigger] any_run_has(more, a) <==> any_run_has(runs, a) || span.has(
        a,
    ) by {
        lemma_joined_has(runs, span, first, past, a);
    }
}

/// The joined ranges hold the addresses of the others and of the new one.
proof fn lemma_joined_has(
    runs: Seq<GuestRange>,
    span: GuestRange,
    first: int,
    past: int,
    a: int,
)
    requires
        separated(runs),
        span.valid(),
        first == ended_before(runs, span.start),
        past == started_by(runs, span.end),
    ensures
        any_run_has(joined(runs, span), a) <==> any_run_has(runs, a) || span.has(a),
{
    lemma_joined_parts(runs, span, first, past);
    let more = joined(runs, span);
    if any_run_has(more, a) {
        let i = choose|i: int| 0 <= i < more.len() && (#[trigger] more[i]).has(a);
        if i < first {
            assert(runs[i].has(a));
        } else if i > first {
            assert(runs[past + i - first - 1].has(a));
        } else if a < span.start {
            assert(runs[first].has(a));
        } else if a >= span.end {
            assert(runs[past - 1].has(a));
        }
    }
    if span.has(a) {
        assert(more[first].has(a));
    }
    if any_run_has(runs, a) {
        let i = choose|i: int| 0 <= i < runs.len() && (#[trigger] runs[i]).has(a);
        if i < first {
            assert(more[i].has(a));
        } else if i >= past {
            assert(more[i - past + first + 1].has(a));
        } else {
            if i > first {
                assert(runs[first].valid());
                assert(runs[first].end < runs[i].start);
            }
            if i < past - 1 {
                assert(runs[past - 1].valid());
                assert(runs[i].end < runs[past - 1].start);
            }
            assert(more[first].has(a));
        }
    }
}

/// Separated ranges with the same addresses agree one by one.
proof fn lemma_same_prefix(runs: Seq<GuestRange>, others: Seq<GuestRange>, n: int)
    requires
        0 <= n <= runs.len(),
        separated(runs),
        separated(others),
        forall|a: int| #[trigger] any_run_has(runs, a) <==> any_run_has(others, a),
    ensures
        n <= others.len(),
        forall|i: int| 0 <= i < n ==> #[trigger] runs[i] == others[i],
    decreases n,
{
    if n > 0 {
        let k = n - 1;
        lemma_same_prefix(runs, others, k);
        let run = runs[k];
        let s = run.start as int;
        assert(run.has(s));
        assert(any_run_has(runs, s));
        assert(any_run_has(others, s));
        let m = choose|m: int| 0 <= m < others.len() && (#[trigger] others[m]).has(s);
        if m < k {
            assert(runs[m] == others[m]);
            assert(runs[m].end < runs[k].start);
        }
        assert(m >= k);
        let other = others[k];
        let t = other.start as int;
        assert(other.has(t));
        assert(any_run_has(others, t));
        assert(any_run_has(runs, t));
        let q = choose|q: int| 0 <= q < runs.len() && (#[trigger] runs[q]).has(t);
        if q < k {
            assert(runs[q] == others[q]);
            assert(others[q].end < others[k].start);
        }
        assert(q >= k);
        // Both ranges start at the least address that no earlier range holds.
        if q > k {
            assert(runs[k].end < runs[q].start);
        }
        if m > k {
            assert(others[k].end < others[m].start);
        }
        assert(run.start == other.start) by {
            if t < s {
                assert(q == k || runs[k].end < runs[q].start);
            }
        }
        // And end where the addresses stop.
        let e = run.end as int;
        let f = other.end as int;
        if e < f {
            assert(other.has(e));
            assert(any_run_has(others, e));
            assert(any_run_has(runs, e));
            let x = choose|x: int| 0 <= x < runs.len() && (#[trigger] runs[x]).has(e);
            if x < k {
                assert(runs[x].end < runs[k].start);
            } else if x > k {
                assert(runs[k].end < runs[x].start);
            }
        }
        if f < e {
            assert(run.has(f));
            assert(any_run_has(runs, f));
            assert(any_run_has(others, f));
            let x = choose|x: int| 0 <= x < others.len() && (#[trigger] others[x]).has(f);
            if x < k {
                assert(others[x].end < others[k].start);
            } else if x > k {
                assert(others[k].end < others[x].start);
            }
        }
    }
}

} // verus!
