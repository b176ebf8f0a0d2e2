//! Host reclaim of guest RAM that the guest reported free.
//!
//! Each release unmaps a range from the guest, advises the host page by page that its
//! contents are free, and maps it again. The state of every RAM extent tells a vCPU that
//! faults inside that window to wait and retry. The hypervisor calls themselves are made
//! by the caller, between `begin_release` and `finish_release`, as `CycleRun` asks for them.
use crate::guest_memory::{
    GuestRange, HostRange, RamPermissions, RamRegion, ReclaimError,
};
use crate::ram_layout::RamLayout;
use crate::reclaim_memory::{
    extent_is, law_cycle_claims_all_that_it_unmaps, law_faults_wait_for_the_cycle, lemma_one_region,
};
use crate::text::{push_signed, signed_digits};
use vstd::prelude::*;

verus! {

/// Transition bookkeeping granularity: one state per two mebibytes of RAM.
pub const EXTENT_BYTES: u64 = 0x20_0000;

/// How often a waiting vCPU spins before it yields.
pub const SPINS_BEFORE_YIELD: u32 = 64;

/// How long, in milliseconds, a vCPU waits for a release cycle before it gives up.
pub const TRANSITION_WAIT_TIMEOUT_MILLIS: u64 = 5000;

/// The mapping state of one extent.
#[derive(Clone, Copy, Debug, PartialEq, Eq, Structural)]
pub enum ExtentState {
    Mapped,
    /// A release cycle is in flight.
    Transitioning,
    /// A release cycle could not restore the mapping.
    Lost,
}

/// What can go wrong with the reclaim state; operating system errors by number.
#[derive(Clone, Copy, Debug, PartialEq, Eq, Structural)]
pub enum ReclaimStateError {
    AlreadyInitialized,
    Layout(ReclaimError),
    DiscardAdvice(i32),
    ReleaseUnmap,
    RestoreMap,
    NormalizeMapping(i32),
    RemapperLockPoisoned,
    TransitionTimeout,
    ExtentLost,
}

impl ReclaimStateError {
    /// The text that is shown for the error. `host_words` is what the host says of the
    /// operating system's error, where one is carried.
    pub open spec fn text(self, host_words: Seq<char>) -> Seq<char> {
        match self {
            ReclaimStateError::AlreadyInitialized =>
                "guest RAM reclaim state is already initialized"@,
            ReclaimStateError::Layout(error) => "guest RAM layout error: "@ + error.text(),
            ReclaimStateError::DiscardAdvice(_) => "failed to advise reported guest RAM free: "@
                + host_words,
            ReclaimStateError::ReleaseUnmap => "failed to release guest RAM mapping from HVF"@,
            ReclaimStateError::RestoreMap => "failed to restore guest RAM mapping in HVF"@,
            ReclaimStateError::NormalizeMapping(code) =>
                "failed to normalize host RAM mappings: Mach error "@ + signed_digits(code as int),
            ReclaimStateError::RemapperLockPoisoned => "host memory remapper lock poisoned"@,
            ReclaimStateError::TransitionTimeout =>
                "guest RAM release did not complete before the vCPU wait deadline"@,
            ReclaimStateError::ExtentLost =>
                "guest RAM extent was left unmapped by a failed release cycle"@,
        }
    }

    /// The number of the operating system's error that the text speaks of.
    pub fn os_error(self) -> (result: Option<i32>)
        ensures
            result == match self {
                ReclaimStateError::DiscardAdvice(code) => Some(code),
                _ => None,
            },
    {
        match self {
            ReclaimStateError::DiscardAdvice(code) => Some(code),
            _ => None,
        }
    }

    /// The text that is shown for the error.
    pub fn message(self, host_words: &str) -> (result: String)
        ensures
            result@ == self.text(host_words@),
    {
        match self {
            ReclaimStateError::AlreadyInitialized =>
                String::from_str("guest RAM reclaim state is already initialized"),
            ReclaimStateError::Layout(error) => {
                let mut text = String::from_str("guest RAM layout error: ");
                text.append(error.message());
                text
            },
            ReclaimStateError::DiscardAdvice(_) => {
                let mut text = String::from_str("failed to advise reported guest RAM free: ");
                text.append(host_words);
                text
            },
            ReclaimStateError::ReleaseUnmap =>
                String::from_str("failed to release guest RAM mapping from HVF"),
            ReclaimStateError::RestoreMap =>
                String::from_str("failed to restore guest RAM mapping in HVF"),
            ReclaimStateError::NormalizeMapping(code) => {
                let mut text = String::from_str(
                    "failed to normalize host RAM mappings: Mach error ",
                );
                push_signed(&mut text, code);
                text
            },
            ReclaimStateError::RemapperLockPoisoned =>
                String::from_str("host memory remapper lock poisoned"),
            ReclaimStateError::TransitionTimeout => String::from_str(
                "guest RAM release did not complete before the vCPU wait deadline",
            ),
            ReclaimStateError::ExtentLost => String::from_str(
                "guest RAM extent was left unmapped by a failed release cycle",
            ),
        }
    }
}

#[derive(Clone, Copy, Debug, PartialEq, Eq, Structural)]
pub enum ReleaseOutcome {
    Released,
    Skipped,
}

#[derive(Clone, Copy, Debug, PartialEq, Eq, Structural)]
pub enum FaultResolution {
    /// The fault raced a release cycle; the vCPU must execute the access again.
    Retry,
    /// Not RAM, or RAM with no release in flight: handle as MMIO or an error.
    Invalid,
}

/// What a vCPU that faulted does next.
#[derive(Clone, Copy, Debug, PartialEq, Eq, Structural)]
pub enum FaultStep {
    /// The extent is in transition: wait, then ask again.
    Wait,
    Resolved(FaultResolution),
}

#[derive(Clone, Copy, Debug, PartialEq, Eq, Structural)]
pub enum ReclaimQualification {
    NotRun,
    Passed,
    Failed,
    Inconclusive,
}

#[derive(Clone, Copy, Debug, PartialEq, Eq, Structural)]
pub struct ReclaimStats {
    /// Successfully advised ranges, not necessarily distinct extents.
    pub released_extents: u64,
    /// Cumulative successfully advised bytes, not measured host-memory savings.
    pub released_bytes: u64,
    pub retried_faults: u64,
    pub skipped_reports: u64,
    pub failed_operations: u64,
}

/// `value` plus `amount`, or the largest number where that does not fit.
pub open spec fn saturated(value: u64, amount: u64) -> u64 {
    if value + amount > u64::MAX {
        u64::MAX
    } else {
        (value + amount) as u64
    }
}

fn saturating_increment(counter: &mut u64, amount: u64)
    ensures
        *final(counter) == saturated(*old(counter), amount),
{
    *counter = (*counter).saturating_add(amount);
}

/// The extents of one region, in order.
#[derive(Debug)]
pub struct RegionExtents {
    pub region: RamRegion,
    pub states: Vec<ExtentState>,
}

/// Number of extents that `size` bytes fill, the last one perhaps in part.
pub open spec fn extent_count(size: int) -> int {
    (size + EXTENT_BYTES - 1) / (EXTENT_BYTES as int)
}

impl RegionExtents {
    pub open spec fn wf(self) -> bool {
        &&& self.region.valid()
        &&& self.region.range.guest.size() <= usize::MAX
        &&& self.states@.len() == extent_count(self.region.range.guest.size())
    }

    /// The number of the extent that holds an address of the region.
    pub open spec fn index_of(self, address: int) -> int {
        (address - self.region.range.guest.start) / (EXTENT_BYTES as int)
    }

    pub fn new(region: RamRegion) -> (result: RegionExtents)
        requires
            region.valid(),
            region.range.guest.size() <= usize::MAX,
        ensures
            result.wf(),
            result.region == region,
            forall|i: int|
                0 <= i < result.states@.len() ==> (#[trigger] result.states@[i])
                    == ExtentState::Mapped,
    {
        let len: u64 = region.host_range().byte_len();
        let whole: u64 = len / EXTENT_BYTES;
        let count: u64 = if len % EXTENT_BYTES == 0 {
            whole
        } else {
            whole + 1
        };
        let mut states: Vec<ExtentState> = Vec::new();
        let mut i: u64 = 0;
        while i < count
            invariant
                i <= count,
                states@.len() == i,
                forall|k: int|
                    0 <= k < states@.len() ==> (#[trigger] states@[k]) == ExtentState::Mapped,
            decreases count - i,
        {
            states.push(ExtentState::Mapped);
            i = i + 1;
        }
        RegionExtents { region, states }
    }

    pub fn index(&self, guest_address: u64) -> (result: usize)
        requires
            self.wf(),
            self.region.range.guest.has(guest_address as int),
        ensures
            result == self.index_of(guest_address as int),
            result < self.states@.len(),
    {
        let offset: u64 = guest_address - self.region.range.guest.start;
        (offset / EXTENT_BYTES) as usize
    }

    pub fn state(&self, guest_address: u64) -> (result: ExtentState)
        requires
            self.wf(),
            self.region.range.guest.has(guest_address as int),
        ensures
            result == self.states@[self.index_of(guest_address as int)],
    {
        self.states[self.index(guest_address)]
    }

    /// The first and the last extent that `range` touches.
    pub fn extent_indexes(&self, range: GuestRange) -> (result: (usize, usize))
        requires
            self.wf(),
            range.valid(),
            self.region.range.guest.covers(range),
        ensures
            result.0 == self.index_of(range.start as int),
            result.1 == self.index_of(range.end - 1),
            result.0 <= result.1 < self.states@.len(),
    {
        (self.index(range.start()), self.index(range.end() - 1))
    }
}

/// The RAM layout with the state of every extent.
#[derive(Debug)]
pub struct ExtentMap {
    pub layout: RamLayout,
    pub regions: Vec<RegionExtents>,
}

impl ExtentMap {
    pub open spec fn wf(self) -> bool {
        &&& self.layout.wf()
        &&& self.regions@.len() == self.layout.regions@.len()
        &&& forall|i: int|
            0 <= i < self.regions@.len() ==> {
                &&& (#[trigger] self.regions@[i]).wf()
                &&& self.regions@[i].region == self.layout.regions@[i]
            }
    }

    pub fn new(layout: RamLayout) -> (result: ExtentMap)
        requires
            layout.wf(),
        ensures
            result.wf(),
            result.layout == layout,
            forall|i: int, j: int|
                0 <= i < result.regions@.len() && 0 <= j < result.regions@[i].states@.len() ==> (
                #[trigger] result.regions@[i].states@[j]) == ExtentState::Mapped,
    {
        let mut regions: Vec<RegionExtents> = Vec::new();
        let mut i: usize = 0;
        while i < layout.regions.len()
            invariant
                i <= layout.regions.len(),
                layout.wf(),
                regions@.len() == i,
                forall|k: int|
                    0 <= k < i ==> {
                        &&& (#[trigger] regions@[k]).wf()
                        &&& regions@[k].region == layout.regions@[k]
                    },
                forall|k: int, j: int|
                    0 <= k < i && 0 <= j < regions@[k].states@.len() ==> (
                    #[trigger] regions@[k].states@[j]) == ExtentState::Mapped,
            decreases layout.regions.len() - i,
        {
            let region = layout.regions[i];
            assert(layout.regions@[i as int].valid());
            let ghost before = regions@;
            let extents = RegionExtents::new(region);
            regions.push(extents);
            assert forall|k: int, j: int|
                0 <= k < i + 1 && 0 <= j < regions@[k].states@.len() implies (
            #[trigger] regions@[k].states@[j]) == ExtentState::Mapped by {
                if k < i {
                    assert(regions@[k] == before[k]);
                    assert(before[k].states@[j] == ExtentState::Mapped);
                }
            }
            i = i + 1;
        }
        ExtentMap { layout, regions }
    }

    /// The number of the region that holds `guest_address`.
    pub fn region_for(&self, guest_address: u64) -> (result: Option<usize>)
        requires
            self.wf(),
        ensures
            result is Some <==> self.layout.ram(guest_address as int),
            result matches Some(i) ==> i < self.regions@.len()
                && self.regions@[i as int].region.range.guest.has(guest_address as int),
    {
        let mut i: usize = 0;
        while i < self.regions.len()
            invariant
                i <= self.regions.len(),
                self.wf(),
                forall|k: int|
                    0 <= k < i ==> !(#[trigger] self.layout.regions@[k]).range.guest.has(
                        guest_address as int,
                    ),
            decreases self.regions.len() - i,
        {
            if self.regions[i].region.contains_address(guest_address) {
                assert(self.layout.regions@[i as int].range.guest.has(guest_address as int));
                return Some(i);
            }
            assert(self.regions@[i as int].region == self.layout.regions@[i as int]);
            i = i + 1;
        }
        None
    }
}

/// A release cycle in flight: the host range, and the extents that it claimed.
#[derive(Clone, Copy, Debug, PartialEq, Eq, Structural)]
pub struct ReleaseCycle {
    pub host: HostRange,
    pub granule: u64,
    pub region: usize,
    pub first: usize,
    pub last: usize,
}

/// What the hypervisor and the host answered in a release cycle. Where the unmap failed
/// neither of the later calls was made, and their answers do not matter.
#[derive(Clone, Copy, Debug, PartialEq, Eq, Structural)]
pub struct CycleReply {
    pub unmapped: bool,
    /// The error number of the advice, if it failed.
    pub advice_error: Option<i32>,
    pub remapped: bool,
}

/// How a release cycle failed.
#[derive(Clone, Copy, Debug, PartialEq, Eq, Structural)]
pub enum CycleFailure {
    /// Guest memory is intact and mapped; reclaim is disabled from here on.
    Recoverable(ReclaimStateError),
    /// The mapping could not be restored; the virtual machine cannot continue.
    Fatal(ReclaimStateError),
}

/// What a cycle's replies amount to.
pub open spec fn cycle_result(reply: CycleReply) -> Result<(), CycleFailure> {
    if !reply.unmapped {
        Err(CycleFailure::Recoverable(ReclaimStateError::ReleaseUnmap))
    } else if !reply.remapped {
        Err(CycleFailure::Fatal(ReclaimStateError::RestoreMap))
    } else {
        match reply.advice_error {
            Some(errno) => Err(CycleFailure::Recoverable(ReclaimStateError::DiscardAdvice(errno))),
            None => Ok(()),
        }
    }
}

/// Judges a release cycle by its replies.
pub fn cycle(reply: CycleReply) -> (result: Result<(), CycleFailure>)
    ensures
        result == cycle_result(reply),
{
    if !reply.unmapped {
        return Err(CycleFailure::Recoverable(ReclaimStateError::ReleaseUnmap));
    }
    if !reply.remapped {
        return Err(CycleFailure::Fatal(ReclaimStateError::RestoreMap));
    }
    match reply.advice_error {
        Some(errno) => Err(CycleFailure::Recoverable(ReclaimStateError::DiscardAdvice(errno))),
        None => Ok(()),
    }
}

/// A call of the host that maps RAM onto itself, or how the whole came out.
#[derive(Clone, Copy, Debug, PartialEq, Eq)]
pub enum NormalizeCall {
    /// Map a range of host memory onto itself.
    Remap { source: u64, size: u64 },
    Finished(Result<(), ReclaimStateError>),
}

/// The host's mappings on their way to being normal.
#[derive(Debug)]
pub struct NormalizeRun {
    /// The start and the size of each range.
    pub targets: Vec<(u64, u64)>,
    /// How many are done.
    pub done: usize,
    pub failed: Option<ReclaimStateError>,
}

impl NormalizeRun {
    pub open spec fn wf(self) -> bool {
        self.done <= self.targets@.len()
    }

    /// The next call. The first that fails is the last.
    pub open spec fn call_spec(self) -> NormalizeCall {
        match self.failed {
            Some(error) => NormalizeCall::Finished(Err(error)),
            None => if self.done < self.targets@.len() {
                NormalizeCall::Remap {
                    source: self.targets@[self.done as int].0,
                    size: self.targets@[self.done as int].1,
                }
            } else {
                NormalizeCall::Finished(Ok(()))
            },
        }
    }

    /// The next call.
    pub fn call(&self) -> (call: NormalizeCall)
        requires
            self.wf(),
        ensures
            call == self.call_spec(),
    {
        match self.failed {
            Some(error) => NormalizeCall::Finished(Err(error)),
            None => if self.done < self.targets.len() {
                let (source, size) = self.targets[self.done];
                NormalizeCall::Remap { source, size }
            } else {
                NormalizeCall::Finished(Ok(()))
            },
        }
    }

    /// Takes up the host's error and where the range is now, and gives the next call.
    pub fn step(&mut self, code: i32, destination: u64) -> (call: NormalizeCall)
        requires
            old(self).wf(),
            old(self).call_spec() is Remap,
        ensures
            final(self).wf(),
            *final(self) == match ReclaimState::normalization_spec(
                code,
                old(self).targets@[old(self).done as int].0,
                destination,
            ) {
                Ok(()) => NormalizeRun { done: (old(self).done + 1) as usize, ..*old(self) },
                Err(error) => NormalizeRun { failed: Some(error), ..*old(self) },
            },
            call == final(self).call_spec(),
    {
        assert(self.done < self.targets.len());
        let (source, _) = self.targets[self.done];
        match ReclaimState::normalization_result(code, source, destination) {
            Ok(()) => self.done = self.done + 1,
            Err(error) => self.failed = Some(error),
        }
        self.call()
    }
}

/// A call of the hypervisor or the host in a release cycle, or how the cycle came out.
#[derive(Clone, Copy, Debug, PartialEq, Eq)]
pub enum CycleCall {
    /// Take the range away from the guest.
    Unmap { guest: u64, size: u64 },
    /// Advise the host that each page of the range is free.
    Advise { host: u64, size: u64, page_size: u64 },
    /// Give the range to the guest again, with these permissions.
    Restore { host: u64, guest: u64, size: u64, flags: u64 },
    Finished(Result<(), CycleFailure>),
}

/// How a call went.
#[derive(Clone, Copy, Debug, PartialEq, Eq, Structural)]
pub enum CallReply {
    Unmapped(bool),
    /// The error number of the advice, if it failed.
    Advised(Option<i32>),
    Mapped(bool),
}

/// How far a release cycle is.
#[derive(Clone, Copy, Debug, PartialEq, Eq)]
pub enum CycleStage {
    Mapped,
    Unmapped,
    Advised(Option<i32>),
    Finished(Result<(), CycleFailure>),
}

/// A release cycle that is under way.
#[derive(Clone, Copy, Debug, PartialEq, Eq)]
pub struct CycleRun {
    pub cycle: ReleaseCycle,
    pub stage: CycleStage,
}

impl CycleRun {
    /// The cycle before its first call. A range that the host cannot address counts as one
    /// that could not be unmapped.
    pub open spec fn start(cycle: ReleaseCycle) -> CycleRun {
        CycleRun {
            cycle,
            stage: if cycle.host.guest.size() > usize::MAX || cycle.granule
                > usize::MAX {
                CycleStage::Finished(
                    Err(CycleFailure::Recoverable(ReclaimStateError::ReleaseUnmap)),
                )
            } else {
                CycleStage::Mapped
            },
        }
    }

    /// The next call.
    pub open spec fn call_spec(self) -> CycleCall {
        let host = self.cycle.host.host_start;
        let guest = self.cycle.host.guest.start;
        let size = self.cycle.host.guest.size() as u64;
        match self.stage {
            CycleStage::Mapped => CycleCall::Unmap { guest, size },
            CycleStage::Unmapped => CycleCall::Advise { host, size, page_size: self.cycle.granule },
            CycleStage::Advised(_) => CycleCall::Restore {
                host,
                guest,
                size,
                flags: hvf_flags(self.cycle.host.permissions),
            },
            CycleStage::Finished(result) => CycleCall::Finished(result),
        }
    }

    /// The reply is one to the next call.
    pub open spec fn answers(self, reply: CallReply) -> bool {
        match self.stage {
            CycleStage::Mapped => reply is Unmapped,
            CycleStage::Unmapped => reply is Advised,
            CycleStage::Advised(_) => reply is Mapped,
            CycleStage::Finished(_) => false,
        }
    }

    /// The cycle behind a reply.
    pub open spec fn after(self, reply: CallReply) -> CycleRun {
        let stage = match (self.stage, reply) {
            (CycleStage::Mapped, CallReply::Unmapped(true)) => CycleStage::Unmapped,
            (CycleStage::Mapped, CallReply::Unmapped(false)) => CycleStage::Finished(
                Err(CycleFailure::Recoverable(ReclaimStateError::ReleaseUnmap)),
            ),
            (CycleStage::Unmapped, CallReply::Advised(error)) => CycleStage::Advised(error),
            (CycleStage::Advised(None), CallReply::Mapped(true)) => CycleStage::Finished(Ok(())),
            (CycleStage::Advised(Some(errno)), CallReply::Mapped(true)) => CycleStage::Finished(
                Err(CycleFailure::Recoverable(ReclaimStateError::DiscardAdvice(errno))),
            ),
            (CycleStage::Advised(_), CallReply::Mapped(false)) => CycleStage::Finished(
                Err(CycleFailure::Fatal(ReclaimStateError::RestoreMap)),
            ),
            _ => self.stage,
        };
        CycleRun { stage, ..self }
    }

    /// Begins a release cycle.
    pub fn new(cycle: ReleaseCycle) -> (run: CycleRun)
        requires
            cycle.host.guest.valid(),
        ensures
            run == CycleRun::start(cycle),
    {
        if cycle.host.byte_len() > usize::MAX as u64 || cycle.granule > usize::MAX as u64 {
            return CycleRun {
                cycle,
                stage: CycleStage::Finished(
                    Err(CycleFailure::Recoverable(ReclaimStateError::ReleaseUnmap)),
                ),
            };
        }
        CycleRun { cycle, stage: CycleStage::Mapped }
    }

    /// The next call.
    pub fn call(&self) -> (call: CycleCall)
        requires
            self.cycle.host.guest.valid(),
        ensures
            call == self.call_spec(),
    {
        let host: u64 = self.cycle.host.host_start();
        let guest: u64 = self.cycle.host.guest_range().start();
        let size: u64 = self.cycle.host.byte_len();
        match self.stage {
            CycleStage::Mapped => CycleCall::Unmap { guest, size },
            CycleStage::Unmapped => CycleCall::Advise { host, size, page_size: self.cycle.granule },
            CycleStage::Advised(_) => CycleCall::Restore {
                host,
                guest,
                size,
                flags: hvf_permissions(self.cycle.host.permissions()),
            },
            CycleStage::Finished(result) => CycleCall::Finished(result),
        }
    }

    /// Takes up how a call went, and gives the next one.
    pub fn step(&mut self, reply: CallReply) -> (call: CycleCall)
        requires
            old(self).cycle.host.guest.valid(),
            old(self).answers(reply),
        ensures
            *final(self) == old(self).after(reply),
            call == final(self).call_spec(),
    {
        self.stage = match (self.stage, reply) {
            (CycleStage::Mapped, CallReply::Unmapped(true)) => CycleStage::Unmapped,
            (CycleStage::Mapped, CallReply::Unmapped(false)) => CycleStage::Finished(
                Err(CycleFailure::Recoverable(ReclaimStateError::ReleaseUnmap)),
            ),
            (CycleStage::Unmapped, CallReply::Advised(error)) => CycleStage::Advised(error),
            (CycleStage::Advised(None), CallReply::Mapped(true)) => CycleStage::Finished(Ok(())),
            (CycleStage::Advised(Some(errno)), CallReply::Mapped(true)) => CycleStage::Finished(
                Err(CycleFailure::Recoverable(ReclaimStateError::DiscardAdvice(errno))),
            ),
            (CycleStage::Advised(_), CallReply::Mapped(false)) => CycleStage::Finished(
                Err(CycleFailure::Fatal(ReclaimStateError::RestoreMap)),
            ),
            (stage, _) => stage,
        };
        self.call()
    }
}

/// Once a range was taken away from the guest it is always asked back, whatever became of the
/// advice: the advice comes next, then the mapping of the same range from the same memory, and
/// only then the cycle is finished, as its replies are judged.
pub proof fn law_unmapped_ranges_are_mapped_again(
    run: CycleRun,
    advice_error: Option<i32>,
    remapped: bool,
)
    requires
        run.stage == CycleStage::Mapped,
    ensures
        ({
            let unmapped = run.after(CallReply::Unmapped(true));
            let advised = unmapped.after(CallReply::Advised(advice_error));
            let ended = advised.after(CallReply::Mapped(remapped));
            let guest = run.cycle.host.guest;
            &&& run.call_spec() matches CycleCall::Unmap { guest: start, size }
            &&& start == guest.start && size == guest.size() as u64
            &&& unmapped.call_spec() is Advise
            &&& advised.call_spec() == (CycleCall::Restore {
                host: run.cycle.host.host_start,
                guest: start,
                size,
                flags: hvf_flags(run.cycle.host.permissions),
            })
            &&& ended.call_spec() == CycleCall::Finished(
                cycle_result(CycleReply { unmapped: true, advice_error, remapped }),
            )
        }),
{
}

/// Where the range could not be taken away from the guest, its memory is left alone: the cycle
/// is finished, as its reply is judged.
pub proof fn law_mapped_ranges_are_left_alone(run: CycleRun, reply: CycleReply)
    requires
        run.stage == CycleStage::Mapped,
        !reply.unmapped,
    ensures
        run.after(CallReply::Unmapped(false)).call_spec() == CycleCall::Finished(
            cycle_result(reply),
        ),
{
}

/// Where releases stand: policy, qualification, extents and counters.
#[derive(Debug)]
pub struct ReclaimState {
    pub map: Option<ExtentMap>,
    pub disabled: bool,
    pub policy_enabled: bool,
    pub qualification: ReclaimQualification,
    /// Counted up when a release cycle starts and again when it ends.
    pub transition_generation: u64,
    pub counters: ReclaimStats,
}

/// The extents with those from `first` to `last` of one region set to `state`.
pub open spec fn with_extents(
    regions: Seq<RegionExtents>,
    next: Seq<RegionExtents>,
    region: int,
    first: int,
    last: int,
    state: ExtentState,
) -> bool {
    &&& next.len() == regions.len()
    &&& forall|i: int|
        0 <= i < regions.len() ==> {
            &&& (#[trigger] next[i]).region == regions[i].region
            &&& next[i].states@.len() == regions[i].states@.len()
            &&& i != region ==> next[i].states@ == regions[i].states@
        }
    &&& forall|j: int|
        0 <= j < regions[region].states@.len() ==> #[trigger] next[region].states@[j]
            == if first <= j <= last {
            state
        } else {
            regions[region].states@[j]
        }
}

impl ReclaimState {
    pub open spec fn wf(self) -> bool {
        self.map matches Some(map) ==> map.wf()
    }

    pub open spec fn eligible(self) -> bool {
        self.map matches Some(map) && map.layout.regions@.len() > 0
    }

    pub open spec fn effective(self) -> bool {
        &&& !self.disabled
        &&& self.eligible()
        &&& self.policy_enabled
        &&& self.qualification == ReclaimQualification::Passed
    }

    /// Releases have been stopped exactly if one has failed.
    pub open spec fn failures_counted(self) -> bool {
        self.disabled == (self.counters.failed_operations > 0)
    }

    /// What no operation takes back: failures stay counted, releases stay stopped, and the layout
    /// stays installed.
    pub open spec fn follows(self, before: ReclaimState) -> bool {
        &&& before.failures_counted() ==> self.failures_counted()
        &&& before.counters.failed_operations <= self.counters.failed_operations
        &&& before.disabled ==> self.disabled
        &&& before.map matches Some(map) ==> self.map is Some && self.map->0.layout == map.layout
    }

    /// `address` lies in a registered region.
    pub open spec fn ram(self, address: int) -> bool {
        self.map matches Some(map) && map.layout.ram(address)
    }

    /// Policy, qualification, generation and counters are those of `other`.
    pub open spec fn same_but_map(self, other: ReclaimState) -> bool {
        &&& self.disabled == other.disabled
        &&& self.policy_enabled == other.policy_enabled
        &&& self.qualification == other.qualification
        &&& self.transition_generation == other.transition_generation
        &&& self.counters == other.counters
    }

    /// The cycle's extents lie in the map.
    pub open spec fn fits(self, cycle: ReleaseCycle) -> bool {
        &&& self.map matches Some(map)
        &&& cycle.region < map.regions@.len()
        &&& cycle.first <= cycle.last < map.regions@[cycle.region as int].states@.len()
        &&& cycle.host.guest.valid()
    }

    pub fn new() -> (result: ReclaimState)
        ensures
            result == (ReclaimState {
                map: None,
                disabled: false,
                policy_enabled: false,
                qualification: ReclaimQualification::NotRun,
                transition_generation: 0,
                counters: ReclaimStats {
                    released_extents: 0,
                    released_bytes: 0,
                    retried_faults: 0,
                    skipped_reports: 0,
                    failed_operations: 0,
                },
            }),
            result.failures_counted(),
    {
        ReclaimState {
            map: None,
            disabled: false,
            policy_enabled: false,
            qualification: ReclaimQualification::NotRun,
            transition_generation: 0,
            counters: ReclaimStats {
                released_extents: 0,
                released_bytes: 0,
                retried_faults: 0,
                skipped_reports: 0,
                failed_operations: 0,
            },
        }
    }

    /// Installs the RAM layout once all of it is mapped into the virtual machine.
    /// `page_size` is the native page size, if it could be found out.
    pub fn initialize(&mut self, layout: RamLayout, page_size: Option<u64>) -> (result: Result<
        (),
        ReclaimStateError,
    >)
        requires
            old(self).wf(),
            layout.wf(),
        ensures
            final(self).wf(),
            final(self).follows(*old(self)),
            final(self).same_but_map(*old(self)),
            result == if page_size != Some(layout.granule) {
                Err::<(), ReclaimStateError>(
                    ReclaimStateError::Layout(ReclaimError::InvalidAlignment),
                )
            } else if old(self).map is Some {
                Err(ReclaimStateError::AlreadyInitialized)
            } else {
                Ok(())
            },
            result is Err ==> final(self).map == old(self).map,
            result is Ok ==> {
                &&& final(self).map matches Some(map)
                &&& map.layout == layout
                &&& forall|i: int, j: int|
                    0 <= i < map.regions@.len() && 0 <= j < map.regions@[i].states@.len() ==> (
                    #[trigger] map.regions@[i].states@[j]) == ExtentState::Mapped
            },
    {
        let native: u64 = match page_size {
            Some(native) => native,
            None => return Err(ReclaimStateError::Layout(ReclaimError::InvalidAlignment)),
        };
        if layout.granule() != native {
            return Err(ReclaimStateError::Layout(ReclaimError::InvalidAlignment));
        }
        if self.map.is_some() {
            return Err(ReclaimStateError::AlreadyInitialized);
        }
        self.map = Some(ExtentMap::new(layout));
        Ok(())
    }

    /// The host mappings to remap onto themselves, by start and length, in order.
    pub fn normalization_targets(&self) -> (result: Vec<(u64, u64)>)
        requires
            self.wf(),
        ensures
            !self.eligible() ==> result@.len() == 0,
            self.map matches Some(map) ==> result@.len() == map.layout.regions@.len() && forall|
                i: int,
            |
                0 <= i < result@.len() ==> (#[trigger] result@[i]) == (
                    map.layout.regions@[i].range.host_start,
                    map.layout.regions@[i].range.guest.size() as u64,
                ),
    {
        let mut targets: Vec<(u64, u64)> = Vec::new();
        match &self.map {
            None => {},
            Some(map) => {
                let mut i: usize = 0;
                while i < map.layout.regions.len()
                    invariant
                        i <= map.layout.regions.len(),
                        map.wf(),
                        targets@.len() == i,
                        forall|k: int|
                            0 <= k < i ==> (#[trigger] targets@[k]) == (
                                map.layout.regions@[k].range.host_start,
                                map.layout.regions@[k].range.guest.size() as u64,
                            ),
                    decreases map.layout.regions.len() - i,
                {
                    let host = map.layout.regions[i].host_range();
                    assert(map.layout.regions@[i as int].valid());
                    targets.push((host.host_start(), host.byte_len()));
                    i = i + 1;
                }
            },
        }
        targets
    }

    /// What mapping a range onto itself came to: where it went elsewhere, the address is invalid.
    pub open spec fn normalization_spec(code: i32, source: u64, destination: u64) -> Result<
        (),
        ReclaimStateError,
    > {
        if code != 0 {
            Err(ReclaimStateError::NormalizeMapping(code))
        } else if destination != source {
            Err(ReclaimStateError::NormalizeMapping(1))
        } else {
            Ok(())
        }
    }

    /// Judges one remap: it must have succeeded, and have left the mapping where it was.
    pub fn normalization_result(code: i32, source: u64, destination: u64) -> (result: Result<
        (),
        ReclaimStateError,
    >)
        ensures
            result == ReclaimState::normalization_spec(code, source, destination),
    {
        if code != 0 {
            return Err(ReclaimStateError::NormalizeMapping(code));
        }
        if destination != source {
            return Err(ReclaimStateError::NormalizeMapping(1));
        }
        Ok(())
    }

    /// Begins to map the RAM of an eligible state onto itself, region by region.
    pub fn normalize_host_mappings(&self) -> (run: NormalizeRun)
        requires
            self.wf(),
        ensures
            run.wf(),
            run.done == 0,
            run.failed is None,
            !self.eligible() ==> run.targets@.len() == 0,
            self.map matches Some(map) ==> run.targets@.len() == map.layout.regions@.len()
                && forall|i: int|
                0 <= i < run.targets@.len() ==> (#[trigger] run.targets@[i]) == (
                    map.layout.regions@[i].range.host_start,
                    map.layout.regions@[i].range.guest.size() as u64,
                ),
    {
        NormalizeRun { targets: self.normalization_targets(), done: 0, failed: None }
    }

    pub fn is_initialized(&self) -> (result: bool)
        ensures
            result == (self.map is Some),
    {
        self.map.is_some()
    }

    pub fn is_eligible(&self) -> (result: bool)
        ensures
            result == self.eligible(),
    {
        match &self.map {
            Some(map) => map.layout.has_registered_regions(),
            None => false,
        }
    }

    /// Whether new reports may be advised free. Fault classification does not depend on it.
    pub fn is_effective(&self) -> (result: bool)
        ensures
            result == self.effective(),
    {
        !self.disabled && self.is_eligible() && self.policy_enabled && self.qualification
            == ReclaimQualification::Passed
    }

    pub fn policy_enabled(&self) -> (result: bool)
        ensures
            result == self.policy_enabled,
    {
        self.policy_enabled
    }

    /// Switches the policy; switching it off forgets the qualification.
    pub fn set_policy_enabled(&mut self, enabled: bool)
        ensures
            final(self).follows(*old(self)),
            *final(self) == (ReclaimState {
                policy_enabled: enabled,
                qualification: if enabled {
                    old(self).qualification
                } else {
                    ReclaimQualification::NotRun
                },
                ..*old(self)
            }),
    {
        self.policy_enabled = enabled;
        if !enabled {
            self.qualification = ReclaimQualification::NotRun;
        }
    }

    pub fn qualification(&self) -> (result: ReclaimQualification)
        ensures
            result == self.qualification,
    {
        self.qualification
    }

    /// Records what a qualification run found. A pass without eligible RAM or with the
    /// policy off counts as inconclusive.
    pub fn record_qualification(&mut self, result: ReclaimQualification)
        ensures
            final(self).follows(*old(self)),
            *final(self) == (ReclaimState {
                qualification: if result == ReclaimQualification::Passed && (!old(self).eligible()
                    || !old(self).policy_enabled) {
                    ReclaimQualification::Inconclusive
                } else {
                    result
                },
                ..*old(self)
            }),
    {
        if result == ReclaimQualification::Passed && (!self.is_eligible() || !self.policy_enabled) {
            self.qualification = ReclaimQualification::Inconclusive;
        } else {
            self.qualification = result;
        }
    }

    pub fn stats(&self) -> (result: ReclaimStats)
        ensures
            result == self.counters,
    {
        self.counters
    }

    /// The generation that a vCPU samples before it runs. It is there for registered RAM
    /// even after reclaim is disabled.
    pub fn vcpu_run_generation(&self) -> (result: Option<u64>)
        ensures
            result == if self.eligible() {
                Some(self.transition_generation)
            } else {
                None
            },
    {
        if !self.is_eligible() {
            return None;
        }
        Some(self.transition_generation)
    }

    pub fn contains_ram(&self, guest_address: u64) -> (result: bool)
        ensures
            result == self.ram(guest_address as int),
    {
        match &self.map {
            Some(map) => map.layout.region_containing(guest_address).is_some(),
            None => false,
        }
    }

    fn skip(&mut self) -> (result: ReleaseOutcome)
        ensures
            result == ReleaseOutcome::Skipped,
            *final(self) == (ReclaimState {
                counters: ReclaimStats {
                    skipped_reports: saturated(old(self).counters.skipped_reports, 1),
                    ..old(self).counters
                },
                ..*old(self)
            }),
    {
        saturating_increment(&mut self.counters.skipped_reports, 1);
        ReleaseOutcome::Skipped
    }

    /// Stops further releases for good.
    fn disable(&mut self)
        ensures
            *final(self) == (ReclaimState { disabled: true, ..*old(self) }),
    {
        self.disabled = true;
    }

    /// Marks the extent that holds an address as lost.
    pub fn mark_extent_lost(&mut self, guest_address: u64)
        requires
            old(self).wf(),
            old(self).ram(guest_address as int),
        ensures
            final(self).wf(),
            final(self).follows(*old(self)),
            final(self).same_but_map(*old(self)),
            final(self).map is Some,
            final(self).map->0.layout == old(self).map->0.layout,
            exists|i: int|
                0 <= i < old(self).map->0.regions@.len() && (
                #[trigger] old(self).map->0.regions@[i]).region.range.guest.has(
                    guest_address as int,
                ) && with_extents(
                    old(self).map->0.regions@,
                    final(self).map->0.regions@,
                    i,
                    old(self).map->0.regions@[i].index_of(guest_address as int),
                    old(self).map->0.regions@[i].index_of(guest_address as int),
                    ExtentState::Lost,
                ),
    {
        let mut found: Option<(usize, usize)> = None;
        match &self.map {
            Some(map) => {
                match map.region_for(guest_address) {
                    Some(region) => {
                        let index: usize = map.regions[region].index(guest_address);
                        found = Some((region, index));
                    },
                    None => {},
                }
            },
            None => {},
        }
        match found {
            Some((region, index)) => {
                self.store_extents(region, index, index, ExtentState::Lost);
            },
            None => {},
        }
    }

    /// Sets the extents from `first` to `last` of one region.
    fn store_extents(&mut self, region: usize, first: usize, last: usize, state: ExtentState)
        requires
            old(self).wf(),
            old(self).map matches Some(map) && region < map.regions@.len() && first <= last
                < map.regions@[region as int].states@.len(),
        ensures
            final(self).wf(),
            final(self).same_but_map(*old(self)),
            final(self).map is Some,
            final(self).map->0.layout == old(self).map->0.layout,
            with_extents(
                old(self).map->0.regions@,
                final(self).map->0.regions@,
                region as int,
                first as int,
                last as int,
                state,
            ),
    {
        let taken = self.map.take();
        match taken {
            None => {},
            Some(mut map) => {
                let ghost before = map.regions@;
                let mut entry = RegionExtents {
                    region: map.regions[region].region,
                    states: map.regions[region].states.clone(),
                };
                assert(entry.states@ == before[region as int].states@);
                let mut i: usize = first;
                while i <= last
                    invariant
                        first <= i <= last + 1,
                        last < entry.states.len(),
                        entry.region == before[region as int].region,
                        entry.states@.len() == before[region as int].states@.len(),
                        forall|j: int|
                            0 <= j < entry.states@.len() ==> #[trigger] entry.states@[j]
                                == if first <= j < i {
                                state
                            } else {
                                before[region as int].states@[j]
                            },
                    decreases last + 1 - i,
                {
                    entry.states.set(i, state);
                    i = i + 1;
                }
                assert(before[region as int].wf());
                map.regions.set(region, entry);
                self.map = Some(map);
            },
        }
    }

    /// The region and extents that a release of `range` needs, with its host range, where
    /// the range can be released at all.
    pub open spec fn release_target(self, range: GuestRange) -> Option<ReleaseCycle> {
        if self.effective() && self.map->0.layout.in_ram(range) {
            let map = self.map->0;
            let region = choose|i: int|
                0 <= i < map.layout.regions@.len() && (
                #[trigger] map.layout.regions@[i]).range.guest.covers(range);
            match map.layout.regions@[region].aligned_subrange_spec(range, map.layout.granule) {
                Ok(Some(host)) => Some(
                    ReleaseCycle {
                        host,
                        granule: map.layout.granule,
                        region: region as usize,
                        first: map.regions@[region].index_of(host.guest.start as int) as usize,
                        last: map.regions@[region].index_of(host.guest.end - 1) as usize,
                    },
                ),
                _ => None,
            }
        } else {
            None
        }
    }

    /// Every extent of the cycle is mapped.
    pub open spec fn all_free(self, cycle: ReleaseCycle) -> bool {
        forall|j: int|
            cycle.first <= j <= cycle.last ==> (
            #[trigger] self.map->0.regions@[cycle.region as int].states@[j])
                == ExtentState::Mapped
    }

    /// Claims the extents of a reported range, all or none, and opens a release cycle.
    ///
    /// Without a cycle the report is skipped: reclaim is not effective, the range has no
    /// releasable part, or one of its extents is in another cycle or lost.
    pub fn begin_release(&mut self, range: GuestRange) -> (result: Option<ReleaseCycle>)
        requires
            old(self).wf(),
            range.valid(),
        ensures
            final(self).wf(),
            final(self).follows(*old(self)),
            result == match old(self).release_target(range) {
                Some(cycle) => if old(self).all_free(cycle) {
                    Some(cycle)
                } else {
                    None
                },
                None => None,
            },
            result is None ==> *final(self) == (ReclaimState {
                counters: ReclaimStats {
                    skipped_reports: saturated(old(self).counters.skipped_reports, 1),
                    ..old(self).counters
                },
                ..*old(self)
            }),
            result matches Some(cycle) ==> {
                &&& range.start <= cycle.host.guest.start < cycle.host.guest.end <= range.end
                &&& forall|a: int| #[trigger]
                    cycle.host.guest.has(a) ==> !old(self).in_transition(a)
                        && final(self).in_transition(a)
            },
            result matches Some(cycle) ==> {
                &&& old(self).fits(cycle)
                &&& final(self).fits(cycle)
                &&& final(self).same_but_map(
                    ReclaimState {
                        transition_generation: ((old(self).transition_generation + 1) % 0x1_0000_0000_0000_0000) as u64,
                        ..*old(self)
                    },
                )
                &&& final(self).map->0.layout == old(self).map->0.layout
                &&& with_extents(
                    old(self).map->0.regions@,
                    final(self).map->0.regions@,
                    cycle.region as int,
                    cycle.first as int,
                    cycle.last as int,
                    ExtentState::Transitioning,
                )
            },
    {
        if !self.is_effective() {
            self.skip();
            return None;
        }
        let mut plan: Option<ReleaseCycle> = None;
        match &self.map {
            None => {},
            Some(map) => {
                match map.layout.resolve(range) {
                    Ok(Some(host)) => {
                        proof {
                            let i = choose|i: int|
                                0 <= i < map.layout.regions@.len() && (
                                #[trigger] map.layout.regions@[i]).range.guest.covers(range);
                            assert(map.layout.in_ram(range));
                            assert(map.layout.regions@[i].range.guest.covers(range));
                            assert(map.layout.regions@[i].range.guest.has(
                                host.guest.start as int,
                            ));
                        }
                        match map.region_for(host.guest.start) {
                            Some(region) => {
                                proof {
                                    let i = choose|i: int|
                                        0 <= i < map.layout.regions@.len() && (
                                        #[trigger] map.layout.regions@[i]).range.guest.covers(
                                            range,
                                        );
                                    assert(map.regions@[region as int].region
                                        == map.layout.regions@[region as int]);
                                    if i < region {
                                        assert(map.layout.regions@[i].range.guest.end
                                            <= map.layout.regions@[region as int].range.guest.start);
                                    } else if region < i {
                                        assert(map.layout.regions@[region as int].range.guest.end
                                            <= map.layout.regions@[i].range.guest.start);
                                    }
                                    assert(i == region);
                                    assert(map.regions@[region as int].wf());
                                }
                                let extents = &map.regions[region];
                                let (first, last) = extents.extent_indexes(host.guest);
                                let mut free: bool = true;
                                let mut index: usize = first;
                                while index <= last && free
                                    invariant
                                        first <= index <= last + 1,
                                        last < extents.states.len(),
                                        free ==> forall|j: int|
                                            first <= j < index ==> (#[trigger] extents.states@[j])
                                                == ExtentState::Mapped,
                                        !free ==> exists|j: int|
                                            first <= j <= last && (#[trigger] extents.states@[j])
                                                != ExtentState::Mapped,
                                    decreases last + 1 - index,
                                {
                                    if extents.states[index] != ExtentState::Mapped {
                                        assert(extents.states@[index as int] != ExtentState::Mapped);
                                        free = false;
                                    }
                                    index = index + 1;
                                }
                                let cycle = ReleaseCycle {
                                    host,
                                    granule: map.layout.granule(),
                                    region,
                                    first,
                                    last,
                                };
                                assert(self.release_target(range) == Some(cycle));
                                if free {
                                    plan = Some(cycle);
                                } else {
                                    assert(!self.all_free(cycle));
                                }
                            },
                            None => {},
                        }
                    },
                    _ => {},
                }
            },
        }
        match plan {
            None => {
                self.skip();
                None
            },
            Some(cycle) => {
                self.store_extents(
                    cycle.region,
                    cycle.first,
                    cycle.last,
                    ExtentState::Transitioning,
                );
                self.transition_generation = self.transition_generation.wrapping_add(1);
                proof {
                    law_cycle_claims_all_that_it_unmaps(*old(self), range, cycle, 0);
                    assert forall|a: int| #[trigger] cycle.host.guest.has(a) implies !old(
                        self,
                    ).in_transition(a) && self.in_transition(a) by {
                        law_faults_wait_for_the_cycle(*old(self), *self, range, cycle, a, 0, false);
                    }
                }
                Some(cycle)
            },
        }
    }

    /// Closes a release cycle: counts the generation up, settles the claimed extents, and
    /// then the counters.
    pub fn finish_release(&mut self, opened: ReleaseCycle, outcome: Result<(), CycleFailure>) -> (result:
        Result<ReleaseOutcome, ReclaimStateError>)
        requires
            old(self).wf(),
            old(self).fits(opened),
        ensures
            final(self).wf(),
            final(self).follows(*old(self)),
            outcome is Err ==> final(self).counters.failed_operations > 0,
            result == match outcome {
                Ok(()) => Ok::<ReleaseOutcome, ReclaimStateError>(ReleaseOutcome::Released),
                Err(CycleFailure::Recoverable(_)) => Ok(ReleaseOutcome::Skipped),
                Err(CycleFailure::Fatal(error)) => Err(error),
            },
            final(self).same_but_map(
                ReclaimState {
                    transition_generation: ((old(self).transition_generation + 1) % 0x1_0000_0000_0000_0000) as u64,
                    disabled: old(self).disabled || outcome is Err,
                    counters: if outcome is Ok {
                        ReclaimStats {
                            released_extents: saturated(old(self).counters.released_extents, 1),
                            released_bytes: saturated(
                                old(self).counters.released_bytes,
                                opened.host.guest.size() as u64,
                            ),
                            ..old(self).counters
                        }
                    } else {
                        ReclaimStats {
                            failed_operations: saturated(old(self).counters.failed_operations, 1),
                            ..old(self).counters
                        }
                    },
                    ..*old(self)
                },
            ),
            final(self).map is Some,
            final(self).map->0.layout == old(self).map->0.layout,
            with_extents(
                old(self).map->0.regions@,
                final(self).map->0.regions@,
                opened.region as int,
                opened.first as int,
                opened.last as int,
                if outcome matches Err(CycleFailure::Fatal(_)) {
                    ExtentState::Lost
                } else {
                    ExtentState::Mapped
                },
            ),
    {
        self.transition_generation = self.transition_generation.wrapping_add(1);
        let settled = match outcome {
            Err(CycleFailure::Fatal(_)) => ExtentState::Lost,
            _ => ExtentState::Mapped,
        };
        self.store_extents(opened.region, opened.first, opened.last, settled);
        match outcome {
            Ok(()) => {
                saturating_increment(&mut self.counters.released_extents, 1);
                saturating_increment(&mut self.counters.released_bytes, opened.host.byte_len());
                Ok(ReleaseOutcome::Released)
            },
            Err(CycleFailure::Recoverable(_)) => {
                saturating_increment(&mut self.counters.failed_operations, 1);
                self.disable();
                Ok(ReleaseOutcome::Skipped)
            },
            Err(CycleFailure::Fatal(error)) => {
                saturating_increment(&mut self.counters.failed_operations, 1);
                self.disable();
                Err(error)
            },
        }
    }

    /// Releases one free-page report to the host, given what the cycle's calls answer.
    ///
    /// An error comes only where guest RAM could not be mapped again, which is fatal for
    /// the virtual machine. Any other failure disables further reclaim.
    pub fn release_report(&mut self, range: GuestRange, reply: CycleReply) -> (result: Result<
        ReleaseOutcome,
        ReclaimStateError,
    >)
        requires
            old(self).wf(),
            range.valid(),
        ensures
            final(self).wf(),
            final(self).follows(*old(self)),
            ({
                let target = old(self).release_target(range);
                let claimed = target matches Some(cycle) && old(self).all_free(cycle);
                &&& !claimed ==> {
                    &&& result == Ok::<ReleaseOutcome, ReclaimStateError>(ReleaseOutcome::Skipped)
                    &&& *final(self) == (ReclaimState {
                        counters: ReclaimStats {
                            skipped_reports: saturated(old(self).counters.skipped_reports, 1),
                            ..old(self).counters
                        },
                        ..*old(self)
                    })
                }
                &&& claimed ==> {
                    &&& result == match cycle_result(reply) {
                        Ok(()) => Ok::<ReleaseOutcome, ReclaimStateError>(ReleaseOutcome::Released),
                        Err(CycleFailure::Recoverable(_)) => Ok(ReleaseOutcome::Skipped),
                        Err(CycleFailure::Fatal(error)) => Err(error),
                    }
                    &&& final(self).disabled == (cycle_result(reply) is Err)
                    &&& final(self).policy_enabled == old(self).policy_enabled
                    &&& final(self).qualification == old(self).qualification
                    &&& final(self).effective() == (cycle_result(reply) is Ok)
                    &&& final(self).transition_generation == (old(self).transition_generation + 2)
                        % 0x1_0000_0000_0000_0000
                    &&& final(self).counters == if cycle_result(reply) is Ok {
                        ReclaimStats {
                            released_extents: saturated(old(self).counters.released_extents, 1),
                            released_bytes: saturated(
                                old(self).counters.released_bytes,
                                target->0.host.guest.size() as u64,
                            ),
                            ..old(self).counters
                        }
                    } else {
                        ReclaimStats {
                            failed_operations: saturated(old(self).counters.failed_operations, 1),
                            ..old(self).counters
                        }
                    }
                    &&& final(self).map is Some
                    &&& final(self).map->0.layout == old(self).map->0.layout
                    &&& with_extents(
                        old(self).map->0.regions@,
                        final(self).map->0.regions@,
                        target->0.region as int,
                        target->0.first as int,
                        target->0.last as int,
                        if cycle_result(reply) matches Err(CycleFailure::Fatal(_)) {
                            ExtentState::Lost
                        } else {
                            ExtentState::Mapped
                        },
                    )
                }
            }),
    {
        match self.begin_release(range) {
            None => Ok(ReleaseOutcome::Skipped),
            Some(opened) => self.finish_release(opened, cycle(reply)),
        }
    }

    /// What a fault on RAM is, where its extent is in `state` and the vCPU entered the guest at
    /// `entered`. Neither the policy nor a failure of an earlier release matters.
    pub open spec fn fault_spec(self, state: ExtentState, entered: u64, waited: bool) -> Result<
        FaultStep,
        ReclaimStateError,
    > {
        match state {
            ExtentState::Lost => Err(ReclaimStateError::ExtentLost),
            ExtentState::Transitioning => Ok(FaultStep::Wait),
            ExtentState::Mapped => Ok(
                FaultStep::Resolved(
                    if !waited && self.transition_generation == entered {
                        FaultResolution::Invalid
                    } else {
                        FaultResolution::Retry
                    },
                ),
            ),
        }
    }

    /// Classifies a translation fault at `guest_address` taken by a vCPU that entered the
    /// guest at `entered_generation`; `waited` says whether it has already waited for the
    /// extent.
    ///
    /// A fault on RAM that raced any cycle is `Retry`; a fault on RAM with no cycle since
    /// the vCPU entered, or on an address that is not RAM, is `Invalid`.
    pub fn resolve_translation_fault(
        &mut self,
        guest_address: u64,
        entered_generation: u64,
        waited: bool,
    ) -> (result: Result<FaultStep, ReclaimStateError>)
        requires
            old(self).wf(),
        ensures
            final(self).wf(),
            final(self).follows(*old(self)),
            !old(self).ram(guest_address as int) ==> result == Ok::<FaultStep, ReclaimStateError>(
                FaultStep::Resolved(FaultResolution::Invalid),
            ),
            old(self).in_transition(guest_address as int) ==> result == Ok::<
                FaultStep,
                ReclaimStateError,
            >(FaultStep::Wait),
            result == Ok::<FaultStep, ReclaimStateError>(FaultStep::Wait) ==> old(
                self,
            ).in_transition(guest_address as int),
            result == Ok::<FaultStep, ReclaimStateError>(
                FaultStep::Resolved(FaultResolution::Retry),
            ) ==> old(self).ram(guest_address as int) && (waited || old(self).transition_generation
                != entered_generation),
            result == Ok::<FaultStep, ReclaimStateError>(
                FaultStep::Resolved(FaultResolution::Invalid),
            ) ==> !old(self).ram(guest_address as int) || (!waited && old(
                self,
            ).transition_generation == entered_generation),
            forall|i: int|
                old(self).map is Some && 0 <= i < old(self).map->0.regions@.len() && (
                #[trigger] old(self).map->0.regions@[i]).region.range.guest.has(
                    guest_address as int,
                ) ==> result == old(self).fault_spec(
                    old(self).map->0.regions@[i].states@[old(self).map->0.regions@[i].index_of(
                        guest_address as int,
                    )],
                    entered_generation,
                    waited,
                ),
            *final(self) == (ReclaimState {
                counters: ReclaimStats {
                    retried_faults: if result == Ok::<FaultStep, ReclaimStateError>(
                        FaultStep::Resolved(FaultResolution::Retry),
                    ) {
                        saturated(old(self).counters.retried_faults, 1)
                    } else {
                        old(self).counters.retried_faults
                    },
                    ..old(self).counters
                },
                ..*old(self)
            }),
    {
        let state: ExtentState = match &self.map {
            None => return Ok(FaultStep::Resolved(FaultResolution::Invalid)),
            Some(map) => match map.region_for(guest_address) {
                None => {
                    proof {
                        assert forall|i: int|
                            0 <= i < map.regions@.len() implies !(
                        #[trigger] map.regions@[i]).region.range.guest.has(guest_address as int) by {
                            assert(map.regions@[i].region == map.layout.regions@[i]);
                            if map.layout.regions@[i].range.guest.has(guest_address as int) {
                                assert(map.layout.ram(guest_address as int));
                            }
                        }
                    }
                    return Ok(FaultStep::Resolved(FaultResolution::Invalid));
                },
                Some(region) => {
                    proof {
                        assert forall|i: int|
                            0 <= i < map.regions@.len() && (
                            #[trigger] map.regions@[i]).region.range.guest.has(
                                guest_address as int,
                            ) implies i == region by {
                            assert(map.regions@[i].region == map.layout.regions@[i]);
                            assert(map.regions@[region as int].region
                                == map.layout.regions@[region as int]);
                            if i < region {
                                assert(map.layout.regions@[i].range.guest.end
                                    <= map.layout.regions@[region as int].range.guest.start);
                            } else if region < i {
                                assert(map.layout.regions@[region as int].range.guest.end
                                    <= map.layout.regions@[i].range.guest.start);
                            }
                        }
                    }
                    proof {
                        let a = guest_address as int;
                        let extents = map.regions@[region as int];
                        assert(map.layout.regions@[region as int].range.guest.has(a));
                        let number = extents.index_of(a);
                        assert(number == (a - extents.region.range.guest.start) / 0x20_0000);
                        if extents.states@[number] == ExtentState::Transitioning {
                            assert(extent_is(
                                map.regions@,
                                region as int,
                                a,
                                ExtentState::Transitioning,
                            ));
                        }
                        if self.in_transition(a) {
                            let r = choose|r: int| #[trigger]
                                extent_is(map.regions@, r, a, ExtentState::Transitioning);
                            lemma_one_region(*self, r, region as int, a);
                        }
                    }
                    map.regions[region].state(guest_address)
                },
            },
        };
        match state {
            ExtentState::Lost => return Err(ReclaimStateError::ExtentLost),
            ExtentState::Transitioning => return Ok(FaultStep::Wait),
            ExtentState::Mapped => {},
        }
        if !waited && self.transition_generation == entered_generation {
            return Ok(FaultStep::Resolved(FaultResolution::Invalid));
        }
        saturating_increment(&mut self.counters.retried_faults, 1);
        Ok(FaultStep::Resolved(FaultResolution::Retry))
    }
}

impl Default for ReclaimState {
    fn default() -> (result: ReclaimState)
        ensures
            result == (ReclaimState {
                map: None,
                disabled: false,
                policy_enabled: false,
                qualification: ReclaimQualification::NotRun,
                transition_generation: 0,
                counters: ReclaimStats {
                    released_extents: 0,
                    released_bytes: 0,
                    retried_faults: 0,
                    skipped_reports: 0,
                    failed_operations: 0,
                },
            }),
            result.failures_counted(),
    {
        ReclaimState::new()
    }
}

/// How a vCPU passes the time until it looks at its extent again.
#[derive(Clone, Copy, Debug, PartialEq, Eq, Structural)]
pub enum Pause {
    Spin,
    Yield,
}

/// The pacing of a vCPU that waits for an extent.
#[derive(Clone, Copy, Debug, PartialEq, Eq, Structural)]
pub struct ExtentWait {
    pub spins: u32,
}

impl ExtentWait {
    pub fn new() -> (result: ExtentWait)
        ensures
            result.spins == 0,
    {
        ExtentWait { spins: 0 }
    }

    /// What to do after another look at the extent found it still in transition; `expired`
    /// says whether the wait deadline has passed. Spinning comes first and pays no heed to
    /// the deadline.
    pub fn pause(&mut self, expired: bool) -> (result: Result<Pause, ReclaimStateError>)
        ensures
            final(self).spins == if old(self).spins < SPINS_BEFORE_YIELD {
                (old(self).spins + 1) as u32
            } else {
                old(self).spins
            },
            result == if old(self).spins < SPINS_BEFORE_YIELD {
                Ok::<Pause, ReclaimStateError>(Pause::Spin)
            } else if expired {
                Err(ReclaimStateError::TransitionTimeout)
            } else {
                Ok(Pause::Yield)
            },
    {
        if self.spins < SPINS_BEFORE_YIELD {
            self.spins = self.spins + 1;
            return Ok(Pause::Spin);
        }
        if expired {
            return Err(ReclaimStateError::TransitionTimeout);
        }
        Ok(Pause::Yield)
    }
}

pub const HV_MEMORY_READ: u64 = 1;
pub const HV_MEMORY_WRITE: u64 = 2;
pub const HV_MEMORY_EXEC: u64 = 4;

/// The hypervisor's flags for the permissions.
pub open spec fn hvf_flags(permissions: RamPermissions) -> u64 {
    ((if permissions.0 & 1 != 0 {
        HV_MEMORY_READ
    } else {
        0
    }) + (if permissions.0 & 2 != 0 {
        HV_MEMORY_WRITE
    } else {
        0
    }) + (if permissions.0 & 4 != 0 {
        HV_MEMORY_EXEC
    } else {
        0
    })) as u64
}

/// The hypervisor's flags for a set of RAM permissions.
pub fn hvf_permissions(permissions: RamPermissions) -> (result: u64)
    ensures
        result == hvf_flags(permissions),
{
    let bits: u8 = permissions.bits();
    let mut flags: u64 = 0;
    if bits & RamPermissions::read().bits() != 0 {
        flags = flags + HV_MEMORY_READ;
    }
    if bits & RamPermissions::write().bits() != 0 {
        flags = flags + HV_MEMORY_WRITE;
    }
    if bits & RamPermissions::execute().bits() != 0 {
        flags = flags + HV_MEMORY_EXEC;
    }
    flags
}

/// A lost extent is never claimed: while any extent of a report is lost the report is
/// skipped.
pub proof fn law_lost_extents_are_never_claimed(
    state: ReclaimState,
    range: GuestRange,
    opened: ReleaseCycle,
    j: int,
)
    requires
        state.wf(),
        state.release_target(range) == Some(opened),
        opened.first <= j <= opened.last,
        state.map->0.regions@[opened.region as int].states@[j] == ExtentState::Lost,
    ensures
        !state.all_free(opened),
{
}

/// A lost extent stays lost over any release cycle of other extents, whatever becomes of it.
pub proof fn law_lost_extents_stay_lost(
    before: Seq<RegionExtents>,
    claimed: Seq<RegionExtents>,
    settled: Seq<RegionExtents>,
    opened: ReleaseCycle,
    outcome: ExtentState,
    i: int,
    j: int,
)
    requires
        opened.region < before.len(),
        opened.last < before[opened.region as int].states@.len(),
        with_extents(
            before,
            claimed,
            opened.region as int,
            opened.first as int,
            opened.last as int,
            ExtentState::Transitioning,
        ),
        with_extents(
            claimed,
            settled,
            opened.region as int,
            opened.first as int,
            opened.last as int,
            outcome,
        ),
        forall|k: int|
            opened.first <= k <= opened.last ==> (
            #[trigger] before[opened.region as int].states@[k]) == ExtentState::Mapped,
        0 <= i < before.len(),
        0 <= j < before[i].states@.len(),
        before[i].states@[j] == ExtentState::Lost,
    ensures
        claimed[i].states@[j] == ExtentState::Lost,
        settled[i].states@[j] == ExtentState::Lost,
{
    assert(claimed[i].region == before[i].region);
    assert(settled[i].region == claimed[i].region);
    if i == opened.region {
        assert(!(opened.first <= j <= opened.last));
        assert(claimed[i].states@[j] == before[i].states@[j]);
        assert(settled[i].states@[j] == claimed[i].states@[j]);
    }
}

/// A fault on mapped RAM is retried if a release cycle started or ended since the vCPU entered
/// the guest, and is real if none did. The count of starts and ends may pass its largest value,
/// but must not come round to where it was.
pub proof fn law_raced_faults_are_retried(entered: ReclaimState, now: ReclaimState, steps: int)
    requires
        0 <= steps < 0x1_0000_0000_0000_0000,
        now.transition_generation == (entered.transition_generation + steps)
            % 0x1_0000_0000_0000_0000,
    ensures
        now.fault_spec(ExtentState::Mapped, entered.transition_generation, false) == Ok::<
            FaultStep,
            ReclaimStateError,
        >(
            FaultStep::Resolved(
                if steps > 0 {
                    FaultResolution::Retry
                } else {
                    FaultResolution::Invalid
                },
            ),
        ),
{
}

/// Reports are released exactly while RAM is registered, the policy is on, the qualification was
/// passed and no release has failed.
pub proof fn law_effective_until_a_failure(state: ReclaimState)
    requires
        state.failures_counted(),
    ensures
        state.effective() <==> state.eligible() && state.policy_enabled && state.qualification
            == ReclaimQualification::Passed && state.counters.failed_operations == 0,
{
}

/// After one failed release no state that follows, by however many operations, is effective
/// again, whatever becomes of policy and qualification.
pub proof fn law_failure_is_for_good(states: Seq<ReclaimState>, failed: int, later: int)
    requires
        0 <= failed <= later < states.len(),
        forall|i: int|
            0 <= i < states.len() - 1 ==> (#[trigger] states[i + 1]).follows(states[i]),
        states[failed].failures_counted(),
        states[failed].counters.failed_operations > 0,
    ensures
        !states[later].effective(),
        states[later].disabled,
    decreases later - failed,
{
    if failed < later {
        assert(states[failed + 1].follows(states[failed]));
        law_failure_is_for_good(states, failed + 1, later);
    }
}

/// Once a release has failed no report is released any more, and a failure is fatal exactly
/// where the range was unmapped and could not be mapped again.
pub proof fn law_failures_end_releases(state: ReclaimState, range: GuestRange, reply: CycleReply)
    requires
        state.wf(),
        state.disabled,
    ensures
        state.release_target(range) is None,
        cycle_result(reply) matches Err(CycleFailure::Fatal(_)) <==> reply.unmapped
            && !reply.remapped,
{
}

/// Two cycles open at once never share an extent: what one has claimed the other cannot
/// claim.
pub proof fn law_open_cycles_are_disjoint(
    before: ReclaimState,
    after: ReclaimState,
    first: ReleaseCycle,
    second: ReleaseCycle,
)
    requires
        before.wf(),
        before.fits(first),
        after.fits(second),
        with_extents(
            before.map->0.regions@,
            after.map->0.regions@,
            first.region as int,
            first.first as int,
            first.last as int,
            ExtentState::Transitioning,
        ),
        after.all_free(second),
    ensures
        first.region != second.region || first.last < second.first || second.last < first.first,
{
    if first.region == second.region && first.first <= second.last && second.first <= first.last {
        let j: int = if first.first < second.first {
            second.first as int
        } else {
            first.first as int
        };
        let states = after.map->0.regions@[first.region as int].states@;
        assert(states[j] == ExtentState::Transitioning);
        assert(after.map->0.regions@[second.region as int].states@[j] == ExtentState::Mapped);
    }
}

/// Claiming extents and settling them as mapped again leaves every extent as it was.
pub proof fn law_settled_cycle_restores_extents(
    before: Seq<RegionExtents>,
    claimed: Seq<RegionExtents>,
    settled: Seq<RegionExtents>,
    region: int,
    first: int,
    last: int,
)
    requires
        0 <= region < before.len(),
        with_extents(before, claimed, region, first, last, ExtentState::Transitioning),
        with_extents(claimed, settled, region, first, last, ExtentState::Mapped),
        forall|j: int|
            first <= j <= last ==> (#[trigger] before[region].states@[j]) == ExtentState::Mapped,
    ensures
        settled.len() == before.len(),
        forall|i: int| 0 <= i < before.len() ==> (#[trigger] settled[i]).states@ == before[i].states@,
{
    assert forall|i: int| 0 <= i < before.len() implies (#[trigger] settled[i]).states@
        == before[i].states@ by {
        assert(claimed[i].region == before[i].region);
        if i == region {
            assert(settled[i].states@.len() == before[i].states@.len());
            assert forall|j: int| 0 <= j < before[i].states@.len() implies settled[i].states@[j]
                == before[i].states@[j] by {
                assert(claimed[region].states@[j] == if first <= j <= last {
                    ExtentState::Transitioning
                } else {
                    before[region].states@[j]
                });
            }
            assert(settled[i].states@ =~= before[i].states@);
        }
    }
}

} // verus!
