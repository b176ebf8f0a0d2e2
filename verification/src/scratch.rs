//! Scratch memory and the scratch vCPU of the reclaim probe: setting them up, taking them
//! down, and watching over the worker that runs the probe.
use crate::guest_memory::{is_power_of_two, is_power_of_two_spec, GuestRange};
use crate::probe::{
    bare_report, choose_scratch_gpas, failed_report, inconclusive_report,
    requires_emergency_destroy, scratch_fits, OperationError, ProbeDetail, ProbeReport,
    DATA_SIZE,
};
use crate::reclaim::ReclaimQualification;
use vstd::arithmetic::power2::{lemma2_to64, lemma_pow2_strictly_increases};
use vstd::prelude::*;

verus! {

/// A cleanup step that failed; host errors by number.
#[derive(Clone, Copy, Debug, PartialEq, Eq, Structural)]
pub enum CleanupFailure {
    DataUnmap,
    CodeUnmap,
    EmergencyDestroy,
    HostUnmap(i32),
    VcpuDestroy,
    NullExitAndDestroy,
    WorkerPanicked,
    NonExecutionPhase,
    VcpuExit,
}

/// Cleanup left something behind: the failed steps in order.
#[derive(Debug)]
pub struct ProbeCleanupError(pub Vec<CleanupFailure>);

/// Why the probe could not be set up.
#[derive(Debug)]
pub enum ProbeSetupError {
    /// A step failed and everything before it was undone.
    Operation(OperationError),
    /// Undoing failed.
    Cleanup(ProbeCleanupError),
}

/// Addresses and page size that a probe works with.
#[derive(Clone, Copy, Debug, PartialEq, Eq, Structural)]
pub struct ScratchPlan {
    pub code_gpa: u64,
    pub data_gpa: u64,
    pub page_size: u64,
}

/// Picks page size and addresses, or reports why there is nothing to probe, this long after the
/// start of the probe.
pub fn plan_scratch(
    ipa_bits: u32,
    occupied: &Vec<GuestRange>,
    reported_page_size: i32,
    elapsed: u64,
) -> (result: Result<ScratchPlan, ProbeReport>)
    requires
        forall|i: int| 0 <= i < occupied@.len() ==> (#[trigger] occupied@[i]).valid(),
    ensures
        ({
            let usable = reported_page_size > 0 && is_power_of_two_spec(reported_page_size as u64)
                && DATA_SIZE % (reported_page_size as u64) == 0;
            match result {
                Ok(plan) => {
                    &&& usable
                    &&& plan.page_size == reported_page_size
                    &&& plan.code_gpa + 32 <= u64::MAX
                    &&& 0 < ipa_bits < 64
                    &&& plan.data_gpa == plan.code_gpa + plan.page_size
                    &&& scratch_fits(ipa_bits, occupied@, plan.page_size, plan.code_gpa as int)
                    &&& forall|lower: int|
                        0 <= lower < plan.code_gpa ==> !scratch_fits(
                            ipa_bits,
                            occupied@,
                            plan.page_size,
                            lower,
                        )
                },
                Err(report) => {
                    ||| !usable && report == bare_report(
                        ReclaimQualification::Inconclusive,
                        elapsed,
                        ProbeDetail::UnsupportedPageSize,
                    )
                    ||| usable && report == bare_report(
                        ReclaimQualification::Inconclusive,
                        elapsed,
                        ProbeDetail::NoScratchRange,
                    ) && (ipa_bits == 0 || ipa_bits >= 64 || forall|start: int|
                        !#[trigger] scratch_fits(
                            ipa_bits,
                            occupied@,
                            reported_page_size as u64,
                            start,
                        ))
                },
            }
        }),
{
    if reported_page_size <= 0 {
        return Err(inconclusive_report(elapsed, ProbeDetail::UnsupportedPageSize));
    }
    let page_size: u64 = reported_page_size as u64;
    if !is_power_of_two(page_size) || DATA_SIZE % page_size != 0 {
        return Err(inconclusive_report(elapsed, ProbeDetail::UnsupportedPageSize));
    }
    match choose_scratch_gpas(ipa_bits, occupied, page_size) {
        Some((code_gpa, data_gpa)) => {
            proof {
                lemma_pow2_strictly_increases(ipa_bits as nat, 64);
                lemma2_to64();
            }
            Ok(ScratchPlan { code_gpa, data_gpa, page_size })
        },
        None => Err(inconclusive_report(elapsed, ProbeDetail::NoScratchRange)),
    }
}

/// The guest program: for every page it stores a word, reads it back, adds it to the
/// checksum and counts the word up; then it traps.
pub fn touch_program() -> (result: Vec<u32>)
    ensures
        result@ == seq![
            0xf900_0003u32,
            0xf940_0005u32,
            0x8b05_0084u32,
            0x9100_0463u32,
            0x8b02_0000u32,
            0xf100_0421u32,
            0x54ff_ff41u32,
            0xaa04_03e0u32,
            0xd420_0000u32,
        ],
{
    vec![
        0xf900_0003u32,
        0xf940_0005u32,
        0x8b05_0084u32,
        0x9100_0463u32,
        0x8b02_0000u32,
        0xf100_0421u32,
        0x54ff_ff41u32,
        0xaa04_03e0u32,
        0xd420_0000u32,
    ]
}

/// The step of setting up scratch memory whose answer is awaited.
#[derive(Clone, Copy, Debug, PartialEq, Eq, Structural)]
pub enum CreateStep {
    MapHostCode,
    MapHostData,
    /// Undo the code page; the data failed with this host error.
    UndoHostCode { error: i32 },
    /// Copy the program and map it into the guest.
    MapGuestCode,
    /// The guest refused the code: undo the data, then the code.
    UndoHostData,
    UndoBoth { data_error: Option<i32> },
    MapGuestData,
    /// The guest refused the data: close everything that is there.
    CloseMappings,
    Finished,
}

/// Setting up scratch memory.
#[derive(Debug)]
pub struct ScratchCreate {
    pub step: CreateStep,
    pub outcome: Result<(), ProbeSetupError>,
}

/// What ends a set-up, by the step and the host error that was answered.
pub open spec fn create_next(step: CreateStep, error: Option<i32>) -> CreateStep {
    match (step, error) {
        (CreateStep::MapHostCode, None) => CreateStep::MapHostData,
        (CreateStep::MapHostData, None) => CreateStep::MapGuestCode,
        (CreateStep::MapHostData, Some(error)) => CreateStep::UndoHostCode { error },
        (CreateStep::MapGuestCode, None) => CreateStep::MapGuestData,
        (CreateStep::MapGuestCode, Some(_)) => CreateStep::UndoHostData,
        (CreateStep::UndoHostData, data_error) => CreateStep::UndoBoth { data_error },
        (CreateStep::MapGuestData, Some(_)) => CreateStep::CloseMappings,
        (CreateStep::CloseMappings, _) => CreateStep::CloseMappings,
        _ => CreateStep::Finished,
    }
}

/// The failures of undoing data and code, in order.
pub open spec fn undo_failures(data_error: Option<i32>, code_error: Option<i32>) -> Seq<
    CleanupFailure,
> {
    let data = match data_error {
        Some(error) => seq![CleanupFailure::HostUnmap(error)],
        None => seq![],
    };
    let code = match code_error {
        Some(error) => seq![CleanupFailure::HostUnmap(error)],
        None => seq![],
    };
    data + code
}

impl ScratchCreate {
    pub fn new() -> (result: ScratchCreate)
        ensures
            result.step == CreateStep::MapHostCode,
            result.outcome == Ok::<(), ProbeSetupError>(()),
    {
        ScratchCreate { step: CreateStep::MapHostCode, outcome: Ok(()) }
    }

    /// Takes the answer to the awaited step: a host or hypervisor error, or none.
    pub fn reply(&mut self, error: Option<i32>)
        ensures
            final(self).step == create_next(old(self).step, error),
            create_next(old(self).step, error) != CreateStep::Finished || old(self).step
                == CreateStep::Finished ==> final(self).outcome == old(self).outcome,
            match (old(self).step, error) {
                (CreateStep::MapHostCode, Some(error)) => final(self).outcome matches Err(
                    ProbeSetupError::Operation(OperationError::HostMap(e)),
                ) && e == error,
                (CreateStep::UndoHostCode { error: data_error }, None) =>
                    final(self).outcome matches Err(
                    ProbeSetupError::Operation(OperationError::HostMap(e)),
                ) && e == data_error,
                (CreateStep::UndoHostCode { .. }, Some(code_error)) =>
                    final(self).outcome matches Err(ProbeSetupError::Cleanup(cleanup))
                    && cleanup.0@ == seq![CleanupFailure::HostUnmap(code_error)],
                (CreateStep::UndoBoth { data_error }, code_error) => {
                    let failures = undo_failures(data_error, code_error);
                    if failures.len() > 0 {
                        final(self).outcome matches Err(ProbeSetupError::Cleanup(cleanup))
                            && cleanup.0@ == failures
                    } else {
                        final(self).outcome matches Err(
                            ProbeSetupError::Operation(OperationError::CodeMapRejected),
                        )
                    }
                },
                (CreateStep::MapGuestData, None) => final(self).outcome is Ok,
                _ => true,
            },
    {
        match (self.step, error) {
            (CreateStep::MapHostCode, None) => {
                self.step = CreateStep::MapHostData;
            },
            (CreateStep::MapHostCode, Some(error)) => {
                self.outcome = Err(ProbeSetupError::Operation(OperationError::HostMap(error)));
                self.step = CreateStep::Finished;
            },
            (CreateStep::MapHostData, None) => {
                self.step = CreateStep::MapGuestCode;
            },
            (CreateStep::MapHostData, Some(error)) => {
                self.step = CreateStep::UndoHostCode { error };
            },
            (CreateStep::UndoHostCode { error: data_error }, None) => {
                self.outcome = Err(ProbeSetupError::Operation(OperationError::HostMap(data_error)));
                self.step = CreateStep::Finished;
            },
            (CreateStep::UndoHostCode { .. }, Some(code_error)) => {
                let failures: Vec<CleanupFailure> = vec![CleanupFailure::HostUnmap(code_error)];
                self.outcome = Err(ProbeSetupError::Cleanup(ProbeCleanupError(failures)));
                self.step = CreateStep::Finished;
            },
            (CreateStep::MapGuestCode, None) => {
                self.step = CreateStep::MapGuestData;
            },
            (CreateStep::MapGuestCode, Some(_)) => {
                self.step = CreateStep::UndoHostData;
            },
            (CreateStep::UndoHostData, data_error) => {
                self.step = CreateStep::UndoBoth { data_error };
            },
            (CreateStep::UndoBoth { data_error }, code_error) => {
                let mut failures: Vec<CleanupFailure> = Vec::new();
                if let Some(error) = data_error {
                    failures.push(CleanupFailure::HostUnmap(error));
                }
                if let Some(error) = code_error {
                    failures.push(CleanupFailure::HostUnmap(error));
                }
                assert(failures@ == undo_failures(data_error, code_error));
                if failures.len() > 0 {
                    self.outcome = Err(ProbeSetupError::Cleanup(ProbeCleanupError(failures)));
                } else {
                    self.outcome =
                    Err(ProbeSetupError::Operation(OperationError::CodeMapRejected));
                }
                self.step = CreateStep::Finished;
            },
            (CreateStep::MapGuestData, None) => {
                self.outcome = Ok(());
                self.step = CreateStep::Finished;
            },
            (CreateStep::MapGuestData, Some(_)) => {
                self.step = CreateStep::CloseMappings;
            },
            (CreateStep::CloseMappings, _) => {},
            (CreateStep::Finished, _) => {},
        }
    }

    /// Takes the result of closing everything after the guest refused the data.
    pub fn closed(&mut self, result: Result<(), ProbeCleanupError>)
        requires
            old(self).step == CreateStep::CloseMappings,
        ensures
            final(self).step == CreateStep::Finished,
            match result {
                Ok(()) => final(self).outcome matches Err(
                    ProbeSetupError::Operation(OperationError::DataMapRejected),
                ),
                Err(error) => final(self).outcome matches Err(ProbeSetupError::Cleanup(cleanup))
                    && cleanup == error,
            },
    {
        self.step = CreateStep::Finished;
        match result {
            Ok(()) => {
                self.outcome = Err(ProbeSetupError::Operation(OperationError::DataMapRejected));
            },
            Err(error) => {
                self.outcome = Err(ProbeSetupError::Cleanup(error));
            },
        }
    }
}

/// The step of taking scratch memory down whose answer is awaited.
#[derive(Clone, Copy, Debug, PartialEq, Eq, Structural)]
pub enum CloseStep {
    UnmapGuestData,
    UnmapGuestCode,
    DestroyVm,
    UnmapHostData,
    UnmapHostCode,
    Finished,
}

/// Taking scratch memory down. What the guest may still reach is never unmapped from the
/// host: it is leaked instead.
#[derive(Debug)]
pub struct ScratchClose {
    pub data_mapped: bool,
    pub code_mapped: bool,
    pub step: CloseStep,
    pub failures: Vec<CleanupFailure>,
}

/// The first step after the guest unmaps and the emergency destroy are settled.
pub open spec fn host_step(data_mapped: bool, code_mapped: bool) -> CloseStep {
    if !data_mapped {
        CloseStep::UnmapHostData
    } else if !code_mapped {
        CloseStep::UnmapHostCode
    } else {
        CloseStep::Finished
    }
}

/// The step after the guest code unmap is settled.
pub open spec fn destroy_step(data_mapped: bool, code_mapped: bool) -> CloseStep {
    if data_mapped || code_mapped {
        CloseStep::DestroyVm
    } else {
        host_step(data_mapped, code_mapped)
    }
}

/// The step after the guest data unmap is settled.
pub open spec fn code_step(data_mapped: bool, code_mapped: bool) -> CloseStep {
    if code_mapped {
        CloseStep::UnmapGuestCode
    } else {
        destroy_step(data_mapped, code_mapped)
    }
}

impl ScratchClose {
    /// A host mapping is given back only where the guest no longer maps it.
    pub open spec fn wf(self) -> bool {
        match self.step {
            CloseStep::UnmapGuestData => self.data_mapped,
            CloseStep::UnmapGuestCode => self.code_mapped,
            CloseStep::DestroyVm => self.data_mapped || self.code_mapped,
            CloseStep::UnmapHostData => !self.data_mapped,
            CloseStep::UnmapHostCode => !self.code_mapped,
            CloseStep::Finished => true,
        }
    }

    pub fn new(data_mapped: bool, code_mapped: bool) -> (result: ScratchClose)
        ensures
            result.wf(),
            result.data_mapped == data_mapped,
            result.code_mapped == code_mapped,
            result.failures@.len() == 0,
            result.step == if data_mapped {
                CloseStep::UnmapGuestData
            } else {
                code_step(data_mapped, code_mapped)
            },
    {
        let mut close = ScratchClose {
            data_mapped,
            code_mapped,
            step: CloseStep::UnmapGuestData,
            failures: Vec::new(),
        };
        if !data_mapped {
            close.after_data();
        }
        close
    }

    fn after_destroy(&mut self)
        ensures
            final(self).step == host_step(old(self).data_mapped, old(self).code_mapped),
            final(self).data_mapped == old(self).data_mapped,
            final(self).code_mapped == old(self).code_mapped,
            final(self).failures == old(self).failures,
    {
        if !self.data_mapped {
            self.step = CloseStep::UnmapHostData;
        } else if !self.code_mapped {
            self.step = CloseStep::UnmapHostCode;
        } else {
            self.step = CloseStep::Finished;
        }
    }

    fn after_code(&mut self)
        ensures
            final(self).step == destroy_step(old(self).data_mapped, old(self).code_mapped),
            final(self).data_mapped == old(self).data_mapped,
            final(self).code_mapped == old(self).code_mapped,
            final(self).failures == old(self).failures,
    {
        if requires_emergency_destroy(self.code_mapped, self.data_mapped) {
            self.step = CloseStep::DestroyVm;
        } else {
            self.after_destroy();
        }
    }

    fn after_data(&mut self)
        ensures
            final(self).step == code_step(old(self).data_mapped, old(self).code_mapped),
            final(self).data_mapped == old(self).data_mapped,
            final(self).code_mapped == old(self).code_mapped,
            final(self).failures == old(self).failures,
    {
        if self.code_mapped {
            self.step = CloseStep::UnmapGuestCode;
        } else {
            self.after_code();
        }
    }

    /// Takes the answer to the awaited step: a host error number, or none.
    pub fn reply(&mut self, error: Option<i32>)
        requires
            old(self).wf(),
        ensures
            final(self).wf(),
            match old(self).step {
                CloseStep::UnmapGuestData => {
                    &&& final(self).data_mapped == (error is Some)
                    &&& final(self).code_mapped == old(self).code_mapped
                    &&& final(self).step == code_step(error is Some, old(self).code_mapped)
                    &&& final(self).failures@ == if error is Some {
                        old(self).failures@.push(CleanupFailure::DataUnmap)
                    } else {
                        old(self).failures@
                    }
                },
                CloseStep::UnmapGuestCode => {
                    &&& final(self).data_mapped == old(self).data_mapped
                    &&& final(self).code_mapped == (error is Some)
                    &&& final(self).step == destroy_step(old(self).data_mapped, error is Some)
                    &&& final(self).failures@ == if error is Some {
                        old(self).failures@.push(CleanupFailure::CodeUnmap)
                    } else {
                        old(self).failures@
                    }
                },
                CloseStep::DestroyVm => {
                    &&& final(self).data_mapped == (old(self).data_mapped && error is Some)
                    &&& final(self).code_mapped == (old(self).code_mapped && error is Some)
                    &&& final(self).step == host_step(
                        final(self).data_mapped,
                        final(self).code_mapped,
                    )
                    &&& final(self).failures@ == if error is Some {
                        old(self).failures@.push(CleanupFailure::EmergencyDestroy)
                    } else {
                        old(self).failures@
                    }
                },
                CloseStep::UnmapHostData => {
                    &&& final(self).data_mapped == old(self).data_mapped
                    &&& final(self).code_mapped == old(self).code_mapped
                    &&& final(self).step == if old(self).code_mapped {
                        CloseStep::Finished
                    } else {
                        CloseStep::UnmapHostCode
                    }
                    &&& final(self).failures@ == match error {
                        Some(error) => old(self).failures@.push(CleanupFailure::HostUnmap(error)),
                        None => old(self).failures@,
                    }
                },
                CloseStep::UnmapHostCode => {
                    &&& final(self).data_mapped == old(self).data_mapped
                    &&& final(self).code_mapped == old(self).code_mapped
                    &&& final(self).step == CloseStep::Finished
                    &&& final(self).failures@ == match error {
                        Some(error) => old(self).failures@.push(CleanupFailure::HostUnmap(error)),
                        None => old(self).failures@,
                    }
                },
                CloseStep::Finished => *final(self) == *old(self),
            },
    {
        match self.step {
            CloseStep::UnmapGuestData => {
                if error.is_some() {
                    self.failures.push(CleanupFailure::DataUnmap);
                } else {
                    self.data_mapped = false;
                }
                self.after_data();
            },
            CloseStep::UnmapGuestCode => {
                if error.is_some() {
                    self.failures.push(CleanupFailure::CodeUnmap);
                } else {
                    self.code_mapped = false;
                }
                self.after_code();
            },
            CloseStep::DestroyVm => {
                if error.is_some() {
                    self.failures.push(CleanupFailure::EmergencyDestroy);
                } else {
                    self.data_mapped = false;
                    self.code_mapped = false;
                }
                self.after_destroy();
            },
            CloseStep::UnmapHostData => {
                if let Some(error) = error {
                    self.failures.push(CleanupFailure::HostUnmap(error));
                }
                if self.code_mapped {
                    self.step = CloseStep::Finished;
                } else {
                    self.step = CloseStep::UnmapHostCode;
                }
            },
            CloseStep::UnmapHostCode => {
                if let Some(error) = error {
                    self.failures.push(CleanupFailure::HostUnmap(error));
                }
                self.step = CloseStep::Finished;
            },
            CloseStep::Finished => {},
        }
    }

    /// Whether the host mappings of data and code are to be leaked, now that all is done.
    pub fn leaks(&self) -> (result: (bool, bool))
        ensures
            result == (self.data_mapped, self.code_mapped),
    {
        (self.data_mapped, self.code_mapped)
    }

    pub fn finish(self) -> (result: Result<(), ProbeCleanupError>)
        ensures
            result is Ok <==> self.failures@.len() == 0,
            result matches Err(error) ==> error.0@ == self.failures@,
    {
        if self.failures.len() == 0 {
            Ok(())
        } else {
            Err(ProbeCleanupError(self.failures))
        }
    }
}

/// Whatever the answers, host memory is given back only after the guest lost its mapping.
pub proof fn law_host_memory_outlives_guest_mapping(close: ScratchClose)
    requires
        close.wf(),
    ensures
        close.step == CloseStep::UnmapHostData ==> !close.data_mapped,
        close.step == CloseStep::UnmapHostCode ==> !close.code_mapped,
{
}

/// Judges the creation of the scratch vCPU; `destroyed` says whether a vCPU without an
/// exit pointer could be destroyed again.
pub fn judge_vcpu_creation(created: bool, exit_is_null: bool, destroyed: bool) -> (result: Result<
    (),
    ProbeSetupError,
>)
    ensures
        result is Ok <==> created && !exit_is_null,
        !created ==> result matches Err(ProbeSetupError::Operation(OperationError::VcpuRejected)),
        created && exit_is_null && destroyed ==> result matches Err(
            ProbeSetupError::Operation(OperationError::NullExitPointer),
        ),
        created && exit_is_null && !destroyed ==> (result matches Err(
            ProbeSetupError::Cleanup(cleanup),
        ) && cleanup.0@ == seq![CleanupFailure::NullExitAndDestroy]),
{
    if !created {
        return Err(ProbeSetupError::Operation(OperationError::VcpuRejected));
    }
    if exit_is_null {
        if !destroyed {
            let failures: Vec<CleanupFailure> = vec![CleanupFailure::NullExitAndDestroy];
            return Err(ProbeSetupError::Cleanup(ProbeCleanupError(failures)));
        }
        return Err(ProbeSetupError::Operation(OperationError::NullExitPointer));
    }
    Ok(())
}

/// Judges the destruction of the scratch vCPU.
pub fn judge_vcpu_close(destroyed: bool) -> (result: Result<(), ProbeCleanupError>)
    ensures
        result is Ok <==> destroyed,
        result matches Err(error) ==> error.0@ == seq![CleanupFailure::VcpuDestroy],
{
    if destroyed {
        Ok(())
    } else {
        let failures: Vec<CleanupFailure> = vec![CleanupFailure::VcpuDestroy];
        Err(ProbeCleanupError(failures))
    }
}

/// All failures of two cleanups, the first's before the second's.
fn join_failures(first: ProbeCleanupError, second: ProbeCleanupError) -> (result: ProbeCleanupError)
    ensures
        result.0@ == first.0@ + second.0@,
{
    let mut all: Vec<CleanupFailure> = first.0;
    let mut rest: Vec<CleanupFailure> = second.0;
    all.append(&mut rest);
    ProbeCleanupError(all)
}

/// The probe's result where scratch memory was not set up; nothing where it was.
pub fn judge_setup(outcome: Result<(), ProbeSetupError>, elapsed: u64) -> (result: Option<
    Result<ProbeReport, ProbeCleanupError>,
>)
    ensures
        outcome is Ok ==> result is None,
        outcome matches Err(ProbeSetupError::Operation(error)) ==> result == Some(
            Ok::<ProbeReport, ProbeCleanupError>(
                bare_report(ReclaimQualification::Failed, elapsed, ProbeDetail::Operation(error)),
            ),
        ),
        outcome matches Err(ProbeSetupError::Cleanup(error)) ==> result == Some(
            Err::<ProbeReport, ProbeCleanupError>(error),
        ),
{
    match outcome {
        Ok(()) => None,
        Err(ProbeSetupError::Operation(error)) => Some(
            Ok(failed_report(elapsed, ProbeDetail::Operation(error))),
        ),
        Err(ProbeSetupError::Cleanup(error)) => Some(Err(error)),
    }
}

/// The result of a probe that got no vCPU: what went wrong, with what went wrong in closing the
/// mappings behind it. Only a probe that left nothing behind has a report.
pub open spec fn vcpu_failure_judged(
    error: ProbeSetupError,
    closed: Result<(), ProbeCleanupError>,
    elapsed: u64,
    result: Result<ProbeReport, ProbeCleanupError>,
) -> bool {
    match (error, closed) {
        (ProbeSetupError::Operation(error), Ok(())) => result == Ok::<
            ProbeReport,
            ProbeCleanupError,
        >(bare_report(ReclaimQualification::Failed, elapsed, ProbeDetail::Operation(error))),
        (ProbeSetupError::Operation(_), Err(cleanup)) => result == Err::<ProbeReport, _>(cleanup),
        (ProbeSetupError::Cleanup(vcpu), Ok(())) => result == Err::<ProbeReport, _>(vcpu),
        (ProbeSetupError::Cleanup(vcpu), Err(mapping)) => result matches Err(all) && all.0@
            == vcpu.0@ + mapping.0@,
    }
}

/// The probe's result where there was no vCPU, given what closing the mappings came to.
pub fn judge_vcpu_failure(
    error: ProbeSetupError,
    closed: Result<(), ProbeCleanupError>,
    elapsed: u64,
) -> (result: Result<ProbeReport, ProbeCleanupError>)
    ensures
        vcpu_failure_judged(error, closed, elapsed, result),
{
    match (error, closed) {
        (ProbeSetupError::Operation(error), Ok(())) => Ok(
            failed_report(elapsed, ProbeDetail::Operation(error)),
        ),
        (ProbeSetupError::Operation(_), Err(cleanup)) => Err(cleanup),
        (ProbeSetupError::Cleanup(vcpu), Ok(())) => Err(vcpu),
        (ProbeSetupError::Cleanup(vcpu), Err(mapping)) => Err(join_failures(vcpu, mapping)),
    }
}

/// The result of a probe that ran: its report where both cleanups worked, and else what was left
/// behind.
pub open spec fn cleanup_judged(
    report: ProbeReport,
    vcpu: Result<(), ProbeCleanupError>,
    mappings: Result<(), ProbeCleanupError>,
    result: Result<ProbeReport, ProbeCleanupError>,
) -> bool {
    match (vcpu, mappings) {
        (Ok(()), Ok(())) => result == Ok::<ProbeReport, ProbeCleanupError>(report),
        (Err(error), Ok(())) => result == Err::<ProbeReport, _>(error),
        (Ok(()), Err(error)) => result == Err::<ProbeReport, _>(error),
        (Err(vcpu), Err(mapping)) => result matches Err(all) && all.0@ == vcpu.0@ + mapping.0@,
    }
}

/// The probe's result after the steps ran and both cleanups were made.
pub fn judge_cleanup(
    report: ProbeReport,
    vcpu: Result<(), ProbeCleanupError>,
    mappings: Result<(), ProbeCleanupError>,
) -> (result: Result<ProbeReport, ProbeCleanupError>)
    ensures
        cleanup_judged(report, vcpu, mappings, result),
{
    match (vcpu, mappings) {
        (Ok(()), Ok(())) => Ok(report),
        (Err(error), Ok(())) => Err(error),
        (Ok(()), Err(error)) => Err(error),
        (Err(vcpu), Err(mapping)) => Err(join_failures(vcpu, mapping)),
    }
}

/// What the guest maps of the scratch memory.
#[derive(Clone, Copy, Debug, PartialEq, Eq, Structural)]
pub struct ScratchMappings {
    pub code_mapped: bool,
    pub data_mapped: bool,
}

impl ScratchMappings {
    /// Begins to release the data: the guest's mapping goes first, and then the host is told
    /// that it may have the memory.
    pub fn release_data(self) -> (run: DataRun)
        ensures
            run == (DataRun { mappings: self, call: DataCall::UnmapGuest }),
    {
        DataRun { mappings: self, call: DataCall::UnmapGuest }
    }

    /// Begins to restore the data: the host is told that the memory is used again, and then the
    /// guest maps it.
    pub fn restore_data(self) -> (run: DataRun)
        ensures
            run == (DataRun { mappings: self, call: DataCall::AdviseReuse }),
    {
        DataRun { mappings: self, call: DataCall::AdviseReuse }
    }
}

/// A call of the hypervisor or the host on the scratch data.
#[derive(Clone, Copy, Debug, PartialEq, Eq, Structural)]
pub enum DataCall {
    /// Take the data away from the guest.
    UnmapGuest,
    /// Advise the host that it may have the memory.
    AdviseReusable,
    /// Advise the host that the memory is used again.
    AdviseReuse,
    /// Give the data to the guest.
    MapGuest,
    /// The error, if there was one.
    Finished(Option<OperationError>),
}

/// How a call went.
#[derive(Clone, Copy, Debug, PartialEq, Eq, Structural)]
pub enum DataReply {
    /// Whether the guest's mapping changed.
    Changed(bool),
    /// The error number of the advice, if it was refused.
    Advised(Option<i32>),
}

/// A release or a restoration of the scratch data.
#[derive(Clone, Copy, Debug, PartialEq, Eq, Structural)]
pub struct DataRun {
    /// What the guest maps by now.
    pub mappings: ScratchMappings,
    /// The next call.
    pub call: DataCall,
}

impl DataRun {
    /// The reply is one to the next call.
    pub open spec fn answers(self, reply: DataReply) -> bool {
        match self.call {
            DataCall::UnmapGuest => reply is Changed,
            DataCall::AdviseReusable => reply is Advised,
            DataCall::AdviseReuse => reply is Advised,
            DataCall::MapGuest => reply is Changed,
            DataCall::Finished(_) => false,
        }
    }

    /// What comes behind a reply. The first call that fails is the last.
    pub open spec fn after(self, reply: DataReply) -> DataRun {
        match (self.call, reply) {
            (DataCall::UnmapGuest, DataReply::Changed(true)) => DataRun {
                mappings: ScratchMappings { data_mapped: false, ..self.mappings },
                call: DataCall::AdviseReusable,
            },
            (DataCall::UnmapGuest, DataReply::Changed(false)) => DataRun {
                call: DataCall::Finished(Some(OperationError::ReleaseRejected)),
                ..self
            },
            (DataCall::AdviseReusable, DataReply::Advised(Some(error))) => DataRun {
                call: DataCall::Finished(Some(OperationError::ReleaseAdvice(error))),
                ..self
            },
            (DataCall::AdviseReusable, DataReply::Advised(None)) => DataRun {
                call: DataCall::Finished(None),
                ..self
            },
            (DataCall::AdviseReuse, DataReply::Advised(Some(error))) => DataRun {
                call: DataCall::Finished(Some(OperationError::RestoreAdvice(error))),
                ..self
            },
            (DataCall::AdviseReuse, DataReply::Advised(None)) => DataRun {
                call: DataCall::MapGuest,
                ..self
            },
            (DataCall::MapGuest, DataReply::Changed(true)) => DataRun {
                mappings: ScratchMappings { data_mapped: true, ..self.mappings },
                call: DataCall::Finished(None),
            },
            (DataCall::MapGuest, DataReply::Changed(false)) => DataRun {
                call: DataCall::Finished(Some(OperationError::RestoreRejected)),
                ..self
            },
            _ => self,
        }
    }

    /// Takes up how a call went, and gives the next one.
    pub fn step(&mut self, reply: DataReply) -> (call: DataCall)
        requires
            old(self).answers(reply),
        ensures
            *final(self) == old(self).after(reply),
            call == final(self).call,
    {
        match (self.call, reply) {
            (DataCall::UnmapGuest, DataReply::Changed(true)) => {
                self.mappings.data_mapped = false;
                self.call = DataCall::AdviseReusable;
            },
            (DataCall::UnmapGuest, DataReply::Changed(false)) => {
                self.call = DataCall::Finished(Some(OperationError::ReleaseRejected));
            },
            (DataCall::AdviseReusable, DataReply::Advised(Some(error))) => {
                self.call = DataCall::Finished(Some(OperationError::ReleaseAdvice(error)));
            },
            (DataCall::AdviseReusable, DataReply::Advised(None)) => {
                self.call = DataCall::Finished(None);
            },
            (DataCall::AdviseReuse, DataReply::Advised(Some(error))) => {
                self.call = DataCall::Finished(Some(OperationError::RestoreAdvice(error)));
            },
            (DataCall::AdviseReuse, DataReply::Advised(None)) => {
                self.call = DataCall::MapGuest;
            },
            (DataCall::MapGuest, DataReply::Changed(true)) => {
                self.mappings.data_mapped = true;
                self.call = DataCall::Finished(None);
            },
            (DataCall::MapGuest, DataReply::Changed(false)) => {
                self.call = DataCall::Finished(Some(OperationError::RestoreRejected));
            },
            _ => {},
        }
        self.call
    }
}

/// How a probe went before the scratch memory is taken down.
#[derive(Debug)]
pub enum ProbeOutcome {
    /// There was no vCPU.
    NoVcpu(ProbeSetupError),
    Ran { report: ProbeReport, vcpu: Result<(), ProbeCleanupError> },
}

/// A probe with what it owns, by what comes next.
#[derive(Debug)]
pub enum OwnedProbe {
    SetUp,
    CreateVcpu { mappings: ScratchMappings },
    RunSteps { mappings: ScratchMappings },
    CloseVcpu { mappings: ScratchMappings, report: ProbeReport },
    /// A vCPU may be left: destroy the virtual machine, so that nothing reaches the memory.
    DestroyVm { mappings: ScratchMappings, outcome: ProbeOutcome },
    CloseMappings { mappings: ScratchMappings, outcome: ProbeOutcome },
    Done { result: Result<ProbeReport, ProbeCleanupError> },
}

/// What came of a step of an owned probe.
#[derive(Debug)]
pub enum OwnedReply {
    SetUp(Result<(), ProbeSetupError>),
    Vcpu(Result<(), ProbeSetupError>),
    /// The report, and what the guest maps after the steps.
    Ran { report: ProbeReport, mappings: ScratchMappings },
    VcpuClosed(Result<(), ProbeCleanupError>),
    VmDestroyed(bool),
    MappingsClosed(Result<(), ProbeCleanupError>),
}

/// The result of a probe, once its scratch memory was taken down.
pub open spec fn outcome_judged(
    outcome: ProbeOutcome,
    closed: Result<(), ProbeCleanupError>,
    elapsed: u64,
    result: Result<ProbeReport, ProbeCleanupError>,
) -> bool {
    match outcome {
        ProbeOutcome::NoVcpu(error) => vcpu_failure_judged(error, closed, elapsed, result),
        ProbeOutcome::Ran { report, vcpu } => cleanup_judged(report, vcpu, closed, result),
    }
}

impl OwnedProbe {
    /// `next` is what comes after the answer, this long after the start of the probe. An answer
    /// to something else changes nothing.
    pub open spec fn follows(self, reply: OwnedReply, elapsed: u64, next: OwnedProbe) -> bool {
        match (self, reply) {
            (OwnedProbe::SetUp, OwnedReply::SetUp(outcome)) => next == match outcome {
                Ok(()) => OwnedProbe::CreateVcpu {
                    mappings: ScratchMappings { code_mapped: true, data_mapped: true },
                },
                Err(ProbeSetupError::Operation(error)) => OwnedProbe::Done {
                    result: Ok(
                        bare_report(
                            ReclaimQualification::Failed,
                            elapsed,
                            ProbeDetail::Operation(error),
                        ),
                    ),
                },
                Err(ProbeSetupError::Cleanup(error)) => OwnedProbe::Done { result: Err(error) },
            },
            (OwnedProbe::CreateVcpu { mappings }, OwnedReply::Vcpu(vcpu)) => next == match vcpu {
                Ok(()) => OwnedProbe::RunSteps { mappings },
                Err(error) => if error is Cleanup {
                    OwnedProbe::DestroyVm { mappings, outcome: ProbeOutcome::NoVcpu(error) }
                } else {
                    OwnedProbe::CloseMappings { mappings, outcome: ProbeOutcome::NoVcpu(error) }
                },
            },
            (OwnedProbe::RunSteps { .. }, OwnedReply::Ran { report, mappings }) => next
                == OwnedProbe::CloseVcpu { mappings, report },
            (OwnedProbe::CloseVcpu { mappings, report }, OwnedReply::VcpuClosed(vcpu)) => {
                let outcome = ProbeOutcome::Ran { report, vcpu };
                next == if vcpu is Err {
                    OwnedProbe::DestroyVm { mappings, outcome }
                } else {
                    OwnedProbe::CloseMappings { mappings, outcome }
                }
            },
            (OwnedProbe::DestroyVm { mappings, outcome }, OwnedReply::VmDestroyed(destroyed)) =>
                next == OwnedProbe::CloseMappings {
                mappings: if destroyed {
                    ScratchMappings { code_mapped: false, data_mapped: false }
                } else {
                    mappings
                },
                outcome,
            },
            (OwnedProbe::CloseMappings { outcome, .. }, OwnedReply::MappingsClosed(closed)) => {
                &&& next matches OwnedProbe::Done { result }
                &&& outcome_judged(outcome, closed, elapsed, result)
            },
            _ => next == self,
        }
    }

    /// Takes the answer to the step that is due, which came this long after the start of the
    /// probe, and moves on.
    pub fn next(self, reply: OwnedReply, elapsed: u64) -> (next: OwnedProbe)
        ensures
            self.follows(reply, elapsed, next),
    {
        match (self, reply) {
            (OwnedProbe::SetUp, OwnedReply::SetUp(outcome)) => match judge_setup(outcome, elapsed) {
                None => OwnedProbe::CreateVcpu {
                    mappings: ScratchMappings { code_mapped: true, data_mapped: true },
                },
                Some(result) => OwnedProbe::Done { result },
            },
            (OwnedProbe::CreateVcpu { mappings }, OwnedReply::Vcpu(vcpu)) => match vcpu {
                Ok(()) => OwnedProbe::RunSteps { mappings },
                Err(ProbeSetupError::Cleanup(error)) => OwnedProbe::DestroyVm {
                    mappings,
                    outcome: ProbeOutcome::NoVcpu(ProbeSetupError::Cleanup(error)),
                },
                Err(error) => OwnedProbe::CloseMappings {
                    mappings,
                    outcome: ProbeOutcome::NoVcpu(error),
                },
            },
            (OwnedProbe::RunSteps { .. }, OwnedReply::Ran { report, mappings }) =>
                OwnedProbe::CloseVcpu { mappings, report },
            (OwnedProbe::CloseVcpu { mappings, report }, OwnedReply::VcpuClosed(vcpu)) => {
                let failed = vcpu.is_err();
                let outcome = ProbeOutcome::Ran { report, vcpu };
                if failed {
                    OwnedProbe::DestroyVm { mappings, outcome }
                } else {
                    OwnedProbe::CloseMappings { mappings, outcome }
                }
            },
            (OwnedProbe::DestroyVm { mappings, outcome }, OwnedReply::VmDestroyed(destroyed)) =>
                OwnedProbe::CloseMappings {
                    mappings: if destroyed {
                        ScratchMappings { code_mapped: false, data_mapped: false }
                    } else {
                        mappings
                    },
                    outcome,
                },
            (OwnedProbe::CloseMappings { outcome, .. }, OwnedReply::MappingsClosed(closed)) =>
                OwnedProbe::Done {
                    result: match outcome {
                        ProbeOutcome::NoVcpu(error) => judge_vcpu_failure(error, closed, elapsed),
                        ProbeOutcome::Ran { report, vcpu } => judge_cleanup(report, vcpu, closed),
                    },
                },
            (probe, _) => probe,
        }
    }
}

/// A probe whose scratch memory was set up has a result only after that memory was taken down,
/// and a report only where taking it down, and the vCPU before it, left nothing behind.
pub proof fn law_reports_need_a_clean_teardown(
    probe: OwnedProbe,
    reply: OwnedReply,
    elapsed: u64,
    next: OwnedProbe,
)
    requires
        probe.follows(reply, elapsed, next),
        probe !is SetUp,
        probe !is Done,
        next is Done,
    ensures
        probe is CloseMappings,
        reply is MappingsClosed,
        next->result is Ok ==> reply->MappingsClosed_0 is Ok && match probe->CloseMappings_outcome {
            ProbeOutcome::NoVcpu(error) => error is Operation,
            ProbeOutcome::Ran { vcpu, .. } => vcpu is Ok,
        },
{
}

/// One second in nanoseconds: how long the guest may run at a stretch.
pub const RUN_DEADLINE: u64 = 1_000_000_000;

/// One second in nanoseconds: how long everything else may take at a stretch.
pub const CLEANUP_DEADLINE: u64 = 1_000_000_000;

/// Ten milliseconds in nanoseconds: the longest wait for an event.
pub const EVENT_WAIT: u64 = 10_000_000;

/// What the worker tells its watchdog.
#[derive(Clone, Copy, Debug, PartialEq, Eq, Structural)]
pub enum ProbeEvent {
    RunStarted(u64),
    RunFinished,
}

/// What the watchdog does next.
#[derive(Clone, Copy, Debug, PartialEq, Eq, Structural)]
pub enum WatchStep {
    /// The worker took too long outside the guest: give up on it.
    GiveUp,
    /// The guest ran too long: stop this vCPU.
    StopVcpu(u64),
    /// See whether the worker is done, else wait this long for an event.
    Wait(u64),
}

/// The watchdog over the probe's worker. Instants are nanoseconds.
#[derive(Clone, Copy, Debug, PartialEq, Eq, Structural)]
pub struct Watchdog {
    pub running_vcpu: Option<u64>,
    pub canceled: bool,
    pub deadline: u64,
}

impl Watchdog {
    pub fn new(now: u64) -> (result: Watchdog)
        requires
            now + CLEANUP_DEADLINE <= u64::MAX,
        ensures
            result == (Watchdog {
                running_vcpu: None,
                canceled: false,
                deadline: (now + CLEANUP_DEADLINE) as u64,
            }),
    {
        Watchdog { running_vcpu: None, canceled: false, deadline: now + CLEANUP_DEADLINE }
    }

    /// Looks at the clock. A vCPU to be stopped is no longer counted as running.
    pub fn look(&mut self, now: u64) -> (result: WatchStep)
        ensures
            now < old(self).deadline ==> *final(self) == *old(self) && result == WatchStep::Wait(
                if old(self).deadline - now < EVENT_WAIT {
                    (old(self).deadline - now) as u64
                } else {
                    EVENT_WAIT
                },
            ),
            now >= old(self).deadline ==> *final(self) == (Watchdog {
                running_vcpu: None,
                ..*old(self)
            }) && result == match old(self).running_vcpu {
                None => WatchStep::GiveUp,
                Some(id) => WatchStep::StopVcpu(id),
            },
    {
        if now >= self.deadline {
            return match self.running_vcpu.take() {
                None => WatchStep::GiveUp,
                Some(id) => WatchStep::StopVcpu(id),
            };
        }
        let left: u64 = self.deadline - now;
        WatchStep::Wait(
            if left < EVENT_WAIT {
                left
            } else {
                EVENT_WAIT
            },
        )
    }

    /// Takes the answer to stopping the vCPU.
    pub fn stopped(&mut self, ok: bool, now: u64) -> (result: Result<(), CleanupFailure>)
        requires
            now + CLEANUP_DEADLINE <= u64::MAX,
        ensures
            ok ==> result is Ok && *final(self) == (Watchdog {
                canceled: true,
                deadline: (now + CLEANUP_DEADLINE) as u64,
                ..*old(self)
            }),
            !ok ==> result == Err::<(), _>(CleanupFailure::VcpuExit) && *final(self) == *old(self),
    {
        if !ok {
            return Err(CleanupFailure::VcpuExit);
        }
        self.canceled = true;
        self.deadline = now + CLEANUP_DEADLINE;
        Ok(())
    }

    /// Takes an event of the worker.
    pub fn event(&mut self, event: ProbeEvent, now: u64)
        requires
            now + RUN_DEADLINE <= u64::MAX,
            now + CLEANUP_DEADLINE <= u64::MAX,
        ensures
            *final(self) == match event {
                ProbeEvent::RunStarted(id) => Watchdog {
                    running_vcpu: Some(id),
                    deadline: (now + RUN_DEADLINE) as u64,
                    ..*old(self)
                },
                ProbeEvent::RunFinished => Watchdog {
                    running_vcpu: None,
                    deadline: (now + CLEANUP_DEADLINE) as u64,
                    ..*old(self)
                },
            },
    {
        match event {
            ProbeEvent::RunStarted(id) => {
                self.running_vcpu = Some(id);
                self.deadline = now + RUN_DEADLINE;
            },
            ProbeEvent::RunFinished => {
                self.running_vcpu = None;
                self.deadline = now + CLEANUP_DEADLINE;
            },
        }
    }

    /// What the worker's report counts for: a run that had to be stopped has failed.
    pub fn conclude(&self, report: ProbeReport) -> (result: ProbeReport)
        ensures
            result == if self.canceled {
                ProbeReport {
                    qualification: ReclaimQualification::Failed,
                    watchdog_canceled: true,
                    ..report
                }
            } else {
                report
            },
    {
        if self.canceled {
            ProbeReport {
                qualification: ReclaimQualification::Failed,
                watchdog_canceled: true,
                ..report
            }
        } else {
            report
        }
    }
}

} // verus!
