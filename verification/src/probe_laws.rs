//! What a probe's outcome says of what was measured and done.
use crate::guest_memory::{align_up_spec, is_power_of_two_spec, GuestRange};
use crate::ledger_memory::{lemma_multiple_below, lemma_multiples_apart};
use crate::probe::{
    at_least_percent_spec, bare_report, lemma_touch_sum, scratch_fits, shortfall, touch_sum,
    MemorySample, OperationError, ProbeDetail, ProbeMode, ProbePhase, ProbeReply, ProbeReport,
    ProbeRun, SampleError, TouchError, TouchRegister,
};
use crate::reclaim::ReclaimQualification;
use crate::scratch::{
    cleanup_judged, code_step, create_next, destroy_step, host_step, undo_failures,
    vcpu_failure_judged, CleanupFailure, CloseStep, CreateStep, DataCall, DataReply, DataRun,
    OwnedProbe, OwnedReply, ProbeCleanupError, ProbeOutcome, ProbeSetupError, ScratchMappings,
    ScratchPlan,
};
use crate::touch::{
    exception_class, touch_registers_spec, TouchCall, TouchReply, TouchRun, TouchStage, VcpuExit,
};
use vstd::arithmetic::power2::pow2;
use vstd::prelude::*;

verus! {

/// Where everything that is asked of host and guest works, a probe that releases passes exactly
/// by what was measured: the touch was charged with at least three quarters of the data, the
/// release took at least three quarters of that back, and the second touch was charged with at
/// least three quarters of the data again.
pub proof fn law_measured_probe(
    pages: u64,
    baseline: MemorySample,
    touched: MemorySample,
    released: MemorySample,
    retouched: MemorySample,
    at: u64,
)
    ensures
        ({
            let mode = ProbeMode::Release;
            let p0 = ProbePhase::Baseline;
            let p1 = (ProbeRun { mode, pages, phase: p0 }).next_phase(
                ProbeReply::Sample(Ok(baseline)),
                at,
            );
            let p2 = (ProbeRun { mode, pages, phase: p1 }).next_phase(
                ProbeReply::Run(Ok(touch_sum(0x4b52_554e, pages as nat))),
                at,
            );
            let p3 = (ProbeRun { mode, pages, phase: p2 }).next_phase(ProbeReply::Pages(true), at);
            let p4 = (ProbeRun { mode, pages, phase: p3 }).next_phase(
                ProbeReply::Sample(Ok(touched)),
                at,
            );
            let p5 = (ProbeRun { mode, pages, phase: p4 }).next_phase(
                ProbeReply::Operation(None),
                at,
            );
            let p6 = (ProbeRun { mode, pages, phase: p5 }).next_phase(
                ProbeReply::Sample(Ok(released)),
                at,
            );
            let p7 = (ProbeRun { mode, pages, phase: p6 }).next_phase(
                ProbeReply::Operation(None),
                at,
            );
            let p8 = (ProbeRun { mode, pages, phase: p7 }).next_phase(
                ProbeReply::Run(Ok(touch_sum(0x5349_4c4f, pages as nat))),
                at,
            );
            let p9 = (ProbeRun { mode, pages, phase: p8 }).next_phase(ProbeReply::Pages(true), at);
            let last = (ProbeRun { mode, pages, phase: p9 }).next_phase(
                ProbeReply::Sample(Ok(retouched)),
                at,
            );
            let charged = touched.phys_footprint - baseline.phys_footprint;
            let dropped = touched.phys_footprint - released.phys_footprint;
            let recharged = retouched.phys_footprint - released.phys_footprint;
            &&& last matches ProbePhase::Finished { report }
            &&& report.elapsed == at && !report.watchdog_canceled
            &&& report.baseline == baseline && report.touched == touched
            &&& report.qualification == ReclaimQualification::Passed <==> charged >= 1_572_864 && 4
                * dropped >= 3 * charged && recharged >= 1_572_864
            &&& report.qualification == ReclaimQualification::Inconclusive <==> charged < 1_572_864
            &&& report.qualification == ReclaimQualification::Passed ==> report.detail == (
            ProbeDetail::Measured {
                charged: charged as u64,
                dropped: dropped as u64,
                recharged: recharged as u64,
            }) && report.released == released && report.retouched == Some(retouched)
        }),
{
}

/// Where nothing is released, a probe passes exactly if the touch was charged with at least
/// three quarters of the data and no more than a quarter of that has vanished.
pub proof fn law_negative_control(
    pages: u64,
    baseline: MemorySample,
    touched: MemorySample,
    later: MemorySample,
    at: u64,
)
    ensures
        ({
            let mode = ProbeMode::NegativeControl;
            let p4 = (ProbeRun { mode, pages, phase: ProbePhase::Touched { baseline } }).next_phase(
                ProbeReply::Sample(Ok(touched)),
                at,
            );
            let last = (ProbeRun { mode, pages, phase: p4 }).next_phase(
                ProbeReply::Sample(Ok(later)),
                at,
            );
            let charged = touched.phys_footprint - baseline.phys_footprint;
            let dropped = touched.phys_footprint - later.phys_footprint;
            &&& last matches ProbePhase::Finished { report }
            &&& report.qualification == ReclaimQualification::Passed <==> charged >= 1_572_864 && 4
                * dropped <= charged
            &&& report.qualification == ReclaimQualification::Inconclusive <==> charged < 1_572_864
        }),
{
}

/// What goes wrong ends a probe at once. Where nothing could be measured it is inconclusive;
/// where host or guest did something else than they should it has failed, and the report says
/// what. No failure is taken for a pass.
pub proof fn law_failures_end_a_probe(
    run: ProbeRun,
    sample: SampleError,
    touch: TouchError,
    operation: OperationError,
    at: u64,
)
    requires
        run.phase !is Finished,
    ensures
        run.phase is Baseline || run.phase is Touched || run.phase is Settled || run.phase
            is Retouched ==> {
            &&& run.next_phase(ProbeReply::Sample(Err(sample)), at) matches ProbePhase::Finished {
                report,
            }
            &&& report.qualification == ReclaimQualification::Inconclusive
            &&& report.detail == ProbeDetail::Sample(sample)
        },
        run.phase is FirstRun || run.phase is SecondRun ==> {
            &&& run.next_phase(ProbeReply::Run(Err(touch)), at) matches ProbePhase::Finished {
                report,
            }
            &&& report.qualification == ReclaimQualification::Failed
            &&& report.detail == ProbeDetail::Touch(touch)
        },
        run.phase is FirstPages || run.phase is SecondPages ==> {
            &&& run.next_phase(ProbeReply::Pages(false), at) matches ProbePhase::Finished { report }
            &&& report.qualification == ReclaimQualification::Failed
        },
        run.phase is Release || run.phase is Restore ==> {
            &&& run.next_phase(
                ProbeReply::Operation(Some(operation)),
                at,
            ) matches ProbePhase::Finished { report }
            &&& report.qualification == ReclaimQualification::Failed
            &&& report.detail == ProbeDetail::Operation(operation)
        },
{
}

/// A checksum other than the one that the pages add up to fails a probe, and the report holds
/// both.
pub proof fn law_wrong_checksums_fail_a_probe(run: ProbeRun, got: u64, at: u64)
    requires
        run.phase is FirstRun || run.phase is SecondRun,
    ensures
        ({
            let seed: u64 = if run.phase is FirstRun {
                0x4b52_554e
            } else {
                0x5349_4c4f
            };
            let next = run.next_phase(ProbeReply::Run(Ok(got)), at);
            &&& got != touch_sum(seed, run.pages as nat) ==> {
                &&& next matches ProbePhase::Finished { report }
                &&& report.qualification == ReclaimQualification::Failed
            }
            &&& got == touch_sum(seed, run.pages as nat) ==> next is FirstPages || next
                is SecondPages
        }),
{
}

/// The checksum is the sum of the words of all pages, each one more than the last, in 64 bits.
pub proof fn law_checksum_is_the_sum_of_the_words(seed: u64, pages: u64)
    ensures
        touch_sum(seed, pages as nat) as int == (pages * seed + (pages * (pages - 1)) / 2)
            % 0x1_0000_0000_0000_0000,
{
    lemma_touch_sum(seed, pages as nat);
}

/// A share is compared without rounding, and a difference is never below zero.
pub proof fn law_shares_are_exact(value: u64, reference: u64, percent: u64)
    ensures
        at_least_percent_spec(value, reference, percent) <==> value * 100 >= reference * percent,
        value >= reference ==> shortfall(value, reference) == value - reference,
        value < reference ==> shortfall(value, reference) == 0,
{
}

/// Rounding up gives the least multiple that is not below.
pub proof fn law_rounding_up_gives_the_least_multiple(value: u64, alignment: u64, multiple: int)
    requires
        is_power_of_two_spec(alignment),
        multiple % (alignment as int) == 0,
        multiple >= value,
    ensures
        align_up_spec(value as int, alignment as int) % (alignment as int) == 0,
        value <= align_up_spec(value as int, alignment as int) < value + alignment,
        align_up_spec(value as int, alignment as int) <= multiple,
{
    crate::guest_memory::lemma_power_of_two_positive(alignment);
    let al = alignment as int;
    let raised = value + al - 1;
    lemma_multiple_below(raised, al);
    lemma_multiples_apart(raised - raised % al, multiple, al);
}

/// Scratch memory that fits shares no address with what is occupied: no address of its page of
/// code or of the two mebibytes of data behind it lies in an occupied range.
pub proof fn law_scratch_memory_is_free(
    ipa_bits: u32,
    occupied: Seq<GuestRange>,
    page_size: u64,
    start: int,
    a: int,
    i: int,
)
    requires
        scratch_fits(ipa_bits, occupied, page_size, start),
        start <= a < start + page_size + 0x20_0000,
        0 <= i < occupied.len(),
    ensures
        !(occupied[i].start <= a < occupied[i].end),
        start % (page_size as int) == 0,
        0 <= a < pow2(ipa_bits as nat),
{
}

/// Scratch memory is set up in one order, host before guest and code before data; a step that
/// fails is followed by undoing what is there.
pub proof fn law_scratch_memory_is_set_up_in_order(error: i32)
    ensures
        create_next(CreateStep::MapHostCode, None) == CreateStep::MapHostData,
        create_next(CreateStep::MapHostData, None) == CreateStep::MapGuestCode,
        create_next(CreateStep::MapGuestCode, None) == CreateStep::MapGuestData,
        create_next(CreateStep::MapGuestData, None) == CreateStep::Finished,
        create_next(CreateStep::MapHostCode, Some(error)) == CreateStep::Finished,
        create_next(CreateStep::MapHostData, Some(error)) == (CreateStep::UndoHostCode { error }),
        create_next(CreateStep::MapGuestCode, Some(error)) == CreateStep::UndoHostData,
        create_next(CreateStep::MapGuestData, Some(error)) == CreateStep::CloseMappings,
{
}

/// Each failure to undo is reported once, the data's before the code's.
pub proof fn law_failed_undoing_is_reported(data: Option<i32>, code: Option<i32>)
    ensures
        undo_failures(data, code).len() == (if data is Some {
            1int
        } else {
            0
        }) + (if code is Some {
            1int
        } else {
            0
        }),
        data matches Some(error) ==> undo_failures(data, code)[0] == CleanupFailure::HostUnmap(
            error,
        ),
        code matches Some(error) ==> undo_failures(data, code).last() == CleanupFailure::HostUnmap(
            error,
        ),
{
}

/// What the guest still maps is taken from it before anything else; where that did not work the
/// virtual machine is destroyed, and host memory is given back only where the guest maps it no
/// more.
pub proof fn law_teardown_never_frees_mapped_memory(data_mapped: bool, code_mapped: bool)
    ensures
        code_step(data_mapped, code_mapped) == CloseStep::UnmapGuestCode <==> code_mapped,
        destroy_step(data_mapped, code_mapped) == CloseStep::DestroyVm <==> data_mapped
            || code_mapped,
        host_step(data_mapped, code_mapped) == CloseStep::UnmapHostData <==> !data_mapped,
        host_step(data_mapped, code_mapped) == CloseStep::UnmapHostCode <==> data_mapped
            && !code_mapped,
        host_step(data_mapped, code_mapped) == CloseStep::Finished <==> data_mapped && code_mapped,
{
}

/// The guest loses the data before the host may have it, and gets it back only after the host
/// was told; the first call that fails is the last and says how it failed.
pub proof fn law_data_is_released_and_restored(mappings: ScratchMappings, errno: i32)
    ensures
        ({
            let release = DataRun { mappings, call: DataCall::UnmapGuest };
            let unmapped = release.after(DataReply::Changed(true));
            &&& unmapped.call == DataCall::AdviseReusable && !unmapped.mappings.data_mapped
            &&& unmapped.mappings.code_mapped == mappings.code_mapped
            &&& unmapped.after(DataReply::Advised(None)).call == DataCall::Finished(None)
            &&& unmapped.after(DataReply::Advised(Some(errno))).call == DataCall::Finished(
                Some(OperationError::ReleaseAdvice(errno)),
            )
            &&& release.after(DataReply::Changed(false)).call == DataCall::Finished(
                Some(OperationError::ReleaseRejected),
            )
            &&& release.after(DataReply::Changed(false)).mappings == mappings
        }),
        ({
            let restore = DataRun { mappings, call: DataCall::AdviseReuse };
            let advised = restore.after(DataReply::Advised(None));
            let mapped = advised.after(DataReply::Changed(true));
            &&& advised.call == DataCall::MapGuest && advised.mappings == mappings
            &&& mapped.call == DataCall::Finished(None) && mapped.mappings.data_mapped
            &&& restore.after(DataReply::Advised(Some(errno))).call == DataCall::Finished(
                Some(OperationError::RestoreAdvice(errno)),
            )
            &&& advised.after(DataReply::Changed(false)).call == DataCall::Finished(
                Some(OperationError::RestoreRejected),
            )
            &&& advised.after(DataReply::Changed(false)).mappings == mappings
        }),
{
}

/// A probe that ran has its own report if both cleanups worked, and else an error that holds
/// every failure of both.
pub proof fn law_cleanup_failures_are_all_reported(
    report: ProbeReport,
    vcpu: Result<(), ProbeCleanupError>,
    mappings: Result<(), ProbeCleanupError>,
    result: Result<ProbeReport, ProbeCleanupError>,
    failure: CleanupFailure,
)
    requires
        cleanup_judged(report, vcpu, mappings, result),
    ensures
        result is Ok <==> vcpu is Ok && mappings is Ok,
        result is Ok ==> result->Ok_0 == report,
        vcpu matches Err(error) ==> error.0@.contains(failure) ==> result->Err_0.0@.contains(
            failure,
        ),
        mappings matches Err(error) ==> error.0@.contains(failure) ==> result->Err_0.0@.contains(
            failure,
        ),
{
    if vcpu is Err && mappings is Err {
        let first = vcpu->Err_0.0@;
        let second = mappings->Err_0.0@;
        let all = result->Err_0.0@;
        if first.contains(failure) {
            let i = choose|i: int| 0 <= i < first.len() && first[i] == failure;
            assert(all[i] == failure);
        }
        if second.contains(failure) {
            let i = choose|i: int| 0 <= i < second.len() && second[i] == failure;
            assert(all[first.len() + i] == failure);
        }
    }
}

/// A probe without a vCPU has failed with the reason, if nothing was left behind, and is an error
/// otherwise.
pub proof fn law_probe_without_a_vcpu_fails(
    error: ProbeSetupError,
    closed: Result<(), ProbeCleanupError>,
    elapsed: u64,
    result: Result<ProbeReport, ProbeCleanupError>,
)
    requires
        vcpu_failure_judged(error, closed, elapsed, result),
    ensures
        result is Ok <==> error is Operation && closed is Ok,
        result matches Ok(report) ==> report.qualification == ReclaimQualification::Failed
            && report.elapsed == elapsed && report.detail == ProbeDetail::Operation(
            error->Operation_0,
        ),
{
}

/// A probe runs through its steps in order: set-up, vCPU, run, the vCPU's end, and the end of the
/// mappings. Where a vCPU may be left the virtual machine is destroyed first, and only if that
/// worked nothing counts as mapped.
pub proof fn law_probe_steps_in_order(
    mappings: ScratchMappings,
    report: ProbeReport,
    failed: ProbeCleanupError,
    elapsed: u64,
    next: OwnedProbe,
)
    ensures
        OwnedProbe::SetUp.follows(OwnedReply::SetUp(Ok(())), elapsed, next) ==> next == (
        OwnedProbe::CreateVcpu {
            mappings: ScratchMappings { code_mapped: true, data_mapped: true },
        }),
        (OwnedProbe::CreateVcpu { mappings }).follows(OwnedReply::Vcpu(Ok(())), elapsed, next)
            ==> next == (OwnedProbe::RunSteps { mappings }),
        (OwnedProbe::CloseVcpu { mappings, report }).follows(
            OwnedReply::VcpuClosed(Ok(())),
            elapsed,
            next,
        ) ==> next == (OwnedProbe::CloseMappings {
            mappings,
            outcome: ProbeOutcome::Ran { report, vcpu: Ok(()) },
        }),
        (OwnedProbe::CloseVcpu { mappings, report }).follows(
            OwnedReply::VcpuClosed(Err(failed)),
            elapsed,
            next,
        ) ==> next is DestroyVm,
        (OwnedProbe::DestroyVm {
            mappings,
            outcome: ProbeOutcome::Ran { report, vcpu: Err(failed) },
        }).follows(OwnedReply::VmDestroyed(false), elapsed, next) ==> (next
            matches OwnedProbe::CloseMappings { mappings: left, .. } && left == mappings),
        (OwnedProbe::DestroyVm {
            mappings,
            outcome: ProbeOutcome::Ran { report, vcpu: Err(failed) },
        }).follows(OwnedReply::VmDestroyed(true), elapsed, next) ==> (next
            matches OwnedProbe::CloseMappings { mappings: left, .. } && !left.code_mapped
            && !left.data_mapped),
{
}

/// The guest's program starts at its code, with the data's address, the number of pages, their
/// size, the seed and an empty sum in the registers that it reads them from, interrupts masked.
pub proof fn law_program_finds_its_arguments(plan: ScratchPlan, seed: u64)
    requires
        plan.page_size > 0,
    ensures
        ({
            let set = touch_registers_spec(plan, seed);
            &&& set.len() == 7
            &&& set.contains((TouchRegister::Pc, plan.code_gpa))
            &&& set.contains((TouchRegister::X0, plan.data_gpa))
            &&& set.contains((TouchRegister::X1, (0x20_0000u64 / plan.page_size) as u64))
            &&& set.contains((TouchRegister::X2, plan.page_size))
            &&& set.contains((TouchRegister::X3, seed))
            &&& set.contains((TouchRegister::X4, 0u64))
            &&& set.contains((TouchRegister::Cpsr, 0x3c5u64))
        }),
{
    let set = touch_registers_spec(plan, seed);
    assert(set[0] == (TouchRegister::Cpsr, 0x3c5u64));
    assert(set[1] == (TouchRegister::Pc, plan.code_gpa));
    assert(set[2] == (TouchRegister::X0, plan.data_gpa));
    assert(set[3] == (TouchRegister::X1, (0x20_0000u64 / plan.page_size) as u64));
    assert(set[4] == (TouchRegister::X2, plan.page_size));
    assert(set[5] == (TouchRegister::X3, seed));
    assert(set[6] == (TouchRegister::X4, 0u64));
}

/// The exception class is the six bits from bit 26 of a syndrome.
pub proof fn law_exception_class_is_six_bits(upper: u64, class: u64, lower: u64)
    requires
        class < 0x40,
        lower < 0x400_0000,
        upper < 0x1_0000_0000,
    ensures
        exception_class((upper << 32) | (class << 26) | lower) == class,
{
    assert((((upper << 32) | (class << 26) | lower) >> 26) & 0x3f == class) by (bit_vector)
        requires
            class < 0x40,
            lower < 0x400_0000,
            upper < 0x1_0000_0000,
    ;
}

/// A pass sets its registers, then switches the MMU off and leaves the other control bits, then
/// sets the vectors and the trap, and only then runs; each call that fails ends it.
pub proof fn law_pass_runs_in_order(run: TouchRun, control: u64)
    requires
        run.plan.page_size > 0,
    ensures
        ({
            let at = |stage: TouchStage| TouchRun { stage, ..run };
            &&& at(TouchStage::Registers(6)).next_stage(TouchReply::Done(true))
                == TouchStage::Control
            &&& at(TouchStage::Control).next_stage(TouchReply::Value(Some(control)))
                == TouchStage::ControlSet(control)
            &&& at(TouchStage::ControlSet(control)).call_spec() matches TouchCall::SetSystemControl(
                value,
            )
            &&& value % 2 == 0 && value as int / 2 == control as int / 2
            &&& at(TouchStage::ControlSet(control)).next_stage(TouchReply::Done(true))
                == TouchStage::Vector
            &&& at(TouchStage::Vector).call_spec() == TouchCall::SetVector(run.plan.code_gpa)
            &&& at(TouchStage::Vector).next_stage(TouchReply::Done(true)) == TouchStage::Traps
            &&& at(TouchStage::Traps).next_stage(TouchReply::Done(true)) == TouchStage::Ready
            &&& at(TouchStage::Ready).call_spec() == TouchCall::Run
            &&& at(TouchStage::Vector).next_stage(TouchReply::Done(false)) == TouchStage::Finished(
                Err(TouchError::ExceptionVector),
            )
            &&& at(TouchStage::Traps).next_stage(TouchReply::Done(false)) == TouchStage::Finished(
                Err(TouchError::BreakpointTrap),
            )
            &&& at(TouchStage::Ready).next_stage(TouchReply::RunFailed) == TouchStage::Finished(
                Err(TouchError::Run),
            )
        }),
{
}

/// An exit that is no breakpoint is reported as it was.
pub proof fn law_other_exits_are_reported(run: TouchRun, exit: VcpuExit)
    requires
        run.stage == TouchStage::Ready,
        !exit.is_exception || exception_class(exit.syndrome) != 0x3c,
    ensures
        run.next_stage(TouchReply::Exit(exit)) == TouchStage::Finished(
            Err(
                TouchError::UnexpectedExit {
                    reason: exit.reason,
                    syndrome: exit.syndrome,
                    virtual_address: exit.virtual_address,
                    physical_address: exit.physical_address,
                    code_gpa: run.plan.code_gpa,
                    data_gpa: run.plan.data_gpa,
                },
            ),
        ),
{
}

/// A report without measurements shows none, and no watchdog that was called off.
pub proof fn law_bare_reports_show_no_measurement(
    qualification: ReclaimQualification,
    elapsed: u64,
    detail: ProbeDetail,
)
    ensures
        ({
            let report = bare_report(qualification, elapsed, detail);
            let empty = |sample: MemorySample|
                sample.phys_footprint == 0 && sample.resident == 0 && sample.reusable == 0;
            &&& report.qualification == qualification && report.elapsed == elapsed && report.detail
                == detail
            &&& empty(report.baseline) && empty(report.touched) && empty(report.released)
            &&& report.retouched is None && !report.watchdog_canceled
        }),
{
}

/// A pass that trapped at the end of its program has the checksum that was read; one that trapped
/// elsewhere is told with where it did and why. A value that could not be read has its own error.
pub proof fn law_traps_are_told_apart(
    run: TouchRun,
    value: u64,
    esr: u64,
    esr_status: i32,
    far: u64,
    far_status: i32,
)
    requires
        run.plan.code_gpa + 32 <= u64::MAX,
    ensures
        ({
            let at = |stage: TouchStage| TouchRun { stage, ..run };
            let trapped = at(TouchStage::Left).next_stage(TouchReply::Value(Some(value)));
            let explained = at(TouchStage::TrappedElsewhere { trap_pc: value }).next_stage(
                TouchReply::Status { status: esr_status, value: esr },
            );
            &&& value == run.plan.code_gpa + 32 ==> trapped == TouchStage::TrappedAtEnd
            &&& value != run.plan.code_gpa + 32 ==> trapped == (TouchStage::TrappedElsewhere {
                trap_pc: value,
            })
            &&& at(explained).next_stage(TouchReply::Status { status: far_status, value: far })
                == TouchStage::Finished(
                Err(
                    TouchError::GuestException {
                        trap_pc: value,
                        esr,
                        far,
                        esr_status,
                        far_status,
                    },
                ),
            )
            &&& at(TouchStage::TrappedAtEnd).next_stage(TouchReply::Value(Some(value)))
                == TouchStage::Finished(Ok(value))
            &&& at(TouchStage::TrappedAtEnd).next_stage(TouchReply::Value(None))
                == TouchStage::Finished(Err(TouchError::Checksum))
            &&& at(TouchStage::Left).next_stage(TouchReply::Value(None)) == TouchStage::Finished(
                Err(TouchError::TrapPc),
            )
            &&& at(TouchStage::Ready).next_stage(TouchReply::ExitVanished) == TouchStage::Finished(
                Err(TouchError::ExitVanished),
            )
            &&& at(TouchStage::Control).next_stage(TouchReply::Value(None)) == TouchStage::Finished(
                Err(TouchError::MmuState),
            )
            &&& at(TouchStage::ControlSet(value)).next_stage(TouchReply::Done(false))
                == TouchStage::Finished(Err(TouchError::MmuState))
        }),
{
}

/// Scratch memory fits wherever it is aligned, ends below the limit and each occupied range ends
/// before it or starts behind it; occupied ranges may touch it.
pub proof fn law_free_places_fit(
    ipa_bits: u32,
    occupied: Seq<GuestRange>,
    page_size: u64,
    start: int,
)
    requires
        0 <= start,
        start % (page_size as int) == 0,
        start + page_size + 0x20_0000 <= pow2(ipa_bits as nat),
        forall|i: int|
            0 <= i < occupied.len() ==> (#[trigger] occupied[i]).end <= start || start + page_size
                + 0x20_0000 <= occupied[i].start,
    ensures
        scratch_fits(ipa_bits, occupied, page_size, start),
{
}

} // verus!
