use vmm_core::guest_memory::GuestRange;
use vmm_core::probe::{
    align_up, at_least_percent, at_most_percent, choose_scratch_gpas, expected_checksum,
    host_pages_match, memory_sample, requires_emergency_destroy, MemorySample, OperationError,
    ProbeAction, ProbeDetail, ProbeMode, ProbeReply, ProbeReport, ProbeRun, SampleError,
    TouchError, TouchRegister, ABSENT_DROP_PERCENT, DATA_SIZE, FIRST_SEED, REQUIRED_PERCENT,
    SECOND_SEED,
};
use vmm_core::reclaim::ReclaimQualification;
use vmm_core::scratch::{
    judge_cleanup, judge_setup, judge_vcpu_close, judge_vcpu_creation, judge_vcpu_failure,
    plan_scratch, touch_program, CleanupFailure, CloseStep, CreateStep, DataCall, DataReply,
    OwnedProbe, OwnedReply, ProbeCleanupError, ProbeEvent, ProbeSetupError, ScratchClose,
    ScratchCreate, ScratchMappings, ScratchPlan, WatchStep, Watchdog, CLEANUP_DEADLINE,
    EVENT_WAIT, RUN_DEADLINE,
};
use vmm_core::touch::{
    mmu_disabled, run_touch_pass, touch_registers, TouchCall, TouchReply, TouchRun, VcpuExit,
};

#[test]
fn qualification_thresholds_do_not_round_down() {
    let size = DATA_SIZE;
    assert!(at_least_percent(size * 3 / 4, size, REQUIRED_PERCENT));
    assert!(!at_least_percent(size * 3 / 4 - 1, size, REQUIRED_PERCENT));
    assert!(at_most_percent(size / 4, size, ABSENT_DROP_PERCENT));
    assert!(!at_most_percent(size / 4 + 1, size, ABSENT_DROP_PERCENT));
}

#[test]
fn scratch_gpa_selection_avoids_occupied_ranges_and_ipa_cap() {
    let page = 0x4000;
    let cap = 1_u64 << 36;
    let top = GuestRange::new(cap - 0x40_0000, 0x40_0000).unwrap();
    let middle = GuestRange::new(cap - 0x80_0000, 0x20_0000).unwrap();
    let low = GuestRange::new(0, 0x8000_0000).unwrap();
    let (code, data) = choose_scratch_gpas(36, &vec![middle, top, low], page).unwrap();
    assert_eq!(code, low.start() + low.byte_len());
    assert_eq!(data, code + page);
    assert!(data + DATA_SIZE <= middle.start());
}

#[test]
fn scratch_gpa_selection_rejects_invalid_caps_and_full_space() {
    assert_eq!(choose_scratch_gpas(64, &vec![], 0x4000), None);
    assert_eq!(choose_scratch_gpas(36, &vec![], 0x3000), None);
    assert_eq!(
        choose_scratch_gpas(32, &vec![GuestRange::new(0, 1_u64 << 32).unwrap()], 0x4000),
        None
    );
}

#[test]
fn checksum_matches_wrapping_guest_accumulation() {
    let seed = u64::MAX - 3;
    let expected = (0_u64..128).fold(0_u64, |sum, page| sum.wrapping_add(seed.wrapping_add(page)));
    assert_eq!(expected_checksum(seed, 128), expected);
}

#[test]
fn cleanup_escalates_while_any_stage_two_mapping_remains() {
    assert!(!requires_emergency_destroy(false, false));
    assert!(requires_emergency_destroy(true, false));
    assert!(requires_emergency_destroy(false, true));
    assert!(requires_emergency_destroy(true, true));
}

#[test]
fn addresses_are_rounded_up() {
    assert_eq!(align_up(0x4001, 0x4000), Some(0x8000));
    assert_eq!(align_up(0x4000, 0x4000), Some(0x4000));
    assert_eq!(align_up(u64::MAX, 0x4000), None);
}

#[test]
fn samples_need_all_words() {
    let filled = MemorySample {
        phys_footprint: 1,
        resident: 2,
        reusable: 3,
    };
    assert_eq!(memory_sample(0, 38, filled), Ok(filled));
    assert_eq!(
        memory_sample(0, 37, filled),
        Err(SampleError::ShortCount(37))
    );
    assert_eq!(memory_sample(5, 38, filled), Err(SampleError::Status(5)));
}

#[test]
fn touched_pages_hold_the_seed_counted_up() {
    assert!(host_pages_match(&vec![7, 8, 9], 7));
    assert!(!host_pages_match(&vec![7, 8, 8], 7));
    assert!(host_pages_match(&vec![u64::MAX, 0], u64::MAX));
}

fn footprint(bytes: u64) -> ProbeReply {
    ProbeReply::Sample(Ok(MemorySample {
        phys_footprint: bytes,
        resident: 0,
        reusable: 0,
    }))
}

fn run_until_settled(run: &mut ProbeRun) {
    assert_eq!(run.action(), ProbeAction::Sample);
    run.step(footprint(0x100_0000), 5);
    assert_eq!(run.action(), ProbeAction::Run { seed: FIRST_SEED });
    run.step(ProbeReply::Run(Ok(expected_checksum(FIRST_SEED, 128))), 5);
    assert_eq!(run.action(), ProbeAction::ComparePages { seed: FIRST_SEED });
    run.step(ProbeReply::Pages(true), 5);
    assert_eq!(run.action(), ProbeAction::Sample);
    run.step(footprint(0x100_0000 + DATA_SIZE), 5);
}

fn report(run: &ProbeRun) -> ProbeReport {
    match run.action() {
        ProbeAction::Report { report } => report,
        other => panic!("the run is not over: {other:?}"),
    }
}

#[test]
fn a_release_that_takes_effect_passes() {
    let mut run = ProbeRun::new(ProbeMode::Release, 0x4000);
    run_until_settled(&mut run);
    assert_eq!(run.action(), ProbeAction::ReleaseData);
    run.step(ProbeReply::Operation(None), 5);
    assert_eq!(run.action(), ProbeAction::SettleAndSample);
    run.step(footprint(0x100_0000), 5);
    assert_eq!(run.action(), ProbeAction::RestoreData);
    run.step(ProbeReply::Operation(None), 5);
    assert_eq!(run.action(), ProbeAction::Run { seed: SECOND_SEED });
    run.step(ProbeReply::Run(Ok(expected_checksum(SECOND_SEED, 128))), 5);
    run.step(ProbeReply::Pages(true), 5);
    run.step(footprint(0x100_0000 + DATA_SIZE), 77);
    let report = report(&run);
    assert_eq!(report.qualification, ReclaimQualification::Passed);
    assert_eq!(report.elapsed, 77);
    assert_eq!(
        report.detail,
        ProbeDetail::Measured {
            charged: DATA_SIZE,
            dropped: DATA_SIZE,
            recharged: DATA_SIZE,
        }
    );
}

#[test]
fn a_release_without_effect_fails() {
    let mut run = ProbeRun::new(ProbeMode::Release, 0x4000);
    run_until_settled(&mut run);
    run.step(ProbeReply::Operation(None), 5);
    run.step(footprint(0x100_0000 + DATA_SIZE), 5);
    let report = report(&run);
    assert_eq!(report.qualification, ReclaimQualification::Failed);
    assert_eq!(
        report.detail,
        ProbeDetail::LowDrop {
            dropped: 0,
            charged: DATA_SIZE
        }
    );
}

#[test]
fn a_negative_control_passes_where_nothing_drops() {
    let mut run = ProbeRun::new(ProbeMode::NegativeControl, 0x4000);
    run_until_settled(&mut run);
    assert_eq!(run.action(), ProbeAction::SettleAndSample);
    run.step(footprint(0x100_0000 + DATA_SIZE), 5);
    assert_eq!(report(&run).qualification, ReclaimQualification::Passed);

    let mut run = ProbeRun::new(ProbeMode::NegativeControl, 0x4000);
    run_until_settled(&mut run);
    run.step(footprint(0x100_0000), 5);
    assert_eq!(report(&run).qualification, ReclaimQualification::Failed);
}

#[test]
fn runs_stop_at_the_first_failure() {
    let mut run = ProbeRun::new(ProbeMode::Release, 0x4000);
    run.step(ProbeReply::Sample(Err(SampleError::Status(1))), 5);
    assert_eq!(
        report(&run).qualification,
        ReclaimQualification::Inconclusive
    );

    let mut run = ProbeRun::new(ProbeMode::Release, 0x4000);
    run.step(footprint(0), 5);
    run.step(ProbeReply::Run(Ok(1)), 5);
    assert_eq!(
        report(&run).detail,
        ProbeDetail::FirstChecksum {
            expected: expected_checksum(FIRST_SEED, 128),
            got: 1
        }
    );

    let mut run = ProbeRun::new(ProbeMode::Release, 0x4000);
    run.step(footprint(0), 5);
    run.step(ProbeReply::Run(Ok(expected_checksum(FIRST_SEED, 128))), 5);
    run.step(ProbeReply::Pages(true), 5);
    run.step(footprint(DATA_SIZE / 2), 5);
    assert_eq!(
        report(&run).detail,
        ProbeDetail::LowRise {
            charged: DATA_SIZE / 2
        }
    );

    let mut run = ProbeRun::new(ProbeMode::Release, 0x4000);
    run_until_settled(&mut run);
    run.step(ProbeReply::Operation(Some(OperationError::ReleaseRejected)), 5);
    assert_eq!(
        report(&run).detail,
        ProbeDetail::Operation(OperationError::ReleaseRejected)
    );
}

#[test]
fn scratch_memory_is_planned() {
    let plan = plan_scratch(36, &vec![], 0x4000, 3).unwrap();
    assert_eq!((plan.code_gpa, plan.data_gpa, plan.page_size), (0, 0x4000, 0x4000));
    assert_eq!(plan_scratch(36, &vec![], 0x3000, 3).unwrap_err().elapsed, 3);
    assert_eq!(
        plan_scratch(36, &vec![], 0x3000, 3).unwrap_err().detail,
        ProbeDetail::UnsupportedPageSize
    );
    assert_eq!(
        plan_scratch(0, &vec![], 0x4000, 3).unwrap_err().detail,
        ProbeDetail::NoScratchRange
    );
    assert_eq!(touch_program().len(), 9);
    assert_eq!(
        touch_registers(plan, 7)[3],
        (TouchRegister::X1, DATA_SIZE / 0x4000)
    );
    assert_eq!(mmu_disabled(0x1005), 0x1004);
}

const EXIT: VcpuExit = VcpuExit {
    is_exception: true,
    reason: 1,
    syndrome: 0x3c << 26,
    virtual_address: 0x9000,
    physical_address: 0xa000,
};

fn touch_run() -> TouchRun {
    run_touch_pass(
        ScratchPlan {
            code_gpa: 0x8000,
            data_gpa: 0xc000,
            page_size: 0x4000,
        },
        7,
    )
}

/// A pass whose guest was left.
fn left(exit: VcpuExit) -> TouchRun {
    let mut run = touch_run();
    for _ in 0..7 {
        run.step(TouchReply::Done(true));
    }
    run.step(TouchReply::Value(Some(0x1005)));
    run.step(TouchReply::Done(true));
    run.step(TouchReply::Done(true));
    run.step(TouchReply::Done(true));
    run.step(TouchReply::Exit(exit));
    run
}

#[test]
fn touch_passes_run_the_guest_program() {
    let mut run = touch_run();
    for (register, value) in [
        (TouchRegister::Cpsr, 0x3c5),
        (TouchRegister::Pc, 0x8000),
        (TouchRegister::X0, 0xc000),
        (TouchRegister::X1, DATA_SIZE / 0x4000),
        (TouchRegister::X2, 0x4000),
        (TouchRegister::X3, 7),
        (TouchRegister::X4, 0),
    ] {
        assert_eq!(run.call(), TouchCall::SetRegister { register, value });
        run.step(TouchReply::Done(true));
    }
    assert_eq!(run.call(), TouchCall::GetSystemControl);
    assert_eq!(
        run.step(TouchReply::Value(Some(0x1005))),
        TouchCall::SetSystemControl(0x1004)
    );
    assert_eq!(
        run.step(TouchReply::Done(true)),
        TouchCall::SetVector(0x8000)
    );
    assert_eq!(
        run.step(TouchReply::Done(true)),
        TouchCall::TrapDebugExceptions
    );
    assert_eq!(run.step(TouchReply::Done(true)), TouchCall::Run);
    assert_eq!(run.step(TouchReply::Exit(EXIT)), TouchCall::GetPc);
    assert_eq!(
        run.step(TouchReply::Value(Some(0x8020))),
        TouchCall::GetChecksum
    );
    assert_eq!(
        run.step(TouchReply::Value(Some(42))),
        TouchCall::Finished(Ok(42))
    );
}

#[test]
fn touch_passes_end_at_the_first_failure() {
    let failed = |error| TouchCall::Finished(Err(error));
    let mut run = touch_run();
    for _ in 0..4 {
        run.step(TouchReply::Done(true));
    }
    assert_eq!(
        run.step(TouchReply::Done(false)),
        failed(TouchError::Register(TouchRegister::X2))
    );
    let mut run = touch_run();
    for _ in 0..7 {
        run.step(TouchReply::Done(true));
    }
    let mut unread = run;
    assert_eq!(
        unread.step(TouchReply::Value(None)),
        failed(TouchError::MmuState)
    );
    run.step(TouchReply::Value(Some(1)));
    for error in [
        TouchError::MmuState,
        TouchError::ExceptionVector,
        TouchError::BreakpointTrap,
    ] {
        let mut refused = run;
        assert_eq!(refused.step(TouchReply::Done(false)), failed(error));
        run.step(TouchReply::Done(true));
    }
    let mut vanished = run;
    assert_eq!(run.step(TouchReply::RunFailed), failed(TouchError::Run));
    assert_eq!(
        vanished.step(TouchReply::ExitVanished),
        failed(TouchError::ExitVanished)
    );
    assert_eq!(
        left(EXIT).step(TouchReply::Value(None)),
        failed(TouchError::TrapPc)
    );
    let mut ended = left(EXIT);
    ended.step(TouchReply::Value(Some(0x8020)));
    assert_eq!(
        ended.step(TouchReply::Value(None)),
        failed(TouchError::Checksum)
    );
}

#[test]
fn unexpected_exits_are_described() {
    for exit in [
        VcpuExit {
            syndrome: 5,
            ..EXIT
        },
        VcpuExit {
            is_exception: false,
            reason: 2,
            ..EXIT
        },
    ] {
        assert_eq!(
            left(exit).call(),
            TouchCall::Finished(Err(TouchError::UnexpectedExit {
                reason: exit.reason,
                syndrome: exit.syndrome,
                virtual_address: 0x9000,
                physical_address: 0xa000,
                code_gpa: 0x8000,
                data_gpa: 0xc000,
            }))
        );
    }
    let mut run = left(EXIT);
    assert_eq!(
        run.step(TouchReply::Value(Some(0x8200))),
        TouchCall::GetSyndrome
    );
    assert_eq!(
        run.step(TouchReply::Status {
            status: 0,
            value: 0x9600_0000
        }),
        TouchCall::GetFaultAddress
    );
    assert_eq!(
        run.step(TouchReply::Status {
            status: -3,
            value: 0
        }),
        TouchCall::Finished(Err(TouchError::GuestException {
            trap_pc: 0x8200,
            esr: 0x9600_0000,
            far: 0,
            esr_status: 0,
            far_status: -3,
        }))
    );
}

#[test]
fn failed_set_ups_are_undone() {
    let mut create = ScratchCreate::new();
    create.reply(None);
    assert_eq!(create.step, CreateStep::MapHostData);
    create.reply(Some(12));
    assert_eq!(create.step, CreateStep::UndoHostCode { error: 12 });
    create.reply(None);
    assert_eq!(create.step, CreateStep::Finished);
    assert!(matches!(
        create.outcome,
        Err(ProbeSetupError::Operation(OperationError::HostMap(12)))
    ));

    let mut create = ScratchCreate::new();
    create.reply(None);
    create.reply(None);
    create.reply(Some(1));
    create.reply(Some(22));
    create.reply(Some(23));
    match create.outcome {
        Err(ProbeSetupError::Cleanup(error)) => assert_eq!(
            error.0,
            vec![CleanupFailure::HostUnmap(22), CleanupFailure::HostUnmap(23)]
        ),
        other => panic!("unexpected outcome: {other:?}"),
    }
}

#[test]
fn host_memory_outlives_a_guest_mapping() {
    let mut close = ScratchClose::new(true, true);
    assert_eq!(close.step, CloseStep::UnmapGuestData);
    close.reply(Some(1));
    assert_eq!(close.step, CloseStep::UnmapGuestCode);
    close.reply(None);
    assert_eq!(close.step, CloseStep::DestroyVm);
    close.reply(Some(1));
    // The guest may still reach the data, so only the code is given back.
    assert_eq!(close.step, CloseStep::UnmapHostCode);
    close.reply(None);
    assert_eq!(close.step, CloseStep::Finished);
    assert_eq!(close.leaks(), (true, false));
    assert_eq!(
        close.finish().unwrap_err().0,
        vec![CleanupFailure::DataUnmap, CleanupFailure::EmergencyDestroy]
    );
}

const BOTH: ScratchMappings = ScratchMappings {
    code_mapped: true,
    data_mapped: true,
};

#[test]
fn released_data_is_no_longer_mapped() {
    let mut run = BOTH.release_data();
    assert_eq!(run.call, DataCall::UnmapGuest);
    assert_eq!(
        run.step(DataReply::Changed(false)),
        DataCall::Finished(Some(OperationError::ReleaseRejected))
    );
    assert_eq!(run.mappings, BOTH);
    let mut run = BOTH.release_data();
    assert_eq!(
        run.step(DataReply::Changed(true)),
        DataCall::AdviseReusable
    );
    let mut advised = run;
    assert_eq!(
        run.step(DataReply::Advised(Some(12))),
        DataCall::Finished(Some(OperationError::ReleaseAdvice(12)))
    );
    assert_eq!(
        advised.step(DataReply::Advised(None)),
        DataCall::Finished(None)
    );
    let released = run.mappings;
    assert!(!released.data_mapped && released.code_mapped);

    let mut run = released.restore_data();
    assert_eq!(run.call, DataCall::AdviseReuse);
    assert_eq!(
        run.step(DataReply::Advised(Some(22))),
        DataCall::Finished(Some(OperationError::RestoreAdvice(22)))
    );
    let mut run = released.restore_data();
    assert_eq!(run.step(DataReply::Advised(None)), DataCall::MapGuest);
    let mut mapped = run;
    assert_eq!(
        run.step(DataReply::Changed(false)),
        DataCall::Finished(Some(OperationError::RestoreRejected))
    );
    assert_eq!(run.mappings, released);
    assert_eq!(
        mapped.step(DataReply::Changed(true)),
        DataCall::Finished(None)
    );
    assert_eq!(mapped.mappings, BOTH);
}

#[test]
fn probes_are_taken_down_before_they_report() {
    let report = plan_scratch(0, &vec![], 0x4000, 3).unwrap_err();
    let probe = OwnedProbe::SetUp.next(OwnedReply::SetUp(Ok(())), 9);
    let probe = probe.next(OwnedReply::Vcpu(Ok(())), 9);
    // An answer to something else changes nothing.
    let probe = probe.next(OwnedReply::VmDestroyed(true), 9);
    let probe = probe.next(OwnedReply::Ran {
        report,
        mappings: BOTH,
    }, 9);
    assert!(matches!(
        probe,
        OwnedProbe::CloseVcpu { mappings, .. } if mappings == BOTH
    ));
    let probe = probe.next(OwnedReply::VcpuClosed(Ok(())), 9);
    let probe = probe.next(OwnedReply::MappingsClosed(Ok(())), 9);
    assert!(matches!(
        probe,
        OwnedProbe::Done { result: Ok(got) } if got == report
    ));

    let probe = OwnedProbe::SetUp.next(OwnedReply::SetUp(Err(ProbeSetupError::Operation(
        OperationError::CodeMapRejected,
    ))), 9);
    assert!(matches!(
        probe,
        OwnedProbe::Done { result: Ok(got) }
            if got.detail == ProbeDetail::Operation(OperationError::CodeMapRejected)
                && got.elapsed == 9
    ));
}

#[test]
fn machines_with_a_vcpu_left_are_destroyed() {
    let failed = |failure| ProbeCleanupError(vec![failure]);
    let probe = OwnedProbe::CreateVcpu { mappings: BOTH };
    let probe = probe.next(OwnedReply::Vcpu(Err(ProbeSetupError::Cleanup(failed(
        CleanupFailure::NullExitAndDestroy,
    )))), 9);
    assert!(matches!(probe, OwnedProbe::DestroyVm { .. }));
    let probe = probe.next(OwnedReply::VmDestroyed(true), 9);
    assert!(matches!(
        probe,
        OwnedProbe::CloseMappings { mappings, .. }
            if !mappings.code_mapped && !mappings.data_mapped
    ));
    let probe = probe.next(OwnedReply::MappingsClosed(Err(failed(
        CleanupFailure::HostUnmap(22),
    ))), 9);
    match probe {
        OwnedProbe::Done { result } => assert_eq!(
            result.unwrap_err().0,
            vec![
                CleanupFailure::NullExitAndDestroy,
                CleanupFailure::HostUnmap(22)
            ]
        ),
        other => panic!("the probe is not done: {other:?}"),
    }

    let report = plan_scratch(0, &vec![], 0x4000, 3).unwrap_err();
    let probe = OwnedProbe::CloseVcpu {
        mappings: BOTH,
        report,
    };
    let probe = probe.next(OwnedReply::VcpuClosed(Err(failed(
        CleanupFailure::VcpuDestroy,
    ))), 9);
    let probe = probe.next(OwnedReply::VmDestroyed(false), 9);
    assert!(matches!(
        probe,
        OwnedProbe::CloseMappings { mappings, .. } if mappings == BOTH
    ));
    let probe = probe.next(OwnedReply::MappingsClosed(Ok(())), 9);
    match probe {
        OwnedProbe::Done { result } => assert_eq!(
            result.unwrap_err().0,
            vec![CleanupFailure::VcpuDestroy]
        ),
        other => panic!("the probe is not done: {other:?}"),
    }

    let probe = OwnedProbe::CreateVcpu { mappings: BOTH };
    let probe = probe.next(OwnedReply::Vcpu(Err(ProbeSetupError::Operation(
        OperationError::VcpuRejected,
    ))), 9);
    assert!(matches!(probe, OwnedProbe::CloseMappings { .. }));
}

#[test]
fn probe_results_are_joined() {
    assert!(judge_setup(Ok(()), 9).is_none());
    assert!(judge_vcpu_creation(true, false, true).is_ok());
    assert!(matches!(
        judge_vcpu_creation(false, false, true),
        Err(ProbeSetupError::Operation(OperationError::VcpuRejected))
    ));
    assert!(matches!(
        judge_vcpu_creation(true, true, true),
        Err(ProbeSetupError::Operation(OperationError::NullExitPointer))
    ));
    assert!(judge_vcpu_close(true).is_ok());
    let failed = judge_vcpu_failure(
        ProbeSetupError::Cleanup(ProbeCleanupError(vec![CleanupFailure::NullExitAndDestroy])),
        Err(ProbeCleanupError(vec![CleanupFailure::CodeUnmap])),
        9,
    );
    assert_eq!(
        failed.unwrap_err().0,
        vec![
            CleanupFailure::NullExitAndDestroy,
            CleanupFailure::CodeUnmap
        ]
    );
    let report = plan_scratch(0, &vec![], 0x4000, 3).unwrap_err();
    assert_eq!(judge_cleanup(report, Ok(()), Ok(())).unwrap(), report);
    assert_eq!(
        judge_cleanup(report, judge_vcpu_close(false), Ok(()))
            .unwrap_err()
            .0,
        vec![CleanupFailure::VcpuDestroy]
    );
}

#[test]
fn watchdogs_stop_a_hung_guest() {
    let mut watchdog = Watchdog::new(0);
    assert_eq!(watchdog.look(0), WatchStep::Wait(EVENT_WAIT));
    assert_eq!(watchdog.look(CLEANUP_DEADLINE - 1), WatchStep::Wait(1));
    watchdog.event(ProbeEvent::RunStarted(3), 100);
    assert_eq!(
        watchdog.look(100 + RUN_DEADLINE),
        WatchStep::StopVcpu(3)
    );
    assert!(watchdog.stopped(true, 100 + RUN_DEADLINE).is_ok());
    assert!(watchdog.canceled);
    let report = plan_scratch(0, &vec![], 0x4000, 3).unwrap_err();
    let concluded = watchdog.conclude(report);
    assert_eq!(concluded.qualification, ReclaimQualification::Failed);
    assert!(concluded.watchdog_canceled);

    let mut watchdog = Watchdog::new(0);
    assert_eq!(watchdog.look(CLEANUP_DEADLINE), WatchStep::GiveUp);
    assert_eq!(
        watchdog.stopped(false, 1),
        Err(CleanupFailure::VcpuExit)
    );
    assert_eq!(watchdog.conclude(report), report);
}

#[test]
fn the_checksum_is_the_sum_of_what_is_written() {
    for (seed, pages) in [(5u64, 0u64), (5, 1), (0, 3), (u64::MAX, 300)] {
        let mut sum: u64 = 0;
        for page in 0..pages {
            sum = sum.wrapping_add(seed.wrapping_add(page));
        }
        assert_eq!(expected_checksum(seed, pages), sum);
    }
    assert_eq!(expected_checksum(10, 4), 46);
    // The pairs of pages no longer fit a word.
    assert_eq!(expected_checksum(0, 0x1_0000_0001), 0x8000_0000_8000_0000);
    assert_eq!(expected_checksum(0, 0x1_0000_0002), 0x8000_0001_8000_0001);
}

fn described(detail: ProbeDetail) -> String {
    let report = plan_scratch(0, &vec![], 0x4000, 3).unwrap_err();
    ProbeReport {
        detail,
        touched: MemorySample {
            phys_footprint: 0,
            resident: 10,
            reusable: 11,
        },
        released: MemorySample {
            phys_footprint: 0,
            resident: 20,
            reusable: 21,
        },
        retouched: Some(MemorySample {
            phys_footprint: 0,
            resident: 30,
            reusable: 31,
        }),
        ..report
    }
    .message("WORDS")
}

#[test]
fn findings_are_put_into_words() {
    for (detail, text) in [
        (
            ProbeDetail::UnsupportedPageSize,
            "unsupported host page size",
        ),
        (ProbeDetail::NoScratchRange, "no disjoint scratch GPA range"),
        (
            ProbeDetail::Sample(SampleError::Status(-5)),
            "TASK_VM_INFO failed with Mach status -5",
        ),
        (
            ProbeDetail::Sample(SampleError::ShortCount(37)),
            "TASK_VM_INFO returned short count 37",
        ),
        (
            ProbeDetail::FirstChecksum {
                expected: 0x1f,
                got: 0,
            },
            "first guest checksum mismatch: expected 0x1f, got 0x0",
        ),
        (
            ProbeDetail::FirstTouchInvisible,
            "first guest touch was not visible in every host page",
        ),
        (
            ProbeDetail::LowRise { charged: 1024 },
            "footprint rise 1024 bytes is below 75% of 2097152",
        ),
        (
            ProbeDetail::NegativeControl {
                charged: 7,
                dropped: 6,
            },
            "negative-control charged=7 dropped=6 resident=20 reusable=21",
        ),
        (
            ProbeDetail::LowDrop {
                dropped: 1,
                charged: 2,
            },
            "footprint drop 1 bytes is below 75% of charged 2",
        ),
        (
            ProbeDetail::SecondChecksum {
                expected: u64::MAX,
                got: 0xabc_def0,
            },
            "second guest checksum mismatch: expected 0xffffffffffffffff, got 0xabcdef0",
        ),
        (
            ProbeDetail::SecondTouchInvisible,
            "second guest touch was not visible in every host page",
        ),
        (
            ProbeDetail::Measured {
                charged: 1,
                dropped: 2,
                recharged: 3,
            },
            "charged=1 dropped=2 recharged=3 resident=10/20/30 reusable=11/21/31",
        ),
    ] {
        assert_eq!(described(detail), text);
    }
    let mut report = plan_scratch(0, &vec![], 0x4000, 3).unwrap_err();
    report.watchdog_canceled = true;
    assert_eq!(
        report.message(""),
        "watchdog cancellation and worker teardown completed; no disjoint scratch GPA range"
    );
}

#[test]
fn failed_steps_are_put_into_words() {
    for (error, text) in [
        (OperationError::HostMap(12), "anonymous mmap: WORDS"),
        (
            OperationError::CodeMapRejected,
            "HVF rejected scratch code mapping",
        ),
        (
            OperationError::DataMapRejected,
            "HVF rejected scratch data mapping",
        ),
        (
            OperationError::VcpuRejected,
            "HVF rejected scratch vCPU creation",
        ),
        (
            OperationError::NullExitPointer,
            "HVF returned a null scratch vCPU exit pointer",
        ),
        (
            OperationError::ReleaseRejected,
            "HVF rejected scratch data release",
        ),
        (
            OperationError::ReleaseAdvice(1),
            "scratch MADV_FREE_REUSABLE: WORDS",
        ),
        (
            OperationError::RestoreAdvice(1),
            "scratch MADV_FREE_REUSE: WORDS",
        ),
        (
            OperationError::RestoreRejected,
            "HVF rejected scratch data restore",
        ),
    ] {
        assert_eq!(described(ProbeDetail::Operation(error)), text);
    }
    for (error, text) in [
        (
            TouchError::Register(TouchRegister::X2),
            "failed to initialize scratch register WORDS",
        ),
        (
            TouchError::MmuState,
            "failed to set scratch MMU-disabled state",
        ),
        (
            TouchError::ExceptionVector,
            "failed to set scratch exception vector",
        ),
        (
            TouchError::BreakpointTrap,
            "failed to configure scratch breakpoint trap",
        ),
        (TouchError::Run, "failed to run scratch vCPU"),
        (TouchError::ExitVanished, "scratch exit pointer vanished"),
        (
            TouchError::UnexpectedExit {
                reason: 2,
                syndrome: 0x10,
                virtual_address: 0x20,
                physical_address: 0x30,
                code_gpa: 0,
                data_gpa: 0x4000,
            },
            "scratch vCPU stopped at unexpected exit reason=2 syndrome=0x10 va=0x20 pa=0x30 \
             code_gpa=0x0 data_gpa=0x4000",
        ),
        (TouchError::TrapPc, "failed to read scratch trap PC"),
        (
            TouchError::GuestException {
                trap_pc: 0x8200,
                esr: 0x9600_0000,
                far: 0xa,
                esr_status: 0,
                far_status: -3,
            },
            "scratch guest took an exception: trap_pc=0x8200 esr=0x96000000 far=0xa esr_status=0 \
             far_status=-3",
        ),
        (TouchError::Checksum, "failed to read scratch checksum"),
    ] {
        assert_eq!(described(ProbeDetail::Touch(error)), text);
    }
}

#[test]
fn failed_cleanups_are_put_into_words() {
    let words = |count: usize| vec!["WORDS".to_string(); count];
    let left = |failures: Vec<CleanupFailure>| {
        let count = failures.len();
        ProbeCleanupError(failures).message(&words(count))
    };
    assert_eq!(
        left(vec![
            CleanupFailure::DataUnmap,
            CleanupFailure::CodeUnmap,
            CleanupFailure::EmergencyDestroy,
            CleanupFailure::HostUnmap(22),
        ]),
        "scratch reclaim probe cleanup failed: scratch data HVF unmap, scratch code HVF unmap, \
         emergency HVF VM destroy, host munmap: WORDS"
    );
    assert_eq!(
        left(vec![CleanupFailure::VcpuDestroy]),
        "scratch reclaim probe cleanup failed: HVF rejected scratch vCPU destruction"
    );
    assert_eq!(
        left(vec![
            CleanupFailure::NullExitAndDestroy,
            CleanupFailure::HostUnmap(1),
            CleanupFailure::HostUnmap(2),
        ]),
        "scratch reclaim probe cleanup failed: scratch reclaim probe cleanup failed: null scratch \
         vCPU exit pointer and destroy failed; scratch reclaim probe cleanup failed: host munmap: \
         WORDS, host munmap: WORDS"
    );
    assert_eq!(
        left(vec![CleanupFailure::WorkerPanicked]),
        "scratch reclaim probe cleanup failed: scratch probe worker panicked"
    );
    assert_eq!(
        left(vec![CleanupFailure::NonExecutionPhase]),
        "scratch reclaim probe cleanup failed: scratch probe worker exceeded its bounded \
         non-execution phase"
    );
    assert_eq!(
        left(vec![CleanupFailure::VcpuExit]),
        "scratch reclaim probe cleanup failed: scratch vCPU deadline and hv_vcpus_exit failed; \
         worker retains all VM memory ownership"
    );
}
