use vmm_core::discard::{advise_free, native_page_size, DiscardError, PageState};
use vmm_core::guest_memory::{GuestRange, RamPermissions, RamRegion, ReclaimError};
use vmm_core::ram_layout::RamLayout;
use vmm_core::reclaim::{
    hvf_permissions, CallReply, CycleCall, CycleFailure, CycleReply, CycleRun, ExtentMap, ExtentState, ExtentWait, FaultResolution, FaultStep,
    NormalizeCall, Pause, ReclaimQualification, ReclaimState, ReclaimStateError, ReleaseOutcome, EXTENT_BYTES,
    SPINS_BEFORE_YIELD,
};
use vmm_core::remap::{HostMemoryRemapper, Schedule, PERIOD, REPORT_THROTTLE};

const RAM_START: u64 = 0x4000_0000;
const RAM_LEN: u64 = 8 * EXTENT_BYTES;
const MILLISECOND: u64 = 1_000_000;

const GOOD: CycleReply = CycleReply {
    unmapped: true,
    advice_error: None,
    remapped: true,
};

fn layout() -> RamLayout {
    let mut layout = RamLayout::new(0x4000).unwrap();
    layout
        .register_region(
            RamRegion::new(
                RAM_START,
                0x1_0000_0000,
                RAM_LEN,
                RamPermissions::read_write_execute(),
            )
            .unwrap(),
        )
        .unwrap();
    layout
}

fn effective_state() -> ReclaimState {
    let mut state = ReclaimState::new();
    state.initialize(layout(), Some(0x4000)).unwrap();
    state.set_policy_enabled(true);
    state.record_qualification(ReclaimQualification::Passed);
    assert!(state.is_effective());
    state
}

#[test]
fn initialization_happens_once() {
    let mut state = ReclaimState::new();
    assert!(!state.is_initialized());
    assert!(!state.is_eligible());
    state.initialize(layout(), Some(0x4000)).unwrap();
    assert!(state.is_initialized());
    assert!(state.is_eligible());
    assert!(matches!(
        state.initialize(layout(), Some(0x4000)),
        Err(ReclaimStateError::AlreadyInitialized)
    ));
}

#[test]
fn initialization_rejects_non_native_granules() {
    let page_size = native_page_size(0x4000).unwrap() as u64;
    let mut state = ReclaimState::new();
    assert!(matches!(
        state.initialize(RamLayout::new(page_size * 2).unwrap(), Some(page_size)),
        Err(ReclaimStateError::Layout(_))
    ));
    assert!(!state.is_initialized());
}

#[test]
fn empty_layout_never_qualifies() {
    let mut state = ReclaimState::new();
    state
        .initialize(RamLayout::new(0x4000).unwrap(), Some(0x4000))
        .unwrap();
    state.set_policy_enabled(true);
    state.record_qualification(ReclaimQualification::Passed);
    assert_eq!(state.qualification(), ReclaimQualification::Inconclusive);
    assert!(!state.is_effective());
    assert_eq!(state.vcpu_run_generation(), None);
}

#[test]
fn disabled_policy_resets_qualification() {
    let mut state = effective_state();
    state.set_policy_enabled(false);
    assert_eq!(state.qualification(), ReclaimQualification::NotRun);
    assert!(!state.is_effective());
    let range = GuestRange::new(RAM_START, EXTENT_BYTES).unwrap();
    assert_eq!(
        state.release_report(range, GOOD).unwrap(),
        ReleaseOutcome::Skipped
    );
    assert_eq!(state.stats().skipped_reports, 1);
}

#[test]
fn ineffective_state_skips_reports_without_touching_memory() {
    let mut state = ReclaimState::new();
    state.initialize(layout(), Some(0x4000)).unwrap();
    let range = GuestRange::new(RAM_START, EXTENT_BYTES).unwrap();
    assert_eq!(
        state.release_report(range, GOOD).unwrap(),
        ReleaseOutcome::Skipped
    );
    assert_eq!(state.stats().skipped_reports, 1);
    assert_eq!(state.stats().released_extents, 0);
}

#[test]
fn faults_outside_ram_or_without_a_cycle_are_invalid() {
    let mut state = effective_state();
    let generation = state.vcpu_run_generation().unwrap();
    assert_eq!(
        state
            .resolve_translation_fault(0x1000, generation, false)
            .unwrap(),
        FaultStep::Resolved(FaultResolution::Invalid)
    );
    assert_eq!(
        state
            .resolve_translation_fault(RAM_START + 0x100, generation, false)
            .unwrap(),
        FaultStep::Resolved(FaultResolution::Invalid)
    );
    assert!(state.contains_ram(RAM_START));
    assert!(!state.contains_ram(RAM_START + RAM_LEN));
    assert_eq!(state.stats().retried_faults, 0);
}

#[test]
fn fault_after_a_generation_change_retries() {
    let mut state = effective_state();
    let generation = state.vcpu_run_generation().unwrap();
    state.transition_generation += 2;
    assert_eq!(
        state
            .resolve_translation_fault(RAM_START + EXTENT_BYTES, generation, false)
            .unwrap(),
        FaultStep::Resolved(FaultResolution::Retry)
    );
    assert_eq!(state.stats().retried_faults, 1);
}

#[test]
fn fault_in_a_lost_extent_is_an_error_not_a_retry() {
    let mut state = effective_state();
    let generation = state.vcpu_run_generation().unwrap();
    state.mark_extent_lost(RAM_START + 3 * EXTENT_BYTES);
    assert!(matches!(
        state.resolve_translation_fault(RAM_START + 3 * EXTENT_BYTES + 0x800, generation, false),
        Err(ReclaimStateError::ExtentLost)
    ));
    // Neighbouring extents are unaffected.
    assert_eq!(
        state
            .resolve_translation_fault(RAM_START + 2 * EXTENT_BYTES, generation, false)
            .unwrap(),
        FaultStep::Resolved(FaultResolution::Invalid)
    );
}

#[test]
fn disabling_reclaim_preserves_fault_recovery_and_lost_extent_errors() {
    let mut state = effective_state();
    let entered = state.vcpu_run_generation().unwrap();
    state.transition_generation += 2;
    state.disabled = true;
    state.set_policy_enabled(false);
    assert!(!state.is_effective());
    assert_eq!(state.vcpu_run_generation(), Some(entered + 2));
    assert_eq!(
        state
            .resolve_translation_fault(RAM_START, entered, false)
            .unwrap(),
        FaultStep::Resolved(FaultResolution::Retry)
    );
    state.mark_extent_lost(RAM_START);
    assert!(matches!(
        state.resolve_translation_fault(RAM_START, entered, false),
        Err(ReclaimStateError::ExtentLost)
    ));
}

#[test]
fn unaligned_or_foreign_reports_are_skipped() {
    let mut state = effective_state();
    let tiny = GuestRange::new(RAM_START + 0x1000, 0x1000).unwrap();
    assert_eq!(
        state.release_report(tiny, GOOD).unwrap(),
        ReleaseOutcome::Skipped
    );
    let foreign = GuestRange::new(0x1000, 0x4000).unwrap();
    assert_eq!(
        state.release_report(foreign, GOOD).unwrap(),
        ReleaseOutcome::Skipped
    );
    let straddling = GuestRange::new(RAM_START + RAM_LEN - 0x4000, 0x8000).unwrap();
    assert_eq!(
        state.release_report(straddling, GOOD).unwrap(),
        ReleaseOutcome::Skipped
    );
    assert_eq!(state.stats().skipped_reports, 3);
    assert_eq!(state.stats().released_extents, 0);
}

#[test]
fn extent_indexes_cover_partial_extents() {
    let map = ExtentMap::new(layout());
    let region = &map.regions[map.region_for(RAM_START).unwrap()];
    assert_eq!(region.states.len(), 8);
    let range = GuestRange::new(RAM_START + EXTENT_BYTES - 0x4000, 0x8000).unwrap();
    assert_eq!(region.extent_indexes(range), (0, 1));
    let whole = GuestRange::new(RAM_START, RAM_LEN).unwrap();
    assert_eq!(region.extent_indexes(whole), (0, 7));
    assert!(map.region_for(RAM_START + RAM_LEN).is_none());
}

#[test]
fn reports_are_released_extent_by_extent() {
    let mut state = effective_state();
    let entered = state.vcpu_run_generation().unwrap();
    let range = GuestRange::new(RAM_START, EXTENT_BYTES).unwrap();
    assert_eq!(
        state.release_report(range, GOOD).unwrap(),
        ReleaseOutcome::Released
    );
    assert_eq!(state.stats().released_extents, 1);
    assert_eq!(state.stats().released_bytes, EXTENT_BYTES);
    assert_eq!(state.vcpu_run_generation(), Some(entered + 2));
    assert_eq!(
        state
            .resolve_translation_fault(RAM_START, entered, false)
            .unwrap(),
        FaultStep::Resolved(FaultResolution::Retry)
    );
}

#[test]
fn cycles_in_flight_make_vcpus_wait() {
    let mut state = effective_state();
    let entered = state.vcpu_run_generation().unwrap();
    let range = GuestRange::new(RAM_START, EXTENT_BYTES).unwrap();
    let cycle = state.begin_release(range).unwrap();
    assert_eq!(
        state.map.as_ref().unwrap().regions[0].states[0],
        ExtentState::Transitioning
    );
    assert_eq!(
        state
            .resolve_translation_fault(RAM_START, entered, false)
            .unwrap(),
        FaultStep::Wait
    );
    assert!(state.begin_release(range).is_none());
    assert_eq!(
        state.finish_release(cycle, Ok(())),
        Ok(ReleaseOutcome::Released)
    );
    assert_eq!(
        state
            .resolve_translation_fault(RAM_START, entered, true)
            .unwrap(),
        FaultStep::Resolved(FaultResolution::Retry)
    );
}

const RESTORE: CycleCall = CycleCall::Restore {
    host: 0x1_0000_0000,
    guest: RAM_START,
    size: EXTENT_BYTES,
    flags: 7,
};

fn opened() -> CycleRun {
    let range = GuestRange::new(RAM_START, EXTENT_BYTES).unwrap();
    CycleRun::new(effective_state().begin_release(range).unwrap())
}

#[test]
fn a_cycle_unmaps_advises_and_maps() {
    let mut run = opened();
    assert_eq!(
        run.call(),
        CycleCall::Unmap {
            guest: RAM_START,
            size: EXTENT_BYTES
        }
    );
    assert_eq!(
        run.step(CallReply::Unmapped(true)),
        CycleCall::Advise {
            host: 0x1_0000_0000,
            size: EXTENT_BYTES,
            page_size: 0x4000
        }
    );
    assert_eq!(run.step(CallReply::Advised(None)), RESTORE);
    assert_eq!(
        run.step(CallReply::Mapped(true)),
        CycleCall::Finished(Ok(()))
    );
}

#[test]
fn a_range_is_mapped_again_after_failed_advice() {
    let mut run = opened();
    run.step(CallReply::Unmapped(true));
    assert_eq!(run.step(CallReply::Advised(Some(22))), RESTORE);
    let mut lost = run;
    assert_eq!(
        run.step(CallReply::Mapped(true)),
        CycleCall::Finished(Err(CycleFailure::Recoverable(
            ReclaimStateError::DiscardAdvice(22)
        )))
    );
    assert_eq!(
        lost.step(CallReply::Mapped(false)),
        CycleCall::Finished(Err(CycleFailure::Fatal(ReclaimStateError::RestoreMap)))
    );
}

#[test]
fn a_range_that_stays_mapped_is_left_alone() {
    assert_eq!(
        opened().step(CallReply::Unmapped(false)),
        CycleCall::Finished(Err(CycleFailure::Recoverable(
            ReclaimStateError::ReleaseUnmap
        )))
    );
}

#[test]
fn reclaim_errors_say_what_they_carry() {
    assert_eq!(
        ReclaimStateError::AlreadyInitialized.message(""),
        "guest RAM reclaim state is already initialized"
    );
    assert_eq!(
        ReclaimStateError::Layout(ReclaimError::EmptyRange).message(""),
        "guest RAM layout error: range is empty"
    );
    let advice = ReclaimStateError::DiscardAdvice(22);
    assert_eq!(advice.os_error(), Some(22));
    assert_eq!(
        advice.message("Invalid argument (os error 22)"),
        "failed to advise reported guest RAM free: Invalid argument (os error 22)"
    );
    assert_eq!(ReclaimStateError::NormalizeMapping(4).os_error(), None);
    for (code, digits) in [
        (0, "0"),
        (4, "4"),
        (1_036_598_270, "1036598270"),
        (-308, "-308"),
        (i32::MIN, "-2147483648"),
    ] {
        assert_eq!(
            ReclaimStateError::NormalizeMapping(code).message("unused"),
            format!("failed to normalize host RAM mappings: Mach error {digits}")
        );
    }
    assert_eq!(
        ReclaimStateError::ReleaseUnmap.message(""),
        "failed to release guest RAM mapping from HVF"
    );
    assert_eq!(
        ReclaimStateError::RestoreMap.message(""),
        "failed to restore guest RAM mapping in HVF"
    );
    assert_eq!(
        ReclaimStateError::RemapperLockPoisoned.message(""),
        "host memory remapper lock poisoned"
    );
    assert_eq!(
        ReclaimStateError::TransitionTimeout.message(""),
        "guest RAM release did not complete before the vCPU wait deadline"
    );
    assert_eq!(
        ReclaimStateError::ExtentLost.message(""),
        "guest RAM extent was left unmapped by a failed release cycle"
    );
}

#[test]
fn failed_cycles_disable_reclaim() {
    let range = GuestRange::new(RAM_START, EXTENT_BYTES).unwrap();
    for reply in [
        CycleReply {
            unmapped: false,
            ..GOOD
        },
        CycleReply {
            advice_error: Some(22),
            ..GOOD
        },
    ] {
        let mut state = effective_state();
        assert_eq!(
            state.release_report(range, reply),
            Ok(ReleaseOutcome::Skipped)
        );
        assert!(!state.is_effective());
        assert_eq!(state.stats().failed_operations, 1);
        assert!(state.contains_ram(RAM_START));
    }
    let mut state = effective_state();
    assert_eq!(
        state.release_report(
            range,
            CycleReply {
                remapped: false,
                ..GOOD
            }
        ),
        Err(ReclaimStateError::RestoreMap)
    );
    let generation = state.vcpu_run_generation().unwrap();
    assert_eq!(
        state.resolve_translation_fault(RAM_START, generation, false),
        Err(ReclaimStateError::ExtentLost)
    );
}

#[test]
fn waits_for_an_extent_end() {
    let mut wait = ExtentWait::new();
    assert_eq!(wait.pause(true), Ok(Pause::Spin));
    wait.spins = SPINS_BEFORE_YIELD;
    assert_eq!(wait.pause(false), Ok(Pause::Yield));
    assert_eq!(wait.pause(true), Err(ReclaimStateError::TransitionTimeout));
}

#[test]
fn permissions_become_hypervisor_flags() {
    assert_eq!(hvf_permissions(RamPermissions::read()), 1);
    assert_eq!(hvf_permissions(RamPermissions::write()), 2);
    assert_eq!(hvf_permissions(RamPermissions::execute()), 4);
    assert_eq!(hvf_permissions(RamPermissions::read_write_execute()), 7);
}

#[test]
fn normalization_ends_at_the_first_failure() {
    let state = effective_state();
    let remap = NormalizeCall::Remap {
        source: 0x1_0000_0000,
        size: RAM_LEN,
    };
    let mut run = state.normalize_host_mappings();
    assert_eq!(run.call(), remap);
    assert_eq!(
        run.step(0, 0x1_0000_0000),
        NormalizeCall::Finished(Ok(()))
    );
    for (code, destination, error) in [(5, 0x1_0000_0000, 5), (0, 0x2_0000_0000, 1)] {
        let mut run = state.normalize_host_mappings();
        assert_eq!(
            run.step(code, destination),
            NormalizeCall::Finished(Err(ReclaimStateError::NormalizeMapping(error)))
        );
    }
    assert_eq!(
        ReclaimState::new().normalize_host_mappings().call(),
        NormalizeCall::Finished(Ok(()))
    );
}

#[test]
fn normalization_covers_every_region() {
    let state = effective_state();
    assert_eq!(
        state.normalization_targets(),
        vec![(0x1_0000_0000, RAM_LEN)]
    );
    assert_eq!(
        ReclaimState::normalization_result(0, 0x1000, 0x1000),
        Ok(())
    );
    assert_eq!(
        ReclaimState::normalization_result(5, 0x1000, 0x1000),
        Err(ReclaimStateError::NormalizeMapping(5))
    );
}

#[test]
fn discardability_requires_clean_unreferenced_uncompressed_pages() {
    assert!(PageState::from_flags(&vec![0, 1]).is_discardable());
    for flag in [2, 4, 8, 16, 32] {
        assert!(!PageState::from_flags(&vec![flag]).is_discardable());
    }
    assert!(!PageState::default().is_discardable());
    assert_eq!(
        PageState::from_flags(&vec![1, 2, 4, 8, 16, 32]),
        PageState {
            pages: 6,
            resident: 1,
            referenced: 2,
            modified: 2,
            paged_out: 1,
        }
    );
}

#[test]
fn invalid_ranges_are_rejected_before_advice() {
    for (address, length, page_size) in [
        (1, 16384, 16384),
        (16384, 1, 16384),
        (0, 1, 0),
        (0, 0, 16384),
    ] {
        let error = advise_free(address, length, page_size, native_page_size(16384)).unwrap_err();
        assert_eq!(error, DiscardError::InvalidInput);
    }
}

#[test]
fn advice_goes_page_by_page() {
    assert_eq!(
        advise_free(0x10000, 0xc000, 0x4000, native_page_size(0x4000)),
        Ok(vec![0x10000, 0x14000, 0x18000])
    );
    assert_eq!(
        PageState::sample(0x10000, 0xc000, 0x4000, native_page_size(0x4000)),
        Ok(3)
    );
    assert_eq!(
        PageState::sample(0x10000, 0xc000, 0x8000, native_page_size(0x4000)),
        Err(DiscardError::InvalidInput)
    );
    assert!(native_page_size(-1).is_err());
    assert!(native_page_size(0x3000).is_err());
}

#[test]
fn periodic_deadline_exists_without_reports() {
    let now = 1_000_000_000;
    let schedule = Schedule::new(now);
    assert_eq!(schedule.timeout_millis(now), 30_000);
    assert_eq!(schedule.timeout_millis(now + PERIOD), 0);
    assert_eq!(schedule.timeout_millis(now + PERIOD - 1), 1);
}

#[test]
fn reports_bring_deadline_forward_without_postponing_it() {
    let now = 1_000_000_000;
    let mut schedule = Schedule::new(now);
    assert!(!schedule.before_reports(now + 10 * MILLISECOND));
    assert_eq!(schedule.deadline, now + REPORT_THROTTLE);
    assert!(!schedule.before_reports(now + 200 * MILLISECOND));
    assert_eq!(schedule.deadline, now + REPORT_THROTTLE);
    assert!(schedule.before_reports(now + REPORT_THROTTLE));
    // Only successful operations advance the schedule.
    assert_eq!(schedule.last_success, now);
    schedule.succeeded(now + REPORT_THROTTLE);
    assert_eq!(schedule.deadline, now + REPORT_THROTTLE + PERIOD);
    assert!(!schedule.before_reports(now + 300 * MILLISECOND));
    assert_eq!(schedule.deadline, now + 500 * MILLISECOND);
}

#[test]
fn remapping_starts_with_eligible_memory() {
    assert!(HostMemoryRemapper::new(&ReclaimState::new(), 0).is_none());
    let mut remapper = HostMemoryRemapper::new(&effective_state(), 0).unwrap();
    assert_eq!(remapper.timeout_millis(0), 30_000);
    assert!(!remapper.poll(PERIOD - 1));
    assert!(remapper.poll(PERIOD));
    assert!(remapper.normalized(PERIOD, Ok(())).is_ok());
    assert!(!remapper.poll(PERIOD));
    assert!(!remapper.before_reports(PERIOD + 1));
    assert_eq!(
        remapper.normalized(PERIOD + 1, Err(ReclaimStateError::NormalizeMapping(3))),
        Err(ReclaimStateError::NormalizeMapping(3))
    );
}

#[test]
fn a_successful_release_leaves_reclaim_effective() {
    let mut state = effective_state();
    let range = GuestRange::new(RAM_START, EXTENT_BYTES).unwrap();
    assert_eq!(
        state.release_report(range, GOOD).unwrap(),
        ReleaseOutcome::Released
    );
    assert!(state.is_effective());
    assert!(state.policy_enabled());
    assert_eq!(state.qualification(), ReclaimQualification::Passed);
}

#[test]
fn one_failed_release_ends_reclaim_for_good() {
    let mut state = effective_state();
    let range = GuestRange::new(RAM_START, EXTENT_BYTES).unwrap();
    let failing = CycleReply {
        advice_error: Some(22),
        ..GOOD
    };
    assert_eq!(
        state.release_report(range, failing).unwrap(),
        ReleaseOutcome::Skipped
    );
    assert_eq!(state.stats().failed_operations, 1);
    assert!(!state.is_effective());
    state.set_policy_enabled(false);
    state.set_policy_enabled(true);
    state.record_qualification(ReclaimQualification::Passed);
    assert_eq!(state.qualification(), ReclaimQualification::Passed);
    assert!(!state.is_effective());
    assert_eq!(
        state.release_report(range, GOOD).unwrap(),
        ReleaseOutcome::Skipped
    );
    assert_eq!(state.stats().released_extents, 0);
}

#[test]
fn a_default_state_has_counted_nothing() {
    let state = ReclaimState::default();
    assert!(!state.is_initialized());
    assert!(!state.policy_enabled());
    assert_eq!(state.stats(), ReclaimState::new().stats());
    assert_eq!(state.stats().failed_operations, 0);
}
