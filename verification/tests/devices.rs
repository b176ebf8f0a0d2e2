use vmm_core::vhost_user::VirtioShmRegion;
use vmm_core::balloon::{
    coalesce_free_page_ranges, reporting_features, ActivateError, Balloon, FailureAction,
    ReportChain, WalkStep, AVAIL_FEATURES,
    VIRTIO_BALLOON_F_REPORTING, VIRTIO_BALLOON_F_STATS_VQ, VIRTIO_ID_BALLOON, VIRTQ_DESC_F_NEXT,
};
use vmm_core::config_space::read_config_space;
use vmm_core::events::EventSet;
use vmm_core::frq::{AdviceTarget, FrqAction, FrqError, FrqEvent, ReportFate};
use vmm_core::fs_device::{
    Fs, FsError, FsServer, FsWorker, HostHandle, PermissionSemantics, WorkerEvent, FS_FEATURES,
    HPQ_INDEX, REQ_INDEX, VIRTIO_FS_TAG_LEN,
};
use vmm_core::guest_memory::{GuestRange, RamPermissions, RamRegion};
use vmm_core::platform::HostPlatform;
use vmm_core::ram_layout::RamLayout;
use vmm_core::reclaim::{
    ReclaimQualification, ReclaimState, ReclaimStateError, ReleaseOutcome,
};
use vmm_core::rosetta::{RosettaFsConfig, RosettaProfile};

#[test]
fn free_page_ranges_coalesce_adjacent_descriptors_in_any_order() {
    let mib = 2 * 1024 * 1024;
    let runs = coalesce_free_page_ranges(&vec![
        (4 * mib, mib as u32),
        (0, mib as u32),
        (mib, mib as u32),
        (8 * mib, 0),
        (u64::MAX - 1, 16),
        (5 * mib, mib as u32),
    ]);
    let spans: Vec<(u64, u64)> = runs
        .iter()
        .map(|range| (range.start(), range.byte_len()))
        .collect();
    assert_eq!(spans, vec![(0, 2 * mib), (4 * mib, 2 * mib)]);
}

#[test]
fn reporting_selection_preserves_unrelated_features() {
    let reporting = 1 << VIRTIO_BALLOON_F_REPORTING;
    assert_eq!(reporting_features(true), AVAIL_FEATURES);
    assert_eq!(reporting_features(false), AVAIL_FEATURES & !reporting);
}

#[test]
fn unqualified_balloon_does_not_advertise_reporting() {
    let mut balloon = Balloon::new(HostPlatform::Macos);
    let reporting = 1 << VIRTIO_BALLOON_F_REPORTING;
    assert_eq!(balloon.avail_features() & reporting, 0);
    let mut state = ReclaimState::new();
    state.set_policy_enabled(true);
    balloon.set_reclaim_state(&state);
    assert_eq!(balloon.avail_features() & reporting, 0);
    assert_ne!(
        balloon.avail_features() & (1 << VIRTIO_BALLOON_F_STATS_VQ),
        0
    );
}

#[test]
fn free_page_reporting_requires_feature_negotiation() {
    let mut balloon = Balloon::new(HostPlatform::Linux);
    assert!(!balloon.reporting_negotiated());

    balloon.set_acked_features(1 << VIRTIO_BALLOON_F_REPORTING);
    assert!(balloon.reporting_negotiated());
}

#[test]
fn fatal_reporting_error_signals_vm_exit() {
    let mut balloon = Balloon::new(HostPlatform::Macos);
    assert_eq!(balloon.fail_vm(), FailureAction::LogOnly);
    balloon.set_failure_signal();
    assert_eq!(
        balloon.fail_vm(),
        FailureAction::SignalExit { exit_code: 1 }
    );
}

fn effective_state() -> ReclaimState {
    let mut layout = RamLayout::new(0x4000).unwrap();
    layout
        .register_region(
            RamRegion::new(
                0x4000_0000,
                0x1_0000_0000,
                0x100_0000,
                RamPermissions::read_write_execute(),
            )
            .unwrap(),
        )
        .unwrap();
    let mut state = ReclaimState::new();
    state.initialize(layout, Some(0x4000)).unwrap();
    state.set_policy_enabled(true);
    state.record_qualification(ReclaimQualification::Passed);
    state
}

fn chain(index: u16, descriptors: &[(u64, u32)]) -> ReportChain {
    let mut chain = ReportChain::new(index);
    for (place, (address, len)) in descriptors.iter().enumerate() {
        let last = place + 1 == descriptors.len();
        let step = chain.push(
            *address,
            *len,
            if last { 0 } else { VIRTQ_DESC_F_NEXT },
            !last,
        );
        assert_eq!(
            step,
            if last {
                WalkStep::Complete
            } else {
                WalkStep::More
            }
        );
    }
    chain
}

fn reclaiming_balloon() -> Balloon {
    let mut balloon = Balloon::new(HostPlatform::Macos);
    balloon.set_reclaim_state(&effective_state());
    balloon.set_host_memory_remapper(true);
    assert_eq!(balloon.avail_features(), AVAIL_FEATURES);
    balloon.set_acked_features(1 << VIRTIO_BALLOON_F_REPORTING);
    balloon.activate(5, true).unwrap();
    balloon
}

fn range(start: u64, size: u64) -> GuestRange {
    GuestRange::new(start, size).unwrap()
}

#[test]
fn reports_are_handled_chain_by_chain() {
    let mut run = reclaiming_balloon().process_frq();
    assert_eq!(run.action(), FrqAction::Pop);
    let mut truncated = ReportChain::new(9);
    assert_eq!(
        truncated.push(0, 1, VIRTQ_DESC_F_NEXT, false),
        WalkStep::Truncated
    );
    assert_eq!(
        run.step(FrqEvent::Chain(truncated)),
        FrqAction::GiveBack { index: 9, len: 0 }
    );
    assert_eq!(run.step(FrqEvent::GivenBack(true)), FrqAction::Pop);
    let adjacent = chain(1, &[(0x8000, 0x4000), (0x4000, 0x4000), (0x2_0000, 0x1000)]);
    assert_eq!(run.step(FrqEvent::Chain(adjacent)), FrqAction::Prepare);
    assert_eq!(
        run.step(FrqEvent::Prepared(Ok(()))),
        FrqAction::Release(range(0x4000, 0x8000))
    );
    assert_eq!(
        run.step(FrqEvent::Released(Ok(ReleaseOutcome::Released))),
        FrqAction::Release(range(0x2_0000, 0x1000))
    );
    assert_eq!(
        run.step(FrqEvent::Released(Ok(ReleaseOutcome::Skipped))),
        FrqAction::GiveBack { index: 1, len: 0 }
    );
    assert_eq!(run.step(FrqEvent::GivenBack(true)), FrqAction::Pop);
    assert_eq!(
        run.step(FrqEvent::Chain(chain(2, &[(0x1_0000, 0x4000)]))),
        FrqAction::Release(range(0x1_0000, 0x4000))
    );
    assert_eq!(
        run.step(FrqEvent::Released(Ok(ReleaseOutcome::Released))),
        FrqAction::GiveBack { index: 2, len: 0 }
    );
    assert_eq!(run.step(FrqEvent::GivenBack(true)), FrqAction::Pop);
    assert_eq!(run.step(FrqEvent::Empty), FrqAction::Done(true));
}

#[test]
fn an_empty_queue_is_no_news() {
    let mut run = reclaiming_balloon().process_frq();
    assert_eq!(run.step(FrqEvent::Empty), FrqAction::Done(false));
}

#[test]
fn a_failed_release_keeps_the_chain() {
    let mut run = reclaiming_balloon().process_frq();
    run.step(FrqEvent::Chain(chain(3, &[(0x8000, 0x1000), (0, 0x1000)])));
    run.step(FrqEvent::Prepared(Ok(())));
    let failed = run.step(FrqEvent::Released(Err(ReclaimStateError::ReleaseUnmap)));
    assert_eq!(
        failed,
        FrqAction::Fail(FrqError::Reclaim(ReclaimStateError::ReleaseUnmap))
    );
    assert_eq!(run.action(), failed);
}

#[test]
fn failed_maintenance_keeps_the_chain() {
    let mut run = reclaiming_balloon().process_frq();
    run.step(FrqEvent::Chain(chain(3, &[(0x8000, 0x1000)])));
    let error = FrqError::Reclaim(ReclaimStateError::RemapperLockPoisoned);
    assert_eq!(
        run.step(FrqEvent::Prepared(Err(
            ReclaimStateError::RemapperLockPoisoned
        ))),
        FrqAction::Fail(error)
    );
    assert_eq!(error.message(""), "host memory remapper lock poisoned");
}

#[test]
fn a_chain_that_is_not_taken_back_is_an_error() {
    let mut truncated = ReportChain::new(1);
    truncated.push(0, 1, VIRTQ_DESC_F_NEXT, false);
    let mut run = reclaiming_balloon().process_frq();
    run.step(FrqEvent::Chain(truncated));
    let error = FrqError::GiveBack(ReportFate::Malformed);
    assert_eq!(
        run.step(FrqEvent::GivenBack(false)),
        FrqAction::Fail(error)
    );
    assert_eq!(
        error.message("no ring"),
        "failed to acknowledge malformed report: no ring"
    );
    assert_eq!(
        FrqError::GiveBack(ReportFate::Unnegotiated).message("no ring"),
        "failed to acknowledge unnegotiated report: no ring"
    );
    assert_eq!(
        FrqError::GiveBack(ReportFate::Invalid).message("no ring"),
        "failed to acknowledge invalid report: no ring"
    );
    assert_eq!(
        FrqError::GiveBack(ReportFate::Handled).message("no ring"),
        "failed to add used report to queue: no ring"
    );
}

#[test]
fn unnegotiated_reports_are_given_back_untouched() {
    let mut balloon = Balloon::new(HostPlatform::Linux);
    balloon.activate(5, true).unwrap();
    let mut run = balloon.process_frq();
    assert_eq!(
        run.step(FrqEvent::Chain(chain(1, &[(0x8000, 0x4000)]))),
        FrqAction::GiveBack { index: 1, len: 0 }
    );
    assert_eq!(
        run.step(FrqEvent::GivenBack(false)),
        FrqAction::Fail(FrqError::GiveBack(ReportFate::Unnegotiated))
    );
}

#[test]
fn hosts_without_a_reclaim_state_give_reports_back() {
    let mut balloon = Balloon::new(HostPlatform::Macos);
    balloon.set_acked_features(1 << VIRTIO_BALLOON_F_REPORTING);
    balloon.activate(5, true).unwrap();
    let mut run = balloon.process_frq();
    assert_eq!(
        run.step(FrqEvent::Chain(chain(1, &[(0x8000, 0x4000)]))),
        FrqAction::GiveBack { index: 1, len: 0 }
    );
    assert_eq!(
        run.step(FrqEvent::GivenBack(false)),
        FrqAction::Fail(FrqError::GiveBack(ReportFate::Handled))
    );
}

#[test]
fn other_hosts_advise_whole_chains_or_nothing() {
    let mut balloon = Balloon::new(HostPlatform::Linux);
    balloon.set_acked_features(1 << VIRTIO_BALLOON_F_REPORTING);
    balloon.activate(5, true).unwrap();
    let mut run = balloon.process_frq();
    assert_eq!(
        run.step(FrqEvent::Chain(chain(1, &[(0x8000, 1), (0x4000, 2)]))),
        FrqAction::Resolve
    );
    assert_eq!(*run.descriptors(), vec![(0x8000, 1), (0x4000, 2)]);
    assert_eq!(
        run.step(FrqEvent::Resolved(vec![Some(0x1000), Some(0x2000)])),
        FrqAction::Advise(AdviceTarget {
            host: 0x1000,
            len: 1
        })
    );
    assert_eq!(
        run.step(FrqEvent::Advised),
        FrqAction::Advise(AdviceTarget {
            host: 0x2000,
            len: 2
        })
    );
    assert_eq!(
        run.step(FrqEvent::Advised),
        FrqAction::GiveBack { index: 1, len: 0 }
    );
    run.step(FrqEvent::GivenBack(true));
    run.step(FrqEvent::Chain(chain(2, &[(0x8000, 1), (0x4000, 2)])));
    assert_eq!(
        run.step(FrqEvent::Resolved(vec![Some(0x1000), None])),
        FrqAction::GiveBack { index: 2, len: 0 }
    );
    assert_eq!(
        run.step(FrqEvent::GivenBack(false)),
        FrqAction::Fail(FrqError::GiveBack(ReportFate::Invalid))
    );
}

#[test]
fn balloons_are_activated_with_all_queues() {
    let mut balloon = Balloon::new(HostPlatform::Linux);
    assert_eq!(balloon.id(), "balloon");
    assert_eq!(balloon.device_type(), VIRTIO_ID_BALLOON);
    assert_eq!(balloon.activate(4, true), Err(ActivateError::BadActivate));
    assert_eq!(balloon.activate(5, false), Err(ActivateError::BadActivate));
    assert!(!balloon.is_activated());
    assert_eq!(balloon.activate(5, true), Ok(()));
    assert!(balloon.is_activated());
    balloon.config.actual = 0x0403_0201;
    let mut data = vec![0xff; 4];
    balloon.read_config(4, &mut data);
    assert_eq!(data, vec![1, 2, 3, 4]);
}

#[test]
fn configuration_reads_stop_at_the_end() {
    let config = vec![1, 2, 3, 4];
    let mut data = vec![9; 4];
    read_config_space(&config, 2, &mut data);
    assert_eq!(data, vec![3, 4, 9, 9]);
    let mut data = vec![9; 4];
    read_config_space(&config, 4, &mut data);
    assert_eq!(data, vec![9; 4]);
}

fn new_fs(tag: String) -> Result<Fs, FsError> {
    Fs::new(
        &tag,
        PermissionSemantics::LinuxComplete,
        None,
        Some(HostHandle(0)),
        false,
        Vec::new(),
    )
}

fn tag_error(tag: String) -> FsError {
    match new_fs(tag) {
        Err(error) => error,
        Ok(_) => panic!("oversized tag was accepted"),
    }
}

#[test]
fn accepts_tag_at_protocol_limit() {
    let tag = "x".repeat(VIRTIO_FS_TAG_LEN);
    let fs = new_fs(tag.clone()).unwrap();

    assert_eq!(fs.tag.as_slice(), tag.as_bytes());
}

#[test]
fn preserves_empty_tag() {
    let fs = new_fs(String::new()).unwrap();

    assert_eq!(fs.tag, [0; VIRTIO_FS_TAG_LEN]);
}

#[test]
fn rejects_tag_over_protocol_limit() {
    let error = tag_error("x".repeat(VIRTIO_FS_TAG_LEN + 1));

    assert!(matches!(
        error,
        FsError::InvalidTagLength {
            length: 37,
            max: VIRTIO_FS_TAG_LEN,
        }
    ));
}

#[test]
fn measures_multibyte_tag_in_bytes() {
    let accepted = "é".repeat(VIRTIO_FS_TAG_LEN / 2);
    let fs = new_fs(accepted.clone()).unwrap();
    assert_eq!(fs.tag.as_slice(), accepted.as_bytes());

    let rejected = "é".repeat(VIRTIO_FS_TAG_LEN / 2 + 1);
    let error = tag_error(rejected);
    assert!(matches!(
        error,
        FsError::InvalidTagLength {
            length: 38,
            max: VIRTIO_FS_TAG_LEN,
        }
    ));
}

#[test]
fn rejects_huge_tag_with_controlled_error() {
    let error = tag_error("x".repeat(1_000_000));

    assert!(matches!(
        error,
        FsError::InvalidTagLength {
            length: 1_000_000,
            max: VIRTIO_FS_TAG_LEN,
        }
    ));
}

fn rosetta_config() -> RosettaFsConfig {
    RosettaFsConfig {
        profile: RosettaProfile::CapturedCompatibilityV1,
        snapshot: b"bytes".to_vec(),
        captured_result: 0,
        captured_response: vec![0; 1024],
    }
}

#[test]
fn file_systems_offer_the_virtio_features() {
    let mut fs = new_fs("tag".to_string()).unwrap();
    assert_eq!(fs.avail_features(), (1 << 32) | (1 << 29));
    assert_eq!(fs.avail_features(), FS_FEATURES);
    fs.set_acked_features(1 << 32);
    assert_eq!(fs.acked_features(), 1 << 32);
    let mut data = vec![0xff; 40];
    fs.read_config(0, &mut data);
    assert_eq!(&data[..4], b"tag\0");
    assert_eq!(&data[36..], &[1, 0, 0, 0]);
    assert_eq!(fs.activate(true), Ok(()));
    assert!(fs.is_activated());
    assert!(fs.reset());
    assert!(!fs.is_activated());
}

#[test]
fn workers_get_what_the_device_was_lent() {
    let mut fs = new_fs("tag".to_string()).unwrap();
    fs.add_virtual_entry(HostHandle(4));
    fs.add_virtual_entry(HostHandle(5));
    fs.set_exit_code(HostHandle(6));
    fs.set_map_sender(HostHandle(7));
    let worker = FsWorker::new(&fs);
    assert_eq!(worker.virtual_entries, vec![HostHandle(4), HostHandle(5)]);
    assert_eq!(worker.exit_code, Some(HostHandle(6)));
    assert_eq!(worker.map_sender, Some(HostHandle(7)));
    assert!(worker.exit_ioctl && worker.allow_idmap);

    let mut translator = Fs::new_rosetta("rosetta", rosetta_config()).unwrap();
    assert_eq!(translator.exit_code, None);
    translator.add_virtual_entry(HostHandle(4));
    translator.set_exit_code(HostHandle(6));
    translator.set_map_sender(HostHandle(7));
    let worker = FsWorker::new(&translator);
    assert_eq!(worker.virtual_entries, vec![]);
    assert_eq!(worker.exit_code, Some(HostHandle(6)));
    assert_eq!(worker.map_sender, None);
    assert!(!worker.exit_ioctl && !worker.allow_idmap);
}

#[test]
fn translators_are_served_under_their_name_only() {
    assert!(matches!(
        Fs::new_rosetta("other", rosetta_config()),
        Err(FsError::InvalidRosettaTag)
    ));
    let region = VirtioShmRegion {
        host_addr: 0x1000,
        guest_addr: 0x8000,
        size: 0x4000,
    };
    let mut fs = Fs::new_rosetta("rosetta", rosetta_config()).unwrap();
    fs.set_shm_region(region);
    assert_eq!(fs.shm_region(), Some(region));
    assert_eq!(FsWorker::new(&fs).server, FsServer::Rosetta);
    assert_eq!(FsWorker::new(&fs).shm_region, None);
    let shared = Fs::new(
        "tag",
        PermissionSemantics::LinuxSimplified,
        Some("/dir".to_string()),
        Some(HostHandle(1)),
        true,
        vec![HostHandle(2)],
    )
    .unwrap();
    assert_eq!(FsWorker::new(&shared).server, FsServer::ReadOnly);
    assert_eq!(FsWorker::new(&shared).virtual_entries, vec![HostHandle(2)]);
    assert_eq!(FsWorker::new(&shared).exit_code, Some(HostHandle(1)));
    let mut null = new_fs("tag".to_string()).unwrap();
    null.set_shm_region(region);
    assert_eq!(FsWorker::new(&null).server, FsServer::Null);
    assert_eq!(FsWorker::new(&null).shm_region, Some(region));
}

#[test]
fn worker_events_are_told_apart() {
    let readable = EventSet::readable();
    assert_eq!(
        FsWorker::classify(readable, 3, 3, 4, 5),
        WorkerEvent::Queue(HPQ_INDEX)
    );
    assert_eq!(
        FsWorker::classify(readable, 4, 3, 4, 5),
        WorkerEvent::Queue(REQ_INDEX)
    );
    assert_eq!(FsWorker::classify(readable, 5, 3, 4, 5), WorkerEvent::Stop);
    assert_eq!(
        FsWorker::classify(readable, 6, 3, 4, 5),
        WorkerEvent::Unknown
    );
    assert_eq!(FsWorker::used_length(Some(80)), 80);
    assert_eq!(FsWorker::used_length(None), 0);
}
