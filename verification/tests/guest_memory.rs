use vmm_core::guest_memory::{GuestRange, RamPermissions, RamRegion, ReclaimError};
use vmm_core::ledger::{AccessPlan, LeaseId, ReclaimLedger};
use vmm_core::mapping_runs::MappingGeneration;
use vmm_core::ram_layout::RamLayout;

const GRANULE: u64 = 0x1000;
const HOST_ALIGNMENT: u64 = 0x4000;

fn ram(guest: u64, host: u64, len: u64) -> RamRegion {
    RamRegion::new(guest, host, len, RamPermissions::read_write_execute()).unwrap()
}

fn ledger() -> ReclaimLedger {
    let mut ledger = ReclaimLedger::new(GRANULE).unwrap();
    ledger
        .register_region(ram(0x8000_0000, 0x1_0000_0000, 8 * HOST_ALIGNMENT))
        .unwrap();
    ledger
}

#[test]
fn rejects_overflow_holes_mmio_and_overlapping_regions() {
    assert_eq!(
        GuestRange::new(u64::MAX, 2),
        Err(ReclaimError::AddressOverflow)
    );
    assert_eq!(
        RamRegion::new(0, u64::MAX, 2, RamPermissions::read_write_execute()),
        Err(ReclaimError::AddressOverflow)
    );

    let mut ledger = ledger();
    let hole = GuestRange::new(0x9000_0000, GRANULE).unwrap();
    assert_eq!(ledger.prepare_access(hole), Err(ReclaimError::NotRam));
    assert_eq!(
        ledger.register_region(ram(0x8000_1000, 0x2_0000_0000, GRANULE)),
        Err(ReclaimError::OverlappingRegion)
    );
    assert_eq!(
        ledger.register_region(ram(0xa000_0000, 0x1_0000_1000, GRANULE)),
        Err(ReclaimError::OverlappingRegion)
    );
}

#[test]
fn workload_ram_layout_rejects_adjacent_shm_gpa() {
    let mut ledger = ReclaimLedger::new(HOST_ALIGNMENT).unwrap();
    ledger
        .register_region(ram(0x8000_0000, 0x1_0000_0000, 2 * HOST_ALIGNMENT))
        .unwrap();

    let shm = GuestRange::new(0x8000_0000 + 2 * HOST_ALIGNMENT, HOST_ALIGNMENT).unwrap();
    assert_eq!(ledger.prepare_access(shm), Err(ReclaimError::NotRam));
}

#[test]
fn aligns_inward_with_matching_host_offset() {
    let mut ledger = ledger();
    let requested = GuestRange::new(0x8000_1000, 0x9fff).unwrap();
    let plan = ledger
        .prepare_release(requested, HOST_ALIGNMENT)
        .unwrap()
        .unwrap();
    assert_eq!(plan.range().guest_range().start(), 0x8000_4000);
    assert_eq!(plan.range().byte_len(), 0x4000);
    assert_eq!(plan.range().host_start(), 0x1_0000_4000);
    ledger.abort_release(plan).unwrap();

    let empty = GuestRange::new(0x8000_1000, 0x2000).unwrap();
    assert_eq!(ledger.prepare_release(empty, HOST_ALIGNMENT).unwrap(), None);
}

#[test]
fn release_validation_is_non_mutating() {
    let mut ledger = ledger();
    let range = GuestRange::new(0x8000_1000, 0x9fff).unwrap();
    assert!(ledger.validate_release(range, HOST_ALIGNMENT).unwrap());
    assert_eq!(ledger.released_extent_count(), 0);
    assert_eq!(ledger.active_lease_count(), 0);

    let plan = ledger
        .prepare_release(range, HOST_ALIGNMENT)
        .unwrap()
        .unwrap();
    ledger.abort_release(plan).unwrap();

    let empty = GuestRange::new(0x8000_1000, 0x2000).unwrap();
    assert!(!ledger.validate_release(empty, HOST_ALIGNMENT).unwrap());
    let outside_ram = GuestRange::new(0x7000_0000, HOST_ALIGNMENT).unwrap();
    assert_eq!(
        ledger.validate_release(outside_ram, HOST_ALIGNMENT),
        Err(ReclaimError::NotRam)
    );
}

#[test]
fn rejects_misaligned_host_translation() {
    let mut ledger = ReclaimLedger::new(GRANULE).unwrap();
    ledger
        .register_region(ram(0x8000_0000, 0x1_0000_1000, HOST_ALIGNMENT))
        .unwrap();
    let range = GuestRange::new(0x8000_0000, HOST_ALIGNMENT).unwrap();
    assert_eq!(
        ledger.prepare_release(range, HOST_ALIGNMENT),
        Err(ReclaimError::MisalignedHostTranslation)
    );
}

#[test]
fn release_commit_abort_and_overlap_are_exact() {
    let mut ledger = ledger();
    let range = GuestRange::new(0x8000_0000, HOST_ALIGNMENT).unwrap();
    let aborted = ledger
        .prepare_release(range, HOST_ALIGNMENT)
        .unwrap()
        .unwrap();
    assert_eq!(ledger.prepare_access(range), Err(ReclaimError::Busy));
    ledger.abort_release(aborted).unwrap();

    let committed = ledger
        .prepare_release(range, HOST_ALIGNMENT)
        .unwrap()
        .unwrap();
    ledger.commit_release(committed).unwrap();
    assert_eq!(ledger.released_extent_count(), 1);
    assert_eq!(
        ledger.prepare_release(range, HOST_ALIGNMENT),
        Err(ReclaimError::Released)
    );
    assert_eq!(
        ledger.commit_release(committed),
        Err(ReclaimError::InvalidTransition)
    );
}

#[test]
fn lease_blocks_release_and_cleanup_is_bounded() {
    let mut ledger = ledger();
    let range = GuestRange::new(0x8000_0000, HOST_ALIGNMENT).unwrap();
    let lease = match ledger.prepare_access(range).unwrap() {
        AccessPlan::Leased(lease) => lease,
        AccessPlan::Restore(_) => panic!("mapped RAM unexpectedly required restore"),
    };
    assert_eq!(ledger.active_lease_count(), 1);
    assert_eq!(
        ledger.prepare_release(range, HOST_ALIGNMENT),
        Err(ReclaimError::ActiveLease)
    );
    ledger.release_lease(lease).unwrap();
    assert_eq!(ledger.active_lease_count(), 0);
    assert_eq!(ledger.release_lease(lease), Err(ReclaimError::UnknownLease));
}

#[test]
fn restore_commits_mapping_generation_before_lease() {
    let mut ledger = ledger();
    let range = GuestRange::new(0x8000_0000, HOST_ALIGNMENT).unwrap();
    let release = ledger
        .prepare_release(range, HOST_ALIGNMENT)
        .unwrap()
        .unwrap();
    ledger.commit_release(release).unwrap();
    assert_eq!(ledger.generation_at(range.start()).unwrap(), None);
    assert!(
        ledger
            .released_generation_at(range.start())
            .unwrap()
            .unwrap()
            .value()
            > 0
    );

    let restore = match ledger.prepare_access(range).unwrap() {
        AccessPlan::Restore(restore) => restore,
        AccessPlan::Leased(_) => panic!("released RAM was leased without restoration"),
    };
    assert_eq!(restore.ranges().len(), 1);
    let lease = ledger.commit_restore(restore).unwrap();
    assert!(
        ledger
            .generation_at(range.start())
            .unwrap()
            .unwrap()
            .value()
            > 0
    );
    assert_eq!(ledger.released_extent_count(), 0);
    ledger.release_lease(lease).unwrap();
}

#[test]
fn restore_abort_preserves_released_state() {
    let mut ledger = ledger();
    let range = GuestRange::new(0x8000_0000, HOST_ALIGNMENT).unwrap();
    let release = ledger
        .prepare_release(range, HOST_ALIGNMENT)
        .unwrap()
        .unwrap();
    ledger.commit_release(release).unwrap();
    let restore = match ledger.prepare_access(range).unwrap() {
        AccessPlan::Restore(restore) => restore,
        AccessPlan::Leased(_) => panic!("released RAM was leased without restoration"),
    };
    ledger.abort_restore(restore).unwrap();
    assert_eq!(ledger.released_extent_count(), 1);
    assert_eq!(ledger.generation_at(range.start()).unwrap(), None);
}

#[test]
fn mapping_runs_coalesce_and_remain_granule_bounded() {
    let mut ledger = ledger();
    let first = GuestRange::new(0x8000_0000, HOST_ALIGNMENT).unwrap();
    let second = GuestRange::new(0x8000_4000, HOST_ALIGNMENT).unwrap();
    for range in [first, second] {
        let plan = ledger
            .prepare_release(range, HOST_ALIGNMENT)
            .unwrap()
            .unwrap();
        ledger.commit_release(plan).unwrap();
    }
    assert!(ledger.mapping_run_count() <= 8 * (HOST_ALIGNMENT / GRANULE) as usize);
    for range in [first, second] {
        let plan = match ledger.prepare_access(range).unwrap() {
            AccessPlan::Restore(plan) => plan,
            AccessPlan::Leased(_) => panic!("released RAM was leased without restoration"),
        };
        let lease = ledger.commit_restore(plan).unwrap();
        ledger.release_lease(lease).unwrap();
    }
    assert!(ledger.mapping_run_count() <= 3);
    assert_ne!(
        ledger.generation_at(first.start()).unwrap(),
        Some(MappingGeneration::initial())
    );
}

#[test]
fn generation_token_and_lease_ids_never_wrap() {
    let range = GuestRange::new(0x8000_0000, HOST_ALIGNMENT).unwrap();

    let mut generation = ledger();
    generation.next_generation = u64::MAX;
    assert_eq!(
        generation.prepare_release(range, HOST_ALIGNMENT),
        Err(ReclaimError::GenerationExhausted)
    );
    assert_eq!(
        generation.prepare_release(range, HOST_ALIGNMENT),
        Err(ReclaimError::GenerationExhausted)
    );

    let mut token = ledger();
    token.next_token = u64::MAX;
    assert_eq!(
        token.prepare_release(range, HOST_ALIGNMENT),
        Err(ReclaimError::TokenExhausted)
    );

    let mut lease = ledger();
    lease.next_lease = u64::MAX;
    assert_eq!(
        lease.prepare_access(range),
        Err(ReclaimError::LeaseExhausted)
    );
    assert_eq!(
        lease.prepare_access(range),
        Err(ReclaimError::LeaseExhausted)
    );
}

#[test]
fn pending_restore_reserves_lease_capacity_before_os_work() {
    let mut ledger = ReclaimLedger::new(GRANULE).unwrap();
    ledger
        .register_region(ram(0x8000_0000, 0x1_0000_0000, 3 * GRANULE))
        .unwrap();
    let mapped = GuestRange::new(0x8000_0000, GRANULE).unwrap();
    let first_released = GuestRange::new(0x8000_1000, GRANULE).unwrap();
    let second_released = GuestRange::new(0x8000_2000, GRANULE).unwrap();
    for range in [first_released, second_released] {
        let release = ledger.prepare_release(range, GRANULE).unwrap().unwrap();
        ledger.commit_release(release).unwrap();
    }
    for _ in 0..2 {
        assert!(matches!(
            ledger.prepare_access(mapped).unwrap(),
            AccessPlan::Leased(_)
        ));
    }

    let reserved = match ledger.prepare_access(first_released).unwrap() {
        AccessPlan::Restore(plan) => plan,
        AccessPlan::Leased(_) => panic!("released RAM was leased without restoration"),
    };
    assert_eq!(
        ledger.prepare_access(second_released),
        Err(ReclaimError::LeaseExhausted)
    );
    ledger.abort_restore(reserved).unwrap();
    assert!(matches!(
        ledger.prepare_access(second_released).unwrap(),
        AccessPlan::Restore(_)
    ));
}

#[test]
fn granules_must_be_powers_of_two() {
    assert!(matches!(
        ReclaimLedger::new(0x3000),
        Err(ReclaimError::InvalidAlignment)
    ));
    assert!(matches!(
        ReclaimLedger::new(0),
        Err(ReclaimError::InvalidAlignment)
    ));
    assert!(matches!(
        RamLayout::new(3),
        Err(ReclaimError::InvalidAlignment)
    ));
    assert_eq!(ReclaimLedger::new(0x1000).unwrap().granule(), 0x1000);
}

#[test]
fn regions_must_be_aligned_to_the_granule() {
    let mut ledger = ReclaimLedger::new(GRANULE).unwrap();
    for region in [
        ram(0x8000_0800, 0x1_0000_0000, GRANULE),
        ram(0x8000_0000, 0x1_0000_0800, GRANULE),
        ram(0x8000_0000, 0x1_0000_0000, 0x1800),
    ] {
        assert_eq!(
            ledger.register_region(region),
            Err(ReclaimError::InvalidAlignment)
        );
    }
    assert!(!ledger.has_registered_regions());
}

#[test]
fn ranges_and_permissions_are_checked() {
    assert_eq!(GuestRange::new(0x1000, 0), Err(ReclaimError::EmptyRange));
    assert_eq!(
        RamRegion::new(0, 0x1000, 0x1000, RamPermissions(8)),
        Err(ReclaimError::InvalidPermissions)
    );
    assert_eq!(
        RamRegion::new(0, 0x1000, 0x1000, RamPermissions(0)),
        Err(ReclaimError::InvalidPermissions)
    );
    assert_eq!(RamPermissions::read_write_execute().bits(), 7);
    let range = GuestRange::new(0x1000, 0x2000).unwrap();
    assert_eq!(range.end(), 0x3000);
    assert!(range.overlaps(GuestRange::new(0x2fff, 1).unwrap()));
    assert!(!range.overlaps(GuestRange::new(0x3000, 1).unwrap()));
    assert!(range.contains(GuestRange::new(0x1800, 0x1800).unwrap()));
    assert!(!range.contains(GuestRange::new(0x1800, 0x1801).unwrap()));
}

#[test]
fn every_address_stays_mapped_or_released() {
    let mut ledger = ledger();
    let mut releases = Vec::new();
    for page in [0u64, 2, 5] {
        let range = GuestRange::new(0x8000_0000 + page * HOST_ALIGNMENT, HOST_ALIGNMENT).unwrap();
        let plan = ledger
            .prepare_release(range, HOST_ALIGNMENT)
            .unwrap()
            .unwrap();
        ledger.commit_release(plan).unwrap();
        releases.push(range);
    }
    for page in 0..8u64 {
        let address = 0x8000_0000 + page * HOST_ALIGNMENT;
        let mapped = ledger.generation_at(address).unwrap().is_some();
        let released = ledger.released_generation_at(address).unwrap().is_some();
        assert_ne!(mapped, released);
        assert_eq!(released, page == 0 || page == 2 || page == 5);
    }
    let everything = GuestRange::new(0x8000_0000, 8 * HOST_ALIGNMENT).unwrap();
    let restore = match ledger.prepare_access(everything).unwrap() {
        AccessPlan::Restore(plan) => plan,
        AccessPlan::Leased(_) => panic!("released RAM was leased without restoration"),
    };
    assert_eq!(restore.ranges().len(), 3);
    for (range, expected) in restore.ranges().iter().zip(&releases) {
        assert_eq!(range.guest_range(), *expected);
    }
    ledger.commit_restore(restore).unwrap();
    for page in 0..8u64 {
        let address = 0x8000_0000 + page * HOST_ALIGNMENT;
        assert!(ledger.generation_at(address).unwrap().is_some());
        assert_eq!(ledger.released_generation_at(address).unwrap(), None);
    }
}

#[test]
fn whole_granules_can_always_be_released() {
    let mut ledger = ledger();
    for page in 0..32u64 {
        if page % 2 == 0 {
            let range = GuestRange::new(0x8000_0000 + page * GRANULE, GRANULE).unwrap();
            let plan = ledger.prepare_release(range, GRANULE).unwrap().unwrap();
            assert_eq!(ledger.commit_release(plan), Ok(()));
        }
    }
    assert_eq!(ledger.mapping_run_count(), 16);
    assert_eq!(ledger.released_extent_count(), 16);
}

#[test]
fn parts_of_granules_run_into_the_bound() {
    let mut ledger = ReclaimLedger::new(GRANULE).unwrap();
    ledger
        .register_region(ram(0x8000_0000, 0x1_0000_0000, GRANULE))
        .unwrap();
    let middle = GuestRange::new(0x8000_0400, 0x400).unwrap();
    let plan = ledger.prepare_release(middle, 0x400).unwrap().unwrap();
    assert_eq!(
        ledger.commit_release(plan),
        Err(ReclaimError::MetadataLimit)
    );
}

#[test]
fn aborted_plans_leave_no_trace() {
    let mut ledger = ledger();
    let range = GuestRange::new(0x8000_0000, HOST_ALIGNMENT).unwrap();
    let plan = ledger
        .prepare_release(range, HOST_ALIGNMENT)
        .unwrap()
        .unwrap();
    ledger.abort_release(plan).unwrap();
    assert_eq!(
        ledger.abort_release(plan),
        Err(ReclaimError::InvalidTransition)
    );
    assert_eq!(
        ledger.generation_at(0x8000_0000).unwrap(),
        Some(MappingGeneration::initial())
    );
    assert_eq!(ledger.current_generation(), MappingGeneration(1));
    assert_eq!(
        ledger.prepare_access(range).unwrap(),
        AccessPlan::Leased(LeaseId(1))
    );
}

#[test]
fn layouts_resolve_to_host_memory() {
    let mut layout = RamLayout::new(GRANULE).unwrap();
    layout
        .register_region(ram(0x8000_0000, 0x1_0000_0000, 4 * GRANULE))
        .unwrap();
    layout
        .register_region(ram(0x4000_0000, 0x2_0000_0000, 2 * GRANULE))
        .unwrap();
    assert_eq!(layout.regions().len(), 2);
    assert_eq!(layout.regions()[0].host_range().host_start(), 0x2_0000_0000);
    let host = layout
        .resolve(GuestRange::new(0x8000_1000, GRANULE).unwrap())
        .unwrap()
        .unwrap();
    assert_eq!(host.host_start(), 0x1_0000_1000);
    assert_eq!(
        layout.register_region(ram(0x4000_1000, 0x3_0000_0000, GRANULE)),
        Err(ReclaimError::OverlappingRegion)
    );
    assert_eq!(
        ReclaimError::OverlappingRegion.message(),
        "RAM region overlaps an existing guest or host mapping"
    );
}

#[test]
fn leased_memory_stays_mapped() {
    let mut ledger = ledger();
    let first = GuestRange::new(0x8000_0000, HOST_ALIGNMENT).unwrap();
    let both = GuestRange::new(0x8000_0000, 2 * HOST_ALIGNMENT).unwrap();
    let plan = ledger
        .prepare_release(first, HOST_ALIGNMENT)
        .unwrap()
        .unwrap();
    assert_eq!(ledger.prepare_access(both), Err(ReclaimError::Busy));
    ledger.commit_release(plan).unwrap();
    let restore = match ledger.prepare_access(both).unwrap() {
        AccessPlan::Leased(_) => panic!("released RAM was leased"),
        AccessPlan::Restore(restore) => restore,
    };
    let lease = ledger.commit_restore(restore).unwrap();
    assert_eq!(
        ledger.prepare_release(first, HOST_ALIGNMENT),
        Err(ReclaimError::ActiveLease)
    );
    assert_eq!(
        ledger.prepare_release(both, HOST_ALIGNMENT),
        Err(ReclaimError::ActiveLease)
    );
    assert!(ledger.generation_at(0x8000_0000).unwrap().is_some());
    assert!(ledger.generation_at(0x8000_4000).unwrap().is_some());
    ledger.release_lease(lease).unwrap();
    assert!(ledger
        .prepare_release(both, HOST_ALIGNMENT)
        .unwrap()
        .is_some());
}

#[test]
fn a_mapped_part_cannot_be_released_while_the_rest_is_restored() {
    let mut ledger = ReclaimLedger::new(0x1000).unwrap();
    ledger
        .register_region(ram(0x8000_0000, 0x1_0000_0000, 0x2000))
        .unwrap();
    let first = GuestRange::new(0x8000_0000, 0x1000).unwrap();
    let second = GuestRange::new(0x8000_1000, 0x1000).unwrap();
    let both = GuestRange::new(0x8000_0000, 0x2000).unwrap();
    let plan = ledger.prepare_release(second, 0x1000).unwrap().unwrap();
    ledger.commit_release(plan).unwrap();
    let restore = match ledger.prepare_access(both).unwrap() {
        AccessPlan::Leased(_) => panic!("released RAM was leased"),
        AccessPlan::Restore(restore) => restore,
    };
    assert!(matches!(
        ledger.prepare_release(first, 0x1000),
        Err(ReclaimError::Busy)
    ));
    let lease = ledger.commit_restore(restore).unwrap();
    assert!(ledger.generation_at(0x8000_0000).unwrap().is_some());
    assert!(ledger.generation_at(0x8000_1000).unwrap().is_some());
    assert!(matches!(
        ledger.prepare_release(first, 0x1000),
        Err(ReclaimError::ActiveLease)
    ));
    ledger.release_lease(lease).unwrap();
    assert!(ledger.prepare_release(first, 0x1000).unwrap().is_some());
}

#[test]
fn a_mapped_part_can_be_released_after_the_restore_is_given_up() {
    let mut ledger = ledger();
    let first = GuestRange::new(0x8000_0000, HOST_ALIGNMENT).unwrap();
    let second = GuestRange::new(0x8000_4000, HOST_ALIGNMENT).unwrap();
    let both = GuestRange::new(0x8000_0000, 2 * HOST_ALIGNMENT).unwrap();
    let plan = ledger
        .prepare_release(first, HOST_ALIGNMENT)
        .unwrap()
        .unwrap();
    ledger.commit_release(plan).unwrap();
    let restore = match ledger.prepare_access(both).unwrap() {
        AccessPlan::Leased(_) => panic!("released RAM was leased"),
        AccessPlan::Restore(restore) => restore,
    };
    assert_eq!(
        ledger.prepare_release(second, HOST_ALIGNMENT).err(),
        Some(ReclaimError::Busy)
    );
    ledger.abort_restore(restore).unwrap();
    assert!(ledger
        .prepare_release(second, HOST_ALIGNMENT)
        .unwrap()
        .is_some());
}

#[test]
fn open_plans_outlive_what_is_done_to_other_memory() {
    let mut ledger = ledger();
    let page = |at: u64| GuestRange::new(0x8000_0000 + at * HOST_ALIGNMENT, HOST_ALIGNMENT).unwrap();
    let first = ledger
        .prepare_release(page(0), HOST_ALIGNMENT)
        .unwrap()
        .unwrap();
    ledger.commit_release(first).unwrap();
    let restore = match ledger.prepare_access(page(0)).unwrap() {
        AccessPlan::Leased(_) => panic!("released RAM was leased"),
        AccessPlan::Restore(restore) => restore,
    };
    let second = ledger
        .prepare_release(page(1), HOST_ALIGNMENT)
        .unwrap()
        .unwrap();
    let given_up = ledger
        .prepare_release(page(2), HOST_ALIGNMENT)
        .unwrap()
        .unwrap();
    ledger
        .register_region(ram(0xa000_0000, 0x2_0000_0000, HOST_ALIGNMENT))
        .unwrap();
    let lease = match ledger.prepare_access(page(3)).unwrap() {
        AccessPlan::Leased(lease) => lease,
        AccessPlan::Restore(_) => panic!("mapped RAM was to be restored"),
    };
    ledger.abort_release(given_up).unwrap();
    ledger.release_lease(lease).unwrap();
    ledger.commit_release(second).unwrap();
    assert_eq!(ledger.released_extent_count(), 2);
    let generation = restore.generation;
    let restored = ledger.commit_restore(restore).unwrap();
    assert_eq!(ledger.released_extent_count(), 1);
    assert_eq!(ledger.active_lease_count(), 1);
    assert_eq!(ledger.generation_at(0x8000_0000), Ok(Some(generation)));
    assert_eq!(ledger.release_lease(restored), Ok(()));
    assert_eq!(
        ledger.release_lease(restored),
        Err(ReclaimError::UnknownLease)
    );
}

#[test]
fn every_address_is_mapped_or_released() {
    let mut ledger = ledger();
    for at in [1, 4, 5] {
        let page = GuestRange::new(0x8000_0000 + at * HOST_ALIGNMENT, HOST_ALIGNMENT).unwrap();
        let plan = ledger
            .prepare_release(page, HOST_ALIGNMENT)
            .unwrap()
            .unwrap();
        ledger.commit_release(plan).unwrap();
    }
    for at in 0..8 {
        let address = 0x8000_0000 + at * HOST_ALIGNMENT + 7;
        let mapped = ledger.generation_at(address).unwrap();
        let released = ledger.released_generation_at(address).unwrap();
        assert_ne!(mapped.is_some(), released.is_some());
        assert_eq!(released.is_some(), [1, 4, 5].contains(&at));
        assert!(mapped.or(released).unwrap() <= ledger.current_generation());
    }
}

#[test]
fn runs_are_the_largest_stretches_with_one_generation() {
    let mut ledger = ledger();
    assert_eq!(ledger.mapping_run_count(), 1);
    ledger
        .register_region(ram(0x8002_0000, 0x2_0000_0000, HOST_ALIGNMENT))
        .unwrap();
    assert_eq!(ledger.mapping_run_count(), 1);
    ledger
        .register_region(ram(0xa000_0000, 0x3_0000_0000, HOST_ALIGNMENT))
        .unwrap();
    assert_eq!(ledger.mapping_run_count(), 2);
    let middle = GuestRange::new(0x8000_8000, 2 * HOST_ALIGNMENT).unwrap();
    let halves = [
        GuestRange::new(0x8000_8000, HOST_ALIGNMENT).unwrap(),
        GuestRange::new(0x8000_c000, HOST_ALIGNMENT).unwrap(),
    ];
    for half in halves {
        let plan = ledger
            .prepare_release(half, HOST_ALIGNMENT)
            .unwrap()
            .unwrap();
        ledger.commit_release(plan).unwrap();
    }
    assert_eq!(ledger.mapping_run_count(), 3);
    let restore = match ledger.prepare_access(middle).unwrap() {
        AccessPlan::Leased(_) => panic!("released RAM was leased"),
        AccessPlan::Restore(restore) => restore,
    };
    assert_eq!(restore.ranges().len(), 2);
    ledger.commit_restore(restore.clone()).unwrap();
    assert_eq!(ledger.mapping_run_count(), 4);
    let bytes = 10 * HOST_ALIGNMENT;
    assert!(ledger.mapping_run_count() as u64 <= bytes / ledger.granule());
}
