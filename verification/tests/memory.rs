use std::cell::Cell;
use std::rc::Rc;

use vm_memory::{Bytes, GuestAddress, GuestMemoryBackend, GuestMemoryMmap};
use vmm_core::guest_memory::{
    GuestRange, HostMemoryAccess, HostMemoryAccessError, HostMemoryLease, ReclaimError,
};
use vmm_core::memory::{lease_range, AccessWalk, GuestMemoryError, RuntimeGuestMemory};

struct CountingAccess {
    active: Rc<Cell<usize>>,
    peak: Rc<Cell<usize>>,
    limit: usize,
}

struct Counted(Rc<Cell<usize>>);

impl Drop for Counted {
    fn drop(&mut self) {
        self.0.set(self.0.get() - 1);
    }
}

#[derive(Clone)]
struct CountingLease(#[allow(dead_code)] Rc<Counted>);

impl HostMemoryLease for CountingLease {}

impl HostMemoryAccess for CountingAccess {
    type Lease = CountingLease;

    fn access(&self, _range: GuestRange) -> Result<CountingLease, HostMemoryAccessError> {
        let active = self.active.get() + 1;
        if active > self.limit {
            return Err(HostMemoryAccessError::new(
                "lease capacity exhausted".to_string(),
            ));
        }
        self.active.set(active);
        self.peak.set(self.peak.get().max(active));
        Ok(CountingLease(Rc::new(Counted(self.active.clone()))))
    }

    fn allows_external_mapping(&self) -> bool {
        false
    }
}

type Memory = RuntimeGuestMemory<CountingAccess>;

fn backing() -> GuestMemoryMmap {
    GuestMemoryMmap::from_ranges(&[(GuestAddress(0), 0x10_000)]).unwrap()
}

fn memory(limit: usize) -> (Memory, Rc<Cell<usize>>, Rc<Cell<usize>>) {
    let active = Rc::new(Cell::new(0));
    let peak = Rc::new(Cell::new(0));
    let access = CountingAccess {
        active: active.clone(),
        peak: peak.clone(),
        limit,
    };
    (RuntimeGuestMemory::new(backing(), access), active, peak)
}

#[test]
fn raw_and_volatile_views_retain_leases_until_last_guard_drops() {
    let (memory, active, _) = memory(4);
    let raw = memory.get_host_address(0x1000, 8).unwrap();
    assert_eq!(active.get(), 1);

    let volatile = memory.get_slice(0x2000, 8).unwrap();
    let clone = volatile.offset(0).unwrap();
    let subslice = clone.offset(4).unwrap();
    subslice.slice().write_slice(&[1, 2, 3, 4], 0).unwrap();
    assert_eq!(active.get(), 2);
    drop(volatile);
    assert_eq!(active.get(), 2);
    drop(clone);
    assert_eq!(active.get(), 2);
    drop(subslice);
    let kept = raw.lease();
    drop(raw);
    assert_eq!(active.get(), 1);
    drop(kept);
    assert_eq!(active.get(), 0);
    let mut bytes = [0; 8];
    memory.read_slice(&mut bytes, 0x2000).unwrap();
    assert_eq!(bytes, [0, 0, 0, 0, 1, 2, 3, 4]);
}

#[test]
fn zero_length_operations_preserve_memory_behavior_without_leases() {
    let (memory, active, _) = memory(0);
    let address = 0x1000;

    memory.read_slice(&mut [], address).unwrap();
    memory.write_slice(&[], address).unwrap();
    assert!(memory.get_slice(address, 0).unwrap().is_empty());
    let raw = memory.get_host_address(address, 0).unwrap();
    assert_eq!(
        raw.as_ptr(),
        memory.memory.get_host_address(GuestAddress(address)).unwrap() as u64
    );
    let mut called = false;
    assert_eq!(
        memory
            .try_access(0, address, |_, _, _, _| {
                called = true;
                Ok(0)
            })
            .unwrap(),
        0
    );
    assert!(!called);
    assert_eq!(active.get(), 0);
}

#[test]
fn synchronous_access_releases_before_return_and_capacity_is_bounded() {
    let (memory, active, peak) = memory(1);
    memory.write_slice(&[1, 2, 3], 0x1000).unwrap();
    assert_eq!(active.get(), 0);

    let first = memory.get_slice(0x1000, 8).unwrap();
    assert!(matches!(
        memory.get_slice(0x2000, 8),
        Err(GuestMemoryError::Access(_))
    ));
    drop(first);
    assert!(memory.get_slice(0x2000, 8).is_ok());
    assert_eq!(peak.get(), 1);
}

#[test]
fn raw_address_guard_keeps_guest_memory_backing_alive() {
    let raw = {
        let (memory, _, _) = memory(1);
        memory.write_slice(&[0x5a], 0x1000).unwrap();
        memory.get_host_address(0x1000, 1).unwrap()
    };

    let mut bytes = [0];
    raw.memory
        .read_slice(&mut bytes, GuestAddress(0x1000))
        .unwrap();
    assert_eq!(bytes, [0x5a]);
    let mapped = raw.memory.get_host_address(GuestAddress(0x1000)).unwrap();
    assert_eq!(raw.as_ptr(), mapped as u64);
}

#[test]
fn slices_lose_their_first_bytes() {
    let (memory, _, _) = memory(1);
    let slice = memory.get_slice(0x1000, 8).unwrap();
    assert_eq!(slice.len(), 8);
    let rest = slice.offset(5).unwrap();
    assert_eq!(rest.len(), 3);
    assert!(rest.lease().is_some());
    assert!(slice.offset(8).unwrap().is_empty());
    assert!(matches!(
        slice.offset(9),
        Err(GuestMemoryError::OutOfSlice(9))
    ));
    assert!(matches!(
        memory.get_slice(0xffff, 2),
        Err(GuestMemoryError::Access(_))
    ));
}

#[test]
fn callbacks_are_handed_the_pieces_of_a_range() {
    let ranges = [
        (GuestAddress(0x1000), 0x1000),
        (GuestAddress(0x2000), 0x1000),
    ];
    let memory: Memory =
        RuntimeGuestMemory::passthrough(GuestMemoryMmap::from_ranges(&ranges).unwrap());
    let mut pieces = Vec::new();
    let done = memory.try_access(0x1000, 0x1800, |completed, len, offset, slice| {
        assert_eq!(slice.len(), len);
        pieces.push((completed, len, offset));
        Ok(len)
    });
    assert_eq!(done.unwrap(), 0x1000);
    assert_eq!(pieces, vec![(0, 0x800, 0x800), (0x800, 0x800, 0)]);

    // Part of a piece is handled, and then nothing.
    let mut answers = vec![0, 0x100];
    let done = memory.try_access(0x1000, 0x1800, |_, _, _, _| Ok(answers.pop().unwrap()));
    assert_eq!(done.unwrap(), 0x100);

    assert!(matches!(
        memory.try_access(0x1000, 0x1800, |_, len, _, _| Ok(len + 1)),
        Err(GuestMemoryError::CallbackExceeded)
    ));
    assert!(matches!(
        memory.try_access(0x1000, 0x2800, |_, len, _, _| Ok(len)),
        Err(GuestMemoryError::InvalidGuestAddress(0x3000))
    ));
    assert!(matches!(
        memory.try_access(8, 0x1000, |_, _, _, _| Err(GuestMemoryError::ExportRefused)),
        Err(GuestMemoryError::ExportRefused)
    ));
}

#[test]
fn raw_addresses_validate_the_full_range_in_guarded_and_passthrough_modes() {
    let (guarded, _, _) = memory(4);
    let passthrough: Memory = RuntimeGuestMemory::passthrough(backing());

    for memory in [&guarded, &passthrough] {
        assert!(memory.get_host_address(0xffff, 1).is_ok());
        assert!(memory.get_host_address(0xffff, 2).is_err());
        assert!(memory.get_host_address(u64::MAX, 2).is_err());
    }
    assert!(matches!(
        guarded.get_host_address(u64::MAX, 2),
        Err(GuestMemoryError::InvalidRange(
            ReclaimError::AddressOverflow
        ))
    ));
}

#[test]
fn written_bytes_are_read_back() {
    let (memory, _, _) = memory(1);
    memory.write_slice(&[1, 2, 3], 0x1000).unwrap();
    let mut bytes = [0; 4];
    memory.read_slice(&mut bytes, 0x0fff).unwrap();
    assert_eq!(bytes, [0, 1, 2, 3]);
    assert!(matches!(
        memory.read_slice(&mut bytes, 0xfffe),
        Err(GuestMemoryError::NotMapped(0xfffe))
    ));
    assert!(matches!(
        memory.write_slice(&bytes, 0x10_000),
        Err(GuestMemoryError::NotMapped(0x10_000))
    ));
}

#[test]
fn without_a_lease_nothing_is_read_or_written() {
    let (refusing, _, _) = memory(0);
    let mut bytes = [9; 4];
    assert!(matches!(
        refusing.read_slice(&mut bytes, 0x1000),
        Err(GuestMemoryError::Access(_))
    ));
    assert_eq!(bytes, [9; 4]);
    assert!(refusing.write_slice(&[1, 2], 0x1000).is_err());
    let mut found = [9; 2];
    refusing
        .memory
        .read_slice(&mut found, GuestAddress(0x1000))
        .unwrap();
    assert_eq!(found, [0; 2]);
}

#[test]
fn memory_under_lease_is_not_exported() {
    let (guarded, _, _) = memory(1);
    assert!(!guarded.allows_external_mapping());
    assert!(matches!(
        guarded.with_external_mapping(),
        Err(GuestMemoryError::ExportRefused)
    ));
    assert!(matches!(
        guarded.external_host_address(0),
        Err(GuestMemoryError::ExportRefused)
    ));
    let plain: Memory = RuntimeGuestMemory::passthrough(backing());
    assert!(plain.allows_external_mapping());
    assert!(plain.with_external_mapping().is_ok());
    assert!(matches!(
        plain.external_host_address(0x10_000),
        Err(GuestMemoryError::InvalidGuestAddress(0x10_000))
    ));
}

#[test]
fn addresses_are_found_in_their_regions() {
    let ranges = [
        (GuestAddress(0x1000), 0x1000),
        (GuestAddress(0x4000), 0x1000),
    ];
    let memory: Memory =
        RuntimeGuestMemory::passthrough(GuestMemoryMmap::from_ranges(&ranges).unwrap());
    assert!(memory.address_in_range(0x1fff));
    assert!(!memory.address_in_range(0x2000));
    assert_eq!(memory.checked_offset(0x1800, 0x7ff), Some(0x1fff));
    assert_eq!(memory.checked_offset(0x1800, 0x800), None);
    assert_eq!(memory.checked_offset(u64::MAX, 1), None);
    assert!(memory.get_host_address(0x1ff0, 0x20).is_err());
    let mut walk = AccessWalk::new(0x2000, 0x1800);
    let piece = memory.next_piece(&walk).unwrap().unwrap();
    assert_eq!((piece.address, piece.len), (0x1800, 0x800));
    assert_eq!(piece.region_offset, 0x800);
    assert!(walk.advance(piece, 0x800).unwrap());
    assert!(matches!(
        memory.next_piece(&walk),
        Err(GuestMemoryError::InvalidGuestAddress(0x2000))
    ));
    assert!(matches!(
        walk.advance(piece, 0x801),
        Err(GuestMemoryError::CallbackExceeded)
    ));
    assert!(!walk.advance(piece, 0).unwrap());
}

#[test]
fn adjacent_regions_are_walked_piece_by_piece() {
    let ranges = [
        (GuestAddress(0x1000), 0x1000),
        (GuestAddress(0x2000), 0x1000),
    ];
    let memory: Memory =
        RuntimeGuestMemory::passthrough(GuestMemoryMmap::from_ranges(&ranges).unwrap());
    let mut walk = AccessWalk::new(0x1000, 0x1800);
    let mut pieces = Vec::new();
    while let Some(piece) = memory.next_piece(&walk).unwrap() {
        pieces.push((piece.address, piece.len));
        assert!(walk.advance(piece, piece.len).unwrap());
    }
    assert_eq!(pieces, vec![(0x1800, 0x800), (0x2000, 0x800)]);
    memory.write_slice(&[7; 0x1000], 0x1800).unwrap();
    let mut bytes = [0; 0x1000];
    memory.read_slice(&mut bytes, 0x1800).unwrap();
    assert_eq!(bytes, [7; 0x1000]);
}

#[test]
fn empty_accesses_are_not_leased() {
    assert_eq!(lease_range(true, 0x1000, 0), Ok(None));
    assert_eq!(lease_range(false, 0x1000, 8), Ok(None));
    assert_eq!(
        lease_range(true, 0x1000, 8),
        Ok(Some(GuestRange::new(0x1000, 8).unwrap()))
    );
    assert_eq!(
        lease_range(true, u64::MAX, 8),
        Err(ReclaimError::AddressOverflow)
    );
}

#[test]
fn access_errors_are_compared_by_their_message() {
    let refused = HostMemoryAccessError::new("refused".to_string());
    assert_eq!(refused, HostMemoryAccessError::new("refused".to_string()));
    assert_ne!(refused, HostMemoryAccessError::new("lost".to_string()));
}
