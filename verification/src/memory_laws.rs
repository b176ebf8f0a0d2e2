//! What accesses of guest memory can rely on, address by address.
use crate::guest_memory::{GuestRange, HostMemoryAccess, RamPermissions, RamRegion, ReclaimError};
use crate::memory::{
    all_backed, backed, backing_spec, in_one_region, lease_range_spec, offset_spec, piece_of,
    region_has, AccessPiece, AccessWalk, GuestMemoryError, RuntimeGuestMemory,
};
use vstd::prelude::*;

verus! {

/// A range that is made of a start and a length holds exactly the addresses from the start on, as
/// many as its length. Only an empty one and one past the last address cannot be made.
pub proof fn law_ranges_hold_what_they_are_made_of(start: u64, len: u64, a: int)
    ensures
        match GuestRange::new_spec(start, len) {
            Ok(range) => {
                &&& range.start <= a < range.end <==> start <= a < start + len
                &&& range.end - range.start == len
                &&& range.start < range.end
            },
            Err(ReclaimError::EmptyRange) => len == 0,
            Err(ReclaimError::AddressOverflow) => len > 0 && start + len > u64::MAX,
            Err(_) => false,
        },
{
}

/// Two ranges overlap exactly if an address lies in both; one holds the other exactly if both of
/// its ends do.
pub proof fn law_overlap_is_a_shared_address(first: GuestRange, second: GuestRange, a: int)
    requires
        first.start < first.end,
        second.start < second.end,
    ensures
        first.start <= a < first.end && second.start <= a < second.end ==> first.meets(second),
        first.meets(second) ==> {
            let least = if first.start < second.start {
                second.start
            } else {
                first.start
            };
            first.start <= least < first.end && second.start <= least < second.end
        },
        first.covers(second) <==> first.start <= second.start && second.end <= first.end,
        first.has(a) <==> first.start <= a < first.end,
        first.size() == first.end - first.start,
        first.meets(second) == second.meets(first),
{
}

/// A region of RAM is the guest's range together with as much of the host's memory. It cannot be
/// made without a permission, with an unknown one, empty, or past the last address of either.
pub proof fn law_regions_hold_what_they_are_made_of(
    guest_start: u64,
    host_start: u64,
    len: u64,
    permissions: RamPermissions,
    offset: int,
)
    ensures
        match RamRegion::new_spec(guest_start, host_start, len, permissions) {
            Ok(region) => {
                &&& region.range.guest.start == guest_start
                &&& region.range.guest.end == guest_start + len
                &&& region.range.host_start == host_start
                &&& region.range.permissions == permissions
                &&& 0 < len && host_start + len <= u64::MAX && 1 <= permissions.0 <= 7
                &&& region.range.host_of(guest_start + offset) == host_start + offset
            },
            Err(ReclaimError::InvalidPermissions) => permissions.0 == 0 || permissions.0 > 7,
            Err(ReclaimError::EmptyRange) => len == 0,
            Err(ReclaimError::AddressOverflow) => guest_start + len > u64::MAX || host_start + len
                > u64::MAX,
            Err(_) => false,
        },
{
}

/// The lease of an access is on exactly the bytes that are accessed. There is none only for an
/// access of nothing, or where nobody grants leases.
pub proof fn law_accesses_lease_their_bytes(leasing: bool, address: u64, len: usize, a: int)
    ensures
        match lease_range_spec(leasing, address, len) {
            Ok(Some(range)) => {
                &&& leasing && len > 0
                &&& range.start <= a < range.end <==> address <= a < address + len
            },
            Ok(None) => !leasing || len == 0,
            Err(error) => leasing && len > 0 && address + len > u64::MAX && error
                == ReclaimError::AddressOverflow,
        },
{
}

/// An access that works is of the guest's memory, and where leases are granted it is under one on
/// exactly its bytes.
pub proof fn law_working_accesses_are_leased<A: HostMemoryAccess, T>(
    memory: RuntimeGuestMemory<A>,
    address: u64,
    len: usize,
    mapped: bool,
    result: Result<T, GuestMemoryError>,
)
    requires
        memory.granted(address, len, mapped, result),
        result is Ok,
    ensures
        mapped,
        memory.access is Some && len > 0 ==> address + len <= u64::MAX && exists|lease: A::Lease|
            memory.answers(
                GuestRange { start: address, end: (address + len) as u64 },
                #[trigger] given(lease),
            ),
{
    if memory.access is Some && len > 0 {
        let range = GuestRange { start: address, end: (address + len) as u64 };
        assert(lease_range_spec(true, address, len) == Ok::<Option<GuestRange>, ReclaimError>(
            Some(range),
        ));
        let answer = choose|answer: Result<A::Lease, crate::guest_memory::HostMemoryAccessError>|
            #[trigger] memory.answers(range, answer) && match answer {
                Ok(_) => mapped,
                Err(_) => false,
            };
        assert(given(answer->Ok_0) == answer);
    }
}

/// The grantor's answer that gives this lease.
pub open spec fn given<L>(lease: L) -> Result<L, crate::guest_memory::HostMemoryAccessError> {
    Ok(lease)
}

/// An offset leads to the address that many bytes on, if that is the guest's memory, and nowhere
/// else.
pub proof fn law_offsets_stay_in_memory(regions: Seq<(u64, u64)>, base: u64, offset: usize)
    ensures
        match offset_spec(regions, base, offset) {
            Some(address) => address == base + offset && exists|i: int|
                0 <= i < regions.len() && (#[trigger] regions[i]).0 <= base + offset
                    < regions[i].0 + regions[i].1,
            None => base + offset > u64::MAX || forall|i: int|
                0 <= i < regions.len() ==> !((#[trigger] regions[i]).0 <= base + offset
                    < regions[i].0 + regions[i].1),
        },
{
    if offset_spec(regions, base, offset) is Some {
        let i = choose|i: int|
            0 <= i < regions.len() && region_has(#[trigger] regions[i], base + offset);
        assert(regions[i].0 <= base + offset);
    } else if base + offset <= u64::MAX {
        assert forall|i: int| 0 <= i < regions.len() implies !((#[trigger] regions[i]).0 <= base
            + offset < regions[i].0 + regions[i].1) by {
            if regions[i].0 <= base + offset < regions[i].0 + regions[i].1 {
                assert(region_has(regions[i], base + offset));
            }
        }
    }
}

/// The pieces of an access follow one another without a gap: a piece starts where the last one
/// ended, is as long as its region and the access allow, and says how far into both it is.
pub proof fn law_pieces_leave_no_gap(
    walk: AccessWalk,
    region: (u64, u64),
    piece: AccessPiece,
    done: usize,
)
    requires
        walk.completed < walk.count,
        region.0 <= walk.address + walk.completed < region.0 + region.1,
        piece_of(walk, region, piece),
        done <= piece.len,
    ensures
        piece.address == walk.address + walk.completed,
        piece.completed == walk.completed,
        region.0 + piece.region_offset == piece.address,
        piece.address + piece.len <= region.0 + region.1,
        walk.completed + piece.len <= walk.count,
        piece.address + piece.len == region.0 + region.1 || walk.completed + piece.len
            == walk.count,
        walk.after(done).completed == walk.completed + done,
        walk.after(done).address == walk.address,
        walk.after(done).count == walk.count,
{
}

/// A range of one region lies in the guest's memory, every byte of it.
pub proof fn law_sliced_ranges_are_memory(
    regions: Seq<(u64, u64)>,
    address: u64,
    len: usize,
    a: int,
)
    requires
        in_one_region(regions, address, len),
        address <= a < address + len,
    ensures
        backed(regions, a),
        exists|i: int|
            0 <= i < regions.len() && (#[trigger] regions[i]).0 <= address && address + len
                <= regions[i].0 + regions[i].1,
{
    let i = choose|i: int|
        0 <= i < regions.len() && region_has(#[trigger] regions[i], address as int) && address
            + len <= regions[i].0 + regions[i].1;
    assert(region_has(regions[i], a));
    assert(regions[i].0 <= address);
}

/// What another process is told of a region is the region's own address and length, where the
/// host has it, and where in which file it starts; nothing is told of a region without a file.
pub proof fn law_backed_regions_are_told_as_they_are(
    regions: Seq<(u64, u64)>,
    hosts: Map<u64, u64>,
    files: Seq<Option<(u64, i32)>>,
    i: int,
)
    requires
        0 <= i < regions.len(),
    ensures
        backing_spec(regions, hosts, files).len() == regions.len(),
        match (files[i], backing_spec(regions, hosts, files)[i]) {
            (Some((offset, fd)), Some((start, len, host, at, file))) => start == regions[i].0 && len
                == regions[i].1 && host == hosts[regions[i].0] && at == offset && file == fd,
            (None, None) => true,
            _ => false,
        },
{
}

/// A range is memory exactly if each of its bytes is. Where it is not, there is a byte of it that
/// is none.
pub proof fn law_ranges_are_memory_byte_by_byte(
    regions: Seq<(u64, u64)>,
    address: u64,
    len: nat,
    which: int,
) -> (missing: int)
    requires
        0 <= which < len,
    ensures
        all_backed(regions, address, len) ==> backed(regions, address + which),
        !all_backed(regions, address, len) ==> 0 <= missing < len && !backed(
            regions,
            address + missing,
        ),
        all_backed(regions, address, 0),
{
    if all_backed(regions, address, len) {
        assert(backed(regions, address + which));
        0
    } else {
        let at = choose|at: int| address <= at < address + len && !backed(regions, at);
        assert(address + (at - address) == at);
        at - address
    }
}

/// A range lies in one region wherever a region starts no later and ends no earlier.
pub proof fn law_whole_ranges_of_a_region_are_found(
    regions: Seq<(u64, u64)>,
    address: u64,
    len: usize,
    which: int,
)
    requires
        0 <= which < regions.len(),
        regions[which].0 <= address < regions[which].0 + regions[which].1,
        address + len <= regions[which].0 + regions[which].1,
    ensures
        in_one_region(regions, address, len),
{
    assert(region_has(regions[which], address as int));
}

/// Without leases an access works exactly where the memory is the guest's; otherwise the address
/// is told.
pub proof fn law_unleased_accesses_work_on_memory<A: HostMemoryAccess, T>(
    memory: RuntimeGuestMemory<A>,
    address: u64,
    len: usize,
    mapped: bool,
    result: Result<T, GuestMemoryError>,
)
    requires
        memory.access is None,
        memory.granted(address, len, mapped, result),
    ensures
        mapped <==> result is Ok,
        !mapped ==> result == Err::<T, _>(GuestMemoryError::NotMapped(address)),
{
}

/// An access comes to the next piece exactly where something is left of it and there is memory;
/// nothing follows when all is done, and the address that is no memory is told.
pub proof fn law_accesses_go_on_while_there_is_memory<A: HostMemoryAccess>(
    memory: RuntimeGuestMemory<A>,
    walk: AccessWalk,
    result: Result<Option<AccessPiece>, GuestMemoryError>,
)
    requires
        memory.next_is(walk, result),
    ensures
        ({
            let current = walk.address + walk.completed;
            &&& result == Ok::<_, GuestMemoryError>(None::<AccessPiece>) <==> walk.completed
                == walk.count
            &&& walk.completed != walk.count && current <= u64::MAX && backed(
                memory.regions(),
                current,
            ) ==> result is Ok
            &&& result matches Ok(Some(piece)) ==> backed(memory.regions(), current)
                && piece.address == current && piece.completed == walk.completed
            &&& walk.completed != walk.count && current <= u64::MAX && !backed(
                memory.regions(),
                current,
            ) ==> result == Err::<Option<AccessPiece>, _>(
                GuestMemoryError::InvalidGuestAddress(current as u64),
            )
            &&& walk.completed != walk.count && current > u64::MAX ==> result == Err::<
                Option<AccessPiece>,
                _,
            >(GuestMemoryError::InvalidBackendAddress)
        }),
{
}

} // verus!
