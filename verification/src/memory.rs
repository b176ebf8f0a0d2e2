//! Guest memory as devices see it: every access happens under a lease on its range.
use crate::guest_memory::{
    GuestRange, HostMemoryAccess, HostMemoryAccessError, ReclaimError,
};
use vhost::VhostUserMemoryRegionInfo;
use vm_memory::{
    Bytes, GuestAddress, GuestMemoryBackend, GuestMemoryMmap, GuestMemoryRegion, VolatileSlice,
};
use vstd::prelude::*;

verus! {

/// `vm_memory::GuestRegionCollection`: the mapped regions of a guest's memory.
#[verifier::external_type_specification]
#[verifier::external_body]
#[verifier::reject_recursive_types(R)]
pub struct ExGuestRegionCollection<R>(vm_memory::GuestRegionCollection<R>);

/// `vm_memory::GuestRegionMmap`: one mapped region.
#[verifier::external_type_specification]
#[verifier::external_body]
#[verifier::reject_recursive_types(B)]
pub struct ExGuestRegionMmap<B>(vm_memory::GuestRegionMmap<B>);

/// `vm_memory::VolatileSlice`: a stretch of mapped memory that others may change.
#[verifier::external_type_specification]
#[verifier::external_body]
#[verifier::reject_recursive_types(B)]
pub struct ExVolatileSlice<'a, B>(vm_memory::VolatileSlice<'a, B>);

/// The addresses of the host that a slice holds, one for each of its bytes.
pub uninterp spec fn addresses_of(slice: VolatileSlice<'_>) -> Seq<u64>;

/// The regions of a guest's memory, each by its first address and its length.
pub uninterp spec fn regions_of(memory: GuestMemoryMmap) -> Seq<(u64, u64)>;

/// Where in the host each address of a guest's memory is mapped.
pub uninterp spec fn hosts_of(memory: GuestMemoryMmap) -> Map<u64, u64>;

/// The file that backs each region of a guest's memory, if one does: how far into the file the
/// region starts, and the file's descriptor.
pub uninterp spec fn files_of(memory: GuestMemoryMmap) -> Seq<Option<(u64, i32)>>;

/// Every region holds at least one byte.
pub open spec fn no_empty_region(regions: Seq<(u64, u64)>) -> bool {
    forall|i: int| 0 <= i < regions.len() ==> (#[trigger] regions[i]).1 > 0
}

/// The region holds the address.
pub open spec fn region_has(region: (u64, u64), address: int) -> bool {
    region.0 <= address < region.0 + region.1
}

/// Some region holds the address.
pub open spec fn backed(regions: Seq<(u64, u64)>, address: int) -> bool {
    exists|i: int| 0 <= i < regions.len() && region_has(#[trigger] regions[i], address)
}

/// `region` is the one that holds the address, if there is one. It ends within the address
/// space.
pub open spec fn found_region(
    regions: Seq<(u64, u64)>,
    address: u64,
    region: Option<(u64, u64)>,
) -> bool {
    match region {
        Some(found) => regions.contains(found) && region_has(found, address as int) && found.0
            + found.1 <= u64::MAX,
        None => !backed(regions, address as int),
    }
}

/// The address `offset` bytes behind `base`, if some region holds it.
pub open spec fn offset_spec(regions: Seq<(u64, u64)>, base: u64, offset: usize) -> Option<u64> {
    if base + offset <= u64::MAX && backed(regions, base + offset) {
        Some((base + offset) as u64)
    } else {
        None
    }
}

/// `vm_memory::GuestMemoryBackend::iter` on a `GuestMemoryMmap`, with the `start_addr` and `len`
/// of each region: the regions, in their order.
#[verifier::external_body]
fn list_regions(memory: &GuestMemoryMmap) -> (list: Vec<(u64, u64)>)
    ensures
        list@ == regions_of(*memory),
{
    memory.iter().map(|region| (region.start_addr().0, region.len())).collect()
}

/// `vm_memory::GuestMemoryBackend::find_region` on a `GuestMemoryMmap`: the region that
/// holds an address, by its first address and length. A region never runs past the last
/// address. The search is not made for empty regions.
#[verifier::external_body]
fn find_region(memory: &GuestMemoryMmap, address: u64) -> (region: Option<(u64, u64)>)
    requires
        no_empty_region(regions_of(*memory)),
    ensures
        found_region(regions_of(*memory), address, region),
{
    memory.find_region(GuestAddress(address)).map(|region| (region.start_addr().0, region.len()))
}

/// `vm_memory::GuestMemoryBackend::checked_offset` on a `GuestMemoryMmap`: the address
/// plus the offset, if that is an address of the guest's memory.
#[verifier::external_body]
fn offset_in_memory(memory: &GuestMemoryMmap, base: u64, offset: usize) -> (address: Option<u64>)
    requires
        no_empty_region(regions_of(*memory)),
    ensures
        address == offset_spec(regions_of(*memory), base, offset),
{
    memory.checked_offset(GuestAddress(base), offset).map(|address| address.0)
}

/// `vm_memory::GuestMemoryBackend::address_in_range` on a `GuestMemoryMmap`: whether an
/// address belongs to the guest's memory.
#[verifier::external_body]
fn address_in_memory(memory: &GuestMemoryMmap, address: u64) -> (present: bool)
    requires
        no_empty_region(regions_of(*memory)),
    ensures
        present == backed(regions_of(*memory), address as int),
{
    memory.address_in_range(GuestAddress(address))
}

/// `vm_memory::GuestMemoryBackend::get_host_address` on a `GuestMemoryMmap`: where an address
/// of the guest's memory is mapped. It is found for the addresses of the guest's memory and
/// for no other.
#[verifier::external_body]
fn host_address(memory: &GuestMemoryMmap, address: u64) -> (host: Option<u64>)
    requires
        no_empty_region(regions_of(*memory)),
    ensures
        host == if backed(regions_of(*memory), address as int) {
            Some(hosts_of(*memory)[address])
        } else {
            None
        },
{
    memory.get_host_address(GuestAddress(address)).ok().map(|host| host as u64)
}

/// Every address of the range belongs to the guest's memory.
pub open spec fn all_backed(regions: Seq<(u64, u64)>, address: u64, len: nat) -> bool {
    forall|at: int| address <= at < address + len ==> backed(regions, at)
}

/// One region holds the whole range.
pub open spec fn in_one_region(regions: Seq<(u64, u64)>, address: u64, len: usize) -> bool {
    exists|i: int|
        0 <= i < regions.len() && region_has(#[trigger] regions[i], address as int) && address + len
            <= regions[i].0 + regions[i].1
}

/// Where the bytes of a range of the guest's memory are mapped, one after the other.
pub open spec fn hosts_in(memory: GuestMemoryMmap, address: u64, len: nat) -> Seq<u64> {
    Seq::new(len, |i: int| hosts_of(memory)[(address + i) as u64])
}

/// `vm_memory::Bytes::read_slice` on a `GuestMemoryMmap`: fills the bytes from the guest's
/// memory. It works where every address belongs to that memory, and nowhere else. What is
/// read is up to the guest and left unsaid.
#[verifier::external_body]
fn read_memory(memory: &GuestMemoryMmap, bytes: Vec<u8>, address: u64) -> (read: (bool, Vec<u8>))
    requires
        no_empty_region(regions_of(*memory)),
    ensures
        read.0 == all_backed(regions_of(*memory), address, bytes@.len()),
        read.1@.len() == bytes@.len(),
{
    let mut bytes = bytes;
    let worked = memory.read_slice(&mut bytes, GuestAddress(address)).is_ok();
    (worked, bytes)
}

/// A read of the guest's memory at an address, into a buffer that held `before`, worked or
/// failed and left `after` in the buffer.
pub closed spec fn memory_read(
    memory: GuestMemoryMmap,
    before: Seq<u8>,
    address: u64,
    worked: bool,
    after: Seq<u8>,
) -> bool {
    exists|into: Vec<u8>, left: Vec<u8>| #[trigger]
        call_ensures(read_memory, (&memory, into, address), (worked, left)) && into@ == before
            && left@ == after
}

/// `vm_memory::Bytes::write_slice` on a `GuestMemoryMmap`: writes the bytes to the guest's
/// memory. It works where every address belongs to that memory, and nowhere else. What the
/// memory holds afterwards is up to the guest, too, and left unsaid.
#[verifier::external_body]
fn write_memory(memory: &GuestMemoryMmap, bytes: &[u8], address: u64) -> (worked: bool)
    requires
        no_empty_region(regions_of(*memory)),
    ensures
        worked == all_backed(regions_of(*memory), address, bytes@.len()),
{
    memory.write_slice(bytes, GuestAddress(address)).is_ok()
}

/// A write of these bytes to the guest's memory at an address worked or failed.
pub closed spec fn memory_written(
    memory: GuestMemoryMmap,
    bytes: Seq<u8>,
    address: u64,
    worked: bool,
) -> bool {
    exists|from: &[u8]| #[trigger]
        call_ensures(write_memory, (&memory, from, address), worked) && from@ == bytes
}

/// `vm_memory::GuestMemoryBackend::get_slice` on a `GuestMemoryMmap`: the mapping of a range of
/// the guest's memory. It is found where one region holds the range.
#[verifier::external_body]
fn slice_of_memory(memory: &GuestMemoryMmap, address: u64, len: usize) -> (slice: Option<
    VolatileSlice<'_>,
>)
    requires
        no_empty_region(regions_of(*memory)),
    ensures
        slice is Some == in_one_region(regions_of(*memory), address, len),
        slice matches Some(slice) ==> addresses_of(slice) == hosts_in(*memory, address, len as nat),
{
    memory.get_slice(GuestAddress(address), len).ok()
}

/// `vm_memory::VolatileSlice::len`: the number of bytes of a slice.
#[verifier::external_body]
fn slice_len(slice: &VolatileSlice<'_>) -> (len: usize)
    ensures
        len == addresses_of(*slice).len(),
{
    slice.len()
}

/// `vm_memory::VolatileSlice::offset`: the slice without its first bytes. There must be as many.
#[verifier::external_body]
fn slice_behind<'a>(slice: &VolatileSlice<'a>, count: usize) -> (rest: Option<VolatileSlice<'a>>)
    ensures
        rest is Some == (count <= addresses_of(*slice).len()),
        rest matches Some(rest) ==> addresses_of(rest) == addresses_of(*slice).skip(count as int),
{
    slice.offset(count).ok()
}

/// `vm_memory::VolatileSlice::ptr_guard_mut` and the `as_ptr` of what it gives: where a slice
/// starts. Nothing is said of an empty slice.
#[verifier::external_body]
fn slice_start(slice: &VolatileSlice<'_>) -> (start: u64)
    ensures
        addresses_of(*slice).len() > 0 ==> start == addresses_of(*slice)[0],
{
    slice.ptr_guard_mut().as_ptr() as u64
}

/// `clone` of a `vm_memory::GuestMemoryMmap`: the same regions at the same places, held once
/// more.
#[verifier::external_body]
fn share_memory(memory: &GuestMemoryMmap) -> (shared: GuestMemoryMmap)
    ensures
        regions_of(shared) == regions_of(*memory),
        hosts_of(shared) == hosts_of(*memory),
{
    memory.clone()
}

/// The regions of a guest's memory that a file backs, in their order: the first address, the
/// length, where the region is mapped, how far into the file it starts, and the file's
/// descriptor. A region without a file stands as nothing.
pub open spec fn backing_spec(
    regions: Seq<(u64, u64)>,
    hosts: Map<u64, u64>,
    files: Seq<Option<(u64, i32)>>,
) -> Seq<Option<(u64, u64, u64, u64, i32)>> {
    Seq::new(
        regions.len(),
        |i: int|
            match files[i] {
                Some((offset, fd)) => Some(
                    (regions[i].0, regions[i].1, hosts[regions[i].0], offset, fd),
                ),
                None => None,
            },
    )
}

/// `vm_memory::GuestMemoryBackend::iter` on a `GuestMemoryMmap`, and
/// `vhost::VhostUserMemoryRegionInfo::from_guest_region` on each region: what a process that maps
/// the region, too, has to know of it. That is found for the regions that a file backs and for no
/// other.
#[verifier::external_body]
pub(crate) fn list_backing(memory: &GuestMemoryMmap) -> (list: Vec<
    Option<(u64, u64, u64, u64, i32)>,
>)
    requires
        no_empty_region(regions_of(*memory)),
    ensures
        list@ == backing_spec(regions_of(*memory), hosts_of(*memory), files_of(*memory)),
{
    let infos = memory.iter().map(|region| VhostUserMemoryRegionInfo::from_guest_region(region));
    infos
        .map(|info| {
            let i = info.ok()?;
            Some((i.guest_phys_addr, i.memory_size, i.userspace_addr, i.mmap_offset, i.mmap_handle))
        })
        .collect()
}

/// Why guest memory was not accessed.
#[derive(Debug)]
pub enum GuestMemoryError {
    /// The address does not exist in the address space.
    InvalidBackendAddress,
    /// No region holds the address.
    InvalidGuestAddress(u64),
    /// The range is not one that can be leased.
    InvalidRange(ReclaimError),
    /// The lease was refused.
    Access(HostMemoryAccessError),
    /// A callback claims to have handled more than it was given.
    CallbackExceeded,
    /// Guest memory that can be reclaimed is not exported for good.
    ExportRefused,
    /// The range is not all guest memory.
    NotMapped(u64),
    /// A slice does not have that many bytes.
    OutOfSlice(usize),
}

/// The range to be leased for an access, if one is to be leased at all.
pub open spec fn lease_range_spec(leasing: bool, address: u64, len: usize) -> Result<
    Option<GuestRange>,
    ReclaimError,
> {
    if len == 0 || !leasing {
        Ok(None)
    } else {
        match GuestRange::new_spec(address, len as u64) {
            Ok(range) => Ok(Some(range)),
            Err(error) => Err(error),
        }
    }
}

/// The range to be leased for an access of `len` bytes: none for an empty access, and none
/// where nobody grants leases.
pub fn lease_range(leasing: bool, address: u64, len: usize) -> (result: Result<
    Option<GuestRange>,
    ReclaimError,
>)
    ensures
        result == lease_range_spec(leasing, address, len),
        result matches Ok(Some(range)) ==> range.valid() && range.start == address && range.size()
            == len,
{
    if len == 0 || !leasing {
        return Ok(None);
    }
    match GuestRange::new(address, len as u64) {
        Ok(range) => Ok(Some(range)),
        Err(error) => Err(error),
    }
}

/// Whether every region of the memory holds at least one byte.
pub fn has_no_empty_region(memory: &GuestMemoryMmap) -> (result: bool)
    ensures
        result == no_empty_region(regions_of(*memory)),
{
    let list = list_regions(memory);
    let mut i: usize = 0;
    while i < list.len()
        invariant
            i <= list.len(),
            list@ == regions_of(*memory),
            forall|k: int| 0 <= k < i ==> (#[trigger] list@[k]).1 > 0,
        decreases list.len() - i,
    {
        if list[i].1 == 0 {
            assert(regions_of(*memory)[i as int].1 == 0);
            return false;
        }
        i = i + 1;
    }
    true
}

/// Guest memory with whoever grants leases on it. The memory has no empty region.
pub struct RuntimeGuestMemory<A> {
    pub memory: GuestMemoryMmap,
    pub access: Option<A>,
}

impl<A: HostMemoryAccess> RuntimeGuestMemory<A> {
    /// The regions of the memory.
    pub open spec fn regions(self) -> Seq<(u64, u64)> {
        regions_of(self.memory)
    }

    /// The memory has no empty region.
    pub open spec fn wf(self) -> bool {
        no_empty_region(self.regions())
    }

    pub fn new(memory: GuestMemoryMmap, access: A) -> (result: RuntimeGuestMemory<A>)
        requires
            no_empty_region(regions_of(memory)),
        ensures
            result.wf(),
            result.memory == memory,
            result.access == Some(access),
    {
        RuntimeGuestMemory { memory, access: Some(access) }
    }

    /// Memory that is accessed without leases.
    pub fn passthrough(memory: GuestMemoryMmap) -> (result: RuntimeGuestMemory<A>)
        requires
            no_empty_region(regions_of(memory)),
        ensures
            result.wf(),
            result.memory == memory,
            result.access is None,
    {
        RuntimeGuestMemory { memory, access: None }
    }

    /// Any memory with a grantor, or nothing where it has an empty region.
    pub fn try_new(memory: GuestMemoryMmap, access: A) -> (result: Option<RuntimeGuestMemory<A>>)
        ensures
            result is Some == no_empty_region(regions_of(memory)),
            result matches Some(runtime) ==> runtime.wf() && runtime.memory == memory
                && runtime.access == Some(access),
    {
        if has_no_empty_region(&memory) {
            Some(RuntimeGuestMemory::new(memory, access))
        } else {
            None
        }
    }

    /// Any memory without a grantor, or nothing where it has an empty region.
    pub fn try_passthrough(memory: GuestMemoryMmap) -> (result: Option<RuntimeGuestMemory<A>>)
        ensures
            result is Some == no_empty_region(regions_of(memory)),
            result matches Some(runtime) ==> runtime.wf() && runtime.memory == memory
                && runtime.access is None,
    {
        if has_no_empty_region(&memory) {
            Some(RuntimeGuestMemory::passthrough(memory))
        } else {
            None
        }
    }

    /// The grantor can answer so when it is asked for a lease.
    pub open spec fn answers(
        self,
        range: GuestRange,
        answer: Result<A::Lease, HostMemoryAccessError>,
    ) -> bool {
        self.access is Some && call_ensures(A::access, (&self.access->0, range), answer)
    }

    /// Leases the range of an access. Where a lease is asked for, what comes back is the
    /// grantor's answer.
    pub fn lease(&self, address: u64, len: usize) -> (result: Result<
        Option<A::Lease>,
        GuestMemoryError,
    >)
        ensures
            match lease_range_spec(self.access is Some, address, len) {
                Ok(None) => result matches Ok(None),
                Err(error) => result matches Err(GuestMemoryError::InvalidRange(e)) && e == error,
                Ok(Some(range)) => exists|answer: Result<A::Lease, HostMemoryAccessError>|
                    #[trigger] self.answers(range, answer) && result == match answer {
                        Ok(lease) => Ok::<Option<A::Lease>, GuestMemoryError>(Some(lease)),
                        Err(error) => Err(GuestMemoryError::Access(error)),
                    },
            },
    {
        match &self.access {
            None => Ok(None),
            Some(access) => match lease_range(true, address, len) {
                Ok(None) => Ok(None),
                Ok(Some(range)) => {
                    let answer = access.access(range);
                    assert(self.answers(range, answer));
                    match answer {
                        Ok(lease) => Ok(Some(lease)),
                        Err(error) => Err(GuestMemoryError::Access(error)),
                    }
                },
                Err(error) => Err(GuestMemoryError::InvalidRange(error)),
            },
        }
    }

    /// The memory may be handed out for good, or may not: always where nobody grants leases,
    /// and else as the grantor can answer.
    pub open spec fn exports(self, allowed: bool) -> bool {
        match self.access {
            None => allowed,
            Some(access) => call_ensures(A::allows_external_mapping, (&access,), allowed),
        }
    }

    /// Whether the memory may be handed out for good: always where nobody grants leases,
    /// and else where the grantor allows it.
    pub fn allows_external_mapping(&self) -> (result: bool)
        ensures
            self.exports(result),
    {
        match &self.access {
            None => true,
            Some(access) => access.allows_external_mapping(),
        }
    }

    /// The memory itself, for a use that outlives any lease.
    pub fn with_external_mapping(&self) -> (result: Result<&GuestMemoryMmap, GuestMemoryError>)
        ensures
            self.exports(result is Ok),
            result matches Ok(memory) ==> *memory == self.memory,
            result matches Err(error) ==> error is ExportRefused,
    {
        if !self.allows_external_mapping() {
            return Err(GuestMemoryError::ExportRefused);
        }
        Ok(&self.memory)
    }

    /// Where an address of the guest is mapped, for a use that outlives any lease.
    pub fn external_host_address(&self, address: u64) -> (result: Result<u64, GuestMemoryError>)
        requires
            self.wf(),
        ensures
            exists|allowed: bool| #[trigger]
                self.exports(allowed) && result == if !allowed {
                    Err::<u64, GuestMemoryError>(GuestMemoryError::ExportRefused)
                } else if backed(self.regions(), address as int) {
                    Ok(hosts_of(self.memory)[address])
                } else {
                    Err(GuestMemoryError::InvalidGuestAddress(address))
                },
    {
        let exported = self.with_external_mapping();
        assert(self.exports(exported is Ok));
        match exported {
            Err(error) => Err(error),
            Ok(memory) => match host_address(memory, address) {
                Some(host) => Ok(host),
                None => Err(GuestMemoryError::InvalidGuestAddress(address)),
            },
        }
    }

    /// The address `offset` bytes behind `base`, if the guest has memory there.
    pub fn checked_offset(&self, base: u64, offset: usize) -> (result: Option<u64>)
        requires
            self.wf(),
        ensures
            result == offset_spec(self.regions(), base, offset),
    {
        offset_in_memory(&self.memory, base, offset)
    }

    pub fn address_in_range(&self, address: u64) -> (result: bool)
        requires
            self.wf(),
        ensures
            result == backed(self.regions(), address as int),
    {
        address_in_memory(&self.memory, address)
    }

    /// Fills a buffer from the guest's memory, under a lease on the range. Without the lease the
    /// buffer stays as it was.
    pub fn read_slice(&self, buffer: &mut [u8], address: u64) -> (result: Result<
        (),
        GuestMemoryError,
    >)
        requires
            self.wf(),
        ensures
            final(buffer)@.len() == old(buffer)@.len(),
            self.granted(
                address,
                old(buffer)@.len() as usize,
                all_backed(self.regions(), address, old(buffer)@.len()),
                result,
            ),
            memory_read(self.memory, old(buffer)@, address, result is Ok, final(buffer)@) || (
            result is Err && final(buffer)@ == old(buffer)@),
    {
        let len: usize = buffer.len();
        match self.lease(address, len) {
            Err(error) => Err(error),
            Ok(_lease) => {
                let (worked, read) = read_memory(
                    &self.memory,
                    vstd::slice::slice_to_vec(buffer),
                    address,
                );
                let mut i: usize = 0;
                while i < len
                    invariant
                        i <= len,
                        len == buffer@.len(),
                        len == read@.len(),
                        buffer@.take(i as int) == read@.take(i as int),
                    decreases len - i,
                {
                    buffer[i] = read[i];
                    i = i + 1;
                    assert(buffer@.take(i as int) =~= read@.take(i as int));
                }
                assert(buffer@.take(len as int) =~= buffer@);
                assert(read@.take(len as int) =~= read@);
                if worked {
                    Ok(())
                } else {
                    Err(GuestMemoryError::NotMapped(address))
                }
            },
        }
    }

    /// Writes bytes to the guest's memory, under a lease on the range.
    pub fn write_slice(&self, bytes: &[u8], address: u64) -> (result: Result<
        (),
        GuestMemoryError,
    >)
        requires
            self.wf(),
        ensures
            self.granted(
                address,
                bytes@.len() as usize,
                all_backed(self.regions(), address, bytes@.len()),
                result,
            ),
            result is Ok ==> memory_written(self.memory, bytes@, address, true),
    {
        let len: usize = bytes.len();
        match self.lease(address, len) {
            Err(error) => Err(error),
            Ok(_lease) => {
                if write_memory(&self.memory, bytes, address) {
                    Ok(())
                } else {
                    Err(GuestMemoryError::NotMapped(address))
                }
            },
        }
    }

    /// What an access of the range comes to: a range that cannot be leased is an error, and so
    /// is a lease that the grantor refuses. Otherwise the access works where the memory is the
    /// guest's, and nowhere else.
    pub open spec fn granted<T>(
        self,
        address: u64,
        len: usize,
        mapped: bool,
        result: Result<T, GuestMemoryError>,
    ) -> bool {
        let accessed = if mapped {
            result is Ok
        } else {
            result == Err::<T, GuestMemoryError>(GuestMemoryError::NotMapped(address))
        };
        match lease_range_spec(self.access is Some, address, len) {
            Err(error) => result matches Err(GuestMemoryError::InvalidRange(e)) && e == error,
            Ok(None) => accessed,
            Ok(Some(range)) => exists|answer: Result<A::Lease, HostMemoryAccessError>|
                #[trigger] self.answers(range, answer) && match answer {
                    Ok(_) => accessed,
                    Err(error) => result == Err::<T, GuestMemoryError>(
                        GuestMemoryError::Access(error),
                    ),
                },
        }
    }

    /// The lease of an access that worked: none where none was asked for, and else the one that
    /// the grantor gave.
    pub open spec fn holds(self, address: u64, len: usize, lease: Option<A::Lease>) -> bool {
        match lease {
            None => lease_range_spec(self.access is Some, address, len) == Ok::<
                Option<GuestRange>,
                ReclaimError,
            >(None),
            Some(lease) => lease_range_spec(self.access is Some, address, len) matches Ok(
                Some(range),
            ) && self.answers(range, Ok(lease)),
        }
    }

    /// What asking for the mapping of a range comes to: where all its bytes are mapped, with the
    /// lease, or an error. The whole range must lie in one region.
    pub open spec fn sliced(
        self,
        address: u64,
        len: usize,
        result: Result<LeasedVolatileSlice<'_, A::Lease>, GuestMemoryError>,
    ) -> bool {
        &&& self.granted(address, len, in_one_region(self.regions(), address, len), result)
        &&& result matches Ok(leased) ==> addresses_of(leased.slice) == hosts_in(
            self.memory,
            address,
            len as nat,
        ) && self.holds(address, len, leased.lease)
    }

    /// The mapping of a range of the guest's memory, with the lease under which it may be used.
    /// The whole range must lie in one region; of an empty range only the address counts.
    pub fn get_slice(&self, address: u64, len: usize) -> (result: Result<
        LeasedVolatileSlice<'_, A::Lease>,
        GuestMemoryError,
    >)
        requires
            self.wf(),
        ensures
            self.sliced(address, len, result),
    {
        match self.lease(address, len) {
            Err(error) => Err(error),
            Ok(lease) => match slice_of_memory(&self.memory, address, len) {
                Some(slice) => Ok(LeasedVolatileSlice { slice, lease }),
                None => Err(GuestMemoryError::NotMapped(address)),
            },
        }
    }

    /// Where a range of the guest's memory is mapped, with the lease under which it may be
    /// used. The whole range must lie in one region; of an empty range only the address counts.
    pub fn get_host_address(&self, address: u64, len: usize) -> (result: Result<
        LeasedHostAddress<A::Lease>,
        GuestMemoryError,
    >)
        requires
            self.wf(),
        ensures
            self.granted(
                address,
                len,
                if len == 0 {
                    backed(self.regions(), address as int)
                } else {
                    in_one_region(self.regions(), address, len)
                },
                result,
            ),
            result matches Ok(leased) ==> {
                &&& leased.pointer == hosts_of(self.memory)[address]
                &&& regions_of(leased.memory) == self.regions()
                &&& hosts_of(leased.memory) == hosts_of(self.memory)
                &&& self.holds(address, len, leased.lease)
            },
    {
        match self.lease(address, len) {
            Err(error) => Err(error),
            Ok(lease) => {
                let pointer: Option<u64> = if len == 0 {
                    host_address(&self.memory, address)
                } else {
                    match slice_of_memory(&self.memory, address, len) {
                        Some(slice) => Some(slice_start(&slice)),
                        None => None,
                    }
                };
                match pointer {
                    Some(pointer) => Ok(
                        LeasedHostAddress { pointer, lease, memory: share_memory(&self.memory) },
                    ),
                    None => Err(GuestMemoryError::NotMapped(address)),
                }
            },
        }
    }

    /// What comes next in an access: nothing where all of it is done, an error where the guest
    /// has no memory, and else a piece: as much as one region holds.
    pub open spec fn next_is(
        self,
        walk: AccessWalk,
        result: Result<Option<AccessPiece>, GuestMemoryError>,
    ) -> bool {
        let current = walk.address + walk.completed;
        if walk.completed == walk.count {
            result == Ok::<Option<AccessPiece>, GuestMemoryError>(None)
        } else if current > u64::MAX {
            result == Err::<Option<AccessPiece>, _>(GuestMemoryError::InvalidBackendAddress)
        } else {
            &&& result is Ok == backed(self.regions(), current)
            &&& match result {
                Ok(Some(piece)) => exists|region: (u64, u64)|
                    #[trigger] region_has(region, current) && piece_of(walk, region, piece)
                        && self.regions().contains(region),
                Ok(None) => false,
                Err(error) => error == GuestMemoryError::InvalidGuestAddress(current as u64),
            }
        }
    }

    /// The next piece of an access that `walk` stands for, if anything is left of it.
    pub fn next_piece(&self, walk: &AccessWalk) -> (result: Result<
        Option<AccessPiece>,
        GuestMemoryError,
    >)
        requires
            self.wf(),
            walk.wf(),
        ensures
            self.next_is(*walk, result),
    {
        if walk.completed >= walk.count {
            return Ok(None);
        }
        let current: u64 = match walk.address.checked_add(walk.completed as u64) {
            Some(current) => current,
            None => return Err(GuestMemoryError::InvalidBackendAddress),
        };
        match find_region(&self.memory, current) {
            None => Err(GuestMemoryError::InvalidGuestAddress(current)),
            Some((start, len)) => {
                match walk.piece_in(current, start, len) {
                    Some(piece) => {
                        assert(region_has((start, len), current as int));
                        Ok(Some(piece))
                    },
                    None => Err(GuestMemoryError::InvalidGuestAddress(current)),
                }
            },
        }
    }

    /// One step of an access: a piece is found, its mapping is asked for, and where that is given
    /// the callback is handed how much is done, the length of the piece, how far into its region
    /// it starts and the mapping, and can answer so.
    pub open spec fn stepped<F>(
        self,
        callback: F,
        walk: AccessWalk,
        piece: AccessPiece,
        slice: Result<LeasedVolatileSlice<'_, A::Lease>, GuestMemoryError>,
        answer: Result<usize, GuestMemoryError>,
    ) -> bool where
        F: for <'a>FnMut(usize, usize, usize, VolatileSlice<'a>) -> Result<usize, GuestMemoryError>,
     {
        &&& self.next_is(walk, Ok(Some(piece)))
        &&& self.sliced(piece.address, piece.len, slice)
        &&& slice matches Ok(leased) ==> callback.ensures(
            (piece.completed, piece.len, piece.region_offset as usize, leased.slice),
            answer,
        )
    }

    /// What the rest of an access can come to. It is made piece by piece, until all is done, the
    /// callback handles nothing, or something fails.
    pub open spec fn accessed<F>(
        self,
        callback: F,
        walk: AccessWalk,
        result: Result<usize, GuestMemoryError>,
    ) -> bool where
        F: for <'a>FnMut(usize, usize, usize, VolatileSlice<'a>) -> Result<usize, GuestMemoryError>,

        decreases walk.count - walk.completed,
    {
        if walk.completed >= walk.count {
            result == Ok::<usize, GuestMemoryError>(walk.completed)
        } else {
            ||| result matches Err(error) && self.next_is(walk, Err(error))
            ||| exists|
                piece: AccessPiece,
                slice: Result<LeasedVolatileSlice<'_, A::Lease>, GuestMemoryError>,
                answer: Result<usize, GuestMemoryError>,
            |
                #[trigger] self.stepped(callback, walk, piece, slice, answer) && match slice {
                    Err(error) => result == Err::<usize, _>(error),
                    Ok(_) => match answer {
                        Err(error) => result == Err::<usize, _>(error),
                        Ok(done) => if done == 0 {
                            result == Ok::<usize, GuestMemoryError>(walk.completed)
                        } else if done > piece.len {
                            result == Err::<usize, _>(GuestMemoryError::CallbackExceeded)
                        } else {
                            self.accessed(callback, walk.after(done), result)
                        },
                    },
                }
        }
    }

    /// Hands a range to a callback, region by region, each piece under a lease of its own. The
    /// callback says how much of a piece it has handled; nothing ends the access. The result is
    /// how much was handled in all.
    pub fn try_access<F>(&self, count: usize, address: u64, callback: F) -> (result: Result<
        usize,
        GuestMemoryError,
    >) where
        F: for <'a>FnMut(usize, usize, usize, VolatileSlice<'a>) -> Result<usize, GuestMemoryError>,

        requires
            self.wf(),
            forall|completed: usize, len: usize, offset: usize, slice: VolatileSlice<'_>|
                callback.requires((completed, len, offset, slice)),
        ensures
            self.accessed(callback, AccessWalk { address, count, completed: 0 }, result),
            result matches Ok(done) ==> done <= count,
    {
        let mut walk = AccessWalk::new(count, address);
        let ghost begun = walk;
        let mut handler = callback;
        while walk.completed < walk.count
            invariant
                self.wf(),
                walk.wf(),
                walk.count == count,
                begun == (AccessWalk { address, count, completed: 0 }),
                handler == callback,
                forall|completed: usize, len: usize, offset: usize, slice: VolatileSlice<'_>|
                    callback.requires((completed, len, offset, slice)),
                forall|result: Result<usize, GuestMemoryError>| #[trigger]
                    self.accessed(callback, walk, result) ==> self.accessed(
                        callback,
                        begun,
                        result,
                    ),
            decreases walk.count - walk.completed,
        {
            let ghost before = walk;
            let piece = match self.next_piece(&walk) {
                Ok(Some(piece)) => piece,
                Ok(None) => return Ok(walk.completed),
                Err(error) => {
                    assert(self.accessed(callback, before, Err(error)));
                    return Err(error);
                },
            };
            let slice = self.get_slice(piece.address, piece.len);
            let leased = match slice {
                Ok(leased) => leased,
                Err(error) => {
                    assert(self.stepped(callback, before, piece, Err(error), Ok(0)));
                    assert(self.accessed(callback, before, Err(error)));
                    return Err(error);
                },
            };
            let answer = handler(
                piece.completed,
                piece.len,
                piece.region_offset as usize,
                leased.slice,
            );
            assert(self.stepped(callback, before, piece, Ok(leased), answer));
            let done: usize = match answer {
                Ok(done) => done,
                Err(error) => {
                    assert(self.accessed(callback, before, Err(error)));
                    return Err(error);
                },
            };
            match walk.advance(piece, done) {
                Err(error) => {
                    assert(self.accessed(callback, before, Err(error)));
                    return Err(error);
                },
                Ok(false) => {
                    assert(self.accessed(callback, before, Ok(before.completed)));
                    return Ok(walk.completed);
                },
                Ok(true) => {
                    assert(walk == before.after(done));
                    assert forall|result: Result<usize, GuestMemoryError>| #[trigger]
                        self.accessed(callback, walk, result) implies self.accessed(
                        callback,
                        begun,
                        result,
                    ) by {
                        assert(self.stepped(callback, before, piece, Ok(leased), Ok(done)));
                        assert(self.accessed(callback, before, result));
                    }
                },
            }
        }
        assert(self.accessed(callback, walk, Ok(walk.completed)));
        Ok(walk.completed)
    }
}

/// One lease is a clone of the other, or there is none.
pub open spec fn same_lease<L: Clone>(held: Option<L>, given: Option<L>) -> bool {
    match held {
        None => given is None,
        Some(held) => given matches Some(given) && cloned(held, given),
    }
}

/// Another hold on a lease.
fn clone_lease<L: Clone>(held: &Option<L>) -> (given: Option<L>)
    ensures
        same_lease(*held, given),
{
    match held {
        None => None,
        Some(lease) => Some(lease.clone()),
    }
}

/// A stretch of mapped guest memory, with the lease under which it may be used.
pub struct LeasedVolatileSlice<'a, L> {
    pub slice: VolatileSlice<'a>,
    pub lease: Option<L>,
}

impl<'a, L> LeasedVolatileSlice<'a, L> {
    /// The mapping, for no longer than the lease is held here.
    pub fn slice(&self) -> (slice: VolatileSlice<'_>)
        ensures
            slice == self.slice,
    {
        self.slice
    }

    pub fn len(&self) -> (len: usize)
        ensures
            len == addresses_of(self.slice).len(),
    {
        slice_len(&self.slice)
    }

    pub fn is_empty(&self) -> (result: bool)
        ensures
            result == (addresses_of(self.slice).len() == 0),
    {
        slice_len(&self.slice) == 0
    }
}

impl<'a, L: Clone> LeasedVolatileSlice<'a, L> {
    /// The mapping without its first bytes. It holds the lease, too.
    pub fn offset(&self, count: usize) -> (result: Result<
        LeasedVolatileSlice<'a, L>,
        GuestMemoryError,
    >)
        ensures
            match result {
                Ok(rest) => {
                    &&& count <= addresses_of(self.slice).len()
                    &&& addresses_of(rest.slice) == addresses_of(self.slice).skip(count as int)
                    &&& same_lease(self.lease, rest.lease)
                },
                Err(error) => count > addresses_of(self.slice).len() && error
                    == GuestMemoryError::OutOfSlice(count),
            },
    {
        match slice_behind(&self.slice, count) {
            Some(slice) => Ok(LeasedVolatileSlice { slice, lease: clone_lease(&self.lease) }),
            None => Err(GuestMemoryError::OutOfSlice(count)),
        }
    }

    /// Another hold on the lease.
    pub fn lease(&self) -> (lease: Option<L>)
        ensures
            same_lease(self.lease, lease),
    {
        clone_lease(&self.lease)
    }
}

/// An address of the host at which guest memory is mapped, with the lease under which it may
/// be used. The mapping lives as long as this.
pub struct LeasedHostAddress<L> {
    pub pointer: u64,
    pub lease: Option<L>,
    pub memory: GuestMemoryMmap,
}

impl<L> LeasedHostAddress<L> {
    /// The address. It must not be used once this and all other holds on its lease are gone.
    pub fn as_ptr(&self) -> (pointer: u64)
        ensures
            pointer == self.pointer,
    {
        self.pointer
    }
}

impl<L: Clone> LeasedHostAddress<L> {
    /// Another hold on the lease.
    pub fn lease(&self) -> (lease: Option<L>)
        ensures
            same_lease(self.lease, lease),
    {
        clone_lease(&self.lease)
    }
}

/// One piece of an access: where it lies, how much is done before it, its length, and how
/// far into its region it starts.
#[derive(Clone, Copy, Debug, PartialEq, Eq, Structural)]
pub struct AccessPiece {
    pub address: u64,
    pub completed: usize,
    pub len: usize,
    pub region_offset: u64,
}

/// `piece` is what is left of the access as far as `region` reaches.
pub open spec fn piece_of(walk: AccessWalk, region: (u64, u64), piece: AccessPiece) -> bool {
    let current = walk.address + walk.completed;
    let left = walk.count - walk.completed;
    let room = region.0 + region.1 - current;
    &&& piece.address == current
    &&& piece.completed == walk.completed
    &&& piece.region_offset == current - region.0
    &&& piece.len == if left < room {
        left
    } else {
        room
    }
}

/// An access that is made piece by piece.
#[derive(Clone, Copy, Debug, PartialEq, Eq, Structural)]
pub struct AccessWalk {
    pub address: u64,
    pub count: usize,
    pub completed: usize,
}

impl AccessWalk {
    pub open spec fn wf(self) -> bool {
        self.completed <= self.count
    }

    /// The walk after so much of a piece was handled.
    pub open spec fn after(self, done: usize) -> AccessWalk {
        AccessWalk { completed: (self.completed + done) as usize, ..self }
    }

    pub fn new(count: usize, address: u64) -> (result: AccessWalk)
        ensures
            result == (AccessWalk { address, count, completed: 0 }),
            result.wf(),
    {
        AccessWalk { address, count, completed: 0 }
    }

    /// The piece of the access that lies in the region from `start` on; nothing where the
    /// region does not hold the current address.
    pub fn piece_in(&self, current: u64, start: u64, len: u64) -> (result: Option<AccessPiece>)
        requires
            self.wf(),
            self.completed < self.count,
            current == self.address + self.completed,
        ensures
            result is Some <==> region_has((start, len), current as int),
            result matches Some(piece) ==> piece_of(*self, (start, len), piece),
    {
        if current < start {
            return None;
        }
        let region_offset: u64 = current - start;
        if region_offset >= len {
            return None;
        }
        let room: u64 = len - region_offset;
        let left: usize = self.count - self.completed;
        let piece: usize = if (left as u64) < room {
            left
        } else {
            room as usize
        };
        Some(
            AccessPiece { address: current, completed: self.completed, len: piece, region_offset },
        )
    }

    /// Takes note that `done` bytes of a piece were handled, and says whether to go on.
    /// Nothing handled ends the access.
    pub fn advance(&mut self, piece: AccessPiece, done: usize) -> (result: Result<
        bool,
        GuestMemoryError,
    >)
        requires
            old(self).wf(),
            piece.len <= old(self).count - old(self).completed,
        ensures
            final(self).wf(),
            final(self).address == old(self).address,
            final(self).count == old(self).count,
            done == 0 ==> result == Ok::<bool, GuestMemoryError>(false) && final(self).completed
                == old(self).completed,
            done > piece.len ==> (result matches Err(GuestMemoryError::CallbackExceeded))
                && final(self).completed == old(self).completed,
            0 < done <= piece.len ==> result == Ok::<bool, GuestMemoryError>(true) && final(
                self).completed == old(self).completed + done,
    {
        if done == 0 {
            return Ok(false);
        }
        if done > piece.len {
            return Err(GuestMemoryError::CallbackExceeded);
        }
        self.completed = self.completed + done;
        Ok(true)
    }
}

/// A piece never leaves its region and never exceeds what is left of the access, so an
/// access never handles more bytes than were asked for.
pub proof fn law_pieces_stay_in_bounds(walk: AccessWalk, region: (u64, u64), piece: AccessPiece)
    requires
        walk.wf(),
        walk.completed < walk.count,
        region_has(region, walk.address + walk.completed),
        piece_of(walk, region, piece),
    ensures
        piece.len > 0,
        walk.completed + piece.len <= walk.count,
        forall|a: int| piece.address <= a < piece.address + piece.len ==> region_has(region, a),
{
}

/// However the callback answers, an access claims no more than was asked for, and never less than
/// what was done before.
pub proof fn law_accesses_stay_in_bounds<A: HostMemoryAccess, F>(
    memory: RuntimeGuestMemory<A>,
    callback: F,
    walk: AccessWalk,
    done: usize,
) where
    F: for <'a>FnMut(usize, usize, usize, VolatileSlice<'a>) -> Result<usize, GuestMemoryError>,

    requires
        walk.wf(),
        memory.accessed(callback, walk, Ok(done)),
    ensures
        walk.completed <= done <= walk.count,
    decreases walk.count - walk.completed,
{
    if walk.completed < walk.count {
        let (piece, slice, answer) = choose|
            piece: AccessPiece,
            slice: Result<LeasedVolatileSlice<'_, A::Lease>, GuestMemoryError>,
            answer: Result<usize, GuestMemoryError>,
        |
            #[trigger] memory.stepped(callback, walk, piece, slice, answer) && match slice {
                Err(error) => false,
                Ok(_) => match answer {
                    Err(error) => false,
                    Ok(handled) => if handled == 0 {
                        done == walk.completed
                    } else {
                        handled <= piece.len && memory.accessed(
                            callback,
                            walk.after(handled),
                            Ok(done),
                        )
                    },
                },
            };
        if answer->Ok_0 > 0 {
            law_accesses_stay_in_bounds(memory, callback, walk.after(answer->Ok_0), done);
        }
    }
}

} // verus!
