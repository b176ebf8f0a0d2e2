//! A device whose queues are served by another process over the vhost-user protocol.
use crate::balloon::ActivateError;
use crate::events::EventSet;
use crate::guest_memory::HostMemoryAccess;
use crate::memory::{backed, backing_spec, files_of, hosts_of, list_backing, RuntimeGuestMemory};
use crate::vhost_gpu::DisplaySize;
use vhost::vhost_user::message::{FrontendReq, VhostUserMMapFlags};
use vhost::vhost_user::VhostUserProtocolFeatures;
use vstd::prelude::*;

verus! {

/// The feature bit by which a backend offers extensions of the protocol. It is none of the
/// guest's features.
pub const PROTOCOL_FEATURES_BIT: u64 = 0x4000_0000;

/// The extensions that are taken where a backend offers them: device configuration, several
/// queues, requests from the backend, and shared memory.
pub const WANTED_PROTOCOL_FEATURES: u64 = 0x40_0221;

/// The extension by which the backend sends requests.
pub const BACKEND_REQUESTS: u64 = 0x20;

pub const VIRTIO_ID_GPU: u32 = 16;

pub const VIRTIO_ID_MEDIA: u32 = 48;

/// The size of a queue where none is asked for.
pub const DEFAULT_QUEUE_SIZE: u16 = 256;

pub const DEFAULT_DISPLAY_WIDTH: u32 = 1024;

pub const DEFAULT_DISPLAY_HEIGHT: u32 = 768;

/// `vhost::vhost_user::VhostUserProtocolFeatures::CONFIG`: the bit of the extension for
/// device configuration.
#[verifier::external_body]
fn config_bit() -> (bit: u64)
    ensures
        bit == 0x200,
{
    VhostUserProtocolFeatures::CONFIG.bits()
}

/// `vhost::vhost_user::VhostUserProtocolFeatures::MQ`: the bit of the extension for several
/// queues.
#[verifier::external_body]
fn multiple_queues_bit() -> (bit: u64)
    ensures
        bit == 1,
{
    VhostUserProtocolFeatures::MQ.bits()
}

/// `vhost::vhost_user::VhostUserProtocolFeatures::BACKEND_REQ`: the bit of the extension for
/// requests from the backend.
#[verifier::external_body]
fn backend_requests_bit() -> (bit: u64)
    ensures
        bit == 0x20,
{
    VhostUserProtocolFeatures::BACKEND_REQ.bits()
}

/// `vhost::vhost_user::VhostUserProtocolFeatures::SHMEM`: the bit of the extension for shared
/// memory.
#[verifier::external_body]
fn shared_memory_bit() -> (bit: u64)
    ensures
        bit == 0x40_0000,
{
    VhostUserProtocolFeatures::SHMEM.bits()
}

/// `vhost::vhost_user::message::VhostUserMMapFlags::from_bits` and its `contains`: whether the
/// flags of a mapping ask for a writable one. Flags with an unknown bit count as none.
#[verifier::external_body]
fn asks_writable(flags: u64) -> (writable: bool)
    ensures
        writable == (flags == 1),
{
    VhostUserMMapFlags::from_bits(flags).unwrap_or_default().contains(VhostUserMMapFlags::WRITABLE)
}

/// `vhost::vhost_user::message::FrontendReq::GPU_SET_SOCKET`: the number of the message that
/// hands the backend its end of the GPU's socket.
#[verifier::external_body]
fn gpu_set_socket_number() -> (number: u32)
    ensures
        number == 33,
{
    FrontendReq::GPU_SET_SOCKET as u32
}

/// The version of the protocol, as messages carry it.
pub const PROTOCOL_VERSION: u32 = 1;

/// The words of the message that hands the backend its end of the GPU's socket. It has no
/// payload.
pub fn gpu_socket_header() -> (words: Vec<u32>)
    ensures
        words@ == seq![33u32, PROTOCOL_VERSION, 0],
{
    let words = vec![gpu_set_socket_number(), PROTOCOL_VERSION, 0];
    assert(words@ =~= seq![33u32, PROTOCOL_VERSION, 0]);
    words
}

/// The extensions to be used with a backend that offers `offered`.
pub fn negotiate_protocol(offered: u64) -> (negotiated: u64)
    ensures
        negotiated == offered & WANTED_PROTOCOL_FEATURES,
{
    let config: u64 = config_bit();
    let queues: u64 = multiple_queues_bit();
    let requests: u64 = backend_requests_bit();
    let shared: u64 = shared_memory_bit();
    let mut negotiated: u64 = 0;
    if offered & config == config {
        negotiated = negotiated | config;
    }
    if offered & queues == queues {
        negotiated = negotiated | queues;
    }
    if offered & requests == requests {
        negotiated = negotiated | requests;
    }
    if offered & shared == shared {
        negotiated = negotiated | shared;
    }
    proof {
        let a = if offered & 0x200 == 0x200 {
            0x200u64
        } else {
            0
        };
        let b = if offered & 1 == 1 {
            1u64
        } else {
            0
        };
        let c = if offered & 0x20 == 0x20 {
            0x20u64
        } else {
            0
        };
        let d = if offered & 0x40_0000 == 0x40_0000 {
            0x40_0000u64
        } else {
            0
        };
        assert(((((0 | a) | b) | c) | d) == offered & 0x40_0221) by (bit_vector)
            requires
                a == if offered & 0x200 == 0x200 {
                    0x200u64
                } else {
                    0
                },
                b == if offered & 1 == 1 {
                    1u64
                } else {
                    0
                },
                c == if offered & 0x20 == 0x20 {
                    0x20u64
                } else {
                    0
                },
                d == if offered & 0x40_0000 == 0x40_0000 {
                    0x40_0000u64
                } else {
                    0
                },
        ;
        assert(forall|x: u64| #[trigger] (x | 0) == x) by (bit_vector);
    }
    negotiated
}

/// Memory of the device that the guest sees.
#[derive(Clone, Copy, Debug, PartialEq, Eq, Structural)]
pub struct VirtioShmRegion {
    pub host_addr: u64,
    pub guest_addr: u64,
    pub size: u64,
}

impl VirtioShmRegion {
    /// The region ends within the host's address space.
    pub open spec fn valid(self) -> bool {
        self.host_addr + self.size <= u64::MAX
    }
}

/// What a backend asks to be mapped.
#[derive(Clone, Copy, Debug, PartialEq, Eq, Structural)]
pub struct MapRequest {
    pub shm_offset: u64,
    pub len: u64,
    pub fd_offset: u64,
    pub flags: u64,
}

/// Why memory was not mapped.
#[derive(Clone, Copy, Debug, PartialEq, Eq, Structural)]
pub enum ShmemError {
    /// The device has no memory of its own.
    NotSupported,
    /// The range does not lie in the device's memory.
    Invalid,
}

/// A mapping to be made, at an address that is already in use by the device.
#[derive(Clone, Copy, Debug, PartialEq, Eq, Structural)]
pub struct ShmMapping {
    pub address: u64,
    pub len: u64,
    pub fd_offset: u64,
    pub writable: bool,
}

/// Where a range of the device's memory lies in the host.
pub open spec fn shmem_address(region: Option<VirtioShmRegion>, offset: u64, len: u64) -> Result<
    u64,
    ShmemError,
> {
    match region {
        None => Err(ShmemError::NotSupported),
        Some(region) => if offset + len > region.size {
            Err(ShmemError::Invalid)
        } else {
            Ok((region.host_addr + offset) as u64)
        },
    }
}

/// Answers what a backend asks of the device's memory.
#[derive(Clone, Copy, Debug, PartialEq, Eq, Structural)]
pub struct BackendRequests {
    pub shm_region: Option<VirtioShmRegion>,
}

impl BackendRequests {
    pub open spec fn wf(self) -> bool {
        self.shm_region matches Some(region) ==> region.valid()
    }

    fn locate(&self, offset: u64, len: u64) -> (result: Result<u64, ShmemError>)
        requires
            self.wf(),
        ensures
            result == shmem_address(self.shm_region, offset, len),
    {
        match self.shm_region {
            None => Err(ShmemError::NotSupported),
            Some(region) => match offset.checked_add(len) {
                None => Err(ShmemError::Invalid),
                Some(end) => if end > region.size {
                    Err(ShmemError::Invalid)
                } else {
                    Ok(region.host_addr + offset)
                },
            },
        }
    }

    /// The mapping that replaces a range of the device's memory by a part of a file.
    pub fn shmem_map(&self, request: MapRequest) -> (result: Result<ShmMapping, ShmemError>)
        requires
            self.wf(),
        ensures
            result == match shmem_address(self.shm_region, request.shm_offset, request.len) {
                Ok(address) => Ok::<ShmMapping, ShmemError>(
                    ShmMapping {
                        address,
                        len: request.len,
                        fd_offset: request.fd_offset,
                        writable: request.flags == 1,
                    },
                ),
                Err(error) => Err(error),
            },
    {
        match self.locate(request.shm_offset, request.len) {
            Ok(address) => Ok(
                ShmMapping {
                    address,
                    len: request.len,
                    fd_offset: request.fd_offset,
                    writable: asks_writable(request.flags),
                },
            ),
            Err(error) => Err(error),
        }
    }

    /// The range of the host's memory that is made inaccessible again.
    pub fn shmem_unmap(&self, request: MapRequest) -> (result: Result<(u64, u64), ShmemError>)
        requires
            self.wf(),
        ensures
            result == match shmem_address(self.shm_region, request.shm_offset, request.len) {
                Ok(address) => Ok::<(u64, u64), ShmemError>((address, request.len)),
                Err(error) => Err(error),
            },
    {
        match self.locate(request.shm_offset, request.len) {
            Ok(address) => Ok((address, request.len)),
            Err(error) => Err(error),
        }
    }
}

/// What a backend has mapped never leaves the device's memory.
pub proof fn law_mappings_stay_in_the_region(
    region: VirtioShmRegion,
    offset: u64,
    len: u64,
    address: u64,
)
    requires
        region.valid(),
        shmem_address(Some(region), offset, len) == Ok::<u64, ShmemError>(address),
    ensures
        region.host_addr <= address,
        address + len <= region.host_addr + region.size,
{
}

/// A question to the backend before the device exists.
#[derive(Clone, Copy, Debug, PartialEq, Eq, Structural)]
pub enum NegotiationCall {
    GetFeatures,
    GetProtocolFeatures,
    SetProtocolFeatures(u64),
    GetQueueNum,
}

/// What was agreed with the backend.
#[derive(Clone, Copy, Debug, PartialEq, Eq, Structural)]
pub struct Negotiated {
    pub avail_features: u64,
    pub has_protocol_features: bool,
    pub protocol_features: u64,
    pub num_queues: u64,
}

/// What is next in a negotiation.
#[derive(Clone, Copy, Debug, PartialEq, Eq, Structural)]
pub enum NegotiationStep {
    Call(NegotiationCall),
    Done(Negotiated),
    /// The number of queues is neither given nor to be had from the backend.
    QueueCountNeeded,
}

/// A negotiation with a backend. A call that fails ends it.
#[derive(Clone, Copy, Debug, PartialEq, Eq, Structural)]
pub struct Negotiation {
    /// The number of queues that was asked for. Zero leaves it to the backend.
    pub num_queues: u16,
    pub features: Option<u64>,
    pub offered: Option<u64>,
    pub protocol_set: bool,
    pub backend_queues: Option<u64>,
}

impl Negotiation {
    /// The backend offers extensions of the protocol.
    pub open spec fn extended(self) -> bool {
        self.features matches Some(features) && features & PROTOCOL_FEATURES_BIT != 0
    }

    /// What is next.
    pub open spec fn next_spec(self) -> NegotiationStep {
        if self.features is None {
            NegotiationStep::Call(NegotiationCall::GetFeatures)
        } else if self.extended() && self.offered is None {
            NegotiationStep::Call(NegotiationCall::GetProtocolFeatures)
        } else if self.extended() && !self.protocol_set {
            NegotiationStep::Call(
                NegotiationCall::SetProtocolFeatures(self.offered->0 & WANTED_PROTOCOL_FEATURES),
            )
        } else if self.num_queues == 0 && !self.extended() {
            NegotiationStep::QueueCountNeeded
        } else if self.num_queues == 0 && self.backend_queues is None {
            NegotiationStep::Call(NegotiationCall::GetQueueNum)
        } else {
            NegotiationStep::Done(
                Negotiated {
                    avail_features: self.features->0 & !PROTOCOL_FEATURES_BIT,
                    has_protocol_features: self.extended(),
                    protocol_features: if self.extended() {
                        self.offered->0 & WANTED_PROTOCOL_FEATURES
                    } else {
                        0
                    },
                    num_queues: if self.num_queues == 0 {
                        self.backend_queues->0
                    } else {
                        self.num_queues as u64
                    },
                },
            )
        }
    }

    /// The negotiation after the backend's answer to what was next.
    pub open spec fn accept_spec(self, value: u64) -> Negotiation {
        match self.next_spec() {
            NegotiationStep::Call(NegotiationCall::GetFeatures) => Negotiation {
                features: Some(value),
                ..self
            },
            NegotiationStep::Call(NegotiationCall::GetProtocolFeatures) => Negotiation {
                offered: Some(value),
                ..self
            },
            NegotiationStep::Call(NegotiationCall::SetProtocolFeatures(_)) => Negotiation {
                protocol_set: true,
                ..self
            },
            NegotiationStep::Call(NegotiationCall::GetQueueNum) => Negotiation {
                backend_queues: Some(value),
                ..self
            },
            _ => self,
        }
    }

    pub fn new(num_queues: u16) -> (result: Negotiation)
        ensures
            result == (Negotiation {
                num_queues,
                features: None,
                offered: None,
                protocol_set: false,
                backend_queues: None,
            }),
            result.next_spec() == NegotiationStep::Call(NegotiationCall::GetFeatures),
    {
        Negotiation {
            num_queues,
            features: None,
            offered: None,
            protocol_set: false,
            backend_queues: None,
        }
    }

    pub fn next(&self) -> (step: NegotiationStep)
        ensures
            step == self.next_spec(),
    {
        let features: u64 = match self.features {
            Some(features) => features,
            None => return NegotiationStep::Call(NegotiationCall::GetFeatures),
        };
        let extended = features & PROTOCOL_FEATURES_BIT != 0;
        let mut protocol_features: u64 = 0;
        if extended {
            let offered: u64 = match self.offered {
                Some(offered) => offered,
                None => return NegotiationStep::Call(NegotiationCall::GetProtocolFeatures),
            };
            protocol_features = negotiate_protocol(offered);
            if !self.protocol_set {
                return NegotiationStep::Call(
                    NegotiationCall::SetProtocolFeatures(protocol_features),
                );
            }
        }
        let num_queues: u64 = if self.num_queues != 0 {
            self.num_queues as u64
        } else if !extended {
            return NegotiationStep::QueueCountNeeded;
        } else {
            match self.backend_queues {
                Some(count) => count,
                None => return NegotiationStep::Call(NegotiationCall::GetQueueNum),
            }
        };
        NegotiationStep::Done(
            Negotiated {
                avail_features: features & !PROTOCOL_FEATURES_BIT,
                has_protocol_features: extended,
                protocol_features,
                num_queues,
            },
        )
    }

    /// Takes the backend's answer to what was next. The answer to a call that only sets
    /// something is not looked at.
    pub fn accept(&mut self, value: u64)
        ensures
            *final(self) == old(self).accept_spec(value),
    {
        match self.next() {
            NegotiationStep::Call(call) => match call {
                NegotiationCall::GetFeatures => {
                    self.features = Some(value);
                },
                NegotiationCall::GetProtocolFeatures => {
                    self.offered = Some(value);
                },
                NegotiationCall::SetProtocolFeatures(_) => {
                    self.protocol_set = true;
                },
                NegotiationCall::GetQueueNum => {
                    self.backend_queues = Some(value);
                },
            },
            _ => {},
        }
    }
}

/// A negotiation ends after at most four answers, and the guest is never offered the bit of
/// the protocol's extensions.
pub proof fn law_negotiation_ends(num_queues: u16, a: u64, b: u64, c: u64, d: u64)
    ensures
        ({
            let start = Negotiation {
                num_queues,
                features: None,
                offered: None,
                protocol_set: false,
                backend_queues: None,
            };
            let end = start.accept_spec(a).accept_spec(b).accept_spec(c).accept_spec(d);
            &&& end.next_spec() !is Call
            &&& end.next_spec() matches NegotiationStep::Done(agreed)
                ==> agreed.avail_features & PROTOCOL_FEATURES_BIT == 0
            &&& end.next_spec() is QueueCountNeeded <==> num_queues == 0 && a
                & PROTOCOL_FEATURES_BIT == 0
        }),
{
    assert((a & !0x4000_0000u64) & 0x4000_0000u64 == 0) by (bit_vector);
}

/// The size of a queue: what was asked for, else the last size that was asked for, else the
/// default.
pub open spec fn queue_size(sizes: Seq<u16>, index: int) -> u16 {
    if index < sizes.len() {
        sizes[index]
    } else if sizes.len() > 0 {
        sizes.last()
    } else {
        DEFAULT_QUEUE_SIZE
    }
}

/// The sizes of the device's queues.
pub fn queue_sizes(count: usize, sizes: &Vec<u16>) -> (result: Vec<u16>)
    ensures
        result@ == Seq::new(count as nat, |i: int| queue_size(sizes@, i)),
{
    let default_size: u16 = if sizes.len() == 0 {
        DEFAULT_QUEUE_SIZE
    } else {
        sizes[sizes.len() - 1]
    };
    let mut result: Vec<u16> = Vec::new();
    while result.len() < count
        invariant
            result@.len() <= count,
            default_size == if sizes@.len() > 0 {
                sizes@.last()
            } else {
                DEFAULT_QUEUE_SIZE
            },
            forall|i: int|
                0 <= i < result@.len() ==> #[trigger] result@[i] == queue_size(sizes@, i),
        decreases count - result@.len(),
    {
        let index: usize = result.len();
        if index < sizes.len() {
            result.push(sizes[index]);
        } else {
            result.push(default_size);
        }
    }
    assert(result@ =~= Seq::new(count as nat, |i: int| queue_size(sizes@, i)));
    result
}

/// A region of guest memory that the backend maps too.
#[derive(Clone, Copy, Debug, PartialEq, Eq, Structural)]
pub struct SharedRegion {
    pub guest_phys_addr: u64,
    pub memory_size: u64,
    pub userspace_addr: u64,
    pub mmap_offset: u64,
    pub mmap_handle: i32,
}

/// A ring of a queue: its address in the guest, and where that is mapped, if it is.
#[derive(Clone, Copy, Debug, PartialEq, Eq, Structural)]
pub struct RingAddress {
    pub guest: u64,
    pub host: Option<u64>,
}

/// A queue as it is handed to the backend.
#[derive(Clone, Copy, Debug, PartialEq, Eq, Structural)]
pub struct BackendQueue {
    pub size: u16,
    pub max_size: u16,
    pub desc_table: RingAddress,
    pub avail_ring: RingAddress,
    pub used_ring: RingAddress,
}

/// The regions of the table that a file backs, in their order.
pub open spec fn table_spec(backing: Seq<Option<(u64, u64, u64, u64, i32)>>) -> Seq<SharedRegion>
    decreases backing.len(),
{
    if backing.len() == 0 {
        Seq::empty()
    } else {
        let rest = table_spec(backing.drop_last());
        match backing.last() {
            Some((guest_phys_addr, memory_size, userspace_addr, mmap_offset, mmap_handle)) =>
                rest.push(
                SharedRegion {
                    guest_phys_addr,
                    memory_size,
                    userspace_addr,
                    mmap_offset,
                    mmap_handle,
                },
            ),
            None => rest,
        }
    }
}

/// The regions of the guest's memory that the backend maps too: those that are backed by a file.
/// Memory that cannot be exported is refused.
pub fn mem_table<A: HostMemoryAccess>(memory: &RuntimeGuestMemory<A>) -> (result: Result<
    Vec<SharedRegion>,
    VhostUserError,
>)
    requires
        memory.wf(),
    ensures
        memory.exports(result is Ok),
        match result {
            Ok(table) => table@ == table_spec(
                backing_spec(memory.regions(), hosts_of(memory.memory), files_of(memory.memory)),
            ),
            Err(error) => error == VhostUserError::ReclaimableMemory,
        },
{
    let exported = match memory.with_external_mapping() {
        Ok(exported) => exported,
        Err(_) => return Err(VhostUserError::ReclaimableMemory),
    };
    let backing = list_backing(exported);
    let mut table: Vec<SharedRegion> = Vec::new();
    let mut index: usize = 0;
    while index < backing.len()
        invariant
            index <= backing.len(),
            table@ == table_spec(backing@.take(index as int)),
        decreases backing.len() - index,
    {
        assert(backing@.take(index + 1).drop_last() =~= backing@.take(index as int));
        if let Some((guest_phys_addr, memory_size, userspace_addr, mmap_offset, mmap_handle)) =
            backing[index] {
            table.push(
                SharedRegion {
                    guest_phys_addr,
                    memory_size,
                    userspace_addr,
                    mmap_offset,
                    mmap_handle,
                },
            );
        }
        index += 1;
    }
    assert(backing@.take(index as int) =~= backing@);
    Ok(table)
}

/// The ring is at the address, and where that is mapped is known where the memory may be
/// handed out and has the address.
pub open spec fn ring_located<A: HostMemoryAccess>(
    memory: RuntimeGuestMemory<A>,
    address: u64,
    ring: RingAddress,
) -> bool {
    exists|allowed: bool| #[trigger]
        memory.exports(allowed) && ring == (RingAddress {
            guest: address,
            host: if allowed && backed(memory.regions(), address as int) {
                Some(hosts_of(memory.memory)[address])
            } else {
                None
            },
        })
}

fn locate_ring<A: HostMemoryAccess>(memory: &RuntimeGuestMemory<A>, address: u64) -> (ring:
    RingAddress)
    requires
        memory.wf(),
    ensures
        ring_located(*memory, address, ring),
{
    let located = memory.external_host_address(address);
    RingAddress { guest: address, host: located.ok() }
}

/// A queue as the guest has set it up.
#[derive(Clone, Copy, Debug, PartialEq, Eq, Structural)]
pub struct GuestQueue {
    pub size: u16,
    pub max_size: u16,
    pub desc_table: u64,
    pub avail_ring: u64,
    pub used_ring: u64,
}

/// The queue is handed to the backend as the guest has set it up, and its rings are found where
/// they can be.
pub open spec fn queue_located<A: HostMemoryAccess>(
    memory: RuntimeGuestMemory<A>,
    guest: GuestQueue,
    queue: BackendQueue,
) -> bool {
    &&& queue.size == guest.size
    &&& queue.max_size == guest.max_size
    &&& ring_located(memory, guest.desc_table, queue.desc_table)
    &&& ring_located(memory, guest.avail_ring, queue.avail_ring)
    &&& ring_located(memory, guest.used_ring, queue.used_ring)
}

/// Finds where the rings of a queue are mapped.
pub fn locate_queue<A: HostMemoryAccess>(memory: &RuntimeGuestMemory<A>, guest: GuestQueue) -> (queue:
    BackendQueue)
    requires
        memory.wf(),
    ensures
        queue_located(*memory, guest, queue),
{
    BackendQueue {
        size: guest.size,
        max_size: guest.max_size,
        desc_table: locate_ring(memory, guest.desc_table),
        avail_ring: locate_ring(memory, guest.avail_ring),
        used_ring: locate_ring(memory, guest.used_ring),
    }
}

/// Where the backend finds the rings of a queue.
#[derive(Clone, Copy, Debug, PartialEq, Eq, Structural)]
pub struct VringConfig {
    pub queue_max_size: u16,
    pub queue_size: u16,
    pub desc_table_addr: u64,
    pub avail_ring_addr: u64,
    pub used_ring_addr: u64,
}

/// A call of an activation.
#[derive(Debug, PartialEq, Eq)]
pub enum ActivationCall {
    SetOwner,
    /// Makes a pair of sockets and gives one end to the backend, which acknowledges nothing.
    SetGpuSocket,
    /// Makes the channel of the backend's requests and gives one end to the backend.
    SetBackendRequestChannel,
    /// Tells the backend the shared regions.
    SetMemTable(Vec<SharedRegion>),
    SetFeatures(u64),
    /// Makes the event by which the backend interrupts the guest.
    CreateCallEvent,
    SetVringNum { queue: usize, size: u16 },
    /// Starts the queue at an entry.
    SetVringBase { queue: usize, base: u16 },
    SetVringAddr { queue: usize, config: VringConfig },
    SetVringKick { queue: usize },
    SetVringCall { queue: usize },
    EnableVring { queue: usize },
    /// Fails: no memory of the guest is at the address.
    MissingAddress(u64),
}

/// The calls for one queue.
pub open spec fn queue_calls(index: int, queue: BackendQueue, extended: bool) -> Seq<
    ActivationCall,
> {
    let i = index as usize;
    let start = seq![
        ActivationCall::SetVringNum { queue: i, size: queue.size },
        ActivationCall::SetVringBase { queue: i, base: 0 },
    ];
    match (queue.desc_table.host, queue.avail_ring.host, queue.used_ring.host) {
        (Some(desc_table_addr), Some(avail_ring_addr), Some(used_ring_addr)) => {
            let rings = start + seq![
                ActivationCall::SetVringAddr {
                    queue: i,
                    config: VringConfig {
                        queue_max_size: queue.max_size,
                        queue_size: queue.size,
                        desc_table_addr,
                        avail_ring_addr,
                        used_ring_addr,
                    },
                },
                ActivationCall::SetVringKick { queue: i },
                ActivationCall::SetVringCall { queue: i },
            ];
            if extended {
                rings.push(ActivationCall::EnableVring { queue: i })
            } else {
                rings
            }
        },
        (None, _, _) => start.push(ActivationCall::MissingAddress(queue.desc_table.guest)),
        (_, None, _) => start.push(ActivationCall::MissingAddress(queue.avail_ring.guest)),
        (_, _, None) => start.push(ActivationCall::MissingAddress(queue.used_ring.guest)),
    }
}

/// Every ring of the queue is mapped.
pub open spec fn queue_mapped(queue: BackendQueue) -> bool {
    queue.desc_table.host is Some && queue.avail_ring.host is Some && queue.used_ring.host is Some
}

/// The calls for the queues from one on, up to the first that fails for want of memory.
pub open spec fn calls_from(queues: Seq<BackendQueue>, from: int, extended: bool) -> Seq<
    ActivationCall,
>
    decreases queues.len() - from,
{
    if from < 0 || from >= queues.len() {
        Seq::empty()
    } else if queue_mapped(queues[from]) {
        queue_calls(from, queues[from], extended) + calls_from(queues, from + 1, extended)
    } else {
        queue_calls(from, queues[from], extended)
    }
}

/// Appends the calls for one queue, and says whether the next queue follows.
fn push_queue_calls(calls: &mut Vec<ActivationCall>, index: usize, queue: BackendQueue, extended: bool) -> (go_on:
    bool)
    ensures
        final(calls)@ == old(calls)@ + queue_calls(index as int, queue, extended),
        go_on == queue_mapped(queue),
{
    calls.push(ActivationCall::SetVringNum { queue: index, size: queue.size });
    calls.push(ActivationCall::SetVringBase { queue: index, base: 0 });
    let desc_table_addr: u64 = match queue.desc_table.host {
        Some(host) => host,
        None => {
            calls.push(ActivationCall::MissingAddress(queue.desc_table.guest));
            assert(calls@ =~= old(calls)@ + queue_calls(index as int, queue, extended));
            return false;
        },
    };
    let avail_ring_addr: u64 = match queue.avail_ring.host {
        Some(host) => host,
        None => {
            calls.push(ActivationCall::MissingAddress(queue.avail_ring.guest));
            assert(calls@ =~= old(calls)@ + queue_calls(index as int, queue, extended));
            return false;
        },
    };
    let used_ring_addr: u64 = match queue.used_ring.host {
        Some(host) => host,
        None => {
            calls.push(ActivationCall::MissingAddress(queue.used_ring.guest));
            assert(calls@ =~= old(calls)@ + queue_calls(index as int, queue, extended));
            return false;
        },
    };
    calls.push(
        ActivationCall::SetVringAddr {
            queue: index,
            config: VringConfig {
                queue_max_size: queue.max_size,
                queue_size: queue.size,
                desc_table_addr,
                avail_ring_addr,
                used_ring_addr,
            },
        },
    );
    calls.push(ActivationCall::SetVringKick { queue: index });
    calls.push(ActivationCall::SetVringCall { queue: index });
    if extended {
        calls.push(ActivationCall::EnableVring { queue: index });
    }
    assert(calls@ =~= old(calls)@ + queue_calls(index as int, queue, extended));
    true
}

/// Where the device shows what its backend draws.
#[derive(Clone, Copy, Debug, PartialEq, Eq, Structural)]
pub enum DisplayState {
    /// There is nothing to draw on.
    Absent,
    /// A display can be made.
    Available,
    /// The display exists.
    Open,
}

/// Why the device cannot be used.
#[derive(Clone, Copy, Debug, PartialEq, Eq, Structural)]
pub enum VhostUserError {
    /// Guest memory that can be reclaimed is not shared with a backend.
    ReclaimableMemory,
}

/// What an event concerns.
#[derive(Clone, Copy, Debug, PartialEq, Eq, Structural)]
pub enum EventTarget {
    VringCall,
    GpuSocket,
    BackendRequest,
    Activate,
    Unexpected,
    /// The device is not active yet.
    Spurious,
}

/// What an event on the GPU's socket leads to.
#[derive(Clone, Copy, Debug, PartialEq, Eq, Structural)]
pub enum SocketAction {
    Closed,
    Ignore,
    ReadHeader,
}

/// What an event on the channel of the backend's requests leads to.
#[derive(Clone, Copy, Debug, PartialEq, Eq, Structural)]
pub enum RequestAction {
    Closed,
    Ignore,
    HandleRequest,
}

/// What the backend's interrupt leads to.
#[derive(Clone, Copy, Debug, PartialEq, Eq, Structural)]
pub enum CallAction {
    Unexpected,
    NoEvent,
    /// The event is consumed; if that works and `signal` is set, the guest is interrupted.
    Consume { signal: bool },
}

/// What is watched once the device is active.
#[derive(Debug)]
pub struct ActivateActions {
    pub register: Vec<i32>,
    pub unregister: i32,
}

/// A device that a backend serves.
#[derive(Debug)]
pub struct VhostUserDevice {
    pub device_type: u32,
    pub device_name: String,
    pub queue_sizes: Vec<u16>,
    pub avail_features: u64,
    pub has_protocol_features: bool,
    pub protocol_features: u64,
    pub acked_features: u64,
    pub activated: bool,
    pub activate_evt: i32,
    pub vring_call_event: Option<i32>,
    pub gpu_socket: Option<i32>,
    pub gpu_display: Option<DisplaySize>,
    pub shm_region: Option<VirtioShmRegion>,
    pub backend_req: Option<i32>,
    pub display: DisplayState,
}

/// The descriptor, or the number that stands for none.
pub open spec fn fd_or_none(fd: Option<i32>) -> int {
    match fd {
        Some(fd) => fd as int,
        None => -1,
    }
}

fn fd_number(fd: Option<i32>) -> (number: i32)
    ensures
        number == fd_or_none(fd),
{
    match fd {
        Some(fd) => fd,
        None => -1,
    }
}

impl VhostUserDevice {
    /// A device of the kind, with what was agreed with its backend. Only a GPU has a display,
    /// of the size that was asked for or else of the default size.
    pub fn new(
        device_type: u32,
        device_name: String,
        agreed: Negotiated,
        sizes: &Vec<u16>,
        gpu_display: Option<DisplaySize>,
        display_backend: bool,
        activate_evt: i32,
    ) -> (device: VhostUserDevice)
        requires
            agreed.num_queues <= usize::MAX,
        ensures
            device.device_type == device_type,
            device.device_name == device_name,
            device.queue_sizes@ == Seq::new(
                agreed.num_queues as nat,
                |i: int| queue_size(sizes@, i),
            ),
            device.avail_features == agreed.avail_features,
            device.has_protocol_features == agreed.has_protocol_features,
            device.protocol_features == agreed.protocol_features,
            device.acked_features == 0,
            !device.activated,
            device.activate_evt == activate_evt,
            device.vring_call_event is None,
            device.gpu_socket is None,
            device.gpu_display == if device_type != VIRTIO_ID_GPU {
                None
            } else if gpu_display is Some {
                gpu_display
            } else {
                Some(DisplaySize { width: DEFAULT_DISPLAY_WIDTH, height: DEFAULT_DISPLAY_HEIGHT })
            },
            device.shm_region is None,
            device.backend_req is None,
            device.display == if device_type == VIRTIO_ID_GPU && display_backend {
                DisplayState::Available
            } else {
                DisplayState::Absent
            },
    {
        let gpu = device_type == VIRTIO_ID_GPU;
        let gpu_display = if !gpu {
            None
        } else {
            match gpu_display {
                Some(size) => Some(size),
                None => Some(
                    DisplaySize { width: DEFAULT_DISPLAY_WIDTH, height: DEFAULT_DISPLAY_HEIGHT },
                ),
            }
        };
        VhostUserDevice {
            device_type,
            device_name,
            queue_sizes: queue_sizes(agreed.num_queues as usize, sizes),
            avail_features: agreed.avail_features,
            has_protocol_features: agreed.has_protocol_features,
            protocol_features: agreed.protocol_features,
            acked_features: 0,
            activated: false,
            activate_evt,
            vring_call_event: None,
            gpu_socket: None,
            gpu_display,
            shm_region: None,
            backend_req: None,
            display: if gpu && display_backend {
                DisplayState::Available
            } else {
                DisplayState::Absent
            },
        }
    }

    pub fn set_shm_region(&mut self, region: VirtioShmRegion)
        ensures
            *final(self) == (VhostUserDevice { shm_region: Some(region), ..*old(self) }),
    {
        self.shm_region = Some(region);
    }

    pub fn set_acked_features(&mut self, acked_features: u64)
        ensures
            *final(self) == (VhostUserDevice { acked_features, ..*old(self) }),
    {
        self.acked_features = acked_features;
    }

    /// The features that the backend is told: those of the guest, and the bit of the
    /// protocol's extensions where the backend has them.
    pub open spec fn backend_features(self) -> u64 {
        if self.has_protocol_features {
            self.acked_features | PROTOCOL_FEATURES_BIT
        } else {
            self.acked_features
        }
    }

    /// The calls before those for the queues.
    pub open spec fn first_calls(self, table: Vec<SharedRegion>) -> Seq<ActivationCall> {
        seq![ActivationCall::SetOwner] + (if self.device_type == VIRTIO_ID_GPU {
            seq![ActivationCall::SetGpuSocket]
        } else {
            Seq::empty()
        }) + (if self.protocol_features & BACKEND_REQUESTS == BACKEND_REQUESTS {
            seq![ActivationCall::SetBackendRequestChannel]
        } else {
            Seq::empty()
        }) + seq![
            ActivationCall::SetMemTable(table),
            ActivationCall::SetFeatures(self.backend_features()),
            ActivationCall::CreateCallEvent,
        ]
    }

    /// The calls that hand the device with its queues to the backend are these: the regions that
    /// a file backs are shared, and each queue's rings are found where they can be.
    pub open spec fn hands_over<A: HostMemoryAccess>(
        self,
        memory: RuntimeGuestMemory<A>,
        queues: Seq<GuestQueue>,
        calls: Seq<ActivationCall>,
    ) -> bool {
        exists|table: Vec<SharedRegion>, located: Seq<BackendQueue>|
            table@ == table_spec(
                backing_spec(memory.regions(), hosts_of(memory.memory), files_of(memory.memory)),
            ) && located.len() == queues.len() && (forall|i: int|
                0 <= i < queues.len() ==> queue_located(
                    memory,
                    queues[i],
                    #[trigger] located[i],
                )) && calls == #[trigger] self.first_calls(table) + #[trigger] calls_from(
                located,
                0,
                self.has_protocol_features,
            )
    }

    /// The calls that hand the device to its backend, in their order. The first that fails
    /// ends the activation. Memory that cannot be exported is refused before any call.
    pub fn activate_vhost_user<A: HostMemoryAccess>(
        &self,
        memory: &RuntimeGuestMemory<A>,
        queues: &Vec<GuestQueue>,
    ) -> (result: Result<Vec<ActivationCall>, VhostUserError>)
        requires
            memory.wf(),
        ensures
            memory.exports(result is Ok),
            match result {
                Ok(calls) => self.hands_over(*memory, queues@, calls@),
                Err(error) => error == VhostUserError::ReclaimableMemory,
            },
    {
        if !memory.allows_external_mapping() {
            return Err(VhostUserError::ReclaimableMemory);
        }
        let table = match mem_table(memory) {
            Ok(table) => table,
            Err(error) => return Err(error),
        };
        let ghost shared = table;
        let mut located: Vec<BackendQueue> = Vec::new();
        while located.len() < queues.len()
            invariant
                memory.wf(),
                located.len() <= queues.len(),
                forall|i: int|
                    0 <= i < located@.len() ==> queue_located(
                        *memory,
                        queues@[i],
                        #[trigger] located@[i],
                    ),
            decreases queues.len() - located.len(),
        {
            let index: usize = located.len();
            located.push(locate_queue(memory, queues[index]));
        }
        let calls = self.activation_calls(table, &located);
        assert(calls@ == self.first_calls(shared) + calls_from(
            located@,
            0,
            self.has_protocol_features,
        ));
        Ok(calls)
    }

    /// The calls that hand the device to its backend, given the regions that are shared and
    /// where the queues are.
    pub fn activation_calls(&self, table: Vec<SharedRegion>, queues: &Vec<BackendQueue>) -> (calls:
        Vec<ActivationCall>)
        ensures
            calls@ == self.first_calls(table) + calls_from(queues@, 0, self.has_protocol_features),
    {
        let ghost first = self.first_calls(table);
        let features: u64 = if self.has_protocol_features {
            self.acked_features | PROTOCOL_FEATURES_BIT
        } else {
            self.acked_features
        };
        let mut calls: Vec<ActivationCall> = Vec::new();
        calls.push(ActivationCall::SetOwner);
        if self.device_type == VIRTIO_ID_GPU {
            calls.push(ActivationCall::SetGpuSocket);
        }
        let requests: u64 = backend_requests_bit();
        if self.protocol_features & requests == requests {
            calls.push(ActivationCall::SetBackendRequestChannel);
        }
        calls.push(ActivationCall::SetMemTable(table));
        calls.push(ActivationCall::SetFeatures(features));
        calls.push(ActivationCall::CreateCallEvent);
        assert(calls@ =~= first);
        let ghost extended = self.has_protocol_features;
        let mut index: usize = 0;
        while index < queues.len()
            invariant
                index <= queues.len(),
                first == self.first_calls(table),
                extended == self.has_protocol_features,
                calls@ + calls_from(queues@, index as int, extended) =~= first + calls_from(
                    queues@,
                    0,
                    extended,
                ),
            decreases queues.len() - index,
        {
            let ghost before = calls@;
            let go_on = push_queue_calls(
                &mut calls,
                index,
                queues[index],
                self.has_protocol_features,
            );
            if !go_on {
                assert(calls@ =~= first + calls_from(queues@, 0, extended));
                return calls;
            }
            assert(calls@ + calls_from(queues@, index + 1, extended) =~= before + calls_from(
                queues@,
                index as int,
                extended,
            ));
            index += 1;
        }
        assert(calls@ =~= calls@ + calls_from(queues@, index as int, extended));
        calls
    }

    /// Takes note that a call of the activation has worked. `fd` is what the call made, where
    /// it makes something.
    pub fn call_done(&mut self, call: &ActivationCall, fd: i32)
        ensures
            *final(self) == match call {
                ActivationCall::SetGpuSocket => VhostUserDevice {
                    gpu_socket: Some(fd),
                    ..*old(self)
                },
                ActivationCall::SetBackendRequestChannel => VhostUserDevice {
                    backend_req: Some(fd),
                    ..*old(self)
                },
                _ => *old(self),
            },
    {
        match call {
            ActivationCall::SetGpuSocket => {
                self.gpu_socket = Some(fd);
            },
            ActivationCall::SetBackendRequestChannel => {
                self.backend_req = Some(fd);
            },
            _ => {},
        }
    }

    /// Ends an activation. `call_event` is the event of the backend's interrupts, if every
    /// call has worked. The device is active even if its own event could not be signalled.
    pub fn activate(&mut self, call_event: Option<i32>, signalled: bool) -> (result: Result<
        (),
        ActivateError,
    >)
        ensures
            result is Ok == (call_event is Some && signalled),
            result matches Err(error) ==> error is BadActivate,
            *final(self) == (VhostUserDevice {
                activated: old(self).activated || call_event is Some,
                vring_call_event: if call_event is Some {
                    call_event
                } else {
                    old(self).vring_call_event
                },
                ..*old(self)
            }),
    {
        match call_event {
            None => Err(ActivateError::BadActivate),
            Some(event) => {
                self.vring_call_event = Some(event);
                self.activated = true;
                if signalled {
                    Ok(())
                } else {
                    Err(ActivateError::BadActivate)
                }
            },
        }
    }

    pub fn is_activated(&self) -> (result: bool)
        ensures
            result == self.activated,
    {
        self.activated
    }

    /// The queues that are switched off, after which the device is as before its activation.
    pub fn reset(&mut self) -> (disable: Vec<usize>)
        ensures
            disable@ == Seq::new(old(self).queue_sizes@.len(), |i: int| i as usize),
            *final(self) == (VhostUserDevice {
                vring_call_event: None,
                gpu_socket: None,
                backend_req: None,
                activated: false,
                ..*old(self)
            }),
    {
        let mut disable: Vec<usize> = Vec::new();
        while disable.len() < self.queue_sizes.len()
            invariant
                disable.len() <= self.queue_sizes.len(),
                *self == *old(self),
                forall|i: int| 0 <= i < disable@.len() ==> #[trigger] disable@[i] == i,
            decreases self.queue_sizes.len() - disable.len(),
        {
            let index: usize = disable.len();
            disable.push(index);
        }
        assert(disable@ =~= Seq::new(self.queue_sizes@.len(), |i: int| i as usize));
        self.vring_call_event = None;
        self.gpu_socket = None;
        self.backend_req = None;
        self.activated = false;
        disable
    }

    /// What the guest reads from the device's configuration: what the backend answered, if it
    /// was asked and answered enough, else zeros.
    pub fn read_config(&self, answer: Option<Vec<u8>>, len: usize) -> (data: Vec<u8>)
        ensures
            data@ == if self.has_protocol_features && answer is Some && answer->0@.len() >= len {
                answer->0@.take(len as int)
            } else {
                Seq::new(len as nat, |i: int| 0u8)
            },
    {
        let mut data: Vec<u8> = Vec::new();
        if self.has_protocol_features {
            if let Some(bytes) = answer {
                if bytes.len() >= len {
                    while data.len() < len
                        invariant
                            data.len() <= len <= bytes.len(),
                            data@ =~= bytes@.take(data@.len() as int),
                        decreases len - data.len(),
                    {
                        let index: usize = data.len();
                        data.push(bytes[index]);
                    }
                    return data;
                }
            }
        }
        while data.len() < len
            invariant
                data.len() <= len,
                data@ =~= Seq::new(data@.len(), |i: int| 0u8),
            decreases len - data.len(),
        {
            data.push(0);
        }
        data
    }

    /// Whether a write to the device's configuration is passed on to the backend.
    pub fn write_config(&self) -> (forward: bool)
        ensures
            forward == self.has_protocol_features,
    {
        self.has_protocol_features
    }

    /// What an event on the GPU's socket leads to. A socket that failed is closed.
    pub fn handle_gpu_socket_event(&mut self, events: EventSet) -> (action: SocketAction)
        ensures
            action == if events.hang_up || events.error {
                SocketAction::Closed
            } else if events.input && old(self).gpu_socket is Some {
                SocketAction::ReadHeader
            } else {
                SocketAction::Ignore
            },
            *final(self) == if events.hang_up || events.error {
                VhostUserDevice { gpu_socket: None, ..*old(self) }
            } else {
                *old(self)
            },
    {
        if events.hang_up || events.error {
            self.gpu_socket = None;
            return SocketAction::Closed;
        }
        if !events.input {
            return SocketAction::Ignore;
        }
        match self.gpu_socket {
            Some(_) => SocketAction::ReadHeader,
            None => SocketAction::Ignore,
        }
    }

    /// Takes note that a message could not be read from the GPU's socket, or an answer not be
    /// written to it.
    pub fn gpu_socket_failed(&mut self)
        ensures
            *final(self) == (VhostUserDevice { gpu_socket: None, ..*old(self) }),
    {
        self.gpu_socket = None;
    }

    /// Whether the display has to be made before it is drawn on.
    pub fn display_missing(&self) -> (missing: bool)
        ensures
            missing == (self.display is Available),
    {
        match self.display {
            DisplayState::Available => true,
            _ => false,
        }
    }

    /// Takes note of whether the display could be made. It is tried once.
    pub fn display_created(&mut self, created: bool)
        ensures
            *final(self) == (VhostUserDevice {
                display: if old(self).display is Available {
                    if created {
                        DisplayState::Open
                    } else {
                        DisplayState::Absent
                    }
                } else {
                    old(self).display
                },
                ..*old(self)
            }),
    {
        match self.display {
            DisplayState::Available => {
                self.display = if created {
                    DisplayState::Open
                } else {
                    DisplayState::Absent
                };
            },
            _ => {},
        }
    }

    /// What the backend's interrupt leads to.
    pub fn handle_vring_call_event(&self, events: EventSet) -> (action: CallAction)
        ensures
            action == if !events.input {
                CallAction::Unexpected
            } else if self.vring_call_event is None {
                CallAction::NoEvent
            } else {
                CallAction::Consume { signal: self.activated }
            },
    {
        if !events.input {
            return CallAction::Unexpected;
        }
        match self.vring_call_event {
            None => CallAction::NoEvent,
            Some(_) => CallAction::Consume { signal: self.activated },
        }
    }

    /// What an event on the channel of the backend's requests leads to. A channel that failed
    /// is closed.
    pub fn handle_backend_req_event(&mut self, events: EventSet) -> (action: RequestAction)
        ensures
            action == if events.hang_up || events.error {
                RequestAction::Closed
            } else if events.input && old(self).backend_req is Some {
                RequestAction::HandleRequest
            } else {
                RequestAction::Ignore
            },
            *final(self) == if events.hang_up || events.error {
                VhostUserDevice { backend_req: None, ..*old(self) }
            } else {
                *old(self)
            },
    {
        if events.hang_up || events.error {
            self.backend_req = None;
            return RequestAction::Closed;
        }
        if !events.input {
            return RequestAction::Ignore;
        }
        match self.backend_req {
            Some(_) => RequestAction::HandleRequest,
            None => RequestAction::Ignore,
        }
    }

    /// What is watched once the device is active: the backend's interrupts, then the GPU's
    /// socket, then the channel of the backend's requests. Without the first, nothing is.
    pub open spec fn watched(self) -> Seq<i32> {
        match self.vring_call_event {
            None => Seq::empty(),
            Some(call) => seq![call] + (match self.gpu_socket {
                Some(fd) => seq![fd],
                None => Seq::empty(),
            }) + (match self.backend_req {
                Some(fd) => seq![fd],
                None => Seq::empty(),
            }),
        }
    }

    /// What is watched for input from now on, and what no longer is.
    pub fn handle_activate_event(&self) -> (actions: ActivateActions)
        ensures
            actions.register@ == self.watched(),
            actions.unregister == self.activate_evt,
    {
        let mut register: Vec<i32> = Vec::new();
        if let Some(call) = self.vring_call_event {
            register.push(call);
            if let Some(fd) = self.gpu_socket {
                register.push(fd);
            }
            if let Some(fd) = self.backend_req {
                register.push(fd);
            }
        }
        assert(register@ =~= self.watched());
        ActivateActions { register, unregister: self.activate_evt }
    }

    /// What an event of a descriptor concerns.
    pub fn process(&self, source: i32) -> (target: EventTarget)
        ensures
            target == if !self.activated {
                if source == self.activate_evt {
                    EventTarget::Activate
                } else {
                    EventTarget::Spurious
                }
            } else if source == fd_or_none(self.vring_call_event) {
                EventTarget::VringCall
            } else if source == fd_or_none(self.gpu_socket) {
                EventTarget::GpuSocket
            } else if source == fd_or_none(self.backend_req) {
                EventTarget::BackendRequest
            } else if source == self.activate_evt {
                EventTarget::Activate
            } else {
                EventTarget::Unexpected
            },
    {
        if !self.activated {
            if source == self.activate_evt {
                return EventTarget::Activate;
            }
            return EventTarget::Spurious;
        }
        if source == fd_number(self.vring_call_event) {
            EventTarget::VringCall
        } else if source == fd_number(self.gpu_socket) {
            EventTarget::GpuSocket
        } else if source == fd_number(self.backend_req) {
            EventTarget::BackendRequest
        } else if source == self.activate_evt {
            EventTarget::Activate
        } else {
            EventTarget::Unexpected
        }
    }

    /// What answers the backend's requests.
    pub fn backend_requests(&self) -> (requests: BackendRequests)
        ensures
            requests.shm_region == self.shm_region,
    {
        BackendRequests { shm_region: self.shm_region }
    }
}

/// A ring is switched on only where the backend has the protocol's extensions; without them
/// the rings start switched on.
pub proof fn law_rings_are_enabled_with_extensions_only(
    queues: Seq<BackendQueue>,
    from: int,
    extended: bool,
    at: int,
)
    requires
        0 <= from,
        0 <= at < calls_from(queues, from, extended).len(),
        calls_from(queues, from, extended)[at] is EnableVring,
    ensures
        extended,
    decreases queues.len() - from,
{
    if from < queues.len() {
        let first = queue_calls(from, queues[from], extended);
        if queue_mapped(queues[from]) && at >= first.len() {
            law_rings_are_enabled_with_extensions_only(queues, from + 1, extended, at - first.len());
        }
    }
}

/// Where every ring is mapped, no call fails for want of memory.
pub proof fn law_mapped_queues_are_all_handed_over(
    queues: Seq<BackendQueue>,
    from: int,
    extended: bool,
    at: int,
)
    requires
        0 <= from,
        forall|i: int| 0 <= i < queues.len() ==> queue_mapped(#[trigger] queues[i]),
        0 <= at < calls_from(queues, from, extended).len(),
    ensures
        calls_from(queues, from, extended)[at] !is MissingAddress,
        from <= queues.len() ==> calls_from(queues, from, extended).len() == (queues.len() - from)
            * (if extended {
            6int
        } else {
            5int
        }),
    decreases queues.len() - from,
{
    lemma_mapped_call_count(queues, from, extended);
    if from < queues.len() {
        let first = queue_calls(from, queues[from], extended);
        if at >= first.len() {
            law_mapped_queues_are_all_handed_over(queues, from + 1, extended, at - first.len());
        }
    }
}

proof fn lemma_mapped_call_count(queues: Seq<BackendQueue>, from: int, extended: bool)
    requires
        0 <= from,
        forall|i: int| 0 <= i < queues.len() ==> queue_mapped(#[trigger] queues[i]),
    ensures
        from <= queues.len() ==> calls_from(queues, from, extended).len() == (queues.len() - from)
            * (if extended {
            6int
        } else {
            5int
        }),
    decreases queues.len() - from,
{
    if from < queues.len() {
        lemma_mapped_call_count(queues, from + 1, extended);
    }
}

} // verus!
