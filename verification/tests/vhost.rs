use vm_memory::{FileOffset, GuestAddress, GuestMemoryMmap};
use vmm_core::events::EventSet;
use vmm_core::guest_memory::{
    GuestRange, HostMemoryAccess, HostMemoryAccessError, HostMemoryLease,
};
use vmm_core::memory::RuntimeGuestMemory;
use vmm_core::vhost_gpu::{
    draw_update, gpu_display_info, gpu_edid, gpu_response_header, handle_gpu_message,
    handle_gpu_scanout, handle_gpu_update, scanout_action, update_plan, DisplaySize, DrawPlan,
    GpuAction, GpuMessageError, GpuScanout, GpuUpdate, ScanoutAction,
};
use vmm_core::vhost_user::{
    gpu_socket_header, locate_queue, mem_table, negotiate_protocol, queue_sizes, ActivationCall,
    BackendQueue, BackendRequests, CallAction, DisplayState, EventTarget, GuestQueue, MapRequest,
    Negotiated, Negotiation, NegotiationCall, NegotiationStep,
    RequestAction, RingAddress, SharedRegion, ShmMapping, ShmemError, SocketAction,
    VhostUserDevice, VhostUserError, VirtioShmRegion, VringConfig, VIRTIO_ID_GPU,
    VIRTIO_ID_MEDIA,
};
use vmm_sys_util::tempfile::TempFile;

const DISPLAY: DisplaySize = DisplaySize {
    width: 4,
    height: 3,
};

fn words(values: &[u32]) -> Vec<u8> {
    let mut bytes = Vec::new();
    for value in values {
        bytes.extend_from_slice(&value.to_ne_bytes());
    }
    bytes
}

fn events(input: bool, error: bool, hang_up: bool) -> EventSet {
    EventSet {
        input,
        output: false,
        error,
        hang_up,
        read_hang_up: false,
        edge_triggered: false,
    }
}

fn device(device_type: u32, agreed: Negotiated) -> VhostUserDevice {
    VhostUserDevice::new(
        device_type,
        "device".to_string(),
        agreed,
        &vec![64, 32],
        None,
        true,
        9,
    )
}

const PLAIN: Negotiated = Negotiated {
    avail_features: 5,
    has_protocol_features: false,
    protocol_features: 0,
    num_queues: 2,
};

const EXTENDED: Negotiated = Negotiated {
    avail_features: 5,
    has_protocol_features: true,
    protocol_features: 0x20,
    num_queues: 2,
};

fn ring(guest: u64, host: Option<u64>) -> RingAddress {
    RingAddress { guest, host }
}

fn queue(base: u64) -> BackendQueue {
    BackendQueue {
        size: 64,
        max_size: 256,
        desc_table: ring(base, Some(base + 0x10_0000)),
        avail_ring: ring(base + 0x1000, Some(base + 0x10_1000)),
        used_ring: ring(base + 0x2000, Some(base + 0x10_2000)),
    }
}

fn queue_calls(index: usize, base: u64) -> Vec<ActivationCall> {
    vec![
        ActivationCall::SetVringNum {
            queue: index,
            size: 64,
        },
        ActivationCall::SetVringBase {
            queue: index,
            base: 0,
        },
        ActivationCall::SetVringAddr {
            queue: index,
            config: VringConfig {
                queue_max_size: 256,
                queue_size: 64,
                desc_table_addr: base + 0x10_0000,
                avail_ring_addr: base + 0x10_1000,
                used_ring_addr: base + 0x10_2000,
            },
        },
        ActivationCall::SetVringKick { queue: index },
        ActivationCall::SetVringCall { queue: index },
    ]
}

#[test]
fn scanout_messages_configure_or_disable_the_display() {
    let payload = words(&[0, 640, 480]);
    assert_eq!(
        handle_gpu_scanout(&payload, Some(DISPLAY)),
        Ok(ScanoutAction::Configure {
            display_width: 4,
            display_height: 3,
            width: 640,
            height: 480,
        })
    );
    assert_eq!(
        handle_gpu_scanout(&payload, None),
        Ok(ScanoutAction::Configure {
            display_width: 640,
            display_height: 480,
            width: 640,
            height: 480,
        })
    );
    assert_eq!(
        handle_gpu_scanout(&words(&[0, 640, 0]), None),
        Ok(ScanoutAction::Disable)
    );
    assert_eq!(
        handle_gpu_scanout(&words(&[0, 0, 480]), None),
        Ok(ScanoutAction::Disable)
    );
    assert_eq!(
        handle_gpu_scanout(&words(&[2, 640, 480]), None),
        Err(GpuMessageError::InvalidScanout(2))
    );
    assert_eq!(
        handle_gpu_scanout(&payload[..11].to_vec(), None),
        Err(GpuMessageError::PayloadTooShort)
    );
    assert_eq!(
        scanout_action(
            GpuScanout {
                scanout_id: 7,
                width: 0,
                height: 0,
            },
            None
        ),
        Err(GpuMessageError::InvalidScanout(7))
    );
}

#[test]
fn update_messages_are_checked_before_anything_is_drawn() {
    let update = GpuUpdate {
        scanout_id: 0,
        x: 1,
        y: 1,
        width: 2,
        height: 2,
    };
    let plan = DrawPlan {
        x: 1,
        y: 1,
        width: 2,
        height: 2,
        frame_width: 4,
        frame_height: 3,
    };
    assert_eq!(update_plan(update, 16, Some(DISPLAY)), Ok(plan));
    assert_eq!(
        update_plan(update, 15, Some(DISPLAY)),
        Err(GpuMessageError::PixelsTooShort)
    );
    assert_eq!(
        update_plan(GpuUpdate { x: 3, ..update }, 16, Some(DISPLAY)),
        Err(GpuMessageError::OutOfBounds)
    );
    assert_eq!(
        update_plan(GpuUpdate { y: 2, ..update }, 16, Some(DISPLAY)),
        Err(GpuMessageError::OutOfBounds)
    );
    assert_eq!(
        update_plan(
            GpuUpdate {
                scanout_id: 1,
                ..update
            },
            16,
            Some(DISPLAY)
        ),
        Err(GpuMessageError::InvalidScanout(1))
    );
    assert_eq!(
        update_plan(update, 16, None),
        Err(GpuMessageError::OutOfBounds)
    );
    assert_eq!(
        update_plan(
            GpuUpdate {
                width: u32::MAX,
                height: u32::MAX,
                ..update
            },
            usize::MAX,
            Some(DISPLAY)
        ),
        Err(GpuMessageError::PixelsTooShort)
    );
}

#[test]
fn drawing_touches_the_rectangle_only() {
    let mut payload = words(&[0, 1, 1, 2, 2]);
    payload.extend(1..=16u8);
    let plan = handle_gpu_update(&payload, Some(DISPLAY)).unwrap();
    let mut frame = vec![0u8; 4 * 3 * 4];
    draw_update(&mut frame, &payload, &plan);
    let mut expected = vec![0u8; 4 * 3 * 4];
    for (at, value) in (20..28).zip(1..=8u8) {
        expected[at] = value;
    }
    for (at, value) in (36..44).zip(9..=16u8) {
        expected[at] = value;
    }
    assert_eq!(frame, expected);
    assert_eq!(
        handle_gpu_update(&payload[..19].to_vec(), Some(DISPLAY)),
        Err(GpuMessageError::PayloadTooShort)
    );
    payload.pop();
    assert_eq!(
        handle_gpu_update(&payload, Some(DISPLAY)),
        Err(GpuMessageError::PixelsTooShort)
    );
}

#[test]
fn an_empty_rectangle_draws_nothing() {
    let payload = words(&[0, 4, 3, 0, 0]);
    let plan = handle_gpu_update(&payload, Some(DISPLAY)).unwrap();
    let mut frame = vec![7u8; 48];
    draw_update(&mut frame, &payload, &plan);
    assert_eq!(frame, vec![7u8; 48]);
}

#[test]
fn gpu_answers_have_their_exact_words() {
    assert_eq!(gpu_response_header(3, 408), vec![3, 4, 408]);
    let info = gpu_display_info(Some(DISPLAY));
    assert_eq!(info.len(), 102);
    assert_eq!(
        &info[..12],
        &[0x1101, 0, 0, 0, 0, 0, 0, 0, 4, 3, 1, 0][..]
    );
    assert!(info[12..].iter().all(|word| *word == 0));
    let none = gpu_display_info(None);
    assert_eq!(
        &none[..12],
        &[0x1101, 0, 0, 0, 0, 0, 0, 0, 0, 0, 1, 0][..]
    );
    let short = gpu_edid(&vec![9, 8, 7]);
    assert_eq!(short.words, vec![0x1104, 0, 0, 0, 0, 0, 3, 0]);
    assert_eq!(short.edid.len(), 1024);
    assert_eq!(&short.edid[..4], &[9, 8, 7, 0][..]);
    let long = gpu_edid(&vec![1; 1100]);
    assert_eq!(long.words[6], 1100);
    assert_eq!(long.edid, vec![1; 1024]);
}

#[test]
fn gpu_messages_lead_to_their_actions() {
    let nothing = Vec::new();
    assert!(matches!(
        handle_gpu_message(3, &nothing, Some(DISPLAY)),
        GpuAction::SendDisplayInfo(words) if words[8] == 4 && words[9] == 3
    ));
    assert!(matches!(
        handle_gpu_message(11, &nothing, None),
        GpuAction::SendEdid
    ));
    assert!(matches!(
        handle_gpu_message(7, &nothing, None),
        GpuAction::Scanout(Err(GpuMessageError::PayloadTooShort))
    ));
    assert!(matches!(
        handle_gpu_message(8, &nothing, None),
        GpuAction::Draw(Err(GpuMessageError::PayloadTooShort))
    ));
    for request in [0, 1, 2, 4, 5, 6, 9, 10, 12, 13, u32::MAX] {
        assert!(matches!(
            handle_gpu_message(request, &nothing, None),
            GpuAction::Unhandled
        ));
    }
}

#[test]
fn the_gpu_socket_message_has_its_exact_words() {
    assert_eq!(gpu_socket_header(), vec![33, 1, 0]);
}

#[test]
fn wanted_extensions_only_are_negotiated() {
    assert_eq!(negotiate_protocol(u64::MAX), 0x40_0221);
    assert_eq!(negotiate_protocol(0), 0);
    for bit in [0x1u64, 0x20, 0x200, 0x40_0000] {
        assert_eq!(negotiate_protocol(bit), bit);
        assert_eq!(negotiate_protocol(bit | 0x2), bit);
    }
}

#[test]
fn a_negotiation_asks_the_backend_in_order() {
    let mut negotiation = Negotiation::new(0);
    assert_eq!(
        negotiation.next(),
        NegotiationStep::Call(NegotiationCall::GetFeatures)
    );
    negotiation.accept(0x4000_0005);
    assert_eq!(
        negotiation.next(),
        NegotiationStep::Call(NegotiationCall::GetProtocolFeatures)
    );
    negotiation.accept(0x23);
    assert_eq!(
        negotiation.next(),
        NegotiationStep::Call(NegotiationCall::SetProtocolFeatures(0x21))
    );
    negotiation.accept(0);
    assert_eq!(
        negotiation.next(),
        NegotiationStep::Call(NegotiationCall::GetQueueNum)
    );
    negotiation.accept(3);
    assert_eq!(
        negotiation.next(),
        NegotiationStep::Done(Negotiated {
            avail_features: 5,
            has_protocol_features: true,
            protocol_features: 0x21,
            num_queues: 3,
        })
    );
}

#[test]
fn a_plain_backend_needs_a_queue_count() {
    let mut unknown = Negotiation::new(0);
    unknown.accept(5);
    assert_eq!(unknown.next(), NegotiationStep::QueueCountNeeded);
    let mut given = Negotiation::new(4);
    given.accept(5);
    assert_eq!(
        given.next(),
        NegotiationStep::Done(Negotiated {
            avail_features: 5,
            has_protocol_features: false,
            protocol_features: 0,
            num_queues: 4,
        })
    );
}

#[test]
fn missing_queue_sizes_take_the_last_or_the_default() {
    assert_eq!(queue_sizes(3, &vec![64, 32]), vec![64, 32, 32]);
    assert_eq!(queue_sizes(2, &Vec::new()), vec![256, 256]);
    assert_eq!(queue_sizes(1, &vec![8, 16]), vec![8]);
    assert_eq!(queue_sizes(0, &vec![8]), Vec::<u16>::new());
}

#[test]
fn regions_without_a_file_are_not_shared() {
    let file = TempFile::new().unwrap().into_file();
    file.set_len(0x3000).unwrap();
    let ranges = [
        (GuestAddress(0x1000), 0x1000, None),
        (
            GuestAddress(0x4000),
            0x2000,
            Some(FileOffset::new(file, 0x1000)),
        ),
    ];
    let backing = GuestMemoryMmap::<()>::from_ranges_with_files(ranges).unwrap();
    let memory = RuntimeGuestMemory::<Refusing>::passthrough(backing);
    let table = mem_table(&memory).unwrap();
    assert_eq!(table.len(), 1);
    assert_eq!(
        table[0],
        SharedRegion {
            guest_phys_addr: 0x4000,
            memory_size: 0x2000,
            userspace_addr: memory.external_host_address(0x4000).unwrap(),
            mmap_offset: 0x1000,
            mmap_handle: table[0].mmap_handle,
        }
    );
    assert!(table[0].mmap_handle > 2);
    let calls = device(VIRTIO_ID_MEDIA, PLAIN)
        .activate_vhost_user(&memory, &vec![])
        .unwrap();
    assert_eq!(calls[1], ActivationCall::SetMemTable(table));
    let closed = RuntimeGuestMemory::new(memory.memory, Refusing);
    assert!(matches!(
        mem_table(&closed),
        Err(VhostUserError::ReclaimableMemory)
    ));
}

#[test]
fn mappings_stay_in_the_shared_region() {
    let requests = BackendRequests {
        shm_region: Some(VirtioShmRegion {
            host_addr: 0x1_0000,
            guest_addr: 0x9_0000,
            size: 0x4000,
        }),
    };
    let request = MapRequest {
        shm_offset: 0x1000,
        len: 0x3000,
        fd_offset: 0x200,
        flags: 1,
    };
    assert_eq!(
        requests.shmem_map(request),
        Ok(ShmMapping {
            address: 0x1_1000,
            len: 0x3000,
            fd_offset: 0x200,
            writable: true,
        })
    );
    for flags in [0, 2, 3] {
        assert_eq!(
            requests
                .shmem_map(MapRequest { flags, ..request })
                .map(|mapping| mapping.writable),
            Ok(false)
        );
    }
    assert_eq!(requests.shmem_unmap(request), Ok((0x1_1000, 0x3000)));
    let outside = MapRequest {
        len: 0x3001,
        ..request
    };
    assert_eq!(requests.shmem_map(outside), Err(ShmemError::Invalid));
    assert_eq!(requests.shmem_unmap(outside), Err(ShmemError::Invalid));
    let wrapping = MapRequest {
        shm_offset: u64::MAX,
        len: 2,
        ..request
    };
    assert_eq!(requests.shmem_map(wrapping), Err(ShmemError::Invalid));
    let none = BackendRequests { shm_region: None };
    assert_eq!(none.shmem_map(request), Err(ShmemError::NotSupported));
    assert_eq!(none.shmem_unmap(request), Err(ShmemError::NotSupported));
}

fn shared() -> SharedRegion {
    SharedRegion {
        guest_phys_addr: 0x1000,
        memory_size: 0x2000,
        userspace_addr: 0x7000_0000,
        mmap_offset: 0,
        mmap_handle: 12,
    }
}

#[test]
fn activation_hands_every_queue_over() {
    let mut plain = device(VIRTIO_ID_MEDIA, PLAIN);
    plain.set_acked_features(5);
    let queues = vec![queue(0), queue(0x8000)];
    let mut expected = vec![
        ActivationCall::SetOwner,
        ActivationCall::SetMemTable(vec![shared()]),
        ActivationCall::SetFeatures(5),
        ActivationCall::CreateCallEvent,
    ];
    expected.extend(queue_calls(0, 0));
    expected.extend(queue_calls(1, 0x8000));
    assert_eq!(plain.activation_calls(vec![shared()], &queues), expected);

    let mut gpu = device(VIRTIO_ID_GPU, EXTENDED);
    gpu.set_acked_features(5);
    let mut expected = vec![
        ActivationCall::SetOwner,
        ActivationCall::SetGpuSocket,
        ActivationCall::SetBackendRequestChannel,
        ActivationCall::SetMemTable(vec![shared()]),
        ActivationCall::SetFeatures(0x4000_0005),
        ActivationCall::CreateCallEvent,
    ];
    expected.extend(queue_calls(0, 0));
    expected.push(ActivationCall::EnableVring { queue: 0 });
    assert_eq!(
        gpu.activation_calls(vec![shared()], &vec![queue(0)]),
        expected
    );
}

#[test]
fn activation_stops_at_a_ring_without_memory() {
    let plain = device(VIRTIO_ID_MEDIA, PLAIN);
    let whole = queue(0);
    let missing = [
        (
            BackendQueue {
                desc_table: ring(0x10, None),
                ..whole
            },
            0x10,
        ),
        (
            BackendQueue {
                avail_ring: ring(0x20, None),
                ..whole
            },
            0x20,
        ),
        (
            BackendQueue {
                used_ring: ring(0x30, None),
                ..whole
            },
            0x30,
        ),
    ];
    for (broken, address) in missing {
        let calls = plain.activation_calls(vec![], &vec![broken, queue(0x8000)]);
        assert_eq!(calls.last(), Some(&ActivationCall::MissingAddress(address)));
        assert_eq!(calls.len(), 7);
    }
}

#[test]
fn a_device_passes_through_its_states() {
    let mut gpu = device(VIRTIO_ID_GPU, EXTENDED);
    assert_eq!(gpu.queue_sizes, vec![64, 32]);
    assert_eq!(
        gpu.gpu_display,
        Some(DisplaySize {
            width: 1024,
            height: 768,
        })
    );
    assert_eq!(gpu.display, DisplayState::Available);
    assert!(!gpu.is_activated());
    assert_eq!(gpu.process(9), EventTarget::Activate);
    assert_eq!(gpu.process(20), EventTarget::Spurious);
    assert!(gpu.activate(None, true).is_err());
    assert!(!gpu.is_activated());

    gpu.call_done(&ActivationCall::SetGpuSocket, 21);
    gpu.call_done(&ActivationCall::SetBackendRequestChannel, 22);
    gpu.call_done(&ActivationCall::SetMemTable(vec![]), 23);
    assert_eq!(gpu.gpu_socket, Some(21));
    assert_eq!(gpu.backend_req, Some(22));
    assert!(gpu.activate(Some(20), true).is_ok());
    assert!(gpu.is_activated());
    let actions = gpu.handle_activate_event();
    assert_eq!(actions.register, vec![20, 21, 22]);
    assert_eq!(actions.unregister, 9);
    assert_eq!(gpu.process(20), EventTarget::VringCall);
    assert_eq!(gpu.process(21), EventTarget::GpuSocket);
    assert_eq!(gpu.process(22), EventTarget::BackendRequest);
    assert_eq!(gpu.process(9), EventTarget::Activate);
    assert_eq!(gpu.process(30), EventTarget::Unexpected);

    assert_eq!(gpu.reset(), vec![0, 1]);
    assert!(!gpu.is_activated());
    assert_eq!(gpu.gpu_socket, None);
    assert_eq!(gpu.backend_req, None);
    assert_eq!(gpu.vring_call_event, None);
    assert_eq!(
        gpu.handle_activate_event().register,
        Vec::<i32>::new()
    );
}

#[test]
fn a_device_without_a_signal_is_active_all_the_same() {
    let mut device = device(VIRTIO_ID_MEDIA, PLAIN);
    assert_eq!(device.gpu_display, None);
    assert_eq!(device.display, DisplayState::Absent);
    assert!(device.activate(Some(20), false).is_err());
    assert!(device.is_activated());
}

#[test]
fn socket_events_are_judged_by_their_kind() {
    let mut gpu = device(VIRTIO_ID_GPU, EXTENDED);
    assert_eq!(
        gpu.handle_gpu_socket_event(events(true, false, false)),
        SocketAction::Ignore
    );
    gpu.call_done(&ActivationCall::SetGpuSocket, 21);
    gpu.call_done(&ActivationCall::SetBackendRequestChannel, 22);
    assert_eq!(
        gpu.handle_gpu_socket_event(events(true, false, false)),
        SocketAction::ReadHeader
    );
    assert_eq!(
        gpu.handle_gpu_socket_event(events(false, false, false)),
        SocketAction::Ignore
    );
    assert_eq!(
        gpu.handle_backend_req_event(events(true, false, false)),
        RequestAction::HandleRequest
    );
    assert_eq!(
        gpu.handle_backend_req_event(events(false, false, false)),
        RequestAction::Ignore
    );
    assert_eq!(
        gpu.handle_gpu_socket_event(events(true, false, true)),
        SocketAction::Closed
    );
    assert_eq!(gpu.gpu_socket, None);
    assert_eq!(
        gpu.handle_backend_req_event(events(true, true, false)),
        RequestAction::Closed
    );
    assert_eq!(gpu.backend_req, None);
    gpu.call_done(&ActivationCall::SetGpuSocket, 21);
    gpu.gpu_socket_failed();
    assert_eq!(gpu.gpu_socket, None);
}

#[test]
fn backend_interrupts_reach_an_active_guest() {
    let mut device = device(VIRTIO_ID_MEDIA, PLAIN);
    assert_eq!(
        device.handle_vring_call_event(events(false, false, false)),
        CallAction::Unexpected
    );
    assert_eq!(
        device.handle_vring_call_event(events(true, false, false)),
        CallAction::NoEvent
    );
    device.activate(Some(20), true).unwrap();
    assert_eq!(
        device.handle_vring_call_event(events(true, false, false)),
        CallAction::Consume { signal: true }
    );
}

#[test]
fn the_display_is_made_once() {
    let mut gpu = device(VIRTIO_ID_GPU, EXTENDED);
    assert!(gpu.display_missing());
    gpu.display_created(true);
    assert_eq!(gpu.display, DisplayState::Open);
    assert!(!gpu.display_missing());
    let mut failed = device(VIRTIO_ID_GPU, EXTENDED);
    failed.display_created(false);
    assert_eq!(failed.display, DisplayState::Absent);
    failed.display_created(true);
    assert_eq!(failed.display, DisplayState::Absent);
}

#[test]
fn configuration_comes_from_the_backend_or_is_zero() {
    let extended = device(VIRTIO_ID_MEDIA, EXTENDED);
    assert_eq!(extended.read_config(Some(vec![1, 2, 3]), 2), vec![1, 2]);
    assert_eq!(extended.read_config(Some(vec![1]), 2), vec![0, 0]);
    assert_eq!(extended.read_config(None, 2), vec![0, 0]);
    assert!(extended.write_config());
    let plain = device(VIRTIO_ID_MEDIA, PLAIN);
    assert_eq!(plain.read_config(Some(vec![1, 2]), 2), vec![0, 0]);
    assert!(!plain.write_config());
}

#[test]
fn backend_requests_answer_for_the_device_memory() {
    let mut device = device(VIRTIO_ID_MEDIA, EXTENDED);
    assert_eq!(device.backend_requests().shm_region, None);
    let region = VirtioShmRegion {
        host_addr: 0x1000,
        guest_addr: 0x2000,
        size: 0x3000,
    };
    device.set_shm_region(region);
    assert_eq!(device.backend_requests().shm_region, Some(region));
}

struct Refusing;

struct NoLease;

impl HostMemoryLease for NoLease {}

impl HostMemoryAccess for Refusing {
    type Lease = NoLease;

    fn access(&self, _range: GuestRange) -> Result<NoLease, HostMemoryAccessError> {
        Ok(NoLease)
    }

    fn allows_external_mapping(&self) -> bool {
        false
    }
}

#[test]
fn rings_are_located_in_exportable_memory_only() {
    let backing =
        || GuestMemoryMmap::<()>::from_ranges(&[(GuestAddress(0x1000), 0x2000)]).unwrap();
    let open = RuntimeGuestMemory::<Refusing>::passthrough(backing());
    let rings = GuestQueue {
        size: 8,
        max_size: 16,
        desc_table: 0x1000,
        avail_ring: 0x2800,
        used_ring: 0x3000,
    };
    let queue = locate_queue(&open, rings);
    assert_eq!((queue.size, queue.max_size), (8, 16));
    assert_eq!(queue.desc_table.guest, 0x1000);
    let desc = queue.desc_table.host.unwrap();
    assert_eq!(queue.avail_ring.host, Some(desc + 0x1800));
    assert_eq!(queue.used_ring, ring(0x3000, None));
    let closed = RuntimeGuestMemory::new(backing(), Refusing);
    let refused = locate_queue(&closed, rings);
    assert_eq!(refused.desc_table, ring(0x1000, None));
}

#[test]
fn devices_are_handed_over_with_the_places_of_their_rings() {
    let backing =
        || GuestMemoryMmap::<()>::from_ranges(&[(GuestAddress(0x1000), 0x2000)]).unwrap();
    let open = RuntimeGuestMemory::<Refusing>::try_passthrough(backing()).unwrap();
    let rings = GuestQueue {
        size: 8,
        max_size: 16,
        desc_table: 0x1000,
        avail_ring: 0x1800,
        used_ring: 0x2000,
    };
    let device = device(VIRTIO_ID_MEDIA, EXTENDED);
    let calls = device.activate_vhost_user(&open, &vec![rings]).unwrap();
    let base = open.external_host_address(0x1000).unwrap();
    assert!(calls.contains(&ActivationCall::SetVringAddr {
        queue: 0,
        config: VringConfig {
            queue_max_size: 16,
            queue_size: 8,
            desc_table_addr: base,
            avail_ring_addr: base + 0x800,
            used_ring_addr: base + 0x1000,
        },
    }));
    let closed = RuntimeGuestMemory::try_new(backing(), Refusing).unwrap();
    assert_eq!(
        device.activate_vhost_user(&closed, &vec![rings]),
        Err(VhostUserError::ReclaimableMemory)
    );
}
