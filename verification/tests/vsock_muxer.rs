use vmm_core::platform::HostPlatform;
use vmm_core::vsock::control::{ControlHandle, ControlProxy, SendReply, UnixSocketIdentity};
use vmm_core::vsock::defs::{
    proxy_id, source_port, AddressFamily, PacketHeader, TSI_CONNECT, TSI_PROXY_CREATE,
    TSI_PROXY_PORT, VSOCK_HOST_CID, VSOCK_OP_REQUEST, VSOCK_OP_RST, VSOCK_OP_RW,
};
use vmm_core::vsock::frame::Incoming;
use vmm_core::vsock::muxer::{
    dgram_proxy_id, send_stream_pkt, stream_proxy_id, AskHostReply, AskHostStep,
    CreateDecision, DataAction, DgramRoute, MuxerRxQ, ProxyCreateReq, ProxyLookup,
    PushPacketOutcome, RequestAction, ResetAction, StreamRoute, TsiFlags, VsockMuxer,
    MUXER_RXQ_SIZE,
};
use vmm_core::vsock::muxer_thread::{
    accepted_connection, create_listening_ipc_sockets, transport_victims, IpcPort,
    SourcePortAllocator, ACCEPTED_PORTS_START, SOURCE_PORTS_END, SOURCE_PORTS_START,
};
use vmm_core::vsock::proxy::{
    MuxerRx, NewProxy, NewProxyType, ProxyRemoval, ProxyStatus, ProxyUpdate,
};
use vmm_core::vsock::table::{AnyProxy, MessageOutcome, ProxyTable};
use vmm_core::vsock::tsi_stream::TsiStreamProxy;
use vmm_core::vsock::unix_proxy::{Step, UnixProxy};

const ID: u64 = (9 << 32) | 7;

fn header(op: u16) -> PacketHeader {
    PacketHeader {
        dst_cid: VSOCK_HOST_CID,
        src_port: 9,
        dst_port: 7,
        op,
        flags: 0,
        buf_alloc: 0,
        fwd_cnt: 0,
    }
}

fn table() -> ProxyTable {
    ProxyTable::new(
        HostPlatform::Linux,
        3,
        SOURCE_PORTS_START,
        SOURCE_PORTS_END,
    )
}

fn host_proxy() -> UnixProxy {
    UnixProxy::new_mux_reverse(HostPlatform::Linux, ID, 3, 7, 9, 5)
}

fn credit_request(fwd_cnt: u32) -> ProxyUpdate {
    let mut update = ProxyUpdate::new();
    update.push_credit_req = Some(MuxerRx::CreditRequest {
        local_port: 7,
        peer_port: 9,
        fwd_cnt,
    });
    update
}

fn credit_update(fwd_cnt: u32) -> ProxyUpdate {
    let mut update = ProxyUpdate::new();
    update.push_credit_req = Some(MuxerRx::CreditUpdate {
        local_port: 7,
        peer_port: 9,
        fwd_cnt,
    });
    update
}

#[test]
fn guest_send_credit_update_reaches_the_receive_virtqueue() {
    let mut table = table();
    let mut proxy = host_proxy();
    proxy.counters.tx_cnt = 65536;
    table.insert(ID, AnyProxy::Unix(proxy));

    let applied = table.apply_update(ID, credit_update(65536), Some(1), None);

    assert_eq!(
        applied.packets,
        vec![MuxerRx::CreditUpdate {
            local_port: 7,
            peer_port: 9,
            fwd_cnt: 65536
        }]
    );
    assert!(applied.signal);
}

#[test]
fn newer_credit_dispatch_cannot_bypass_deferred_credit_after_rx_refill() {
    let mut table = table();
    let mut proxy = host_proxy();
    proxy.status = ProxyStatus::WaitingCreditUpdate;
    proxy.counters.tx_cnt = u32::MAX - 1;
    proxy.counters.last_tx_cnt_sent = proxy.counters.tx_cnt;
    table.insert(ID, AnyProxy::Unix(proxy));

    assert!(table
        .apply_update(ID, credit_request(17), Some(0), None)
        .packets
        .is_empty());
    assert!(table
        .apply_update(ID, credit_update(u32::MAX - 1), Some(0), None)
        .packets
        .is_empty());

    // A newer update comes before what is kept is tried again. The guest's write carries the
    // counter over its end.
    let mut update = ProxyUpdate::new();
    match table.proxies.get_mut(&ID) {
        Some(AnyProxy::Unix(proxy)) => {
            assert!(matches!(
                proxy.sendmsg_mux(Some(b"wrap".to_vec())),
                Step::Send
            ));
            assert!(proxy.pending_sent(&mut update, SendReply::Written(4)));
            proxy.end_flush(&mut update);
        }
        other => panic!("unexpected connection: {other:?}"),
    }
    let applied = table.apply_update(ID, update, Some(2), None);
    assert_eq!(
        applied.packets,
        vec![
            MuxerRx::CreditRequest {
                local_port: 7,
                peer_port: 9,
                fwd_cnt: 2
            },
            MuxerRx::CreditUpdate {
                local_port: 7,
                peer_port: 9,
                fwd_cnt: 2
            }
        ]
    );
    assert!(table.retry_deferred_credit(8).is_empty());
}

#[test]
fn guest_reset_discards_deferred_credit_before_deferred_removal_and_rx_refill() {
    let mut table = table();
    let mut proxy = host_proxy();
    proxy.status = ProxyStatus::Connected;
    table.insert(ID, AnyProxy::Unix(proxy));
    table.apply_update(ID, credit_request(1), Some(0), Some(true));

    let update = table.reset_connection(ID).unwrap();
    let applied = table.apply_update(ID, update, Some(0), Some(true));
    assert!(applied.reap);
    assert!(table.proxies.contains_key(&ID));

    // A packet that comes after the reset is not kept.
    table.apply_update(ID, credit_update(2), Some(0), Some(true));
    assert!(table.retry_deferred_credit(8).is_empty());
}

#[test]
fn refilled_queues_take_what_was_kept() {
    let mut table = table();
    table.insert(ID, AnyProxy::Unix(host_proxy()));
    table.apply_update(ID, credit_request(1), Some(0), None);
    assert_eq!(
        table.retry_deferred_credit(1),
        vec![MuxerRx::CreditRequest {
            local_port: 7,
            peer_port: 9,
            fwd_cnt: 0
        }]
    );
    assert!(table.retry_deferred_credit(1).is_empty());
    let unserved = table.apply_update(ID, credit_request(1), None, None);
    assert!(unserved.packets.is_empty());
    assert!(table.retry_deferred_credit(1).is_empty());
}

#[test]
fn host_source_ports_are_global_and_freed_ports_can_be_reused() {
    let mut allocator = SourcePortAllocator::new(10, 12);
    let mut ids = Vec::new();

    let first = allocator.allocate(&ids).unwrap();
    ids.push(proxy_id(100, first));
    let second = allocator.allocate(&ids).unwrap();
    ids.push(proxy_id(200, second));

    assert_ne!(first, second);
    assert_eq!(allocator.allocate(&ids), None);

    ids.remove(0);
    assert_eq!(allocator.allocate(&ids), Some(first));
    assert!(ids.iter().all(|id| source_port(*id) != first));
}

#[test]
fn hosts_connect_over_their_channel() {
    let mut table = ProxyTable::new(HostPlatform::Linux, 3, 10, 11);
    let mut handle = ControlHandle::new();
    match table.process_control_message(&mut handle, Incoming::Connect { port: 9, fd: 5 }) {
        MessageOutcome::Connected { new, request } => {
            assert_eq!((new.id, new.local_port), ((9 << 32) | 10, 10));
            assert_eq!(
                request,
                MuxerRx::OpRequest {
                    local_port: 10,
                    peer_port: 9
                }
            );
        }
        other => panic!("unexpected outcome: {other:?}"),
    }
    assert!(matches!(
        table.process_control_message(&mut handle, Incoming::Connect { port: 8, fd: 6 }),
        MessageOutcome::Refused { fd: 6 }
    ));
    assert_eq!(table.ids(), vec![(9 << 32) | 10]);
    assert_eq!(table.mux_ids(), vec![(9 << 32) | 10]);
}

fn waiting_table(handle: &mut ControlHandle) -> (ProxyTable, u32) {
    let mut table = table();
    table.insert(
        ID,
        AnyProxy::Unix(UnixProxy::new_waiting_on_host(
            HostPlatform::Linux,
            ID,
            3,
            7,
            9,
            5,
        )),
    );
    let request = handle.enqueue_connect(7, 9, ID, 6, 0).unwrap();
    (table, request)
}

#[test]
fn granted_requests_are_served_and_refused_ones_leave() {
    let mut handle = ControlHandle::new();
    let (mut table, request) = waiting_table(&mut handle);
    match table.process_control_message(&mut handle, Incoming::Admit(request)) {
        MessageOutcome::Finished(Some(outcome)) => {
            assert_eq!(outcome.id, ID);
            assert!(matches!(
                outcome.handled.push,
                Some(MuxerRx::OpResponse { .. })
            ));
        }
        other => panic!("unexpected outcome: {other:?}"),
    }
    assert_eq!(table.proxies[&ID].status(), ProxyStatus::Connected);
    assert!(matches!(
        table.process_control_message(&mut handle, Incoming::Reject(request)),
        MessageOutcome::Finished(None)
    ));

    let mut handle = ControlHandle::new();
    let (mut table, request) = waiting_table(&mut handle);
    match table.process_control_message(&mut handle, Incoming::Reject(request)) {
        MessageOutcome::Finished(Some(outcome)) => {
            assert!(outcome.handled.shutdown_both);
        }
        other => panic!("unexpected outcome: {other:?}"),
    }
    assert!(table.proxies.is_empty());
}

#[test]
fn failed_channels_take_their_connections_along() {
    let mut handle = ControlHandle::new();
    let (mut table, _) = waiting_table(&mut handle);
    let mut control = ControlProxy::new(
        3,
        UnixSocketIdentity {
            device: 1,
            inode: 1,
        },
        vec![],
    );
    table.insert(
        5,
        AnyProxy::Unix(UnixProxy::new_reverse(HostPlatform::Linux, 5, 3, 1, 2, 9)),
    );
    table.insert(
        4,
        AnyProxy::Unix(UnixProxy::new_mux_reverse(
            HostPlatform::Linux,
            4,
            3,
            1,
            2,
            9,
        )),
    );
    let outcomes = table.fail_mux_transport(&mut control, &mut handle);
    let ids: Vec<u64> = outcomes.iter().map(|outcome| outcome.id).collect();
    assert_eq!(ids, vec![4, ID]);
    assert_eq!(table.ids(), vec![5]);
    assert!(!handle.is_active());
}

#[test]
fn old_requests_are_given_up_at_the_start_of_a_turn() {
    let mut handle = ControlHandle::new();
    let (mut table, _) = waiting_table(&mut handle);
    let mut control = ControlProxy::new(
        3,
        UnixSocketIdentity {
            device: 1,
            inode: 1,
        },
        vec![],
    );
    let turn = table.begin_turn(&mut control, &mut handle, 1);
    assert!(turn.expired.is_empty() && turn.failed.is_none());
    let turn = table.begin_turn(&mut control, &mut handle, 5_000_000_000);
    assert_eq!(turn.expired.len(), 1);
    assert!(turn.failed.is_none());
    assert!(table.proxies.is_empty());
    handle.fence();
    let turn = table.begin_turn(&mut control, &mut handle, 5_000_000_001);
    assert!(turn.failed.is_some());
}

#[test]
fn accepted_connections_enter_the_table() {
    let mut table = table();
    let mut update = ProxyUpdate::new();
    update.new_proxy = Some(NewProxy {
        peer_port: 80,
        fd: 12,
        family: AddressFamily::Inet,
        kind: NewProxyType::Tcp,
    });
    let served = table.process_proxy_update(ID, update, 4, true);
    assert!(served.signal);
    let (new, request) = served.accepted.unwrap();
    assert!(new.local_port >= ACCEPTED_PORTS_START);
    assert_eq!(new.id, proxy_id(80, new.local_port));
    assert_eq!(
        request,
        MuxerRx::OpRequest {
            local_port: new.local_port,
            peer_port: 80
        }
    );
    match &table.proxies[&new.id] {
        AnyProxy::Stream(proxy) => {
            assert_eq!(proxy.parent_id, ID);
            assert_eq!(proxy.fd, 12);
        }
        other => panic!("unexpected connection: {other:?}"),
    }
}

#[test]
fn listening_sockets_learn_of_accepted_connections() {
    let mut table = table();
    let mut parent = TsiStreamProxy::new(
        HostPlatform::Linux,
        ID,
        3,
        AddressFamily::Inet,
        7,
        9,
        11,
        5,
    );
    parent.status = ProxyStatus::WaitingOnAccept;
    table.insert(ID, AnyProxy::Stream(parent));
    assert!(matches!(
        table.enqueue_accept(ID),
        Some(MuxerRx::AcceptResponse { result: 0, .. })
    ));
    assert_eq!(table.enqueue_accept(ID), None);
    assert_eq!(table.enqueue_accept(ID + 1), None);
}

#[test]
fn removals_happen_now_or_later() {
    let mut table = table();
    table.insert(ID, AnyProxy::Unix(host_proxy()));
    let mut deferred = ProxyUpdate::new();
    deferred.remove_proxy = ProxyRemoval::Deferred;
    table.apply_update(ID, deferred, Some(0), Some(false));
    assert!(table.proxies.is_empty());
    table.insert(ID, AnyProxy::Unix(host_proxy()));
    let mut immediate = ProxyUpdate::new();
    immediate.remove_proxy = ProxyRemoval::Immediate;
    immediate.signal_queue = true;
    assert!(table.apply_update(ID, immediate, Some(0), None).signal);
    assert!(table.proxies.is_empty());
}

#[test]
fn an_inactive_device_hands_the_guest_nothing() {
    let none = TsiFlags {
        hijack_inet: false,
        hijack_unix: false,
    };
    let mut muxer = VsockMuxer::new(HostPlatform::Linux, 3, none);
    for active in [false, true] {
        let mut table = table();
        let proxy = UnixProxy::new_mux_reverse(HostPlatform::Linux, ID, 3, 7, 9, 11);
        table.insert(ID, AnyProxy::Unix(proxy));
        if active {
            muxer.activate();
        }
        let mut update = ProxyUpdate::new();
        update.signal_queue = true;
        update.push_credit_req = Some(MuxerRx::CreditUpdate {
            local_port: 7,
            peer_port: 9,
            fwd_cnt: 0,
        });
        let applied = muxer.process_proxy_update(&mut table, ID, update, 4, Some(true));
        assert_eq!(applied.signal, active);
        assert_eq!(applied.packets.len(), usize::from(active));
        assert!(table.proxies.contains_key(&ID));
    }
}

#[test]
fn packets_wait_while_the_queue_is_full() {
    let mut queue = MuxerRxQ::new();
    let reset = |port| MuxerRx::Reset {
        local_port: port,
        peer_port: port,
    };
    assert_eq!(
        queue.try_push_packet(reset(0), true),
        Ok(PushPacketOutcome::UsedQueue)
    );
    assert!(!queue.has_pending_rx());
    for port in 0..MUXER_RXQ_SIZE as u32 {
        assert_eq!(
            queue.try_push_packet(reset(port), false),
            Ok(PushPacketOutcome::Buffered)
        );
    }
    assert_eq!(queue.try_push_packet(reset(999), false), Err(reset(999)));
    assert_eq!(queue.recv_pkt(), Some(reset(0)));
    assert_eq!(queue.recv_pkt(), Some(reset(1)));
}

fn muxer() -> VsockMuxer {
    let mut muxer = VsockMuxer::new(
        HostPlatform::Linux,
        3,
        TsiFlags {
            hijack_inet: true,
            hijack_unix: false,
        },
    );
    muxer.activate();
    muxer
}

#[test]
fn packets_are_routed() {
    let mut datagram = header(VSOCK_OP_RW);
    datagram.dst_port = TSI_CONNECT;
    assert_eq!(muxer().send_dgram_pkt(datagram), DgramRoute::Connect);
    let plain = VsockMuxer::new(
        HostPlatform::Linux,
        3,
        TsiFlags {
            hijack_inet: false,
            hijack_unix: false,
        },
    );
    assert_eq!(plain.send_dgram_pkt(datagram), DgramRoute::Data);
    datagram.op = VSOCK_OP_RST;
    assert_eq!(plain.send_dgram_pkt(datagram), DgramRoute::Unexpected);
    datagram.dst_cid = 9;
    assert_eq!(muxer().send_dgram_pkt(datagram), DgramRoute::Drop);
    assert_eq!(
        send_stream_pkt(header(VSOCK_OP_REQUEST)),
        StreamRoute::Request
    );
    assert_eq!(send_stream_pkt(header(99)), StreamRoute::Unhandled);
    assert_eq!(stream_proxy_id(header(VSOCK_OP_RW)), ID);
    assert_eq!(
        dgram_proxy_id(DgramRoute::Connect, header(VSOCK_OP_RW), 5, 6),
        proxy_id(5, TSI_PROXY_PORT)
    );
}

#[test]
fn program_sockets_are_created() {
    let mut request = header(VSOCK_OP_RW);
    request.dst_port = TSI_PROXY_CREATE;
    assert!(matches!(
        muxer().process_proxy_create(
            ProxyCreateReq {
                peer_port: 7,
                family: 2,
                kind: 1
            },
            9
        ),
        CreateDecision::Stream { peer_port: 7, .. }
    ));
    assert!(matches!(
        muxer().process_proxy_create(
            ProxyCreateReq {
                peer_port: 7,
                family: 1,
                kind: 1
            },
            9
        ),
        CreateDecision::UnixDisabled
    ));
    assert!(matches!(
        muxer().process_proxy_create(
            ProxyCreateReq {
                peer_port: 7,
                family: 2,
                kind: 2
            },
            9
        ),
        CreateDecision::Dgram { peer_port: 7, .. }
    ));
    assert_eq!(
        muxer().answer_without_proxy(DgramRoute::Connect, request),
        Some(MuxerRx::ConnResponse {
            local_port: TSI_PROXY_CREATE,
            peer_port: 9,
            result: -111
        })
    );
}

#[test]
fn requests_go_to_files_or_to_the_host() {
    let mut muxer = muxer();
    assert!(matches!(
        muxer.process_op_request(header(VSOCK_OP_REQUEST), ProxyLookup::Missing, Some(false)),
        RequestAction::ConnectUnix
    ));
    assert!(matches!(
        muxer.process_op_request(header(VSOCK_OP_REQUEST), ProxyLookup::Missing, Some(true)),
        RequestAction::Reset(_)
    ));
    assert!(matches!(
        muxer.process_op_request(
            header(VSOCK_OP_REQUEST),
            ProxyLookup::Found(ProxyStatus::Connecting),
            None
        ),
        RequestAction::Confirm
    ));
    muxer.set_unix_mux_fd();
    assert!(matches!(
        muxer.process_op_request(header(VSOCK_OP_REQUEST), ProxyLookup::Missing, None),
        RequestAction::AskHost
    ));
    assert_eq!(muxer.process_mux_request(), AskHostStep::CreatePair);
    assert_eq!(
        muxer.ask_host(AskHostStep::Insert, AskHostReply::Worked),
        AskHostStep::Enqueue
    );
    assert_eq!(
        muxer.ask_host(AskHostStep::Enqueue, AskHostReply::Failed),
        AskHostStep::RemoveAndReset
    );
    let proxy = muxer.requested_proxy(header(VSOCK_OP_REQUEST), ID, 5);
    assert_eq!(proxy.status, ProxyStatus::WaitingOnHost);
}

#[test]
fn data_without_a_connection_is_answered_with_a_reset() {
    let mut muxer = muxer();
    assert!(matches!(
        muxer.process_stream_rw(header(VSOCK_OP_RW), ProxyLookup::Missing),
        DataAction::Reset(Some(MuxerRx::Reset {
            local_port: 7,
            peer_port: 9
        }))
    ));
    assert_eq!(
        muxer.process_stream_rst(ProxyLookup::Missing),
        ResetAction::Ignore
    );
    muxer.set_unix_mux_fd();
    assert!(matches!(
        muxer.process_stream_rw(
            header(VSOCK_OP_RW),
            ProxyLookup::Found(ProxyStatus::WaitingOnHost)
        ),
        DataAction::Send { cancel: true }
    ));
    assert_eq!(
        muxer.process_stream_rst(ProxyLookup::Found(ProxyStatus::Connected)),
        ResetAction::Release { cancel: false }
    );
    assert_eq!(
        muxer.process_stream_rst(ProxyLookup::TablePoisoned),
        ResetAction::Fence
    );
}

#[test]
fn accepted_ports_are_picked_from_the_range() {
    for _ in 0..64 {
        let new = accepted_connection(80);
        assert!(new.local_port >= ACCEPTED_PORTS_START && new.local_port < u32::MAX);
        assert_eq!(new.id, proxy_id(80, new.local_port));
    }
    let first = accepted_connection(80);
    assert!((0..64).any(|_| accepted_connection(80) != first));
}

#[test]
fn listening_ports_and_victims_are_listed() {
    let sockets = create_listening_ipc_sockets(&vec![
        IpcPort {
            port: 5,
            listen: false,
        },
        IpcPort {
            port: 6,
            listen: true,
        },
    ]);
    assert_eq!(sockets.len(), 1);
    assert_eq!(sockets[0].id, proxy_id(6, TSI_PROXY_PORT));
    assert_eq!(
        transport_victims(&vec![9, 3, 7], &vec![3, 1]),
        vec![1, 3, 7, 9]
    );
}

#[test]
fn an_empty_range_of_source_ports_has_none() {
    for (start, end) in [(10, 10), (12, 10)] {
        let mut allocator = SourcePortAllocator::new(start, end);
        assert_eq!(allocator.allocate(&vec![]), None);
        assert_eq!(allocator.host_connection(80, &vec![]), None);
        assert_eq!(allocator.next, start);
    }
}
