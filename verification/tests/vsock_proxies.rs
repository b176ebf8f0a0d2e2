use std::collections::HashMap;

use vmm_core::events::EventSet;
use vmm_core::platform::HostPlatform;
use vmm_core::vsock::control::SendReply;
use vmm_core::vsock::defs::{
    address_family_from_linux, host_econnrefused, shutdown_how, shutdown_socket, AddressFamily,
    PacketHeader, ShutdownHow, ShutdownReply, SocketAddress, CONN_TX_BUF_SIZE, VSOCK_HOST_CID,
    VSOCK_OP_RW,
};
use vmm_core::vsock::proxy::{
    recv_to_pkt, Counters, DeferredCredit, MuxerRx, NewProxyType, ProxyRemoval, ProxyStatus,
    ProxyUpdate, Receiving, RecvPkt, RecvReply,
};
use vmm_core::vsock::tsi_dgram::{BindTarget, TsiDgramProxy};
use vmm_core::vsock::tsi_stream::{
    listen_backlog, listen_result, reuse_error, ListenAddress, TsiStreamProxy,
};
use vmm_core::vsock::unix_proxy::{AfterEvent, ConnectReply, Step, UnixAcceptorProxy, UnixProxy};

const ID: u64 = (7 << 32) | 9;

fn packet(buf_alloc: u32, fwd_cnt: u32) -> PacketHeader {
    PacketHeader {
        dst_cid: VSOCK_HOST_CID,
        src_port: 7,
        dst_port: 9,
        op: VSOCK_OP_RW,
        flags: 0,
        buf_alloc,
        fwd_cnt,
    }
}

fn waiting_proxy() -> UnixProxy {
    UnixProxy::new_waiting_on_host(HostPlatform::Linux, ID, 3, 9, 7, 5)
}

fn connected_proxy() -> UnixProxy {
    let mut proxy = waiting_proxy();
    proxy.status = ProxyStatus::Connected;
    proxy
}

fn polled(update: &ProxyUpdate) -> Option<EventSet> {
    update.polling.map(|polling| polling.events)
}

/// Fills packets of a guest from a socket that holds so many bytes and is then closed.
fn receive(proxy: &mut UnixProxy, left: &mut usize, buffer: usize) -> Receiving {
    let mut turn = Receiving::new();
    while !turn.stopped {
        let limit = proxy.counters.receive_limit(buffer);
        let count = limit.min(*left);
        let result = recv_to_pkt(&proxy.counters, Some(buffer), RecvReply::Count(count));
        if let RecvPkt::Read(count) = result {
            *left -= count;
        }
        turn.step(&mut proxy.counters, result);
    }
    turn
}

fn done(step: Step) -> ProxyUpdate {
    match step {
        Step::Done(handled) => handled.update,
        other => panic!("unexpected step: {other:?}"),
    }
}

#[test]
fn socket_shutdown_is_idempotent() {
    assert_eq!(shutdown_socket(ShutdownReply::Done), Ok(()));
    assert_eq!(shutdown_socket(ShutdownReply::Done), Ok(()));
    assert_eq!(shutdown_socket(ShutdownReply::NotConnected), Ok(()));
}

#[test]
fn socket_shutdown_accepts_disconnected_socket() {
    assert_eq!(shutdown_socket(ShutdownReply::NotConnected), Ok(()));
}

#[test]
fn socket_shutdown_preserves_unexpected_errors() {
    let enotsock = 88;
    assert_eq!(
        shutdown_socket(ShutdownReply::Failed(enotsock)),
        Err(enotsock)
    );
}

#[test]
fn shutdowns_follow_the_flags() {
    assert_eq!(shutdown_how(1), ShutdownHow::Read);
    assert_eq!(shutdown_how(2), ShutdownHow::Write);
    assert_eq!(shutdown_how(3), ShutdownHow::Both);
}

#[test]
fn waiting_proxy_publishes_nothing_until_admitted() {
    let mut proxy = waiting_proxy();
    let outcome = proxy.process_event(EventSet::readable(), Receiving::new(), None);
    assert_eq!(outcome.handled.push, None);
    assert_eq!(outcome.handled.update, ProxyUpdate::new());
    assert_eq!(proxy.status, ProxyStatus::WaitingOnHost);

    let handled = proxy.admit_mux().unwrap();
    assert_eq!(proxy.status, ProxyStatus::Connected);
    assert!(handled.update.signal_queue);
    assert!(matches!(handled.push, Some(MuxerRx::OpResponse { .. })));
    assert!(proxy.wants_receive(EventSet::readable()));
    assert!(proxy.admit_mux().is_none());
}

#[test]
fn rejection_violation_and_established_control_failure_close_real_endpoint() {
    for established in [false, true] {
        let mut proxy = waiting_proxy();
        if established {
            proxy.status = ProxyStatus::Connected;
        }
        let handled = if established {
            proxy.fail_mux().unwrap()
        } else {
            proxy.fail_waiting_on_host()
        };
        assert!(matches!(
            handled.update.remove_proxy,
            ProxyRemoval::Immediate
        ));
        assert!(matches!(handled.push, Some(MuxerRx::Reset { .. })));
        assert!(handled.shutdown_both);
    }
}

#[test]
fn mux_bulk_receive_restarts_after_each_credit_window_and_delivers_eof() {
    const BUFFER_SIZE: usize = 32;
    const CREDIT_WINDOW: u32 = 64;
    const PAYLOAD_SIZE: usize = 256;

    let mut proxy = connected_proxy();
    proxy.counters.peer_buf_alloc = CREDIT_WINDOW;
    let mut left = PAYLOAD_SIZE;

    for window in 1..=4 {
        let turn = receive(&mut proxy, &mut left, BUFFER_SIZE);
        let outcome = proxy.process_event(EventSet::readable(), turn, None);
        assert!(outcome.handled.update.signal_queue);
        assert_eq!(proxy.status, ProxyStatus::WaitingCreditUpdate);
        assert!(matches!(
            outcome.handled.update.push_credit_req,
            Some(MuxerRx::CreditRequest { .. })
        ));
        assert_eq!(
            polled(&outcome.handled.update),
            Some(EventSet::empty())
        );

        let update = done(proxy.update_peer_credit(packet(CREDIT_WINDOW, window * CREDIT_WINDOW)));
        assert_eq!(proxy.status, ProxyStatus::Connected);
        assert_eq!(polled(&update), Some(EventSet::readable()));
    }

    let turn = receive(&mut proxy, &mut left, BUFFER_SIZE);
    assert!(turn.closed);
    let outcome = proxy.process_event(EventSet::readable(), turn, None);
    assert!(outcome.handled.update.signal_queue);
    assert_eq!(proxy.status, ProxyStatus::PeerHalfClosed);
    assert_eq!(
        outcome.handled.push,
        Some(MuxerRx::Shutdown {
            local_port: 9,
            peer_port: 7,
            flags: 2
        })
    );
    assert_eq!(
        polled(&done(
            proxy.update_peer_credit(packet(CREDIT_WINDOW, PAYLOAD_SIZE as u32))
        )),
        Some(EventSet::empty())
    );
    assert_eq!(proxy.status, ProxyStatus::PeerHalfClosed);
    assert_eq!(left, 0);
    assert_eq!(proxy.counters.rx_cnt, PAYLOAD_SIZE as u32);
}

#[test]
fn mux_credit_updates_preserve_state_and_write_interest() {
    let mut proxy = connected_proxy();
    proxy.pending_tx.push(vec![1]);
    proxy.pending_tx_bytes = 1;

    let turn = receive(&mut proxy, &mut 1, 16);
    let outcome = proxy.process_event(EventSet::readable(), turn, None);
    assert_eq!(proxy.status, ProxyStatus::WaitingCreditUpdate);
    assert!(matches!(
        outcome.handled.update.push_credit_req,
        Some(MuxerRx::CreditRequest { .. })
    ));
    assert_eq!(polled(&outcome.handled.update), Some(EventSet::writable()));

    let update = done(proxy.update_peer_credit(packet(0, 0)));
    assert_eq!(proxy.status, ProxyStatus::WaitingCreditUpdate);
    assert_eq!(polled(&update), Some(EventSet::writable()));

    let update = done(proxy.update_peer_credit(packet(1, 0)));
    assert_eq!(proxy.status, ProxyStatus::Connected);
    assert_eq!(polled(&update), Some(EventSet::readable_writable()));

    for status in [
        ProxyStatus::WaitingOnHost,
        ProxyStatus::ReverseInit,
        ProxyStatus::Closed,
        ProxyStatus::PeerHalfClosed,
    ] {
        proxy.status = status;
        let update = done(proxy.update_peer_credit(packet(64, 0)));
        assert_eq!(proxy.status, status);
        if status == ProxyStatus::PeerHalfClosed {
            assert_eq!(polled(&update), Some(EventSet::writable()));
        } else {
            assert_eq!(polled(&update), None);
        }
    }
}

#[test]
fn mux_credit_blocked_reads_do_not_drop_guest_writes() {
    let mut proxy = connected_proxy();
    proxy.status = ProxyStatus::WaitingCreditUpdate;
    let payload = b"independent direction";

    assert!(matches!(
        proxy.sendmsg_mux(Some(payload.to_vec())),
        Step::Send
    ));
    let mut update = ProxyUpdate::new();
    let mut sent = Vec::new();
    while proxy.wants_send() {
        let piece = proxy.pending_tx[0][proxy.pending_tx_offset..].to_vec();
        sent.extend_from_slice(&piece);
        assert!(proxy.pending_sent(&mut update, SendReply::Written(piece.len())));
    }
    proxy.end_flush(&mut update);
    assert_eq!(sent, payload);
    assert_eq!(proxy.status, ProxyStatus::WaitingCreditUpdate);
    assert_eq!(polled(&update), Some(EventSet::empty()));
}

#[test]
fn mux_credit_resume_uses_wrapping_counters() {
    let mut proxy = connected_proxy();
    proxy.status = ProxyStatus::WaitingCreditUpdate;
    proxy.counters.rx_cnt = u32::MAX - 15;
    proxy.counters.peer_buf_alloc = 16;
    proxy.counters.peer_fwd_cnt = u32::MAX - 31;
    assert_eq!(proxy.counters.peer_avail_credit(), 0);

    let update = done(proxy.update_peer_credit(packet(16, u32::MAX - 15)));
    assert_eq!(proxy.counters.peer_avail_credit(), 16);
    assert_eq!(proxy.status, ProxyStatus::Connected);
    assert_eq!(polled(&update), Some(EventSet::readable()));
}

#[test]
fn data_socket_half_close_preserves_the_opposite_direction() {
    let mut proxy = connected_proxy();
    proxy.counters.peer_buf_alloc = 64;
    let turn = receive(&mut proxy, &mut 7, 32);
    proxy.process_event(EventSet::readable(), turn, None);
    assert_eq!(proxy.status, ProxyStatus::PeerHalfClosed);
    assert!(matches!(
        proxy.sendmsg_mux(Some(b"response".to_vec())),
        Step::Send
    ));
    let mut update = ProxyUpdate::new();
    assert!(proxy.pending_sent(&mut update, SendReply::Written(3)));
    assert_eq!(proxy.pending_tx_offset, 3);
    assert!(proxy.pending_sent(&mut update, SendReply::Written(5)));
    assert!(!proxy.wants_send());
    assert_eq!(proxy.counters.tx_cnt, 8);
}

#[test]
fn buffered_writes_are_bounded() {
    let mut proxy = connected_proxy();
    assert!(matches!(
        proxy.sendmsg_mux(Some(vec![0; CONN_TX_BUF_SIZE])),
        Step::Send
    ));
    match proxy.sendmsg_mux(Some(vec![0])) {
        Step::Done(handled) => {
            assert_eq!(handled.update.remove_proxy, ProxyRemoval::Immediate);
            assert!(matches!(handled.push, Some(MuxerRx::Reset { .. })));
        }
        other => panic!("unexpected step: {other:?}"),
    }
    assert_eq!(proxy.status, ProxyStatus::Closed);

    let mut failing = connected_proxy();
    failing.sendmsg_mux(Some(vec![1, 2]));
    let mut update = ProxyUpdate::new();
    assert!(!failing.pending_sent(&mut update, SendReply::WouldBlock));
    assert!(!failing.pending_sent(&mut update, SendReply::Failed(32)));
    assert_eq!(update.remove_proxy, ProxyRemoval::Immediate);
    assert_eq!(failing.status, ProxyStatus::Closed);
}

#[test]
fn writing_before_the_host_grants_ends_the_connection() {
    let mut proxy = waiting_proxy();
    match proxy.sendmsg_mux(Some(vec![1])) {
        Step::Done(handled) => {
            assert!(handled.shutdown_both);
            assert_eq!(handled.update.remove_proxy, ProxyRemoval::Immediate);
        }
        other => panic!("unexpected step: {other:?}"),
    }
}

#[test]
fn hosts_are_told_the_port_before_anything_else() {
    let mut proxy = UnixProxy::new_mux_reverse(HostPlatform::Linux, ID, 3, 9, 7, 5);
    assert_eq!(
        proxy.push_op_request(),
        MuxerRx::OpRequest {
            local_port: 9,
            peer_port: 7
        }
    );
    assert!(matches!(
        proxy.process_op_response(packet(64, 0)),
        Step::Send
    ));
    assert_eq!(proxy.connect_response.as_ref().unwrap().bytes, b"OK 9\n");
    let handled = proxy.flush_connect_response(SendReply::Written(2));
    assert_eq!(polled(&handled.update), Some(EventSet::writable()));
    assert_eq!(proxy.status, ProxyStatus::SendingConnectResponse);
    assert_eq!(
        proxy
            .process_event(EventSet::writable(), Receiving::new(), None)
            .then,
        AfterEvent::FlushResponse
    );
    let handled = proxy.flush_connect_response(SendReply::Written(3));
    assert_eq!(polled(&handled.update), Some(EventSet::readable()));
    assert_eq!(proxy.status, ProxyStatus::Connected);
}

#[test]
fn connections_report_how_they_came_about() {
    let mut proxy = UnixProxy::new(HostPlatform::Linux, ID, 3, 9, 11, 5);
    proxy.connect(ConnectReply::Connected);
    assert_eq!(proxy.status, ProxyStatus::Connected);
    let mut slow = UnixProxy::new(HostPlatform::Linux, ID, 3, 9, 11, 5);
    slow.connect(ConnectReply::InProgress);
    assert_eq!(slow.status, ProxyStatus::Connecting);
    let hang_up = EventSet {
        hang_up: true,
        ..EventSet::empty()
    };
    let outcome = slow.process_event(hang_up, Receiving::new(), None);
    assert!(matches!(
        outcome.handled.push,
        Some(MuxerRx::ConnResponse { result: -111, .. })
    ));
    assert_eq!(outcome.handled.update.remove_proxy, ProxyRemoval::Deferred);
    assert_eq!(slow.status, ProxyStatus::Closed);
}

#[test]
fn acceptors_hand_over_new_connections() {
    let acceptor = UnixAcceptorProxy::new(ID, 4, 77);
    assert_eq!(acceptor.status(), ProxyStatus::WaitingOnAccept);
    let update = acceptor.process_event(EventSet::readable(), Some(12));
    let new = update.new_proxy.unwrap();
    assert_eq!((new.peer_port, new.fd), (77, 12));
    assert_eq!(new.kind, NewProxyType::Unix);
    assert!(acceptor
        .process_event(EventSet::readable(), None)
        .new_proxy
        .is_none());
}

#[test]
fn deferred_credit_keeps_one_of_each_kind() {
    let mut credit = DeferredCredit::new();
    let request = |fwd_cnt| MuxerRx::CreditRequest {
        local_port: 9,
        peer_port: 7,
        fwd_cnt,
    };
    let update = |fwd_cnt| MuxerRx::CreditUpdate {
        local_port: 9,
        peer_port: 7,
        fwd_cnt,
    };
    credit.push(update(1), 1).unwrap();
    credit.push(request(2), 2).unwrap();
    credit.push(update(3), 3).unwrap();
    assert_eq!(credit.flush(4, 1), vec![request(4)]);
    assert_eq!(credit.flush(5, 8), vec![update(5)]);
    assert_eq!(credit.flush(5, 8), vec![]);
    let reset = MuxerRx::Reset {
        local_port: 9,
        peer_port: 7,
    };
    assert!(credit.push(reset, 5).is_err());
    credit.disable();
    assert!(!credit.is_enabled());
    assert!(credit.push(update(6), 6).is_err());
    assert_eq!(credit.pop(6), None);
}

#[test]
fn reads_stay_within_the_guests_credit() {
    let mut counters = Counters::new();
    counters.set_peer(10, 0);
    assert_eq!(counters.receive_limit(32), 10);
    assert_eq!(counters.receive_limit(4), 4);
    let mut turn = Receiving::new();
    assert_eq!(turn.step(&mut counters, RecvPkt::Read(10)), Some(54));
    assert_eq!(counters.peer_avail_credit(), 0);
    assert_eq!(
        recv_to_pkt(&counters, Some(32), RecvReply::Count(1)),
        RecvPkt::WaitForCredit
    );
    assert_eq!(
        recv_to_pkt(&counters, None, RecvReply::Count(1)),
        RecvPkt::Error
    );
    counters.set_peer(10, 10);
    assert_eq!(
        recv_to_pkt(&counters, Some(32), RecvReply::WouldBlock),
        RecvPkt::Error
    );
    assert_eq!(
        recv_to_pkt(&counters, Some(32), RecvReply::Count(0)),
        RecvPkt::Close
    );
}

fn stream() -> TsiStreamProxy {
    TsiStreamProxy::new(
        HostPlatform::Linux,
        ID,
        3,
        AddressFamily::Inet,
        9,
        7,
        11,
        5,
    )
}

#[test]
fn program_sockets_listen_at_mapped_ports() {
    let mut map = HashMap::new();
    map.insert(80, 8080);
    let address = SocketAddress::V4 {
        ip4: 0x7f00_0001,
        port: 80,
    };
    match stream().try_listen(address, &Some(map)) {
        ListenAddress::Bind(bound) => assert_eq!(
            bound,
            SocketAddress::V4 {
                ip4: 0x7f00_0001,
                port: 8080
            }
        ),
        other => panic!("unexpected answer: {other:?}"),
    }
    assert!(matches!(
        stream().try_listen(SocketAddress::Other(3), &Some(HashMap::new())),
        ListenAddress::Invalid
    ));
    let mut proxy = stream();
    let handled = proxy.listen(packet(0, 0), 80, 0);
    assert_eq!(
        handled.push,
        Some(MuxerRx::ListenResponse {
            local_port: 9,
            peer_port: 7,
            result: 0
        })
    );
    assert_eq!(proxy.status, ProxyStatus::Listening);
    assert!(matches!(
        proxy.try_listen(SocketAddress::Other(3), &None),
        ListenAddress::Listening
    ));
    assert_eq!(listen_backlog(-1, 128), 0);
    assert_eq!(listen_backlog(500, 128), 128);
    assert_eq!(listen_backlog(5, 128), 5);
    assert_eq!(listen_result(Err(98), Ok(())), -98);
    assert_eq!(listen_result(Ok(()), Err(22)), -22);
    assert_eq!(listen_result(Ok(()), Ok(())), 0);
    assert_ne!(
        reuse_error(AddressFamily::Unix, 1),
        reuse_error(AddressFamily::Inet, 1)
    );
}

#[test]
fn accepted_connections_wait_for_the_program() {
    let mut proxy = stream();
    proxy.listen(packet(0, 0), 80, 0);
    assert_eq!(proxy.enqueue_accept(), None);
    assert_eq!(proxy.pending_accepts, 1);
    let handled = proxy.accept(0);
    assert!(matches!(
        handled.push,
        Some(MuxerRx::AcceptResponse { result: 0, .. })
    ));
    assert_eq!(proxy.pending_accepts, 0);
    let handled = proxy.accept(0);
    assert_eq!(handled.push, None);
    assert_eq!(proxy.status, ProxyStatus::WaitingOnAccept);
    assert!(matches!(
        proxy.enqueue_accept(),
        Some(MuxerRx::AcceptResponse { result: 0, .. })
    ));
    assert_eq!(proxy.status, ProxyStatus::Listening);
}

#[test]
fn streams_tell_the_guest_what_was_consumed() {
    let mut proxy = stream();
    proxy.connect(ConnectReply::Connected);
    proxy.counters.set_peer(100, 0);
    let update = proxy.sendmsg(packet(0, 0), Some(49));
    assert_eq!(update.push_credit_req, None);
    let update = proxy.sendmsg(packet(0, 0), Some(1));
    assert_eq!(
        update.push_credit_req,
        Some(MuxerRx::CreditUpdate {
            local_port: 9,
            peer_port: 7,
            fwd_cnt: 50
        })
    );
}

#[test]
fn datagram_sockets_are_bound_before_they_send() {
    let mut proxy = TsiDgramProxy::new(HostPlatform::Linux, ID, 3, AddressFamily::Inet6, 7, 5);
    assert_eq!(
        proxy.sendto_addr(SocketAddress::V4 { ip4: 1, port: 2 }),
        Some(BindTarget::AnyV6)
    );
    let update = proxy.bound(true);
    assert_eq!(polled(&update), Some(EventSet::readable()));
    assert_eq!(
        proxy.sendto_addr(SocketAddress::V4 { ip4: 1, port: 2 }),
        None
    );
    assert_eq!(
        proxy.release().remove_proxy,
        ProxyRemoval::Deferred
    );
}

#[test]
fn families_and_errors_are_those_of_the_guest() {
    assert_eq!(
        address_family_from_linux(HostPlatform::Linux, 1),
        Some(AddressFamily::Unix)
    );
    assert_eq!(address_family_from_linux(HostPlatform::Macos, 1), None);
    assert_eq!(
        address_family_from_linux(HostPlatform::Macos, 10),
        Some(AddressFamily::Inet6)
    );
    assert_eq!(address_family_from_linux(HostPlatform::Linux, 9), None);
    assert_eq!(host_econnrefused(HostPlatform::Linux), 111);
    assert_eq!(host_econnrefused(HostPlatform::Macos), 61);
}
