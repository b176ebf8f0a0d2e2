//! Where the guest's packets go, by the numbers that they carry.
use crate::events::EventSet;
use crate::platform::HostPlatform;
use crate::vsock::defs::{
    address_family_spec, host_econnrefused_spec, proxy_id_spec, shutdown_spec, source_port_spec,
    AddressFamily, PacketHeader, ShutdownHow,
};
use crate::vsock::muxer::{
    create_spec, dgram_route_spec, host_af_inet6_spec, stream_route_spec, AskHostReply, AskHostStep,
    CreateDecision, DgramRoute, ProxyCreateReq, StreamRoute, TsiFlags, VsockMuxer,
};
use crate::vsock::proxy::{
    recv_spec, Counters, DeferredCredit, Handled, MuxerRx, ProxyRemoval, ProxyStatus, ProxyUpdate,
    Receiving, RecvPkt, RecvReply,
};
use vstd::prelude::*;

verus! {

/// Each port that programs' sockets are served at has one thing that it is for, where they are
/// served and the datagram is for the host.
pub proof fn law_served_ports(packet: PacketHeader)
    requires
        packet.dst_cid == 2,
    ensures
        packet.dst_port == 1024 ==> dgram_route_spec(packet, true) == DgramRoute::ProxyCreate,
        packet.dst_port == 1025 ==> dgram_route_spec(packet, true) == DgramRoute::Connect,
        packet.dst_port == 1026 ==> dgram_route_spec(packet, true) == DgramRoute::Getname,
        packet.dst_port == 1027 ==> dgram_route_spec(packet, true) == DgramRoute::SendtoAddr,
        packet.dst_port == 1028 ==> dgram_route_spec(packet, true) == DgramRoute::SendtoData,
        packet.dst_port == 1029 ==> dgram_route_spec(packet, true) == DgramRoute::Listen,
        packet.dst_port == 1030 ==> dgram_route_spec(packet, true) == DgramRoute::Accept,
        packet.dst_port == 1031 ==> dgram_route_spec(packet, true) == DgramRoute::ProxyRelease,
{
}

/// Any other port carries data or nothing, and so do the served ports where programs' sockets
/// are not served. A datagram for somebody else is dropped.
pub proof fn law_other_datagrams_carry_data(packet: PacketHeader, enabled: bool)
    ensures
        packet.dst_cid != 2 <==> dgram_route_spec(packet, enabled) == DgramRoute::Drop,
        packet.dst_cid == 2 && (!enabled || packet.dst_port < 1024 || packet.dst_port > 1031)
            ==> dgram_route_spec(packet, enabled) == if packet.op == 5 {
            DgramRoute::Data
        } else {
            DgramRoute::Unexpected
        },
{
}

/// Each operation of a stream has one thing that it is for, where the packet is for the host.
pub proof fn law_stream_operations(packet: PacketHeader)
    ensures
        packet.dst_cid != 2 <==> stream_route_spec(packet) == StreamRoute::Drop,
        packet.dst_cid == 2 ==> {
            &&& packet.op == 1 ==> stream_route_spec(packet) == StreamRoute::Request
            &&& packet.op == 2 ==> stream_route_spec(packet) == StreamRoute::Response
            &&& packet.op == 3 ==> stream_route_spec(packet) == StreamRoute::Reset
            &&& packet.op == 4 ==> stream_route_spec(packet) == StreamRoute::Shutdown
            &&& packet.op == 5 ==> stream_route_spec(packet) == StreamRoute::Data
            &&& packet.op == 6 ==> stream_route_spec(packet) == StreamRoute::CreditUpdate
            &&& packet.op == 0 || packet.op > 6 ==> stream_route_spec(packet)
                == StreamRoute::Unhandled
        },
{
}

/// Sockets of a kind are served if either kind is.
pub proof fn law_sockets_are_served_if_either_kind_is(flags: TsiFlags)
    ensures
        flags.enabled() <==> flags.hijack_inet || flags.hijack_unix,
{
}

/// A program gets the socket that it asked for: of its kind, under its own port, answered at the
/// port that it asked from. It gets none before the queues are there, none of a kind or family
/// that is not served, and is refused for nothing else.
pub proof fn law_programs_get_the_sockets_they_ask_for(
    platform: HostPlatform,
    flags: TsiFlags,
    active: bool,
    request: ProxyCreateReq,
    src_port: u32,
)
    ensures
        ({
            let decision = create_spec(platform, flags, active, request, src_port);
            let inet = request.family == 2 || request.family == (if platform
                == HostPlatform::Macos {
                30u16
            } else {
                10u16
            });
            let served = (request.family == 1 ==> flags.hijack_unix) && (inet
                ==> flags.hijack_inet);
            let id = request.peer_port * 0x1_0000_0000 + 620;
            &&& decision == CreateDecision::NotActive <==> !active
            &&& active ==> (decision == CreateDecision::UnknownType <==> request.kind != 1
                && request.kind != 2)
            &&& active && (request.kind == 1 || request.kind == 2) ==> {
                &&& decision == CreateDecision::UnixDisabled <==> request.family == 1
                    && !flags.hijack_unix
                &&& decision == CreateDecision::InetDisabled <==> inet && !flags.hijack_inet
            }
            &&& active && served && request.kind == 1 ==> decision == (CreateDecision::Stream {
                id: id as u64,
                local_port: 620,
                peer_port: request.peer_port,
                control_port: src_port,
            })
            &&& active && served && request.kind == 2 ==> decision == (CreateDecision::Dgram {
                id: id as u64,
                peer_port: request.peer_port,
            })
        }),
{
}

/// The guest is sent everything once it has given its queues, and nothing before.
pub proof fn law_nothing_is_sent_before_the_queues_are_there(
    muxer: VsockMuxer,
    packet: MuxerRx,
    stray: PacketHeader,
)
    ensures
        muxer.active ==> muxer.sent(packet) == Some(packet),
        !muxer.active ==> muxer.sent(packet) is None,
        muxer.stray_answer(stray) == if muxer.active {
            Some(MuxerRx::Reset { local_port: stray.dst_port, peer_port: stray.src_port })
        } else {
            None::<MuxerRx>
        },
        VsockMuxer::reset_for(stray) == (MuxerRx::Reset {
            local_port: stray.dst_port,
            peer_port: stray.src_port,
        }),
{
}

/// A request to the host that works all the way makes a pair of sockets, prepares them, enters
/// the connection and queues the request, in this order; no request is made for a guest whose
/// queues are not there, and what has ended stays as it is.
pub proof fn law_requests_to_the_host_run_in_order(
    muxer: VsockMuxer,
    step: AskHostStep,
    reply: AskHostReply,
)
    ensures
        muxer.ask_host_spec(AskHostStep::CreatePair, AskHostReply::Worked) == AskHostStep::Prepare,
        muxer.active ==> muxer.ask_host_spec(AskHostStep::Prepare, AskHostReply::Worked)
            == AskHostStep::Insert,
        !muxer.active ==> muxer.ask_host_spec(AskHostStep::Prepare, AskHostReply::Worked)
            == AskHostStep::Fence,
        muxer.ask_host_spec(AskHostStep::Insert, AskHostReply::Worked) == AskHostStep::Enqueue,
        muxer.ask_host_spec(AskHostStep::Insert, AskHostReply::Failed) == AskHostStep::Ignore,
        muxer.ask_host_spec(AskHostStep::Insert, AskHostReply::Poisoned) == AskHostStep::Fence,
        muxer.ask_host_spec(AskHostStep::Enqueue, AskHostReply::Worked) == AskHostStep::Done,
        muxer.ask_host_spec(step, reply) == AskHostStep::Enqueue ==> step == AskHostStep::Insert
            || step == AskHostStep::Enqueue,
        step == AskHostStep::Done || step == AskHostStep::Ignore || step == AskHostStep::Reset
            || step == AskHostStep::RemoveAndReset || step == AskHostStep::Fence
            ==> muxer.ask_host_spec(step, reply) == step,
{
}

/// The host is no longer asked for a connection exactly if it was being asked, over a control
/// channel that there is.
pub proof fn law_only_open_requests_are_cancelled(muxer: VsockMuxer, status: ProxyStatus)
    ensures
        muxer.cancels(status) <==> status == ProxyStatus::WaitingOnHost && muxer.has_control
            && muxer.platform != HostPlatform::Windows,
{
}

/// The number of a connection has the guest's port in its upper half and the host's in its
/// lower one.
pub proof fn law_connection_numbers_hold_both_ports(peer: u32, local: u32)
    ensures
        proxy_id_spec(peer, local) as int / 0x1_0000_0000 == peer,
        proxy_id_spec(peer, local) as int % 0x1_0000_0000 == local,
        source_port_spec(proxy_id_spec(peer, local)) == local,
{
}

/// The lowest bit of a shutdown stops the reading side and the next one the writing side; a
/// shutdown without either stops the writing side.
pub proof fn law_shutdown_stops_the_sides_that_were_named(flags: u32, receive: u32, send: u32)
    requires
        receive < 2,
        send < 2,
        flags & 3 == receive | (send << 1),
    ensures
        shutdown_spec(flags) == if receive == 1 && send == 1 {
            ShutdownHow::Both
        } else if receive == 1 {
            ShutdownHow::Read
        } else {
            ShutdownHow::Write
        },
{
    assert((flags & 1 != 0 <==> receive == 1) && (flags & 2 != 0 <==> send == 1)) by (bit_vector)
        requires
            receive < 2,
            send < 2,
            flags & 3 == receive | (send << 1),
    ;
}

/// The guest's numbers of families, and the host's number of a refused connection.
pub proof fn law_numbers_of_the_platforms(platform: HostPlatform, family: u16)
    ensures
        address_family_spec(platform, 2) == Some(AddressFamily::Inet),
        address_family_spec(platform, 10) == Some(AddressFamily::Inet6),
        address_family_spec(platform, 1) == if platform == HostPlatform::Macos {
            None::<AddressFamily>
        } else {
            Some(AddressFamily::Unix)
        },
        family != 1 && family != 2 && family != 10 ==> address_family_spec(platform, family)
            is None,
        host_econnrefused_spec(HostPlatform::Linux) == 111,
        host_econnrefused_spec(HostPlatform::Macos) == 61,
        host_econnrefused_spec(HostPlatform::Windows) == 107,
        host_af_inet6_spec(platform) == if platform == HostPlatform::Macos {
            30u16
        } else {
            10u16
        },
{
}

/// A packet about credit keeps its kind and its ports and gets the count that is right now; any
/// other packet stays as it is.
pub proof fn law_recounting_changes_only_the_count(packet: MuxerRx, count: u32)
    ensures
        match (packet, packet.with_count(count)) {
            (
                MuxerRx::CreditRequest { local_port, peer_port, .. },
                MuxerRx::CreditRequest { local_port: local, peer_port: peer, fwd_cnt },
            ) => local == local_port && peer == peer_port && fwd_cnt == count,
            (
                MuxerRx::CreditUpdate { local_port, peer_port, .. },
                MuxerRx::CreditUpdate { local_port: local, peer_port: peer, fwd_cnt },
            ) => local == local_port && peer == peer_port && fwd_cnt == count,
            (before, after) => before == after && !(before is CreditRequest) && !(
            before is CreditUpdate),
        },
{
}

/// No packet about credit is lost: each that was kept is either delivered or still kept, no
/// more are delivered than there is room for, and nothing is kept back where there is room. A
/// request goes before an update.
pub proof fn law_credit_is_delivered_or_kept(credit: DeferredCredit, fwd_cnt: u32, room: int)
    requires
        credit.wf(),
        credit.enabled,
        room >= 0,
    ensures
        ({
            let sent = credit.delivered(fwd_cnt, room);
            let kept = credit.kept(fwd_cnt, room);
            let count = (if credit.request is Some {
                1int
            } else {
                0
            }) + (if credit.update is Some {
                1int
            } else {
                0
            });
            &&& sent.len() == if room < count {
                room
            } else {
                count
            }
            &&& room >= 1 && credit.request is Some ==> sent[0] is CreditRequest && kept.request
                is None
            &&& room >= 1 && credit.request is None && credit.update is Some ==> sent[0]
                is CreditUpdate && kept.update is None
            &&& room >= 2 && count == 2 ==> sent[1] is CreditUpdate && kept.update is None
            &&& room == 0 ==> (kept.request is Some <==> credit.request is Some)
            &&& room <= 1 && credit.request is Some ==> (kept.update is Some <==> credit.update
                is Some)
            &&& room == 0 ==> (kept.update is Some <==> credit.update is Some)
            &&& kept.enabled
        }),
{
    reveal_with_fuel(DeferredCredit::delivered, 4);
    reveal_with_fuel(DeferredCredit::kept, 4);
}

/// A packet about credit replaces the one of its kind and leaves the other; nothing else is
/// taken.
pub proof fn law_later_credit_replaces_its_kind(
    credit: DeferredCredit,
    packet: MuxerRx,
    fwd_cnt: u32,
)
    requires
        credit.wf(),
    ensures
        match credit.pushed(packet, fwd_cnt) {
            Some(next) => {
                &&& credit.enabled && next.enabled
                &&& packet is CreditRequest || packet is CreditUpdate
                &&& packet is CreditRequest ==> next.request == Some(packet.with_count(fwd_cnt))
                    && next.update == credit.update
                &&& packet is CreditUpdate ==> next.update == Some(packet.with_count(fwd_cnt))
                    && next.request == credit.request
            },
            None => !credit.enabled || !(packet is CreditRequest || packet is CreditUpdate),
        },
{
}

/// What was sent and told of adds up: bytes from the guest are counted from where the count was,
/// and the guest is told once at least half of its buffer has come since it was last told.
pub proof fn law_consumed_bytes_are_told_by_halves(counters: Counters, count: u32, since: u32)
    requires
        counters.tx_cnt == (counters.last_tx_cnt_sent + since) % 0x1_0000_0000,
    ensures
        counters.sent(count).tx_cnt == (counters.tx_cnt + count) % 0x1_0000_0000,
        counters.sent(count).last_tx_cnt_sent == counters.last_tx_cnt_sent,
        counters.owes_update() <==> since >= counters.peer_buf_alloc / 2,
        counters.told().tx_cnt == counters.tx_cnt,
        counters.peer_buf_alloc >= 2 ==> !counters.told().owes_update(),
        counters.told() == (Counters {
            last_tx_cnt_sent: counters.told().last_tx_cnt_sent,
            ..counters
        }),
{
}

/// Nothing is read into a packet without room or credit. What is read closes the connection
/// exactly if it is nothing, and is given on in full otherwise.
pub proof fn law_reading_needs_room_and_credit(
    counters: Counters,
    room: usize,
    count: usize,
    reply: RecvReply,
)
    ensures
        recv_spec(counters, None, reply) == RecvPkt::Error,
        room == 0 || counters.credit() == 0 ==> recv_spec(counters, Some(room), reply)
            == RecvPkt::WaitForCredit,
        room > 0 && counters.credit() > 0 ==> {
            &&& recv_spec(counters, Some(room), RecvReply::Count(0)) == RecvPkt::Close
            &&& count > 0 ==> recv_spec(counters, Some(room), RecvReply::Count(count))
                == RecvPkt::Read(count)
            &&& recv_spec(counters, Some(room), RecvReply::WouldBlock) == RecvPkt::Error
            &&& recv_spec(counters, Some(room), RecvReply::Failed) == RecvPkt::Error
        },
        counters.limit(room) <= room,
        counters.limit(room) <= counters.credit(),
        counters.limit(room) == room || counters.limit(room) == counters.credit(),
{
}

/// The first packet that is not filled ends the turn, and says why; one that is filled does not.
pub proof fn law_turns_end_at_the_first_unfilled_packet(turn: Receiving, result: RecvPkt)
    ensures
        ({
            let next = turn.next(result);
            match result {
                RecvPkt::Read(_) => next.have_used && next.stopped == turn.stopped && next.closed
                    == turn.closed && next.wait_credit == turn.wait_credit,
                RecvPkt::WaitForCredit => next.stopped && next.wait_credit && next.closed
                    == turn.closed && next.have_used == turn.have_used,
                RecvPkt::Close => next.stopped && next.closed && next.wait_credit
                    == turn.wait_credit && next.have_used == turn.have_used,
                RecvPkt::Error => next.stopped && next.closed == turn.closed && next.wait_credit
                    == turn.wait_credit && next.have_used == turn.have_used,
            }
        }),
        !Receiving::start().stopped && !Receiving::start().closed && !Receiving::start().wait_credit
            && !Receiving::start().have_used,
{
}

/// Bytes that went to the guest are counted once each, and with the 44 bytes of their header in
/// what was pushed.
pub proof fn law_bytes_to_the_guest_are_counted(counters: Counters, count: usize)
    requires
        count <= 0xffff_0000,
    ensures
        counters.received(count).rx_cnt == (counters.rx_cnt + count) % 0x1_0000_0000,
        counters.received(count).push_cnt == (counters.push_cnt + 44 + count) % 0x1_0000_0000,
        counters.received(count).tx_cnt == counters.tx_cnt,
        counters.received(count).peer_buf_alloc == counters.peer_buf_alloc,
        counters.received(count).peer_fwd_cnt == counters.peer_fwd_cnt,
        counters.received(count).last_tx_cnt_sent == counters.last_tx_cnt_sent,
{
}

/// The guest has room for what it buffers, but for what went to it and was not consumed. The
/// counters wrap; a new connection has counted nothing and knows of no room.
pub proof fn law_room_is_what_is_not_underway(counters: Counters)
    ensures
        0 <= counters.credit() < 0x1_0000_0000,
        (counters.credit() + counters.rx_cnt - counters.peer_fwd_cnt - counters.peer_buf_alloc)
            % 0x1_0000_0000 == 0,
        counters.peer_fwd_cnt <= counters.rx_cnt && counters.rx_cnt - counters.peer_fwd_cnt
            <= counters.peer_buf_alloc ==> counters.credit() + (counters.rx_cnt
            - counters.peer_fwd_cnt) == counters.peer_buf_alloc,
        Counters::zero().credit() == 0,
        Counters::zero().rx_cnt == 0 && Counters::zero().tx_cnt == 0
            && Counters::zero().last_tx_cnt_sent == 0 && Counters::zero().push_cnt == 0,
{
}

/// A connection that asks for nothing is kept, and changes neither what is watched nor the queue
/// nor its socket.
pub proof fn law_nothing_asks_for_nothing()
    ensures
        ({
            let update = ProxyUpdate::nothing();
            &&& !update.signal_queue && update.remove_proxy == ProxyRemoval::Keep
            &&& update.polling is None && update.new_proxy is None
            &&& update.push_accept is None && update.push_credit_req is None
            &&& Handled::nothing().update == update && Handled::nothing().push is None
            &&& !Handled::nothing().set_blocking && !Handled::nothing().shutdown_both
        }),
{
}

/// What a descriptor is watched for is what is named, and nothing else.
pub proof fn law_events_are_those_named()
    ensures
        ({
            let quiet = |events: EventSet|
                !events.error && !events.hang_up && !events.read_hang_up && !events.edge_triggered;
            &&& quiet(EventSet::none()) && !EventSet::none().input && !EventSet::none().output
            &&& quiet(EventSet::only_input()) && EventSet::only_input().input
                && !EventSet::only_input().output
            &&& quiet(EventSet::only_output()) && !EventSet::only_output().input
                && EventSet::only_output().output
            &&& quiet(EventSet::both()) && EventSet::both().input && EventSet::both().output
        }),
{
}

} // verus!
