//! What the guest is told of its connections to the host, by what happened to them.
use crate::events::EventSet;
use crate::platform::HostPlatform;
use crate::vsock::defs::PacketHeader;
use crate::vsock::proxy::{MuxerRx, NewProxyType, ProxyRemoval, ProxyStatus, ProxyUpdate, Receiving};
use crate::vsock::unix_proxy::{EventOutcome, UnixProxy};
use vstd::prelude::*;

verus! {

/// The bytes of the pieces, one after the other.
pub open spec fn joined(pieces: Seq<Vec<u8>>) -> Seq<u8>
    decreases pieces.len(),
{
    if pieces.len() == 0 {
        Seq::empty()
    } else {
        pieces[0]@ + joined(pieces.drop_first())
    }
}

/// A piece that is put behind the others has its bytes behind theirs.
pub(crate) proof fn lemma_joined_push(pieces: Seq<Vec<u8>>, piece: Vec<u8>)
    ensures
        joined(pieces.push(piece)) == joined(pieces) + piece@,
    decreases pieces.len(),
{
    if pieces.len() == 0 {
        let rest = pieces.push(piece).drop_first();
        assert(rest.len() == 0);
        assert(joined(rest) == Seq::<u8>::empty());
        assert(joined(pieces.push(piece)) =~= piece@ + joined(rest));
        assert(joined(pieces) + piece@ =~= piece@);
    } else {
        lemma_joined_push(pieces.drop_first(), piece);
        assert(pieces.push(piece).drop_first() =~= pieces.drop_first().push(piece));
        assert(joined(pieces.push(piece)) =~= joined(pieces) + piece@);
    }
}

impl UnixProxy {
    /// What the guest has written and the socket has not taken, in the order it was written.
    pub open spec fn unsent(self) -> Seq<u8> {
        joined(self.pending_tx@).skip(self.pending_tx_offset as int)
    }
}

/// A guest that connects is told once how it went, at the port that it asked from: that the
/// connection is there exactly when it becomes connected, and a negative number exactly when it
/// is closed instead. Until then it is told nothing.
pub proof fn law_connecting_guests_are_told_how_it_went(
    proxy: UnixProxy,
    events: EventSet,
    turn: Receiving,
    accepted: Option<i32>,
)
    requires
        proxy.status == ProxyStatus::Connecting,
    ensures
        ({
            let (next, outcome) = proxy.event_spec(events, turn, accepted);
            let handled = outcome.handled;
            match next.status {
                ProxyStatus::Connected => {
                    &&& !events.hang_up && events.output
                    &&& handled.push == Some(
                        MuxerRx::ConnResponse {
                            local_port: 1025,
                            peer_port: proxy.control_port,
                            result: 0,
                        },
                    )
                    &&& handled.update.signal_queue
                    &&& handled.update.remove_proxy == ProxyRemoval::Keep
                    &&& handled.update.polling matches Some(polling)
                    &&& polling.events.input && !polling.events.output
                    &&& handled.set_blocking <==> proxy.platform != HostPlatform::Windows
                        && !proxy.mux_transport
                },
                ProxyStatus::Closed => {
                    &&& events.hang_up
                    &&& handled.push matches Some(MuxerRx::ConnResponse {
                        local_port,
                        peer_port,
                        result,
                    })
                    &&& local_port == 1025 && peer_port == proxy.control_port && result < 0
                    &&& result == if proxy.platform == HostPlatform::Macos {
                        -61int
                    } else {
                        -111int
                    }
                    &&& handled.update.signal_queue
                    &&& handled.update.remove_proxy == ProxyRemoval::Deferred
                },
                ProxyStatus::Connecting => {
                    &&& !events.hang_up && !events.output
                    &&& handled.push is None
                    &&& handled.update == ProxyUpdate::nothing()
                },
                _ => false,
            }
        }),
{
}

/// A connection that is connecting no more is reset for the guest under its own ports when its
/// socket hangs up or its peer is gone. A peer that has only closed its side of a connection over
/// a control channel ends the reading of the guest and nothing else.
pub proof fn law_ended_connections_are_reset(
    proxy: UnixProxy,
    events: EventSet,
    turn: Receiving,
    accepted: Option<i32>,
)
    requires
        proxy.status != ProxyStatus::Connecting,
    ensures
        ({
            let (next, outcome) = proxy.event_spec(events, turn, accepted);
            let handled = outcome.handled;
            let over = !events.hang_up && events.input && proxy.status == ProxyStatus::Connected
                && turn.closed && !turn.wait_credit;
            let half = over && proxy.mux_transport && proxy.platform != HostPlatform::Windows;
            &&& handled.push is Some <==> events.hang_up || over
            &&& events.hang_up || (over && !half) ==> handled.push == Some(
                MuxerRx::Reset { local_port: proxy.local_port, peer_port: proxy.peer_port },
            ) && next.status == ProxyStatus::Closed
            &&& half ==> handled.push == Some(
                MuxerRx::Shutdown {
                    local_port: proxy.local_port,
                    peer_port: proxy.peer_port,
                    flags: 2,
                },
            ) && next.status == ProxyStatus::PeerHalfClosed
            &&& handled.push is Some ==> handled.update.signal_queue
            &&& handled.update.remove_proxy == ProxyRemoval::Deferred <==> events.hang_up
            &&& handled.update.remove_proxy != ProxyRemoval::Immediate
            &&& !handled.shutdown_both && !handled.set_blocking
        }),
{
}

/// An event changes nothing of a connection but its status, and watches no socket but its own.
pub proof fn law_events_change_only_the_status(
    proxy: UnixProxy,
    events: EventSet,
    turn: Receiving,
    accepted: Option<i32>,
)
    ensures
        ({
            let (next, outcome) = proxy.event_spec(events, turn, accepted);
            &&& next == (UnixProxy { status: next.status, ..proxy })
            &&& outcome.handled.update.polling matches Some(polling) ==> polling.id == proxy.id
                && polling.fd == proxy.fd
            &&& outcome.handled.update.push_accept is None
        }),
{
}

/// A connection that has data is read. Where the guest has no room left it rests and the guest
/// is asked for credit, with the count of what came from it; it is not read again before.
pub proof fn law_reading_rests_without_credit(
    proxy: UnixProxy,
    events: EventSet,
    turn: Receiving,
    accepted: Option<i32>,
)
    requires
        !events.hang_up,
        events.input,
        proxy.status == ProxyStatus::Connected,
    ensures
        ({
            let (next, outcome) = proxy.event_spec(events, turn, accepted);
            let update = outcome.handled.update;
            &&& update.push_credit_req == if turn.wait_credit {
                Some(
                    MuxerRx::CreditRequest {
                        local_port: proxy.local_port,
                        peer_port: proxy.peer_port,
                        fwd_cnt: proxy.counters.tx_cnt,
                    },
                )
            } else {
                None::<MuxerRx>
            }
            &&& next.status == ProxyStatus::WaitingCreditUpdate <==> turn.wait_credit
            &&& next.status == ProxyStatus::Connected <==> !turn.wait_credit && !turn.closed
            &&& next.status == ProxyStatus::Connected ==> update.polling is None
            &&& next.status != ProxyStatus::Connected ==> {
                &&& update.polling matches Some(polling)
                &&& !polling.events.input
            }
            &&& turn.have_used ==> update.signal_queue
        }),
{
}

/// When a socket can be written, what waits for it is sent: first the line that the host waits
/// for, else what the guest has written. A connection that waits for neither sends nothing.
pub proof fn law_writable_sockets_are_written(
    proxy: UnixProxy,
    events: EventSet,
    turn: Receiving,
    accepted: Option<i32>,
)
    ensures
        ({
            let EventOutcome { then: work, .. } = proxy.event_spec(events, turn, accepted).1;
            let host = proxy.platform != HostPlatform::Windows && events.output && !events.hang_up;
            &&& work is FlushResponse <==> host && proxy.status
                == ProxyStatus::SendingConnectResponse
            &&& work is FlushPending ==> host && proxy.mux_transport && proxy.pending_tx@.len() > 0
            &&& host && proxy.mux_transport && proxy.pending_tx@.len() > 0 && (proxy.status
                == ProxyStatus::WaitingCreditUpdate || proxy.status == ProxyStatus::PeerHalfClosed
                || (proxy.status == ProxyStatus::Connected && (!events.input || !turn.closed
                || turn.wait_credit))) ==> work is FlushPending
        }),
{
}

/// On Windows a listening socket hands over each connection that was accepted, for the port that
/// the guest listens at.
pub proof fn law_listening_sockets_hand_over_connections(
    proxy: UnixProxy,
    events: EventSet,
    turn: Receiving,
    accepted: Option<i32>,
)
    requires
        !events.hang_up,
    ensures
        ({
            let (next, outcome) = proxy.event_spec(events, turn, accepted);
            let open = proxy.platform == HostPlatform::Windows && (proxy.status
                == ProxyStatus::Listening || proxy.status == ProxyStatus::WaitingOnAccept);
            &&& outcome.handled.update.new_proxy is Some <==> open && events.input && accepted
                is Some
            &&& outcome.handled.update.new_proxy matches Some(new) ==> Some(new.fd) == accepted
                && new.peer_port == proxy.peer_port && new.kind == NewProxyType::Unix
            &&& open ==> next == proxy
        }),
{
}

/// A connection that the host grants is confirmed to the guest under its own ports and read from
/// then on; one that fails is reset and goes away at once, with its socket shut down.
pub proof fn law_granted_or_failed(proxy: UnixProxy)
    ensures
        proxy.admitted().push == Some(
            MuxerRx::OpResponse { local_port: proxy.local_port, peer_port: proxy.peer_port },
        ),
        proxy.admitted().update.signal_queue,
        proxy.admitted().update.remove_proxy == ProxyRemoval::Keep,
        proxy.admitted().update.polling matches Some(polling) && polling.id == proxy.id
            && polling.fd == proxy.fd && polling.events.input && !polling.events.output,
        proxy.failed().push == Some(
            MuxerRx::Reset { local_port: proxy.local_port, peer_port: proxy.peer_port },
        ),
        proxy.failed().update.signal_queue,
        proxy.failed().update.remove_proxy == ProxyRemoval::Immediate,
        proxy.failed().shutdown_both,
        proxy.failed().update.polling matches Some(polling) && polling.id == proxy.id && polling.fd
            == proxy.fd && !polling.events.input && !polling.events.output,
        proxy.ended().status == ProxyStatus::Closed,
        proxy.ended() == (UnixProxy { status: ProxyStatus::Closed, ..proxy }),
{
}

/// A connection over which data was to flow goes away only once nothing of it is on its way; one
/// that never came to that goes away at once.
pub proof fn law_used_connections_go_away_later(proxy: UnixProxy)
    ensures
        proxy.status == ProxyStatus::Connected || proxy.status == ProxyStatus::WaitingCreditUpdate
            || proxy.status == ProxyStatus::PeerHalfClosed || proxy.status == ProxyStatus::Closed
            || proxy.status == ProxyStatus::Listening || proxy.status
            == ProxyStatus::WaitingOnAccept || proxy.status == ProxyStatus::Idle
            ==> proxy.removal() == ProxyRemoval::Deferred,
        proxy.status == ProxyStatus::ReverseInit || proxy.status == ProxyStatus::Connecting
            ==> proxy.removal() == ProxyRemoval::Immediate,
        proxy.status == ProxyStatus::WaitingOnHost || proxy.status
            == ProxyStatus::SendingConnectResponse ==> (proxy.removal() == ProxyRemoval::Immediate
            <==> proxy.platform != HostPlatform::Windows),
        proxy.removal() != ProxyRemoval::Keep,
{
}

/// A socket is watched for input exactly while its connection takes any, and for output exactly
/// while something waits that may be sent.
pub proof fn law_sockets_are_watched_for_what_is_wanted(proxy: UnixProxy)
    ensures
        proxy.mux_events().input <==> proxy.status == ProxyStatus::Connected,
        proxy.mux_events().output <==> proxy.pending_tx@.len() > 0 && (proxy.status
            == ProxyStatus::Connected || proxy.status == ProxyStatus::WaitingCreditUpdate
            || proxy.status == ProxyStatus::PeerHalfClosed),
        !proxy.mux_events().hang_up && !proxy.mux_events().edge_triggered,
{
}

/// What the guest says of its buffer is what its room is counted by: with nothing on the way it
/// has the whole buffer, and each byte on the way takes one.
pub proof fn law_guests_room_is_what_it_said(proxy: UnixProxy, packet: PacketHeader, on_way: u32)
    requires
        proxy.counters.rx_cnt == (packet.fwd_cnt + on_way) % 0x1_0000_0000,
        on_way <= packet.buf_alloc,
    ensures
        proxy.with_peer(packet).counters.credit() == packet.buf_alloc - on_way,
        proxy.with_peer(packet).counters.rx_cnt == proxy.counters.rx_cnt,
        proxy.with_peer(packet).counters.tx_cnt == proxy.counters.tx_cnt,
        proxy.credited(packet).counters == proxy.with_peer(packet).counters,
        proxy.credited(packet) == (UnixProxy {
            status: proxy.credited(packet).status,
            ..proxy.with_peer(packet)
        }),
        proxy.with_peer(packet) == (UnixProxy {
            counters: proxy.with_peer(packet).counters,
            ..proxy
        }),
        !proxy.mux_transport ==> proxy.credited(packet).status == ProxyStatus::Connected,
{
}

/// After a turn of reading the guest is told how the connection stands: that its peer sends
/// nothing more, that it is over, or nothing. Credit is asked for exactly where it ran out. Where
/// the connection no longer reads, its socket is watched only for room for data that still waits,
/// and for nothing where it is over.
pub proof fn law_turns_of_reading_are_told(proxy: UnixProxy, turn: Receiving)
    ensures
        ({
            let status = proxy.filled(turn).status;
            let handled = proxy.filled_handled(turn);
            &&& status == ProxyStatus::PeerHalfClosed ==> (handled.push matches Some(
                MuxerRx::Shutdown { local_port, peer_port, flags },
            ) && local_port == proxy.local_port && peer_port == proxy.peer_port && flags == 2)
            &&& status == ProxyStatus::Closed ==> (handled.push matches Some(
                MuxerRx::Reset { local_port, peer_port },
            ) && local_port == proxy.local_port && peer_port == proxy.peer_port)
            &&& status != ProxyStatus::PeerHalfClosed && status != ProxyStatus::Closed
                ==> handled.push is None
            &&& handled.update.signal_queue <==> turn.have_used || handled.push is Some
            &&& handled.update.push_credit_req is Some <==> turn.wait_credit
            &&& handled.update.push_credit_req matches Some(packet) ==> packet is CreditRequest
            &&& handled.update.polling is None <==> status == ProxyStatus::Connected
            &&& handled.update.polling matches Some(polling) ==> {
                &&& polling.id == proxy.id && polling.fd == proxy.fd
                &&& !polling.events.input
                &&& polling.events.output <==> status != ProxyStatus::Closed && proxy.platform
                    != HostPlatform::Windows && proxy.pending_tx@.len() > 0
            }
        }),
{
}

} // verus!
