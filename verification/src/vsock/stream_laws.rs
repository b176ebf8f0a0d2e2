//! What the guest is told of its programs' stream sockets, by what happened to them.
use crate::events::EventSet;
use crate::platform::HostPlatform;
use crate::vsock::defs::{AddressFamily, PacketHeader, SocketAddress};
use crate::vsock::proxy::{MuxerRx, NewProxyType, ProxyRemoval, ProxyStatus, ProxyUpdate, Receiving};
use crate::vsock::tsi_dgram::{BindTarget, TsiDgramProxy};
use crate::vsock::tsi_stream::{mapped_address, TsiStreamProxy};
use vstd::prelude::*;

verus! {

/// A guest that connects is told once how it went, at the port that it asked from: that the
/// connection is there exactly when the socket becomes connected, and a negative number exactly
/// when it is closed instead. Until then it is told nothing.
pub proof fn law_connecting_guests_are_told_how_it_went(
    proxy: TsiStreamProxy,
    events: EventSet,
    turn: Receiving,
    accepted: Option<i32>,
)
    requires
        proxy.status == ProxyStatus::Connecting,
    ensures
        ({
            let (next, handled) = proxy.event_spec(events, turn, accepted);
            match next.status {
                ProxyStatus::Connected => {
                    &&& !events.hang_up && events.output
                    &&& handled.push == Some(
                        MuxerRx::ConnResponse {
                            local_port: 1025,
                            peer_port: proxy.control_port,
                            result: 0,
                        },
                    )
                    &&& handled.update.signal_queue
                    &&& handled.update.remove_proxy == ProxyRemoval::Keep
                    &&& handled.set_blocking <==> proxy.platform != HostPlatform::Windows
                },
                ProxyStatus::Closed => {
                    &&& events.hang_up
                    &&& handled.push matches Some(MuxerRx::ConnResponse {
                        local_port,
                        peer_port,
                        result,
                    })
                    &&& local_port == 1025 && peer_port == proxy.control_port && result < 0
                    &&& result == if proxy.platform == HostPlatform::Macos {
                        -61int
                    } else {
                        -111int
                    }
                    &&& handled.update.signal_queue
                    &&& handled.update.remove_proxy == ProxyRemoval::Deferred
                },
                ProxyStatus::Connecting => {
                    &&& !events.hang_up && !events.output
                    &&& handled.push is None
                    &&& handled.update == ProxyUpdate::nothing()
                },
                _ => false,
            }
        }),
{
}

/// A socket that the host closes, or whose peer is gone, is reset for the guest under its own
/// ports, and only then; a socket that is gone for good leaves once the guest has let go of it.
pub proof fn law_closed_sockets_are_reset(
    proxy: TsiStreamProxy,
    events: EventSet,
    turn: Receiving,
    accepted: Option<i32>,
)
    requires
        proxy.status != ProxyStatus::Connecting,
    ensures
        ({
            let (next, handled) = proxy.event_spec(events, turn, accepted);
            let read = !events.hang_up && events.input && proxy.status == ProxyStatus::Connected;
            &&& handled.push is Some <==> events.hang_up || (read && turn.closed
                && !turn.wait_credit)
            &&& handled.push is Some ==> {
                &&& handled.push == Some(
                    MuxerRx::Reset { local_port: proxy.local_port, peer_port: proxy.peer_port },
                )
                &&& next.status == ProxyStatus::Closed
                &&& handled.update.signal_queue
            }
            &&& handled.update.remove_proxy == ProxyRemoval::Deferred <==> events.hang_up
            &&& !handled.set_blocking
        }),
{
}

/// An event changes nothing of a socket but its status, and closes or unwatches no socket under
/// another number.
pub proof fn law_events_change_only_the_status(
    proxy: TsiStreamProxy,
    events: EventSet,
    turn: Receiving,
    accepted: Option<i32>,
)
    ensures
        ({
            let (next, handled) = proxy.event_spec(events, turn, accepted);
            &&& next == (TsiStreamProxy { status: next.status, ..proxy })
            &&& handled.update.polling matches Some(polling) ==> {
                &&& polling.id == proxy.id
                &&& polling.fd == proxy.fd
                &&& !polling.events.input && !polling.events.output
            }
            &&& handled.update.push_accept is None
            &&& !handled.shutdown_both
        }),
{
}

/// A listening socket hands over each connection that the host accepted, for the port that the
/// guest listens at, and goes on listening.
pub proof fn law_listening_sockets_hand_over_connections(
    proxy: TsiStreamProxy,
    events: EventSet,
    turn: Receiving,
    accepted: Option<i32>,
)
    requires
        !events.hang_up,
    ensures
        ({
            let (next, handled) = proxy.event_spec(events, turn, accepted);
            let open = proxy.status == ProxyStatus::Listening || proxy.status
                == ProxyStatus::WaitingOnAccept;
            &&& handled.update.new_proxy is Some <==> open && events.input && accepted is Some
            &&& handled.update.new_proxy matches Some(new) ==> {
                &&& Some(new.fd) == accepted
                &&& new.peer_port == proxy.peer_port
                &&& new.family == proxy.family
                &&& new.kind == NewProxyType::Tcp
            }
            &&& open ==> next == proxy
            &&& open && events.input ==> handled.update.signal_queue
        }),
{
}

/// A connected socket that has data is read. Where the guest has no room left the socket rests
/// and the guest is asked for credit, with the count of what came from it; where the peer has
/// closed the socket is closed; else it goes on as before.
pub proof fn law_reading_rests_without_credit(
    proxy: TsiStreamProxy,
    events: EventSet,
    turn: Receiving,
    accepted: Option<i32>,
)
    requires
        !events.hang_up,
        events.input,
        proxy.status == ProxyStatus::Connected,
    ensures
        ({
            let (next, handled) = proxy.event_spec(events, turn, accepted);
            &&& handled.update.push_credit_req == if turn.wait_credit {
                Some(
                    MuxerRx::CreditRequest {
                        local_port: proxy.local_port,
                        peer_port: proxy.peer_port,
                        fwd_cnt: proxy.counters.tx_cnt,
                    },
                )
            } else {
                None::<MuxerRx>
            }
            &&& next.status == ProxyStatus::WaitingCreditUpdate <==> turn.wait_credit
            &&& next.status == ProxyStatus::Closed <==> turn.closed && !turn.wait_credit
            &&& next.status == ProxyStatus::Connected <==> !turn.closed && !turn.wait_credit
            &&& next.status == ProxyStatus::Connected ==> handled.update.polling is None
            &&& next.status != ProxyStatus::Connected ==> handled.update.polling is Some
            &&& turn.have_used ==> handled.update.signal_queue
        }),
{
}

/// A program that asks for a connection gets one that was accepted, if there is one, and one
/// fewer is kept. Without one it waits, and hears nothing until there is one, unless it said
/// that it would not: then it hears of that as an error. The answer goes to the port that it
/// asked from.
pub proof fn law_accepting_programs_are_answered(proxy: TsiStreamProxy, flags: u32)
    ensures
        ({
            let (next, handled) = proxy.accept_spec(flags);
            let willing = flags & (if proxy.platform == HostPlatform::Macos {
                4u32
            } else {
                2048u32
            }) == 0;
            &&& proxy.pending_accepts > 0 ==> {
                &&& next == (TsiStreamProxy { pending_accepts: next.pending_accepts, ..proxy })
                &&& next.pending_accepts + 1 == proxy.pending_accepts
                &&& handled.push == Some(
                    MuxerRx::AcceptResponse {
                        local_port: 1030,
                        peer_port: proxy.control_port,
                        result: 0,
                    },
                )
            }
            &&& proxy.pending_accepts == 0 && !willing ==> {
                &&& next == proxy
                &&& handled.push matches Some(MuxerRx::AcceptResponse {
                    local_port,
                    peer_port,
                    result,
                })
                &&& local_port == 1030 && peer_port == proxy.control_port && result < 0
                &&& result == if proxy.platform == HostPlatform::Macos {
                    -35int
                } else {
                    -11int
                }
            }
            &&& proxy.pending_accepts == 0 && willing ==> {
                &&& next == (TsiStreamProxy { status: ProxyStatus::WaitingOnAccept, ..proxy })
                &&& handled.push is None
            }
            &&& handled.update.signal_queue <==> handled.push is Some
            &&& handled.update.remove_proxy == ProxyRemoval::Keep
            &&& handled.update.polling is None
        }),
{
}

/// A connection that was accepted is given to a program that waits, and to it alone; else it is
/// kept for the next that asks.
pub proof fn law_accepted_connections_are_given_or_kept(proxy: TsiStreamProxy)
    requires
        proxy.pending_accepts < u64::MAX,
    ensures
        ({
            let (next, packet) = proxy.enqueue_spec();
            if proxy.status == ProxyStatus::WaitingOnAccept {
                &&& packet == Some(
                    MuxerRx::AcceptResponse {
                        local_port: 1030,
                        peer_port: proxy.control_port,
                        result: 0,
                    },
                )
                &&& next == (TsiStreamProxy { status: ProxyStatus::Listening, ..proxy })
            } else {
                &&& packet is None
                &&& next == (TsiStreamProxy { pending_accepts: next.pending_accepts, ..proxy })
                &&& next.pending_accepts == proxy.pending_accepts + 1
            }
        }),
{
}

/// A map of ports changes the port of an address and leaves the host that it names. A port that
/// is not in the map stays.
pub proof fn law_port_maps_change_only_the_port(
    platform: HostPlatform,
    map: Map<u16, u16>,
    address: SocketAddress,
)
    ensures
        match (address, mapped_address(platform, map, address)) {
            (SocketAddress::V4 { ip4, port }, Some(SocketAddress::V4 { ip4: host, port: mapped })) => {
                &&& host == ip4
                &&& map.dom().contains(port) ==> mapped == map[port]
                &&& !map.dom().contains(port) ==> mapped == port
            },
            (
                SocketAddress::V6 { ip, port, flowinfo, scope_id },
                Some(SocketAddress::V6 { ip: host, port: mapped, flowinfo: label, scope_id: scope }),
            ) => {
                &&& host == ip && label == flowinfo
                &&& map.dom().contains(port) && platform != HostPlatform::Windows ==> mapped
                    == map[port] && scope == flowinfo
                &&& !map.dom().contains(port) || platform == HostPlatform::Windows ==> mapped
                    == port && scope == scope_id
            },
            (SocketAddress::Unix(path), Some(SocketAddress::Unix(same))) => same == path,
            (SocketAddress::Other(family), Some(SocketAddress::Other(same))) => platform
                == HostPlatform::Windows && same == family,
            (SocketAddress::Other(_), None) => platform != HostPlatform::Windows,
            _ => false,
        },
{
}

/// What the guest says of its buffer is what its room is counted by: with nothing on the way it
/// has the whole buffer, and each byte on the way takes one. Nothing else changes.
pub proof fn law_guests_room_is_what_it_said(
    proxy: TsiStreamProxy,
    packet: PacketHeader,
    on_way: u32,
)
    requires
        proxy.counters.rx_cnt == (packet.fwd_cnt + on_way) % 0x1_0000_0000,
        on_way <= packet.buf_alloc,
    ensures
        proxy.with_peer(packet).counters.credit() == packet.buf_alloc - on_way,
        proxy.with_peer(packet).counters.rx_cnt == proxy.counters.rx_cnt,
        proxy.with_peer(packet).counters.tx_cnt == proxy.counters.tx_cnt,
        proxy.with_peer(packet).counters.last_tx_cnt_sent == proxy.counters.last_tx_cnt_sent,
        proxy.with_peer(packet) == (TsiStreamProxy {
            counters: proxy.with_peer(packet).counters,
            ..proxy
        }),
{
}

/// A peer's address is told with its length exactly if it is of the socket's own family.
pub proof fn law_only_addresses_of_the_family_are_told(
    proxy: TsiStreamProxy,
    address: SocketAddress,
    len: u32,
)
    ensures
        proxy.addr_len(address, len) is Some <==> match proxy.family {
            AddressFamily::Inet => address is V4,
            AddressFamily::Inet6 => address is V6,
            AddressFamily::Unix => address is Unix,
        },
        proxy.addr_len(address, len) is Some ==> proxy.addr_len(address, len) == Some(len),
{
}

/// A socket that is connecting is watched for being writable, once each time that it becomes so.
pub proof fn law_connecting_sockets_are_watched_for_the_outcome()
    ensures
        ({
            let events = TsiStreamProxy::connecting_events();
            &&& events.output && events.edge_triggered
            &&& !events.input && !events.error && !events.hang_up && !events.read_hang_up
        }),
{
}

/// A datagram socket is bound to any address of its own family; one without addresses can be
/// bound on Linux only.
pub proof fn law_datagram_sockets_are_bound_in_their_family(proxy: TsiDgramProxy)
    ensures
        proxy.family == AddressFamily::Inet <==> proxy.bind_target() == Some(BindTarget::AnyV4),
        proxy.family == AddressFamily::Inet6 <==> proxy.bind_target() == Some(BindTarget::AnyV6),
        proxy.family == AddressFamily::Unix ==> (proxy.bind_target() == Some(BindTarget::Unnamed)
            <==> proxy.platform == HostPlatform::Linux),
        proxy.bind_target() is None <==> proxy.family == AddressFamily::Unix && proxy.platform
            != HostPlatform::Linux,
{
}

} // verus!
