//! What becomes of each connection of the table.
use crate::platform::HostPlatform;
use crate::vsock::defs::AddressFamily;
use crate::vsock::muxer_thread::{
    connection, listening_spec, wait_timeout_spec, IpcPort, NewConnection, SourcePortAllocator,
};
use crate::vsock::proxy::{
    MuxerRx, NewProxy, NewProxyType, ProxyRemoval, ProxyStatus, ProxyUpdate, Receiving,
};
use crate::vsock::table::{
    accepted_after, accepted_into, channel_ended, failures, given_up, host_connected,
    request_finished, retried, update_applied, victims, without, AnyProxy, Applied, Outcome,
    ProxyTable, Served,
};
use crate::vsock::tsi_dgram::{BindTarget, TsiDgramProxy};
use vstd::prelude::*;

verus! {

/// A connection stays in the table as long as it asks for, and one that is to go delivers
/// nothing more meanwhile. No other connection is touched, whatever one asks for.
pub proof fn law_updates_concern_their_own_connection(
    before: ProxyTable,
    after: ProxyTable,
    id: u64,
    update: ProxyUpdate,
    room: Option<usize>,
    reaper: Option<bool>,
    applied: Applied,
    other: u64,
)
    requires
        update_applied(before, after, id, update, room, reaper, applied),
    ensures
        other != id ==> (after.proxies@.contains_key(other) <==> before.proxies@.contains_key(
            other,
        )) && (before.proxies@.contains_key(other) ==> after.proxies@[other]
            == before.proxies@[other]),
        update.remove_proxy == ProxyRemoval::Immediate ==> !after.proxies@.contains_key(id),
        update.remove_proxy == ProxyRemoval::Keep && before.proxies@.contains_key(id)
            ==> after.proxies@.contains_key(id) && after.proxies@[id].status_spec()
            == before.proxies@[id].status_spec(),
        update.remove_proxy == ProxyRemoval::Deferred && before.proxies@.contains_key(id) ==> {
            &&& after.proxies@.contains_key(id) <==> reaper != Some(false)
            &&& after.proxies@.contains_key(id) ==> {
                &&& after.proxies@[id].status_spec() == before.proxies@[id].status_spec()
                &&& after.proxies@[id].credit() matches Some((kept, _)) ==> !kept.enabled
            }
        },
        update.remove_proxy != ProxyRemoval::Keep ==> applied.packets@.len() == 0,
        applied.reap ==> update.remove_proxy == ProxyRemoval::Deferred && reaper == Some(true),
        update.signal_queue ==> applied.signal,
{
}

/// When the control channel has failed, the guest is told of each connection over it that ended,
/// by a reset under the connection's own ports, and of no other.
pub proof fn law_ended_connections_are_told(
    before: ProxyTable,
    after: ProxyTable,
    waiting: Seq<u64>,
    outcomes: Seq<Outcome>,
    id: u64,
    k: int,
)
    requires
        channel_ended(before, after, waiting, outcomes),
    ensures
        before.proxies@.contains_key(id) && before.proxies@[id].over_channel() ==> exists|i: int|
            0 <= i < outcomes.len() && (#[trigger] outcomes[i]).id == id,
        0 <= k < outcomes.len() ==> {
            let told = outcomes[k];
            &&& before.proxies@.contains_key(told.id)
            &&& before.proxies@[told.id] matches AnyProxy::Unix(proxy)
            &&& proxy.mux_transport
            &&& told.handled.push == Some(
                MuxerRx::Reset { local_port: proxy.local_port, peer_port: proxy.peer_port },
            )
            &&& told.handled.shutdown_both
            &&& told.handled.update.signal_queue
            &&& !after.proxies@.contains_key(told.id)
        },
{
    let ids = choose|ids: Seq<u64>|
        {
            &&& #[trigger] victims(before.proxies@, waiting, ids)
            &&& after.proxies@ == without(before.proxies@, ids)
            &&& outcomes == failures(before.proxies@, ids)
        };
    lemma_failures(before.proxies@, ids, id);
    if 0 <= k < outcomes.len() {
        assert(ids.contains(outcomes[k].id));
        assert(ids.to_set().contains(outcomes[k].id));
    }
}

proof fn lemma_failures(proxies: Map<u64, AnyProxy>, ids: Seq<u64>, id: u64)
    ensures
        ids.contains(id) && proxies.contains_key(id) && proxies[id].over_channel() ==> exists|
            i: int,
        |
            0 <= i < failures(proxies, ids).len() && (#[trigger] failures(proxies, ids)[i]).id
                == id,
        forall|k: int|
            0 <= k < failures(proxies, ids).len() ==> {
                let told = #[trigger] failures(proxies, ids)[k];
                &&& ids.contains(told.id)
                &&& proxies.contains_key(told.id)
                &&& proxies[told.id].over_channel()
                &&& told.handled == proxies[told.id]->Unix_0.failed()
            },
    decreases ids.len(),
{
    if ids.len() > 0 {
        let rest = ids.drop_last();
        lemma_failures(proxies, rest, id);
        let some = failures(proxies, rest);
        let all = failures(proxies, ids);
        assert(ids[ids.len() - 1] == ids.last());
        assert forall|k: int| 0 <= k < all.len() implies {
            let told = #[trigger] all[k];
            &&& ids.contains(told.id)
            &&& proxies.contains_key(told.id)
            &&& proxies[told.id].over_channel()
            &&& told.handled == proxies[told.id]->Unix_0.failed()
        } by {
            if k < some.len() {
                assert(all[k] == some[k]);
                let j = choose|j: int| 0 <= j < rest.len() && rest[j] == some[k].id;
                assert(ids[j] == some[k].id);
            }
        }
        if ids.contains(id) && proxies.contains_key(id) && proxies[id].over_channel() {
            if id == ids.last() {
                assert(all[some.len() as int].id == id);
            } else {
                let j = choose|j: int| 0 <= j < ids.len() && ids[j] == id;
                assert(rest[j] == id);
                let i = choose|i: int| 0 <= i < some.len() && (#[trigger] some[i]).id == id;
                assert(all[i].id == id);
            }
        }
    }
}

/// The host's wish for a connection gives the guest a request at the port that the host named,
/// from a port that no other connection has; the connection is the host's socket, and waits for
/// the guest. Every other connection is as it was.
pub proof fn law_hosts_connections_reach_the_guests_port(
    before: ProxyTable,
    after: ProxyTable,
    guest_port: u32,
    fd: i32,
    new: NewConnection,
    packet: MuxerRx,
    other: u64,
)
    requires
        host_connected(before, after, guest_port, fd, Some((new, packet))),
    ensures
        packet matches MuxerRx::OpRequest { local_port, peer_port } && peer_port == guest_port
            && local_port == new.local_port && new.id == guest_port * 0x1_0000_0000 + local_port,
        before.source_ports.start <= new.local_port < before.source_ports.end,
        before.proxies@.contains_key(other) ==> other % 0x1_0000_0000 != new.local_port && other
            != new.id && after.proxies@.contains_key(other) && after.proxies@[other]
            == before.proxies@[other],
        after.proxies@.contains_key(other) && other != new.id ==> before.proxies@.contains_key(
            other,
        ),
        after.proxies@.contains_key(new.id),
        after.proxies@[new.id] matches AnyProxy::Unix(proxy) && proxy.fd == fd && proxy.peer_port
            == guest_port && proxy.local_port == new.local_port && proxy.mux_transport
            && proxy.status == ProxyStatus::ReverseInit && proxy.id == new.id,
{
}

/// The host's answer to a request grants the connection that waited, or takes it away; the guest
/// is told accordingly. An answer that comes too late changes nothing, and no answer touches
/// another connection.
pub proof fn law_answers_grant_or_refuse(
    before: ProxyTable,
    after: ProxyTable,
    id: u64,
    granted: bool,
    result: Option<Outcome>,
    other: u64,
)
    requires
        request_finished(before, after, Some(id), granted, result),
    ensures
        other != id ==> (after.proxies@.contains_key(other) <==> before.proxies@.contains_key(
            other,
        )) && (before.proxies@.contains_key(other) ==> after.proxies@[other]
            == before.proxies@[other]),
        result matches Some(told) ==> {
            &&& told.id == id
            &&& before.proxies@[id] matches AnyProxy::Unix(proxy)
            &&& proxy.mux_transport
            &&& granted ==> {
                &&& proxy.status == ProxyStatus::WaitingOnHost
                &&& told.handled.push == Some(
                    MuxerRx::OpResponse { local_port: proxy.local_port, peer_port: proxy.peer_port },
                )
                &&& after.proxies@.contains_key(id)
                &&& after.proxies@[id].status_spec() == ProxyStatus::Connected
            }
            &&& !granted ==> {
                &&& told.handled.push == Some(
                    MuxerRx::Reset { local_port: proxy.local_port, peer_port: proxy.peer_port },
                )
                &&& !after.proxies@.contains_key(id)
            }
        },
        result is None ==> after.proxies@ == before.proxies@,
        before.proxies@.contains_key(id) && before.proxies@[id].over_channel() && (!granted
            || before.proxies@[id].status_spec() == ProxyStatus::WaitingOnHost) ==> result is Some,
{
}

/// A connection whose request is given up leaves the table, and every other one stays.
pub proof fn law_given_up_connections_leave(proxies: Map<u64, AnyProxy>, ids: Seq<u64>, id: u64)
    ensures
        given_up(proxies, ids).0.contains_key(id) <==> proxies.contains_key(id) && !(ids.contains(
            id,
        ) && proxies[id].over_channel()),
        given_up(proxies, ids).0.contains_key(id) ==> given_up(proxies, ids).0[id] == proxies[id],
        given_up(proxies, ids).1.len() <= ids.len(),
    decreases ids.len(),
{
    if ids.len() > 0 {
        let rest = ids.drop_last();
        law_given_up_connections_leave(proxies, rest, id);
        law_given_up_connections_leave(proxies, rest, ids.last());
        assert(ids[ids.len() - 1] == ids.last());
        if ids.contains(id) && id != ids.last() {
            let j = choose|j: int| 0 <= j < ids.len() && ids[j] == id;
            assert(rest[j] == id);
        }
        if rest.contains(id) {
            let j = choose|j: int| 0 <= j < rest.len() && rest[j] == id;
            assert(ids[j] == id);
        }
    }
}

/// A connection that a socket accepted is the host's descriptor at the guest's port, knows the
/// socket that it came from, and waits for the guest.
pub proof fn law_accepted_connections_wait_for_the_guest(
    table: ProxyTable,
    proxy: AnyProxy,
    parent_id: u64,
    accepted: NewProxy,
    new: NewConnection,
)
    requires
        accepted_into(table, proxy, parent_id, accepted, new),
    ensures
        proxy.status_spec() == ProxyStatus::ReverseInit,
        accepted.kind == NewProxyType::Tcp <==> proxy is Stream,
        proxy matches AnyProxy::Stream(stream) ==> stream.fd == accepted.fd && stream.peer_port
            == accepted.peer_port && stream.local_port == new.local_port && stream.id == new.id
            && stream.parent_id == parent_id && stream.family == accepted.family
            && stream.pending_accepts == 0,
        proxy matches AnyProxy::Unix(unix) ==> unix.fd == accepted.fd && unix.peer_port
            == accepted.peer_port && unix.local_port == new.local_port && unix.id == new.id
            && !unix.mux_transport,
{
}

/// Ports are handed out in turn: the ports that come next are all different, run through the
/// whole range from the next one on, and the one after the last is the first.
pub proof fn law_ports_are_handed_out_in_turn(
    ports: SourcePortAllocator,
    steps: int,
    later: int,
    port: u32,
)
    requires
        ports.wf(),
        ports.start < ports.end,
        0 <= steps < later < ports.end - ports.start,
    ensures
        ports.port_at(0) == ports.next,
        ports.start <= ports.port_at(steps) < ports.end,
        ports.port_at(steps) != ports.port_at(later),
        ports.after(ports.port_at(steps)) == ports.port_at(steps + 1),
        ports.start <= port < ports.end ==> {
            let at = if port >= ports.next {
                port - ports.next
            } else {
                port - ports.next + (ports.end - ports.start)
            };
            0 <= at < ports.end - ports.start && ports.port_at(at) == port
        },
        ports.after((ports.end - 1) as u32) == ports.start,
{
}

/// A new connection's number names the guest's port and the host's, which it has.
pub proof fn law_new_connections_name_both_ports(peer_port: u32, local_port: u32)
    ensures
        connection(peer_port, local_port).local_port == local_port,
        connection(peer_port, local_port).id == peer_port * 0x1_0000_0000 + local_port,
{
}

/// The thread waits no longer than either wait, and for good only where both are.
pub proof fn law_the_shorter_wait_counts(queue: i32, partial: i32)
    requires
        queue >= -1,
        partial >= -1,
    ensures
        wait_timeout_spec(queue as int, partial as int) == -1 <==> queue == -1 && partial == -1,
        queue >= 0 ==> wait_timeout_spec(queue as int, partial as int) <= queue,
        partial >= 0 ==> wait_timeout_spec(queue as int, partial as int) <= partial,
        wait_timeout_spec(queue as int, partial as int) == queue || wait_timeout_spec(
            queue as int,
            partial as int,
        ) == partial,
{
}

/// There is a listening socket for exactly those ports that the host listens at.
pub proof fn law_listening_ports_get_a_socket(ports: Seq<IpcPort>, port: u32)
    ensures
        (exists|i: int| 0 <= i < ports.len() && #[trigger] ports[i] == (IpcPort { port, listen: true }))
            <==> listening_spec(ports).contains(
            NewConnection { id: (port * 0x1_0000_0000 + 620) as u64, local_port: port },
        ),
        listening_spec(ports).len() <= ports.len(),
    decreases ports.len(),
{
    if ports.len() > 0 {
        let rest = ports.drop_last();
        law_listening_ports_get_a_socket(rest, port);
        let own = NewConnection { id: (port * 0x1_0000_0000 + 620) as u64, local_port: port };
        let some = listening_spec(rest);
        let all = listening_spec(ports);
        assert(ports[ports.len() - 1] == ports.last());
        if exists|i: int| 0 <= i < ports.len() && #[trigger] ports[i] == (IpcPort {
            port,
            listen: true,
        }) {
            let i = choose|i: int|
                0 <= i < ports.len() && #[trigger] ports[i] == (IpcPort { port, listen: true });
            if i < rest.len() {
                assert(rest[i] == ports[i]);
                let k = choose|k: int| 0 <= k < some.len() && some[k] == own;
                assert(all[k] == own);
            } else {
                assert(all[some.len() as int] == own);
            }
        }
        if all.contains(own) {
            let k = choose|k: int| 0 <= k < all.len() && all[k] == own;
            if k < some.len() {
                assert(some[k] == own);
                let i = choose|i: int|
                    0 <= i < rest.len() && #[trigger] rest[i] == (IpcPort { port, listen: true });
                assert(ports[i] == rest[i]);
            } else {
                assert(ports.last() == (IpcPort { port, listen: true }));
            }
        }
    }
}

/// A datagram socket is bound by its family before its first datagram, so that answers arrive;
/// one of the file system only on Linux. It stops where the guest has no credit, is closed where
/// its peer is, and goes on otherwise.
pub proof fn law_datagram_sockets_are_bound_and_rest(
    proxy: TsiDgramProxy,
    turn: Receiving,
    room: usize,
)
    ensures
        proxy.family == AddressFamily::Inet ==> proxy.bind_target() == Some(BindTarget::AnyV4),
        proxy.family == AddressFamily::Inet6 ==> proxy.bind_target() == Some(BindTarget::AnyV6),
        proxy.family == AddressFamily::Unix ==> proxy.bind_target() == if proxy.platform
            == HostPlatform::Linux {
            Some(BindTarget::Unnamed)
        } else {
            None::<BindTarget>
        },
        turn.wait_credit ==> proxy.status_after(turn) == ProxyStatus::WaitingCreditUpdate,
        !turn.wait_credit && turn.closed ==> proxy.status_after(turn) == ProxyStatus::Closed,
        !turn.wait_credit && !turn.closed ==> proxy.status_after(turn) == proxy.status,
        proxy.limit(room) <= room,
        proxy.platform != HostPlatform::Windows ==> proxy.limit(room) == room,
        proxy.platform == HostPlatform::Windows ==> proxy.limit(room) <= proxy.counters.credit(),
{
}

/// What is kept for the guest is handed over only as far as there is room, and touches nothing
/// of a connection but what it keeps.
pub proof fn law_retries_stay_within_the_room(
    proxies: Map<u64, AnyProxy>,
    order: Seq<u64>,
    room: int,
    id: u64,
)
    requires
        room >= 0,
        forall|i: int| 0 <= i < order.len() ==> proxies.contains_key(#[trigger] order[i]),
    ensures
        retried(proxies, order, room).1.len() <= room,
        retried(proxies, order, room).0.contains_key(id) <==> proxies.contains_key(id),
        proxies.contains_key(id) ==> retried(proxies, order, room).0[id].status_spec()
            == proxies[id].status_spec(),
        !order.contains(id) && proxies.contains_key(id) ==> retried(proxies, order, room).0[id]
            == proxies[id],
    decreases order.len(),
{
    if order.len() > 0 {
        let rest = order.drop_last();
        assert forall|i: int| 0 <= i < rest.len() implies proxies.contains_key(
            #[trigger] rest[i],
        ) by {
            assert(rest[i] == order[i]);
        }
        law_retries_stay_within_the_room(proxies, rest, room, id);
        law_retries_stay_within_the_room(proxies, rest, room, order.last());
        let (before, packets) = retried(proxies, rest, room);
        assert(order[order.len() - 1] == order.last());
        if rest.contains(id) {
            let j = choose|j: int| 0 <= j < rest.len() && rest[j] == id;
            assert(order[j] == id);
        }
        match before[order.last()].credit() {
            None => {},
            Some((kept, count)) => {
                crate::vsock::table::lemma_delivered_fits(kept, count, room - packets.len());
            },
        }
    }
}

/// The port of a connection that the host asked for is not the next in turn again; the range of
/// ports stays.
pub proof fn law_used_ports_are_passed(
    before: ProxyTable,
    after: ProxyTable,
    guest_port: u32,
    fd: i32,
    new: NewConnection,
    packet: MuxerRx,
)
    requires
        host_connected(before, after, guest_port, fd, Some((new, packet))),
    ensures
        after.source_ports.start == before.source_ports.start,
        after.source_ports.end == before.source_ports.end,
        after.source_ports.next == if new.local_port + 1 == before.source_ports.end {
            before.source_ports.start as int
        } else {
            new.local_port + 1
        },
        after.cid == before.cid && after.platform == before.platform,
{
}

/// A socket that listens goes at once when the guest is done with it, another one later; so does
/// a datagram socket, which on Windows goes at once in any case.
pub proof fn law_listening_sockets_go_at_once(proxy: AnyProxy)
    ensures
        proxy matches AnyProxy::Stream(stream) ==> proxy.released() == if stream.status
            == ProxyStatus::Listening {
            ProxyRemoval::Immediate
        } else {
            ProxyRemoval::Deferred
        },
        proxy matches AnyProxy::Dgram(dgram) ==> (proxy.released() == ProxyRemoval::Immediate <==> (
        dgram.status == ProxyStatus::Listening || dgram.platform == HostPlatform::Windows)),
        proxy matches AnyProxy::Dgram(dgram) ==> proxy.released() != ProxyRemoval::Keep,
        proxy is Acceptor ==> proxy.released() == ProxyRemoval::Keep,
{
}

/// A connection that a socket of the host accepted is asked for at the port that the guest
/// listens on, from a port of its own; the other connections stay as they are. Where nothing was
/// accepted nothing changes.
pub proof fn law_accepted_connections_reach_the_guest(
    between: ProxyTable,
    after: ProxyTable,
    parent_id: u64,
    update: ProxyUpdate,
    served: Served,
    other: u64,
)
    requires
        accepted_after(between, after, parent_id, update, served),
    ensures
        update.new_proxy is None ==> served.accepted is None && after.proxies@ == between.proxies@,
        update.new_proxy matches Some(accepted) ==> {
            &&& served.accepted matches Some((new, packet))
            &&& packet matches MuxerRx::OpRequest { local_port, peer_port }
            &&& peer_port == accepted.peer_port && local_port == new.local_port
            &&& 1024 <= local_port < 0xffff_ffff
            &&& new.id == peer_port * 0x1_0000_0000 + local_port
            &&& after.proxies@.contains_key(new.id)
            &&& other != new.id ==> (after.proxies@.contains_key(other)
                <==> between.proxies@.contains_key(other)) && (between.proxies@.contains_key(other)
                ==> after.proxies@[other] == between.proxies@[other])
        },
{
}

/// A stream that a listening socket accepted has its host's socket, its guest's port and a port of
/// its own, belongs to the socket that accepted it, and has counted nothing.
pub proof fn law_accepted_streams_start_afresh(
    table: ProxyTable,
    proxy: AnyProxy,
    parent_id: u64,
    accepted: NewProxy,
    new: NewConnection,
)
    requires
        accepted_into(table, proxy, parent_id, accepted, new),
        accepted.kind == NewProxyType::Tcp,
    ensures
        proxy matches AnyProxy::Stream(stream) && {
            &&& stream.id == new.id && stream.parent_id == parent_id && stream.cid == table.cid
            &&& stream.local_port == new.local_port && stream.peer_port == accepted.peer_port
            &&& stream.control_port == 0 && stream.fd == accepted.fd && stream.family
                == accepted.family
            &&& stream.platform == table.platform && stream.status == ProxyStatus::ReverseInit
            &&& stream.counters.rx_cnt == 0 && stream.counters.tx_cnt == 0
            &&& stream.pending_accepts == 0 && stream.unixsock_path is None
            &&& stream.deferred_credit.enabled && stream.deferred_credit.request is None
                && stream.deferred_credit.update is None
        },
{
}

/// What is kept for the guest goes with the count of what came from it; only connections that
/// carry a stream keep something.
pub proof fn law_kept_credit_counts_what_came(proxy: AnyProxy)
    ensures
        proxy matches AnyProxy::Unix(unix) ==> proxy.credit() == Some(
            (unix.deferred_credit, unix.counters.tx_cnt),
        ),
        proxy matches AnyProxy::Stream(stream) ==> proxy.credit() == Some(
            (stream.deferred_credit, stream.counters.tx_cnt),
        ),
        proxy is Dgram || proxy is Acceptor ==> proxy.credit() is None,
{
}

} // verus!
