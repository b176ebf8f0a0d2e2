//! The connections of the socket device, and what happens to all of them together.
use crate::platform::HostPlatform;
use crate::vsock::control::{ControlHandle, ControlProxy};
use crate::vsock::frame::Incoming;
use crate::vsock::muxer::{push_proxy_credit, VsockMuxer};
use crate::vsock::muxer_thread::{
    accepted_connection, begin_turn, transport_victims, NewConnection, SourcePortAllocator,
};
use crate::vsock::proxy::{
    Counters, DeferredCredit, Handled, MuxerRx, NewProxy, NewProxyType, ProxyRemoval, ProxyStatus,
    ProxyUpdate,
};
use crate::vsock::tsi_dgram::TsiDgramProxy;
use crate::vsock::tsi_stream::TsiStreamProxy;
use crate::vsock::unix_proxy::{UnixAcceptorProxy, UnixProxy};
use std::collections::HashMap;
use vstd::prelude::*;
use vstd::std_specs::iter::IteratorSpec;

verus! {

broadcast use vstd::std_specs::hash::group_hash_axioms;

/// A connection of any kind.
#[derive(Debug)]
pub enum AnyProxy {
    Unix(UnixProxy),
    Stream(TsiStreamProxy),
    Dgram(TsiDgramProxy),
    Acceptor(UnixAcceptorProxy),
}

impl AnyProxy {
    pub open spec fn wf(self) -> bool {
        match self {
            AnyProxy::Unix(proxy) => proxy.wf(),
            AnyProxy::Stream(proxy) => proxy.wf(),
            _ => true,
        }
    }

    pub open spec fn status_spec(self) -> ProxyStatus {
        match self {
            AnyProxy::Unix(proxy) => proxy.status,
            AnyProxy::Stream(proxy) => proxy.status,
            AnyProxy::Dgram(proxy) => proxy.status,
            AnyProxy::Acceptor(_) => ProxyStatus::WaitingOnAccept,
        }
    }

    pub fn status(&self) -> (status: ProxyStatus)
        ensures
            status == self.status_spec(),
    {
        match self {
            AnyProxy::Unix(proxy) => proxy.status,
            AnyProxy::Stream(proxy) => proxy.status,
            AnyProxy::Dgram(proxy) => proxy.status,
            AnyProxy::Acceptor(proxy) => proxy.status(),
        }
    }

    /// The connection came over a control channel, or goes there.
    pub open spec fn over_channel(self) -> bool {
        match self {
            AnyProxy::Unix(proxy) => proxy.mux_transport,
            _ => false,
        }
    }

    pub fn is_mux(&self) -> (result: bool)
        ensures
            result == self.over_channel(),
    {
        match self {
            AnyProxy::Unix(proxy) => proxy.mux_transport,
            _ => false,
        }
    }

    /// What is kept for the guest, and the counter that goes with it. Datagrams and listening
    /// sockets keep nothing.
    pub open spec fn credit(self) -> Option<(DeferredCredit, u32)> {
        match self {
            AnyProxy::Unix(proxy) => Some((proxy.deferred_credit, proxy.counters.tx_cnt)),
            AnyProxy::Stream(proxy) => Some((proxy.deferred_credit, proxy.counters.tx_cnt)),
            _ => None,
        }
    }

    /// The connection with something else kept for the guest.
    pub open spec fn with_credit(self, credit: DeferredCredit) -> AnyProxy {
        match self {
            AnyProxy::Unix(proxy) => AnyProxy::Unix(UnixProxy { deferred_credit: credit, ..proxy }),
            AnyProxy::Stream(proxy) => AnyProxy::Stream(
                TsiStreamProxy { deferred_credit: credit, ..proxy },
            ),
            other => other,
        }
    }

    /// Nothing is kept for the guest any more, nor will be.
    pub open spec fn silenced(self) -> AnyProxy {
        self.with_credit(DeferredCredit { request: None, update: None, enabled: false })
    }

    pub fn disable_deferred_credit(&mut self)
        requires
            old(self).wf(),
        ensures
            final(self).wf(),
            *final(self) == old(self).silenced(),
    {
        match self {
            AnyProxy::Unix(proxy) => proxy.disable_deferred_credit(),
            AnyProxy::Stream(proxy) => proxy.disable_deferred_credit(),
            _ => {},
        }
    }

    /// Hands a packet about credit to the guest as far as it has room, after what is kept.
    pub fn push_credit(&mut self, packet: MuxerRx, room: usize) -> (packets: Vec<MuxerRx>)
        requires
            old(self).wf(),
        ensures
            final(self).wf(),
            match old(self).credit() {
                None => packets@.len() == 0 && *final(self) == *old(self),
                Some((kept, count)) => match kept.pushed(packet, count) {
                    None => packets@.len() == 0 && *final(self) == *old(self),
                    Some(next) => packets@ == next.delivered(count, room as int) && *final(self)
                        == old(self).with_credit(next.kept(count, room as int)),
                },
            },
    {
        match self {
            AnyProxy::Unix(proxy) => {
                let count: u32 = proxy.counters.tx_cnt;
                push_proxy_credit(&mut proxy.deferred_credit, packet, count, room)
            },
            AnyProxy::Stream(proxy) => {
                let count: u32 = proxy.counters.tx_cnt;
                push_proxy_credit(&mut proxy.deferred_credit, packet, count, room)
            },
            _ => Vec::new(),
        }
    }

    /// Hands what is kept to the guest as far as it has room.
    pub fn flush_credit(&mut self, room: usize) -> (packets: Vec<MuxerRx>)
        requires
            old(self).wf(),
        ensures
            final(self).wf(),
            match old(self).credit() {
                None => packets@.len() == 0 && *final(self) == *old(self),
                Some((kept, count)) => packets@ == kept.delivered(count, room as int)
                    && *final(self) == old(self).with_credit(kept.kept(count, room as int)),
            },
    {
        match self {
            AnyProxy::Unix(proxy) => proxy.flush_credit(room),
            AnyProxy::Stream(proxy) => proxy.flush_credit(room),
            _ => Vec::new(),
        }
    }

    /// How the connection goes away once the guest is done with it. A socket that only listens
    /// for the host is none of the guest's.
    pub open spec fn released(self) -> ProxyRemoval {
        match self {
            AnyProxy::Unix(proxy) => proxy.removal(),
            AnyProxy::Stream(proxy) => if proxy.status == ProxyStatus::Listening {
                ProxyRemoval::Immediate
            } else {
                ProxyRemoval::Deferred
            },
            AnyProxy::Dgram(proxy) => if proxy.platform == HostPlatform::Windows || proxy.status
                == ProxyStatus::Listening {
                ProxyRemoval::Immediate
            } else {
                ProxyRemoval::Deferred
            },
            AnyProxy::Acceptor(_) => ProxyRemoval::Keep,
        }
    }

    /// The guest is done with the connection.
    pub fn release(&self) -> (update: ProxyUpdate)
        requires
            *self !is Acceptor,
        ensures
            update == (ProxyUpdate { remove_proxy: self.released(), ..ProxyUpdate::nothing() }),
    {
        match self {
            AnyProxy::Unix(proxy) => proxy.release(),
            AnyProxy::Stream(proxy) => proxy.release(),
            AnyProxy::Dgram(proxy) => proxy.release(),
            AnyProxy::Acceptor(_) => ProxyUpdate::new(),
        }
    }

    /// Ends the connection if it is one over a control channel.
    pub fn fail_mux(&mut self) -> (result: Option<Handled>)
        requires
            old(self).wf(),
        ensures
            final(self).wf(),
            match *old(self) {
                AnyProxy::Unix(proxy) if proxy.mux_transport => *final(self) == AnyProxy::Unix(
                    proxy.ended(),
                ) && result == Some(proxy.failed()),
                _ => *final(self) == *old(self) && result is None,
            },
    {
        match self {
            AnyProxy::Unix(proxy) => proxy.fail_mux(),
            _ => None,
        }
    }

    /// The host grants the connection if it waits for that.
    pub fn admit_mux(&mut self) -> (result: Option<Handled>)
        requires
            old(self).wf(),
        ensures
            final(self).wf(),
            match *old(self) {
                AnyProxy::Unix(proxy) if proxy.mux_transport && proxy.status
                    == ProxyStatus::WaitingOnHost => *final(self) == AnyProxy::Unix(
                    UnixProxy { status: ProxyStatus::Connected, ..proxy },
                ) && result == Some(proxy.admitted()),
                _ => *final(self) == *old(self) && result is None,
            },
    {
        match self {
            AnyProxy::Unix(proxy) => proxy.admit_mux(),
            _ => None,
        }
    }
}

/// What a connection of the table asks for.
#[derive(Debug)]
pub struct Outcome {
    pub id: u64,
    pub handled: Handled,
}

/// What an update of a connection came to.
#[derive(Debug)]
pub struct Applied {
    /// Packets about credit that went to the guest.
    pub packets: Vec<MuxerRx>,
    /// The guest is to be interrupted.
    pub signal: bool,
    /// The connection is to be taken away later.
    pub reap: bool,
}

/// The connections of the device.
#[derive(Debug)]
pub struct ProxyTable {
    pub platform: HostPlatform,
    pub cid: u64,
    pub proxies: HashMap<u64, AnyProxy>,
    pub source_ports: SourcePortAllocator,
}

/// The ids are those of the table's connections.
pub open spec fn lists_keys(proxies: Map<u64, AnyProxy>, ids: Seq<u64>) -> bool {
    forall|id: u64| ids.contains(id) <==> #[trigger] proxies.contains_key(id)
}

/// The ids are those of the table's connections over a control channel.
pub open spec fn lists_mux(proxies: Map<u64, AnyProxy>, ids: Seq<u64>) -> bool {
    forall|id: u64| #[trigger]
        ids.contains(id) <==> (proxies.contains_key(id) && proxies[id].over_channel())
}

/// The table without connections.
pub open spec fn without(proxies: Map<u64, AnyProxy>, ids: Seq<u64>) -> Map<u64, AnyProxy> {
    proxies.remove_keys(ids.to_set())
}

/// What the connections over a control channel ask for when they end, each in its turn.
pub open spec fn failures(proxies: Map<u64, AnyProxy>, ids: Seq<u64>) -> Seq<Outcome>
    decreases ids.len(),
{
    if ids.len() == 0 {
        Seq::empty()
    } else {
        let rest = failures(proxies, ids.drop_last());
        let id = ids.last();
        if proxies.contains_key(id) && proxies[id].over_channel() {
            rest.push(Outcome { id, handled: proxies[id]->Unix_0.failed() })
        } else {
            rest
        }
    }
}

/// What a turn starts with.
#[derive(Debug)]
pub struct TurnOutcome {
    /// What the connections ask for whose request to the host is given up.
    pub expired: Vec<Outcome>,
    /// What the others over the control channel ask for, if the channel has failed.
    pub failed: Option<Vec<Outcome>>,
}

/// What a message of the host came to.
#[derive(Debug)]
pub enum MessageOutcome {
    /// No port is left: the socket is closed.
    Refused { fd: i32 },
    /// There is a new connection, and the guest is asked for it.
    Connected { new: NewConnection, request: MuxerRx },
    /// A request of the guest is answered, if it still waited.
    Finished(Option<Outcome>),
}

/// What the thread did for a connection.
#[derive(Debug)]
pub struct Served {
    pub applied: Applied,
    /// The connection that was accepted, and the packet that asks the guest for it.
    pub accepted: Option<(NewConnection, MuxerRx)>,
    /// The guest is to be interrupted.
    pub signal: bool,
}

/// Nothing but the connections differs.
pub open spec fn same_device(before: ProxyTable, after: ProxyTable) -> bool {
    &&& after.platform == before.platform
    &&& after.cid == before.cid
    &&& after.source_ports == before.source_ports
}

/// The connections over a control channel, and those that waited for the host, have ended and
/// left the table.
pub open spec fn channel_ended(
    before: ProxyTable,
    after: ProxyTable,
    waiting: Seq<u64>,
    outcomes: Seq<Outcome>,
) -> bool {
    &&& same_device(before, after)
    &&& exists|ids: Seq<u64>|
        {
            &&& #[trigger] victims(before.proxies@, waiting, ids)
            &&& after.proxies@ == without(before.proxies@, ids)
            &&& outcomes == failures(before.proxies@, ids)
        }
}

/// The table's part of what a connection asked for. A connection that stays is given a packet
/// about credit, as far as it takes them and the guest is served; one that goes delivers
/// nothing more.
pub open spec fn update_applied(
    before: ProxyTable,
    after: ProxyTable,
    id: u64,
    update: ProxyUpdate,
    room: Option<usize>,
    reaper: Option<bool>,
    applied: Applied,
) -> bool {
    &&& applied.reap == (update.remove_proxy == ProxyRemoval::Deferred && reaper == Some(true))
    &&& applied.signal == (update.signal_queue || applied.packets@.len() > 0)
    &&& if !before.proxies@.contains_key(id) {
        after.proxies@ == before.proxies@ && applied.packets@.len() == 0
    } else {
        match update.remove_proxy {
            ProxyRemoval::Keep => match (update.push_credit_req, before.proxies@[id].credit()) {
                (Some(packet), Some((kept, count))) if room is Some && kept.pushed(
                    packet,
                    count,
                ) is Some => {
                    let next = kept.pushed(packet, count)->0;
                    &&& applied.packets@ == next.delivered(count, room->0 as int)
                    &&& after.proxies@ == before.proxies@.insert(
                        id,
                        before.proxies@[id].with_credit(next.kept(count, room->0 as int)),
                    )
                },
                _ => after.proxies@ == before.proxies@ && applied.packets@.len() == 0,
            },
            ProxyRemoval::Immediate => after.proxies@ == before.proxies@.remove(id)
                && applied.packets@.len() == 0,
            ProxyRemoval::Deferred => {
                &&& applied.packets@.len() == 0
                &&& after.proxies@ == if reaper == Some(false) {
                    before.proxies@.remove(id)
                } else {
                    before.proxies@.insert(id, before.proxies@[id].silenced())
                }
            },
        }
    }
}

/// The connection that a socket accepted, before anything has happened to it.
pub open spec fn accepted_into(
    table: ProxyTable,
    proxy: AnyProxy,
    parent_id: u64,
    accepted: NewProxy,
    new: NewConnection,
) -> bool {
    match accepted.kind {
        NewProxyType::Tcp => proxy == AnyProxy::Stream(
            TsiStreamProxy {
                platform: table.platform,
                id: new.id,
                cid: table.cid,
                parent_id,
                family: accepted.family,
                local_port: new.local_port,
                peer_port: accepted.peer_port,
                control_port: 0,
                fd: accepted.fd,
                status: ProxyStatus::ReverseInit,
                counters: Counters::zero(),
                pending_accepts: 0,
                unixsock_path: None,
                deferred_credit: DeferredCredit { request: None, update: None, enabled: true },
            },
        ),
        NewProxyType::Unix => {
            &&& proxy matches AnyProxy::Unix(proxy)
            &&& new_from_host(table, proxy, new, accepted.peer_port, accepted.fd, false)
        },
    }
}

/// The connections over a control channel have ended after the table had only `left`.
pub open spec fn ended_after(
    before: ProxyTable,
    left: Map<u64, AnyProxy>,
    after: ProxyTable,
    waiting: Seq<u64>,
    outcomes: Seq<Outcome>,
) -> bool {
    exists|between: ProxyTable|
        {
            &&& between.proxies@ == left
            &&& same_device(before, between)
            &&& #[trigger] channel_ended(between, after, waiting, outcomes)
        }
}

/// The connection that was accepted, if one was, is in the table and the guest is asked for it.
pub open spec fn accepted_after(
    between: ProxyTable,
    after: ProxyTable,
    parent_id: u64,
    update: ProxyUpdate,
    served: Served,
) -> bool {
    match update.new_proxy {
        None => served.accepted is None && after.proxies@ == between.proxies@,
        Some(accepted) => {
            &&& served.accepted is Some
            &&& ({
                let (new, packet) = served.accepted->0;
                &&& crate::vsock::muxer_thread::ACCEPTED_PORTS_START <= new.local_port < u32::MAX
                &&& new == crate::vsock::muxer_thread::connection(
                    accepted.peer_port,
                    new.local_port,
                )
                &&& packet == (MuxerRx::OpRequest {
                    local_port: new.local_port,
                    peer_port: accepted.peer_port,
                })
                &&& gained(between.proxies@, after.proxies@, new.id)
                &&& accepted_into(between, after.proxies@[new.id], parent_id, accepted, new)
            })
        },
    }
}

/// The thread did all that a connection asked for: first what concerns the connection itself,
/// and then what concerns the one that it accepted.
pub open spec fn update_served(
    before: ProxyTable,
    after: ProxyTable,
    id: u64,
    update: ProxyUpdate,
    room: usize,
    handed_over: bool,
    served: Served,
) -> bool {
    exists|between: ProxyTable|
        {
            &&& same_device(before, between)
            &&& update_applied(
                before,
                between,
                id,
                update,
                Some(room),
                Some(handed_over),
                served.applied,
            )
            &&& #[trigger] accepted_after(between, after, id, update, served)
        }
}

/// A connection that the host asked for and that nothing has happened to.
pub open spec fn new_from_host(
    table: ProxyTable,
    proxy: UnixProxy,
    new: NewConnection,
    peer_port: u32,
    fd: i32,
    over_channel: bool,
) -> bool {
    &&& proxy.wf()
    &&& proxy.platform == table.platform
    &&& proxy.cid == table.cid
    &&& proxy.id == new.id
    &&& proxy.local_port == new.local_port
    &&& proxy.peer_port == peer_port
    &&& proxy.fd == fd
    &&& proxy.control_port == 0
    &&& proxy.status == ProxyStatus::ReverseInit
    &&& proxy.mux_transport == over_channel
    &&& proxy.counters == Counters::zero()
    &&& proxy.deferred_credit == (DeferredCredit { request: None, update: None, enabled: true })
    &&& proxy.connect_response is None
    &&& proxy.pending_tx@.len() == 0
}

/// The table has a connection more, or an other one in its place, and is otherwise as it was.
pub open spec fn gained(
    before: Map<u64, AnyProxy>,
    after: Map<u64, AnyProxy>,
    id: u64,
) -> bool {
    after.contains_key(id) && after == before.insert(id, after[id])
}

/// The host asked for a connection over its control channel. `result` gives the connection and
/// the packet that asks the guest. The connection has the first port in turn that no other
/// connection uses; where there is none, nothing is done.
pub open spec fn host_connected(
    before: ProxyTable,
    after: ProxyTable,
    guest_port: u32,
    fd: i32,
    result: Option<(NewConnection, MuxerRx)>,
) -> bool {
    match result {
        None => {
            &&& after == before
            &&& forall|port: u32|
                before.source_ports.start <= port < before.source_ports.end
                    ==> #[trigger] port_used(before.proxies@, port)
        },
        Some((new, packet)) => {
            &&& after.platform == before.platform
            &&& after.cid == before.cid
            &&& before.source_ports.start <= new.local_port < before.source_ports.end
            &&& before.source_ports.first_free(
                |p: u32| port_used(before.proxies@, p),
                new.local_port,
            )
            &&& after.source_ports == (SourcePortAllocator {
                next: before.source_ports.after(new.local_port),
                ..before.source_ports
            })
            &&& !port_used(before.proxies@, new.local_port)
            &&& new == crate::vsock::muxer_thread::connection(guest_port, new.local_port)
            &&& packet == (MuxerRx::OpRequest { local_port: new.local_port, peer_port: guest_port })
            &&& !before.proxies@.contains_key(new.id)
            &&& gained(before.proxies@, after.proxies@, new.id)
            &&& after.proxies@[new.id] matches AnyProxy::Unix(proxy)
            &&& new_from_host(before, proxy, new, guest_port, fd, true)
        },
    }
}

/// The host answered a request of the guest. A granted connection is served from then on, a
/// refused one leaves the table; an answer to no request, and one for a connection that is
/// gone or not waiting, is late and does nothing.
pub open spec fn request_finished(
    before: ProxyTable,
    after: ProxyTable,
    proxy_id: Option<u64>,
    granted: bool,
    result: Option<Outcome>,
) -> bool {
    &&& after.platform == before.platform
    &&& after.cid == before.cid
    &&& after.source_ports == before.source_ports
    &&& if proxy_id is Some && before.proxies@.contains_key(proxy_id->0) {
        let id = proxy_id->0;
        match before.proxies@[id] {
            AnyProxy::Unix(proxy) if proxy.mux_transport && !granted => {
                &&& after.proxies@ == before.proxies@.remove(id)
                &&& result == Some(Outcome { id, handled: proxy.failed() })
            },
            AnyProxy::Unix(proxy) if proxy.mux_transport && granted && proxy.status
                == ProxyStatus::WaitingOnHost => {
                &&& after.proxies@ == before.proxies@.insert(
                    id,
                    AnyProxy::Unix(UnixProxy { status: ProxyStatus::Connected, ..proxy }),
                )
                &&& result == Some(Outcome { id, handled: proxy.admitted() })
            },
            _ => result is None && after.proxies@ == before.proxies@,
        }
    } else {
        result is None && after.proxies@ == before.proxies@
    }
}

/// What is left, and what was asked for, when connections one after the other gave up waiting
/// for the host.
pub open spec fn given_up(
    proxies: Map<u64, AnyProxy>,
    ids: Seq<u64>,
) -> (Map<u64, AnyProxy>, Seq<Outcome>)
    decreases ids.len(),
{
    if ids.len() == 0 {
        (proxies, Seq::empty())
    } else {
        let (left, outcomes) = given_up(proxies, ids.drop_last());
        let id = ids.last();
        if left.contains_key(id) && left[id].over_channel() {
            (
                left.remove(id),
                outcomes.push(Outcome { id, handled: left[id]->Unix_0.failed() }),
            )
        } else {
            (left, outcomes)
        }
    }
}

impl ProxyTable {
    /// Every connection is sound.
    pub open spec fn wf(self) -> bool {
        &&& self.source_ports.wf()
        &&& forall|id: u64| #[trigger]
            self.proxies@.contains_key(id) ==> self.proxies@[id].wf()
    }

    pub fn new(platform: HostPlatform, cid: u64, start: u32, end: u32) -> (table: ProxyTable)
        ensures
            table.wf(),
            table.platform == platform,
            table.cid == cid,
            table.proxies@ == Map::<u64, AnyProxy>::empty(),
            table.source_ports == (SourcePortAllocator { start, end, next: start }),
    {
        ProxyTable {
            platform,
            cid,
            proxies: HashMap::new(),
            source_ports: SourcePortAllocator::new(start, end),
        }
    }

    /// The numbers of all connections.
    pub fn ids(&self) -> (ids: Vec<u64>)
        ensures
            lists_keys(self.proxies@, ids@),
            ids@.no_duplicates(),
    {
        let mut ids: Vec<u64> = Vec::new();
        let walk = self.proxies.keys();
        let ghost order = walk.remaining();
        for key in iter: walk
            invariant
                iter.seq() == order,
                ids@ == order.take(iter.index() as int).unref(),
        {
            ids.push(*key);
        }
        proof {
            assert(order.take(order.len() as int) == order);
            assert(ids@ == order.unref());
            assert forall|i: int, j: int|
                0 <= i < ids@.len() && 0 <= j < ids@.len() && i != j implies ids@[i] != ids@[j] by {
                assert(*order[i] != *order[j]);
            }
            assert forall|id: u64| ids@.contains(id) <==> #[trigger] self.proxies@.contains_key(
                id,
            ) by {
                assert(order.unref().to_set().contains(id) <==> ids@.contains(id));
            }
        }
        ids
    }

    /// Adds a connection, in place of one of the same number.
    pub fn insert(&mut self, id: u64, proxy: AnyProxy)
        requires
            old(self).wf(),
            proxy.wf(),
        ensures
            final(self).wf(),
            final(self).proxies@ == old(self).proxies@.insert(id, proxy),
            final(self).platform == old(self).platform,
            final(self).cid == old(self).cid,
            final(self).source_ports == old(self).source_ports,
    {
        self.proxies.insert(id, proxy);
    }

    /// The host asks for a connection to the guest's port over its control channel: the
    /// connection's number, and the packet that asks the guest. When no port is left, the
    /// host's socket is given up.
    pub fn host_connect(&mut self, guest_port: u32, fd: i32) -> (result: Option<
        (NewConnection, MuxerRx),
    >)
        requires
            old(self).wf(),
        ensures
            final(self).wf(),
            host_connected(*old(self), *final(self), guest_port, fd, result),
    {
        let live = self.ids();
        proof {
            assert forall|port: u32| crate::vsock::muxer_thread::port_live(live@, port)
                <==> #[trigger] port_used(self.proxies@, port) by {
                lemma_live_ports(self.proxies@, live@, port);
            }
            assert((|p: u32| crate::vsock::muxer_thread::port_live(live@, p)) =~= (|p: u32|
                port_used(self.proxies@, p)));
        }
        match self.source_ports.host_connection(guest_port, &live) {
            None => None,
            Some(new) => {
                let proxy = UnixProxy::new_mux_reverse(
                    self.platform,
                    new.id,
                    self.cid,
                    new.local_port,
                    guest_port,
                    fd,
                );
                let packet = proxy.push_op_request();
                proof {
                    crate::vsock::defs::law_proxy_ids_are_distinct(
                        guest_port,
                        new.local_port,
                        guest_port,
                        new.local_port,
                    );
                    if old(self).proxies@.contains_key(new.id) {
                        assert(port_used(old(self).proxies@, new.local_port));
                    }
                }
                self.proxies.insert(new.id, AnyProxy::Unix(proxy));
                Some((new, packet))
            },
        }
    }

    /// The host has answered a request of the guest. An answer to no request is late and does
    /// nothing, and so is one for a connection that is gone.
    pub fn finish_guest_request(
        &mut self,
        handle: &mut ControlHandle,
        request_id: u32,
        granted: bool,
    ) -> (result: Option<Outcome>)
        requires
            old(self).wf(),
            old(handle).wf(),
        ensures
            final(self).wf(),
            final(handle).wf(),
            final(handle).pending@ == crate::vsock::control::without_pending(
                old(handle).pending@,
                request_id,
            ),
            *final(handle) == (ControlHandle { pending: final(handle).pending, ..*old(handle) }),
            request_finished(
                *old(self),
                *final(self),
                crate::vsock::control::pending_proxy(old(handle).pending@, request_id),
                granted,
                result,
            ),
    {
        let id: u64 = match handle.take_pending(request_id) {
            None => return None,
            Some(id) => id,
        };
        match self.proxies.remove(&id) {
            None => {
                assert(self.proxies@ =~= old(self).proxies@);
                None
            },
            Some(mut proxy) => {
                let ghost before = proxy;
                if granted {
                    let handled = proxy.admit_mux();
                    self.proxies.insert(id, proxy);
                    assert(self.proxies@ =~= old(self).proxies@.insert(id, proxy));
                    assert(proxy == before ==> self.proxies@ =~= old(self).proxies@);
                    match handled {
                        Some(handled) => Some(Outcome { id, handled }),
                        None => None,
                    }
                } else {
                    match proxy.fail_mux() {
                        Some(handled) => Some(Outcome { id, handled }),
                        None => {
                            self.proxies.insert(id, proxy);
                            assert(self.proxies@ =~= old(self).proxies@);
                            None
                        },
                    }
                }
            },
        }
    }

    /// Ends the connection that waits for the host, because its time is over.
    pub fn fail_pending_proxy(&mut self, id: u64) -> (result: Option<Handled>)
        requires
            old(self).wf(),
        ensures
            final(self).wf(),
            final(self).platform == old(self).platform,
            final(self).cid == old(self).cid,
            final(self).source_ports == old(self).source_ports,
            if old(self).proxies@.contains_key(id) && old(self).proxies@[id].over_channel() {
                &&& result == Some(old(self).proxies@[id]->Unix_0.failed())
                &&& final(self).proxies@ == old(self).proxies@.insert(
                    id,
                    AnyProxy::Unix(old(self).proxies@[id]->Unix_0.ended()),
                )
            } else {
                result is None && final(self).proxies@ == old(self).proxies@
            },
    {
        match self.proxies.remove(&id) {
            None => None,
            Some(mut proxy) => {
                let ghost before = proxy;
                let handled = proxy.fail_mux();
                self.proxies.insert(id, proxy);
                assert(self.proxies@ =~= old(self).proxies@.insert(id, proxy));
                assert(proxy == before ==> self.proxies@ =~= old(self).proxies@);
                handled
            },
        }
    }

    /// The numbers of the connections over a control channel.
    pub fn mux_ids(&self) -> (ids: Vec<u64>)
        ensures
            lists_mux(self.proxies@, ids@),
    {
        let all = self.ids();
        let mut ids: Vec<u64> = Vec::new();
        let mut i: usize = 0;
        while i < all.len()
            invariant
                i <= all@.len(),
                lists_keys(self.proxies@, all@),
                forall|id: u64| #[trigger]
                    ids@.contains(id) <==> (all@.take(i as int).contains(id)
                        && self.proxies@[id].over_channel()),
            decreases all.len() - i,
        {
            let id: u64 = all[i];
            let ghost before = ids@;
            let ghost earlier = all@.take(i as int);
            let ghost after = all@.take(i + 1);
            proof {
                assert(all@.contains(id));
                assert(self.proxies@.contains_key(id));
                assert(after =~= earlier.push(id));
                crate::vsock::muxer_thread::lemma_contains_push(earlier, id, after);
                crate::vsock::muxer_thread::lemma_contains_push(before, id, before.push(id));
            }
            match self.proxies.get(&id) {
                Some(proxy) => {
                    if proxy.is_mux() {
                        ids.push(id);
                    }
                },
                None => {},
            }
            i += 1;
        }
        assert(all@.take(i as int) =~= all@);
        assert forall|id: u64| #[trigger] ids@.contains(id) implies self.proxies@.contains_key(
            id,
        ) by {
            assert(all@.contains(id));
        }
        assert forall|id: u64|
            self.proxies@.contains_key(id) && self.proxies@[id].over_channel() implies #[trigger] ids@.contains(
            id,
        ) by {
            assert(all@.contains(id));
        }
        ids
    }

    /// Every connection over a control channel, and every one of `waiting`, ends and leaves the
    /// table. What those over the channel ask for is given, in the order of their numbers.
    fn end_connections(&mut self, waiting: &Vec<u64>) -> (outcomes: Vec<Outcome>)
        requires
            old(self).wf(),
        ensures
            final(self).wf(),
            channel_ended(*old(self), *final(self), waiting@, outcomes@),
    {
        let mux = self.mux_ids();
        let ids = transport_victims(&mux, waiting);
        assert(victims(old(self).proxies@, waiting@, ids@));
        let mut outcomes: Vec<Outcome> = Vec::new();
        let mut i: usize = 0;
        assert(without(old(self).proxies@, ids@.take(0)) =~= old(self).proxies@);
        while i < ids.len()
            invariant
                i <= ids@.len(),
                old(self).wf(),
                self.wf(),
                crate::vsock::muxer_thread::increasing(ids@),
                self.platform == old(self).platform,
                self.cid == old(self).cid,
                self.source_ports == old(self).source_ports,
                self.proxies@ == without(old(self).proxies@, ids@.take(i as int)),
                outcomes@ == failures(old(self).proxies@, ids@.take(i as int)),
            decreases ids.len() - i,
        {
            let id: u64 = ids[i];
            let ghost earlier = ids@.take(i as int);
            let ghost after = ids@.take(i + 1);
            proof {
                assert(after.drop_last() =~= earlier);
                assert(after =~= earlier.push(id));
                crate::vsock::muxer_thread::lemma_contains_push(earlier, id, after);
                assert forall|j: int| 0 <= j < earlier.len() implies earlier[j] != id by {
                    assert(ids@[j] < ids@[i as int]);
                }
                assert(!earlier.to_set().contains(id));
            }
            match self.proxies.remove(&id) {
                None => {},
                Some(mut proxy) => {
                    if let Some(handled) = proxy.fail_mux() {
                        outcomes.push(Outcome { id, handled });
                    }
                },
            }
            proof {
                assert(self.proxies@ =~= without(old(self).proxies@, after)) by {
                    assert forall|k: u64| after.to_set().contains(k) <==> (k == id
                        || earlier.to_set().contains(k)) by {
                        assert(after.contains(k) <==> (k == id || earlier.contains(k)));
                    }
                }
            }
            i += 1;
        }
        assert(ids@.take(i as int) =~= ids@);
        outcomes
    }

    /// The control channel has failed: it is closed, and every connection over it, and every
    /// one that waits for the host, ends and leaves the table. What those over the channel ask
    /// for is given, in the order of their numbers.
    pub fn fail_mux_transport(&mut self, control: &mut ControlProxy, handle: &mut ControlHandle) -> (outcomes:
        Vec<Outcome>)
        requires
            old(self).wf(),
            old(handle).wf(),
        ensures
            final(self).wf(),
            final(handle).wf(),
            final(handle).fenced,
            final(handle).next_request_id == old(handle).next_request_id,
            final(handle).wake == old(handle).wake,
            final(control).wf(),
            final(control).fd is None,
            final(control).line@.len() == 0,
            final(control).protected_identities == old(control).protected_identities,
            channel_ended(
                *old(self),
                *final(self),
                crate::vsock::muxer_thread::waiting_proxies(old(handle).pending@),
                outcomes@,
            ),
    {
        let pending = control.close(handle);
        self.end_connections(&pending)
    }

    /// Looks at the deadlines at the start of a turn. The connections whose request to the host
    /// is too old leave the table, and when the control channel has failed all those over it.
    pub fn begin_turn(&mut self, control: &mut ControlProxy, handle: &mut ControlHandle, now: u64) -> (turn:
        TurnOutcome)
        requires
            old(self).wf(),
            old(handle).wf(),
            old(control).wf(),
        ensures
            final(self).wf(),
            final(handle).wf(),
            final(control).wf(),
            turn.failed is Some ==> {
                &&& final(handle).fenced
                &&& final(control).fd is None
                &&& final(control).line@.len() == 0
                &&& final(control).protected_identities == old(control).protected_identities
            },
            final(handle).next_request_id == old(handle).next_request_id,
            final(handle).wake == old(handle).wake,
            turn.failed is None ==> *final(control) == *old(control),
            ({
                let late = old(control).line_deadline matches Some(deadline) && deadline <= now;
                let outcome = crate::vsock::control::expiry(
                    old(handle).frames@,
                    old(handle).pending@,
                    crate::vsock::control::expired_ids(old(handle).pending@, now),
                );
                let (left, expired) = given_up(
                    old(self).proxies@,
                    if late || old(handle).fenced {
                        Seq::empty()
                    } else {
                        outcome.proxies
                    },
                );
                let waiting = if late {
                    old(handle).pending@
                } else if old(handle).fenced {
                    Seq::empty()
                } else {
                    outcome.pending
                };
                &&& turn.expired@ == expired
                &&& turn.failed is Some <==> (late || old(handle).fenced || outcome.failed)
                &&& match turn.failed {
                    None => {
                        &&& final(self).proxies@ == left
                        &&& same_device(*old(self), *final(self))
                        &&& final(handle).frames@ == outcome.frames
                        &&& final(handle).pending@ == outcome.pending
                        &&& final(handle).fenced == old(handle).fenced
                        &&& final(handle).active == old(handle).active
                    },
                    Some(outcomes) => ended_after(
                        *old(self),
                        left,
                        *final(self),
                        crate::vsock::muxer_thread::waiting_proxies(waiting),
                        outcomes@,
                    ),
                }
            }),
    {
        let start = begin_turn(control, handle, now);
        let mut expired: Vec<Outcome> = Vec::new();
        let mut i: usize = 0;
        while i < start.expired.len()
            invariant
                i <= start.expired@.len(),
                self.wf(),
                same_device(*old(self), *self),
                given_up(old(self).proxies@, start.expired@.take(i as int)) == (
                    self.proxies@,
                    expired@,
                ),
            decreases start.expired.len() - i,
        {
            let id: u64 = start.expired[i];
            let ghost left = self.proxies@;
            let ghost outcomes = expired@;
            assert(start.expired@.take(i + 1).drop_last() =~= start.expired@.take(i as int));
            if let Some(handled) = self.fail_pending_proxy(id) {
                let _ = self.proxies.remove(&id);
                assert(self.proxies@ =~= left.remove(id));
                expired.push(Outcome { id, handled });
            }
            i += 1;
        }
        assert(start.expired@.take(i as int) =~= start.expired@);
        assert(start.expired@.len() == 0 ==> start.expired@ =~= Seq::<u64>::empty());
        assert(crate::vsock::muxer_thread::waiting_proxies(Seq::empty()) =~= Seq::<u64>::empty());
        assert(start.ended@.len() == 0 ==> start.ended@ =~= Seq::<u64>::empty());
        if start.failed {
            let ghost between = *self;
            let outcomes = self.end_connections(&start.ended);
            assert(ended_after(*old(self), between.proxies@, *self, start.ended@, outcomes@));
            TurnOutcome { expired, failed: Some(outcomes) }
        } else {
            TurnOutcome { expired, failed: None }
        }
    }

    /// A message of the host over its control channel.
    pub fn process_control_message(&mut self, handle: &mut ControlHandle, message: Incoming) -> (result:
        MessageOutcome)
        requires
            old(self).wf(),
            old(handle).wf(),
        ensures
            final(self).wf(),
            final(handle).wf(),
            match message {
                Incoming::Connect { port, fd } => {
                    &&& *final(handle) == *old(handle)
                    &&& match result {
                        MessageOutcome::Refused { fd: refused } => refused == fd && host_connected(
                            *old(self),
                            *final(self),
                            port,
                            fd,
                            None,
                        ),
                        MessageOutcome::Connected { new, request } => host_connected(
                            *old(self),
                            *final(self),
                            port,
                            fd,
                            Some((new, request)),
                        ),
                        MessageOutcome::Finished(_) => false,
                    }
                },
                Incoming::Admit(request_id) => {
                    &&& *final(handle) == (ControlHandle {
                        pending: final(handle).pending,
                        ..*old(handle)
                    })
                    &&& final(handle).pending@ == crate::vsock::control::without_pending(
                        old(handle).pending@,
                        request_id,
                    )
                    &&& result matches MessageOutcome::Finished(outcome)
                    &&& request_finished(
                        *old(self),
                        *final(self),
                        crate::vsock::control::pending_proxy(old(handle).pending@, request_id),
                        true,
                        outcome,
                    )
                },
                Incoming::Reject(request_id) => {
                    &&& *final(handle) == (ControlHandle {
                        pending: final(handle).pending,
                        ..*old(handle)
                    })
                    &&& final(handle).pending@ == crate::vsock::control::without_pending(
                        old(handle).pending@,
                        request_id,
                    )
                    &&& result matches MessageOutcome::Finished(outcome)
                    &&& request_finished(
                        *old(self),
                        *final(self),
                        crate::vsock::control::pending_proxy(old(handle).pending@, request_id),
                        false,
                        outcome,
                    )
                },
            },
    {
        match message {
            Incoming::Connect { port, fd } => match self.host_connect(port, fd) {
                None => MessageOutcome::Refused { fd },
                Some((new, request)) => MessageOutcome::Connected { new, request },
            },
            Incoming::Admit(request_id) => MessageOutcome::Finished(
                self.finish_guest_request(handle, request_id, true),
            ),
            Incoming::Reject(request_id) => MessageOutcome::Finished(
                self.finish_guest_request(handle, request_id, false),
            ),
        }
    }

    /// Adds a connection that a socket accepted: the packet that asks the guest for it.
    pub fn add_accepted(&mut self, parent_id: u64, accepted: NewProxy, new: NewConnection) -> (packet:
        MuxerRx)
        requires
            old(self).wf(),
        ensures
            final(self).wf(),
            same_device(*old(self), *final(self)),
            packet == (MuxerRx::OpRequest {
                local_port: new.local_port,
                peer_port: accepted.peer_port,
            }),
            gained(old(self).proxies@, final(self).proxies@, new.id),
            accepted_into(*old(self), final(self).proxies@[new.id], parent_id, accepted, new),
    {
        let (proxy, packet) = match accepted.kind {
            NewProxyType::Tcp => {
                let proxy = TsiStreamProxy::new_reverse(
                    self.platform,
                    new.id,
                    self.cid,
                    parent_id,
                    accepted.family,
                    new.local_port,
                    accepted.peer_port,
                    accepted.fd,
                );
                let packet = proxy.push_op_request();
                (AnyProxy::Stream(proxy), packet)
            },
            NewProxyType::Unix => {
                let proxy = UnixProxy::new_reverse(
                    self.platform,
                    new.id,
                    self.cid,
                    new.local_port,
                    accepted.peer_port,
                    accepted.fd,
                );
                let packet = proxy.push_op_request();
                (AnyProxy::Unix(proxy), packet)
            },
        };
        self.proxies.insert(new.id, proxy);
        assert(self.proxies@ =~= old(self).proxies@.insert(new.id, self.proxies@[new.id]));
        packet
    }

    /// Carries out all that a connection asks for of the thread that serves the connections. A
    /// connection that was accepted gets a port by chance, in place of one that may have it.
    pub fn process_proxy_update(
        &mut self,
        id: u64,
        update: ProxyUpdate,
        room: usize,
        handed_over: bool,
    ) -> (served: Served)
        requires
            old(self).wf(),
        ensures
            final(self).wf(),
            same_device(*old(self), *final(self)),
            update_served(*old(self), *final(self), id, update, room, handed_over, served),
            served.signal == (served.applied.signal || update.new_proxy is Some),
    {
        let new_proxy = update.new_proxy;
        let applied = self.apply_update(id, update, Some(room), Some(handed_over));
        let ghost between = *self;
        let signal = applied.signal || new_proxy.is_some();
        let accepted = match new_proxy {
            None => None,
            Some(accepted) => {
                let new = accepted_connection(accepted.peer_port);
                let packet = self.add_accepted(id, accepted, new);
                Some((new, packet))
            },
        };
        let served = Served { applied, accepted, signal };
        proof {
            let (some_room, reaper) = (Some(room), Some(handed_over));
            assert(update_applied(*old(self), between, id, update, some_room, reaper, served.applied));
            assert(accepted_after(between, *self, id, update, served));
            assert(update_served(*old(self), *self, id, update, room, handed_over, served));
        }
        served
    }

    /// Carries out what a connection asks for, as far as the table is concerned. `room` is the
    /// room that the guest has for packets about credit, if it is served at all, and `reaper`
    /// whether somebody takes connections away later, and if so whether the connection could be
    /// handed over.
    pub fn apply_update(
        &mut self,
        id: u64,
        update: ProxyUpdate,
        room: Option<usize>,
        reaper: Option<bool>,
    ) -> (applied:
        Applied)
        requires
            old(self).wf(),
        ensures
            final(self).wf(),
            same_device(*old(self), *final(self)),
            update_applied(*old(self), *final(self), id, update, room, reaper, applied),
    {
        let mut packets: Vec<MuxerRx> = Vec::new();
        let mut reap = false;
        let ghost known = self.proxies@.contains_key(id);
        match update.remove_proxy {
            ProxyRemoval::Keep => {
                if let (Some(packet), Some(room)) = (update.push_credit_req, room) {
                    if let Some(mut proxy) = self.proxies.remove(&id) {
                        let ghost before = proxy;
                        packets = proxy.push_credit(packet, room);
                        self.proxies.insert(id, proxy);
                        assert(self.proxies@ =~= old(self).proxies@.insert(id, proxy));
                        assert(proxy == before ==> self.proxies@ =~= old(self).proxies@);
                    }
                }
            },
            ProxyRemoval::Immediate => {
                let _ = self.proxies.remove(&id);
            },
            ProxyRemoval::Deferred => {
                let keep = match reaper {
                    Some(handed_over) => {
                        reap = handed_over;
                        handed_over
                    },
                    None => true,
                };
                if let Some(mut proxy) = self.proxies.remove(&id) {
                    if keep {
                        proxy.disable_deferred_credit();
                        self.proxies.insert(id, proxy);
                        assert(self.proxies@ =~= old(self).proxies@.insert(
                            id,
                            old(self).proxies@[id].silenced(),
                        ));
                    }
                }
            },
        }
        assert(!known ==> self.proxies@ =~= old(self).proxies@);
        assert(known && update.remove_proxy == ProxyRemoval::Immediate ==> self.proxies@
            =~= old(self).proxies@.remove(id));
        let signal = update.signal_queue || packets.len() > 0;
        Applied { packets, signal, reap }
    }

    /// The guest ends a connection: what is kept for it is dropped at once, even where the
    /// connection itself is taken away later.
    pub fn reset_connection(&mut self, id: u64) -> (update: Option<ProxyUpdate>)
        requires
            old(self).wf(),
            old(self).proxies@.contains_key(id) ==> old(self).proxies@[id] !is Acceptor,
        ensures
            final(self).wf(),
            final(self).platform == old(self).platform,
            final(self).cid == old(self).cid,
            final(self).source_ports == old(self).source_ports,
            if old(self).proxies@.contains_key(id) {
                let proxy = old(self).proxies@[id];
                &&& update == Some(
                    ProxyUpdate {
                        remove_proxy: proxy.silenced().released(),
                        ..ProxyUpdate::nothing()
                    },
                )
                &&& final(self).proxies@ == old(self).proxies@.insert(id, proxy.silenced())
            } else {
                update is None && final(self).proxies@ == old(self).proxies@
            },
    {
        match self.proxies.remove(&id) {
            None => None,
            Some(mut proxy) => {
                proxy.disable_deferred_credit();
                let update = proxy.release();
                self.proxies.insert(id, proxy);
                assert(self.proxies@ =~= old(self).proxies@.insert(
                    id,
                    old(self).proxies@[id].silenced(),
                ));
                Some(update)
            },
        }
    }
}

impl VsockMuxer {
    /// Carries out what a connection asks for when a packet of the guest was handled. A device
    /// that is not active hands nothing to the guest and does not interrupt it. `room` is the
    /// room that the guest has, and `reaper` whether somebody takes connections away later, and
    /// if so whether the connection could be handed over.
    pub fn process_proxy_update(
        &self,
        table: &mut ProxyTable,
        id: u64,
        update: ProxyUpdate,
        room: usize,
        reaper: Option<bool>,
    ) -> (applied: Applied)
        requires
            old(table).wf(),
        ensures
            final(table).wf(),
            same_device(*old(table), *final(table)),
            update_applied(
                *old(table),
                *final(table),
                id,
                update,
                if self.active {
                    Some(room)
                } else {
                    None
                },
                reaper,
                Applied {
                    signal: update.signal_queue || applied.packets@.len() > 0,
                    ..applied
                },
            ),
            applied.signal == (self.active && (update.signal_queue || applied.packets@.len() > 0)),
    {
        let room = if self.active {
            Some(room)
        } else {
            None
        };
        let mut applied = table.apply_update(id, update, room, reaper);
        let ghost asked = applied;
        applied.signal = applied.signal && self.active;
        assert(Applied { signal: asked.signal, ..applied } == asked);
        applied
    }
}

/// What the guest is given, and what is kept after it, when each connection in turn hands over
/// what it keeps as far as there is room.
pub open spec fn retried(
    proxies: Map<u64, AnyProxy>,
    order: Seq<u64>,
    room: int,
) -> (Map<u64, AnyProxy>, Seq<MuxerRx>)
    decreases order.len(),
{
    if order.len() == 0 {
        (proxies, Seq::empty())
    } else {
        let (before, packets) = retried(proxies, order.drop_last(), room);
        let id = order.last();
        let left = room - packets.len();
        match before[id].credit() {
            None => (before, packets),
            Some((kept, count)) => (
                before.insert(id, before[id].with_credit(kept.kept(count, left))),
                packets + kept.delivered(count, left),
            ),
        }
    }
}

/// No more is delivered than there is room for.
pub(crate) proof fn lemma_delivered_fits(credit: DeferredCredit, count: u32, room: int)
    requires
        room >= 0,
    ensures
        credit.delivered(count, room).len() <= room,
    decreases credit.count(),
{
    if room > 0 && credit.next() is Some {
        lemma_delivered_fits(credit.rest(), count, room - 1);
    }
}

impl ProxyTable {
    /// The guest has made room: every connection hands over what it keeps, one after the other
    /// in no certain order, as far as the room goes.
    pub fn retry_deferred_credit(&mut self, room: usize) -> (packets: Vec<MuxerRx>)
        requires
            old(self).wf(),
        ensures
            final(self).wf(),
            final(self).platform == old(self).platform,
            final(self).cid == old(self).cid,
            final(self).source_ports == old(self).source_ports,
            packets@.len() <= room,
            exists|order: Seq<u64>|
                {
                    &&& order.no_duplicates()
                    &&& #[trigger] lists_keys(old(self).proxies@, order)
                    &&& retried(old(self).proxies@, order, room as int) == (
                        final(self).proxies@,
                        packets@,
                    )
                },
    {
        let ids = self.ids();
        let mut packets: Vec<MuxerRx> = Vec::new();
        let mut i: usize = 0;
        while i < ids.len()
            invariant
                i <= ids@.len(),
                self.wf(),
                self.platform == old(self).platform,
                self.cid == old(self).cid,
                self.source_ports == old(self).source_ports,
                lists_keys(old(self).proxies@, ids@),
                self.proxies@.dom() == old(self).proxies@.dom(),
                packets@.len() <= room,
                retried(old(self).proxies@, ids@.take(i as int), room as int) == (
                    self.proxies@,
                    packets@,
                ),
            decreases ids.len() - i,
        {
            let id: u64 = ids[i];
            let ghost done = ids@.take(i as int);
            let ghost after = ids@.take(i + 1);
            let ghost given = packets@;
            let ghost table = self.proxies@;
            proof {
                assert(ids@.contains(id));
                assert(old(self).proxies@.contains_key(id));
                assert(after.drop_last() =~= done);
                assert(after.last() == id);
            }
            if let Some(mut proxy) = self.proxies.remove(&id) {
                let ghost before = proxy;
                let left: usize = room - packets.len();
                let mut more = proxy.flush_credit(left);
                proof {
                    if before.credit() is Some {
                        let (kept, count) = before.credit()->0;
                        lemma_delivered_fits(kept, count, left as int);
                    }
                }
                self.proxies.insert(id, proxy);
                packets.append(&mut more);
                assert(self.proxies@ =~= table.insert(id, proxy));
                assert(before.credit() is None ==> self.proxies@ =~= table && packets@ =~= given);
                assert(self.proxies@.dom() =~= old(self).proxies@.dom());
            }
            i += 1;
        }
        assert(ids@.take(i as int) =~= ids@);
        packets
    }

    /// A connection that a listening socket of the guest accepted is there: the socket is told.
    /// What it answers goes to the guest.
    pub fn enqueue_accept(&mut self, parent_id: u64) -> (packet: Option<MuxerRx>)
        requires
            old(self).wf(),
            old(self).proxies@.contains_key(parent_id) ==> match old(self).proxies@[parent_id] {
                AnyProxy::Unix(_) => false,
                AnyProxy::Stream(proxy) => proxy.pending_accepts < u64::MAX,
                _ => true,
            },
        ensures
            final(self).wf(),
            final(self).platform == old(self).platform,
            final(self).cid == old(self).cid,
            final(self).source_ports == old(self).source_ports,
            if !old(self).proxies@.contains_key(parent_id) {
                packet is None && final(self).proxies@ == old(self).proxies@
            } else {
                match old(self).proxies@[parent_id] {
                    AnyProxy::Stream(proxy) => if proxy.status == ProxyStatus::WaitingOnAccept {
                        &&& packet == Some(proxy.accept_packet(0))
                        &&& final(self).proxies@ == old(self).proxies@.insert(
                            parent_id,
                            AnyProxy::Stream(
                                TsiStreamProxy { status: ProxyStatus::Listening, ..proxy },
                            ),
                        )
                    } else {
                        &&& packet is None
                        &&& final(self).proxies@ == old(self).proxies@.insert(
                            parent_id,
                            AnyProxy::Stream(
                                TsiStreamProxy {
                                    pending_accepts: (proxy.pending_accepts + 1) as u64,
                                    ..proxy
                                },
                            ),
                        )
                    },
                    _ => packet is None && final(self).proxies@ == old(self).proxies@,
                }
            },
    {
        match self.proxies.remove(&parent_id) {
            None => None,
            Some(AnyProxy::Stream(mut proxy)) => {
                let packet = proxy.enqueue_accept();
                self.proxies.insert(parent_id, AnyProxy::Stream(proxy));
                assert(self.proxies@ =~= old(self).proxies@.insert(
                    parent_id,
                    AnyProxy::Stream(proxy),
                ));
                packet
            },
            Some(other) => {
                self.proxies.insert(parent_id, other);
                assert(self.proxies@ =~= old(self).proxies@);
                None
            },
        }
    }
}

/// A connection of the table uses the host's port.
pub open spec fn port_used(proxies: Map<u64, AnyProxy>, port: u32) -> bool {
    exists|id: u64| #[trigger]
        proxies.contains_key(id) && crate::vsock::defs::source_port_spec(id) == port
}

proof fn lemma_live_ports(proxies: Map<u64, AnyProxy>, ids: Seq<u64>, port: u32)
    requires
        lists_keys(proxies, ids),
    ensures
        crate::vsock::muxer_thread::port_live(ids, port) <==> port_used(proxies, port),
{
    if crate::vsock::muxer_thread::port_live(ids, port) {
        let i = choose|i: int|
            0 <= i < ids.len() && crate::vsock::defs::source_port_spec(#[trigger] ids[i]) == port;
        assert(ids.contains(ids[i]));
        assert(proxies.contains_key(ids[i]));
    }
    if port_used(proxies, port) {
        let id = choose|id: u64| #[trigger]
            proxies.contains_key(id) && crate::vsock::defs::source_port_spec(id) == port;
        assert(ids.contains(id));
        let i = choose|i: int| 0 <= i < ids.len() && ids[i] == id;
        assert(crate::vsock::defs::source_port_spec(ids[i]) == port);
    }
}

/// The ids are those of the connections that end with the control channel, in order.
pub open spec fn victims(
    proxies: Map<u64, AnyProxy>,
    waiting: Seq<u64>,
    ids: Seq<u64>,
) -> bool {
    &&& crate::vsock::muxer_thread::increasing(ids)
    &&& forall|id: u64| #[trigger]
        ids.contains(id) <==> ((proxies.contains_key(id) && proxies[id].over_channel())
            || waiting.contains(id))
}

/// When the control channel has failed, no connection over it is left, none that waited for
/// the host is left, and every other connection is as it was.
pub proof fn law_failed_channel_ends_its_connections(
    before: ProxyTable,
    after: ProxyTable,
    waiting: Seq<u64>,
    outcomes: Seq<Outcome>,
    id: u64,
)
    requires
        channel_ended(before, after, waiting, outcomes),
    ensures
        after.proxies@.contains_key(id) <==> before.proxies@.contains_key(id)
            && !before.proxies@[id].over_channel() && !waiting.contains(id),
        after.proxies@.contains_key(id) ==> after.proxies@[id] == before.proxies@[id],
{
    let ids = choose|ids: Seq<u64>|
        {
            &&& #[trigger] victims(before.proxies@, waiting, ids)
            &&& after.proxies@ == without(before.proxies@, ids)
            &&& outcomes == failures(before.proxies@, ids)
        };
    assert(ids.to_set().contains(id) <==> ids.contains(id));
}

/// A connection that is to be taken away delivers nothing to the guest any more, whatever it
/// is asked to deliver meanwhile.
pub proof fn law_silenced_connections_deliver_nothing(proxy: AnyProxy, packet: MuxerRx, room: int)
    requires
        proxy.wf(),
    ensures
        proxy.silenced().wf(),
        proxy.silenced().credit() matches Some((kept, count)) ==> kept.pushed(packet, count) is None
            && kept.delivered(count, room) == Seq::<MuxerRx>::empty(),
{
}

} // verus!
