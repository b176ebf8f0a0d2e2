//! What the thread that serves the connections decides.
use crate::events::EventSet;
use crate::vsock::control::{ControlHandle, ControlProxy, PendingRequest};
use crate::vsock::defs::{proxy_id, source_port, TSI_PROXY_PORT};
use rand::RngExt;
use std::collections::HashSet;
use vstd::prelude::*;

verus! {

broadcast use vstd::std_specs::hash::group_hash_axioms;

/// The first port of connections that the host asks for over a control channel.
pub const SOURCE_PORTS_START: u32 = 0x4000_0000;

/// The end of the ports of connections that the host asks for over a control channel.
pub const SOURCE_PORTS_END: u32 = 0x8000_0000;

/// The first port of connections that a socket of the host has accepted.
pub const ACCEPTED_PORTS_START: u32 = 1024;

/// The number by which the control channel's own events are told.
pub const CONTROL_EVENT: u64 = 0xffff_ffff_ffff_ffff;

/// The number by which it is told that something waits to be sent over the control channel.
pub const CONTROL_WAKE_EVENT: u64 = 0xffff_ffff_ffff_fffe;

/// `rand::RngExt::random_range` on `rand::rng`: a number of the range, picked by chance. Which
/// one is left unsaid.
#[verifier::external_body]
fn random_port(low: u32, high: u32) -> (port: u32)
    requires
        low < high,
    ensures
        low <= port < high,
{
    rand::rng().random_range(low..high)
}

/// The host's port of a connection and the connection's number.
#[derive(Clone, Copy, Debug, PartialEq, Eq, Structural)]
pub struct NewConnection {
    pub id: u64,
    pub local_port: u32,
}

/// The connection that a port of the host and one of the guest make.
pub open spec fn connection(peer_port: u32, local_port: u32) -> NewConnection {
    NewConnection { id: crate::vsock::defs::proxy_id_spec(peer_port, local_port), local_port }
}

/// A connection that a socket of the host has accepted. Its port is picked by chance.
pub fn accepted_connection(peer_port: u32) -> (result: NewConnection)
    ensures
        ACCEPTED_PORTS_START <= result.local_port < u32::MAX,
        result == connection(peer_port, result.local_port),
{
    let local_port: u32 = random_port(ACCEPTED_PORTS_START, u32::MAX);
    NewConnection { id: proxy_id(peer_port, local_port), local_port }
}

/// Hands out ports in turn.
#[derive(Clone, Copy, Debug, PartialEq, Eq, Structural)]
pub struct SourcePortAllocator {
    pub start: u32,
    pub end: u32,
    pub next: u32,
}

/// A connection uses the port.
pub open spec fn port_live(ids: Seq<u64>, port: u32) -> bool {
    exists|i: int|
        0 <= i < ids.len() && crate::vsock::defs::source_port_spec(#[trigger] ids[i]) == port
}

impl SourcePortAllocator {
    pub open spec fn wf(self) -> bool {
        self.start < self.end ==> self.start <= self.next < self.end
    }

    pub fn new(start: u32, end: u32) -> (allocator: SourcePortAllocator)
        ensures
            allocator == (SourcePortAllocator { start, end, next: start }),
            allocator.wf(),
    {
        SourcePortAllocator { start, end, next: start }
    }

    /// The port that comes so many places after the next one.
    pub open spec fn port_at(self, steps: int) -> u32 {
        (if self.next + steps < self.end {
            self.next + steps
        } else {
            self.next + steps - (self.end - self.start)
        }) as u32
    }

    /// The port that comes after that one.
    pub open spec fn after(self, port: u32) -> u32 {
        (if port + 1 == self.end {
            self.start as int
        } else {
            port + 1
        }) as u32
    }

    /// The port is the first in turn that is not in use.
    pub open spec fn first_free(self, used: spec_fn(u32) -> bool, port: u32) -> bool {
        exists|steps: int|
            0 <= steps < self.end - self.start && #[trigger] self.port_at(steps) == port && forall|
                earlier: int,
            |
                0 <= earlier < steps ==> used(#[trigger] self.port_at(earlier))
    }

    /// The next port, in turn, that no connection uses.
    pub fn allocate(&mut self, live_proxy_ids: &Vec<u64>) -> (result: Option<u32>)
        requires
            old(self).wf(),
        ensures
            final(self).wf(),
            final(self).start == old(self).start,
            final(self).end == old(self).end,
            match result {
                Some(port) => {
                    &&& old(self).first_free(|p: u32| port_live(live_proxy_ids@, p), port)
                    &&& old(self).start <= port < old(self).end
                    &&& !port_live(live_proxy_ids@, port)
                    &&& final(self).next == old(self).after(port)
                },
                None => {
                    &&& *final(self) == *old(self)
                    &&& forall|port: u32|
                        old(self).start <= port < old(self).end ==> port_live(
                            live_proxy_ids@,
                            port,
                        )
                },
            },
    {
        let mut live: HashSet<u32> = HashSet::new();
        let mut i: usize = 0;
        while i < live_proxy_ids.len()
            invariant
                i <= live_proxy_ids@.len(),
                forall|port: u32|
                    live@.contains(port) <==> port_live(live_proxy_ids@.take(i as int), port),
            decreases live_proxy_ids.len() - i,
        {
            let port: u32 = source_port(live_proxy_ids[i]);
            let ghost before = live_proxy_ids@.take(i as int);
            let ghost after = live_proxy_ids@.take(i + 1);
            live.insert(port);
            proof {
                assert(after[i as int] == live_proxy_ids@[i as int]);
                assert forall|p: u32| port_live(after, p) <==> (p == port || port_live(before, p)) by {
                    if port_live(after, p) && p != port {
                        let j = choose|j: int|
                            0 <= j < after.len() && crate::vsock::defs::source_port_spec(
                                #[trigger] after[j],
                            ) == p;
                        assert(before[j] == after[j]);
                    }
                    if port_live(before, p) {
                        let j = choose|j: int|
                            0 <= j < before.len() && crate::vsock::defs::source_port_spec(
                                #[trigger] before[j],
                            ) == p;
                        assert(before[j] == after[j]);
                    }
                }
            }
            i += 1;
        }
        assert(live_proxy_ids@.take(i as int) =~= live_proxy_ids@);
        let ghost first = *self;
        let size: u32 = if self.start < self.end {
            self.end - self.start
        } else {
            0
        };
        let mut steps: u32 = 0;
        while steps < size
            invariant
                steps <= size,
                size == if first.start < first.end {
                    first.end - first.start
                } else {
                    0
                },
                first == *old(self),
                first.wf(),
                self.start == first.start,
                self.end == first.end,
                size > 0 ==> self.wf() && self.next == (if steps == size {
                    first.next
                } else {
                    first.port_at(steps as int)
                }),
                size == 0 ==> *self == first,
                forall|port: u32| live@.contains(port) <==> port_live(live_proxy_ids@, port),
                forall|earlier: int|
                    0 <= earlier < steps ==> port_live(
                        live_proxy_ids@,
                        #[trigger] first.port_at(earlier),
                    ),
            decreases size - steps,
        {
            let port: u32 = self.next;
            assert(first.port_at(steps as int) == port);
            self.next = if port + 1 == self.end {
                self.start
            } else {
                port + 1
            };
            if !live.contains(&port) {
                return Some(port);
            }
            steps += 1;
        }
        assert forall|port: u32| first.start <= port < first.end implies port_live(
            live_proxy_ids@,
            port,
        ) by {
            let place = if port >= first.next {
                port - first.next
            } else {
                port - first.next + (first.end - first.start)
            };
            assert(first.port_at(place) == port);
        }
        None
    }

    /// The connection that the host asks for over a control channel, if a port is left.
    pub fn host_connection(&mut self, guest_port: u32, live_proxy_ids: &Vec<u64>) -> (result: Option<
        NewConnection,
    >)
        requires
            old(self).wf(),
        ensures
            final(self).wf(),
            final(self).start == old(self).start,
            final(self).end == old(self).end,
            match result {
                Some(new) => {
                    &&& new == connection(guest_port, new.local_port)
                    &&& old(self).first_free(
                        |p: u32| port_live(live_proxy_ids@, p),
                        new.local_port,
                    )
                    &&& old(self).start <= new.local_port < old(self).end
                    &&& !port_live(live_proxy_ids@, new.local_port)
                    &&& final(self).next == old(self).after(new.local_port)
                },
                None => {
                    &&& *final(self) == *old(self)
                    &&& forall|port: u32|
                        old(self).start <= port < old(self).end ==> port_live(
                            live_proxy_ids@,
                            port,
                        )
                },
            },
    {
        match self.allocate(live_proxy_ids) {
            Some(local_port) => Some(
                NewConnection { id: proxy_id(guest_port, local_port), local_port },
            ),
            None => None,
        }
    }
}

/// No two connections of the host over a control channel share a port, whatever ports of the
/// guest they go to: the new connection's number is none that is in use.
pub proof fn law_source_ports_are_global(ids: Seq<u64>, guest_port: u32, local_port: u32, at: int)
    requires
        !port_live(ids, local_port),
        0 <= at < ids.len(),
    ensures
        ids[at] != connection(guest_port, local_port).id,
        crate::vsock::defs::source_port_spec(ids[at]) != local_port,
{
}

/// What the events of the control channel lead to: reading, and then sending.
#[derive(Clone, Copy, Debug, PartialEq, Eq, Structural)]
pub struct ControlWork {
    pub read: bool,
    pub flush: bool,
}

pub fn service_control(events: EventSet) -> (work: ControlWork)
    ensures
        work == (ControlWork {
            read: events.input || events.read_hang_up || events.hang_up,
            flush: events.output,
        }),
{
    ControlWork {
        read: events.input || events.read_hang_up || events.hang_up,
        flush: events.output,
    }
}

/// What the control channel is watched for.
pub fn update_control_polling(wants_write: bool) -> (events: EventSet)
    ensures
        events == (EventSet { output: wants_write, ..EventSet::only_input() }),
{
    let mut events = EventSet::readable();
    events.output = wants_write;
    events
}

/// How long the thread waits: for whichever of the two ends first. A negative number stands
/// for no end.
pub open spec fn wait_timeout_spec(queue_timeout: int, partial_timeout: int) -> int {
    if queue_timeout == -1 {
        partial_timeout
    } else if partial_timeout == -1 || queue_timeout < partial_timeout {
        queue_timeout
    } else {
        partial_timeout
    }
}

/// How long the thread waits, where the two waits are given.
pub fn wait_timeout(queue_timeout: i32, partial_timeout: i32) -> (timeout: i32)
    ensures
        timeout == wait_timeout_spec(queue_timeout as int, partial_timeout as int),
{
    if queue_timeout == -1 {
        partial_timeout
    } else if partial_timeout == -1 || queue_timeout < partial_timeout {
        queue_timeout
    } else {
        partial_timeout
    }
}

/// What an event concerns.
#[derive(Clone, Copy, Debug, PartialEq, Eq, Structural)]
pub enum EventSource {
    Control,
    ControlWake,
    Proxy(u64),
}

/// What an event concerns. Where there are no control channels, every number is that of a
/// connection.
pub fn event_source(control_channels: bool, id: u64) -> (source: EventSource)
    ensures
        source == if control_channels && id == CONTROL_EVENT {
            EventSource::Control
        } else if control_channels && id == CONTROL_WAKE_EVENT {
            EventSource::ControlWake
        } else {
            EventSource::Proxy(id)
        },
{
    if control_channels && id == CONTROL_EVENT {
        EventSource::Control
    } else if control_channels && id == CONTROL_WAKE_EVENT {
        EventSource::ControlWake
    } else {
        EventSource::Proxy(id)
    }
}

/// Takes note that something waits to be sent over the control channel. It is sent, unless the
/// channel is of no more use: that channel is given up.
pub fn woken(handle: &mut ControlHandle) -> (work: Option<ControlWork>)
    ensures
        *final(handle) == (ControlHandle { wake: false, ..*old(handle) }),
        work == if !old(handle).fenced && old(handle).active {
            Some(ControlWork { read: false, flush: true })
        } else {
            None
        },
{
    handle.drain_wake();
    if !handle.is_active() {
        return None;
    }
    Some(ControlWork { read: false, flush: true })
}

/// What a turn of the thread starts with.
#[derive(Debug)]
pub struct TurnStart {
    /// The connections whose request to the host is given up.
    pub expired: Vec<u64>,
    /// The control channel has failed.
    pub failed: bool,
    /// The connections that still waited for the host when the channel failed.
    pub ended: Vec<u64>,
}

/// The connections that wait for the host.
pub open spec fn waiting_proxies(pending: Seq<PendingRequest>) -> Seq<u64> {
    pending.map_values(|p: PendingRequest| p.proxy_id)
}

/// Looks at the deadlines at the start of a turn. A line that the host began and did not finish
/// in time ends the channel, and so does a frame that was sent in part.
pub fn begin_turn(control: &mut ControlProxy, handle: &mut ControlHandle, now: u64) -> (start:
    TurnStart)
    requires
        old(handle).wf(),
        old(control).wf(),
    ensures
        final(handle).wf(),
        final(control).wf(),
        start.failed ==> {
            &&& final(handle).fenced
            &&& final(control).fd is None
            &&& final(control).line@.len() == 0
            &&& final(control).protected_identities == old(control).protected_identities
        },
        final(handle).next_request_id == old(handle).next_request_id,
        final(handle).wake == old(handle).wake,
        !start.failed ==> *final(control) == *old(control) && start.ended@.len() == 0,
        ({
            let late = old(control).line_deadline matches Some(deadline) && deadline <= now;
            let outcome = crate::vsock::control::expiry(
                old(handle).frames@,
                old(handle).pending@,
                crate::vsock::control::expired_ids(old(handle).pending@, now),
            );
            if late {
                start.failed && start.expired@.len() == 0 && start.ended@ == waiting_proxies(
                    old(handle).pending@,
                )
            } else if old(handle).fenced {
                start.failed && start.expired@.len() == 0 && start.ended@.len() == 0
            } else {
                &&& start.failed == outcome.failed
                &&& start.expired@ == outcome.proxies
                &&& start.failed ==> start.ended@ == waiting_proxies(outcome.pending)
                &&& !start.failed ==> {
                    &&& final(handle).frames@ == outcome.frames
                    &&& final(handle).pending@ == outcome.pending
                    &&& final(handle).fenced == old(handle).fenced
                    &&& final(handle).active == old(handle).active
                }
            }
        }),
{
    if control.partial_expired(now) {
        let ended = control.close(handle);
        return TurnStart { expired: Vec::new(), failed: true, ended };
    }
    let (expired, failed) = handle.expire(now);
    if failed {
        let ended = control.close(handle);
        assert(old(handle).fenced ==> ended@ =~= Seq::<u64>::empty());
        return TurnStart { expired, failed, ended };
    }
    TurnStart { expired, failed, ended: Vec::new() }
}

/// How long the thread waits in a turn.
pub fn turn_timeout(control: &ControlProxy, handle: &ControlHandle, now: u64) -> (timeout: i32)
    ensures
        timeout == wait_timeout_spec(
            handle.timeout_spec(now),
            match control.line_deadline {
                Some(deadline) => crate::vsock::control::millis_until(deadline, now) as int,
                None => -1,
            },
        ),
{
    let partial: i32 = match control.partial_timeout_ms(now) {
        Some(timeout) => timeout,
        None => -1,
    };
    wait_timeout(handle.next_timeout_ms(now), partial)
}

/// The numbers are in order, and none occurs twice.
pub open spec fn increasing(ids: Seq<u64>) -> bool {
    forall|i: int, j: int| 0 <= i < j < ids.len() ==> #[trigger] ids[i] < #[trigger] ids[j]
}

/// Inserts a number in its place, if it is not there.
fn insert_id(ids: &mut Vec<u64>, id: u64)
    requires
        increasing(old(ids)@),
    ensures
        increasing(final(ids)@),
        forall|x: u64| final(ids)@.contains(x) <==> (x == id || old(ids)@.contains(x)),
{
    let ghost before = ids@;
    let mut at: usize = 0;
    while at < ids.len() && ids[at] < id
        invariant
            at <= ids@.len(),
            ids@ == before,
            forall|i: int| 0 <= i < at ==> #[trigger] ids@[i] < id,
        decreases ids.len() - at,
    {
        at += 1;
    }
    if at < ids.len() && ids[at] == id {
        assert(before[at as int] == id);
        return;
    }
    ids.insert(at, id);
    let ghost after = ids@;
    proof {
        assert(after =~= before.insert(at as int, id));
        assert forall|i: int, j: int| 0 <= i < j < after.len() implies #[trigger] after[i]
            < #[trigger] after[j] by {
            let a = if i < at {
                i
            } else {
                i - 1
            };
            let b = if j < at {
                j
            } else {
                j - 1
            };
            if i != at {
                assert(after[i] == before[a]);
            }
            if j != at {
                assert(after[j] == before[b]);
            }
            if i == at {
                assert(before[at as int] > id);
                if b > at {
                    assert(before[at as int] < before[b]);
                }
            }
        }
        assert forall|x: u64| after.contains(x) <==> (x == id || before.contains(x)) by {
            if after.contains(x) && x != id {
                let i = choose|i: int| 0 <= i < after.len() && after[i] == x;
                if i < at {
                    assert(before[i] == x);
                } else {
                    assert(before[i - 1] == x);
                }
            }
            if before.contains(x) {
                let i = choose|i: int| 0 <= i < before.len() && before[i] == x;
                if i < at {
                    assert(after[i] == x);
                } else {
                    assert(after[i + 1] == x);
                }
            }
            assert(after[at as int] == id);
        }
    }
}

/// The connections that end with a control channel: those that came over it, and those that
/// wait for the host. Each ends once, in the order of their numbers.
pub fn transport_victims(mux_ids: &Vec<u64>, pending: &Vec<u64>) -> (ids: Vec<u64>)
    ensures
        increasing(ids@),
        forall|id: u64| ids@.contains(id) <==> (mux_ids@.contains(id) || pending@.contains(id)),
{
    let mut ids: Vec<u64> = Vec::new();
    let mut i: usize = 0;
    while i < mux_ids.len()
        invariant
            i <= mux_ids@.len(),
            increasing(ids@),
            forall|id: u64| ids@.contains(id) <==> mux_ids@.take(i as int).contains(id),
        decreases mux_ids.len() - i,
    {
        insert_id(&mut ids, mux_ids[i]);
        proof {
            let after = mux_ids@.take(i + 1);
            assert(after =~= mux_ids@.take(i as int).push(mux_ids@[i as int]));
            lemma_contains_push(mux_ids@.take(i as int), mux_ids@[i as int], after);
        }
        i += 1;
    }
    assert(mux_ids@.take(i as int) =~= mux_ids@);
    let mut j: usize = 0;
    while j < pending.len()
        invariant
            j <= pending@.len(),
            increasing(ids@),
            forall|id: u64|
                ids@.contains(id) <==> (mux_ids@.contains(id) || pending@.take(j as int).contains(
                    id,
                )),
        decreases pending.len() - j,
    {
        insert_id(&mut ids, pending[j]);
        proof {
            let after = pending@.take(j + 1);
            assert(after =~= pending@.take(j as int).push(pending@[j as int]));
            lemma_contains_push(pending@.take(j as int), pending@[j as int], after);
        }
        j += 1;
    }
    assert(pending@.take(j as int) =~= pending@);
    ids
}

pub(crate) proof fn lemma_contains_push(before: Seq<u64>, id: u64, after: Seq<u64>)
    requires
        after == before.push(id),
    ensures
        forall|x: u64| #[trigger] after.contains(x) <==> (x == id || before.contains(x)),
{
    assert forall|x: u64| #[trigger] after.contains(x) <==> (x == id || before.contains(x)) by {
        if after.contains(x) && x != id {
            let i = choose|i: int| 0 <= i < after.len() && after[i] == x;
            assert(before[i] == x);
        }
        if before.contains(x) {
            let i = choose|i: int| 0 <= i < before.len() && before[i] == x;
            assert(after[i] == x);
        }
        assert(after[before.len() as int] == id);
    }
}

/// A port of the host's file system that the guest knows.
#[derive(Clone, Copy, Debug, PartialEq, Eq, Structural)]
pub struct IpcPort {
    pub port: u32,
    /// The host listens for connections to the guest.
    pub listen: bool,
}

/// The numbers of the sockets that listen for connections to the guest, each with its port.
pub open spec fn listening_spec(ports: Seq<IpcPort>) -> Seq<NewConnection>
    decreases ports.len(),
{
    if ports.len() == 0 {
        Seq::empty()
    } else {
        let rest = listening_spec(ports.drop_last());
        if ports.last().listen {
            rest.push(
                NewConnection {
                    id: crate::vsock::defs::proxy_id_spec(ports.last().port, TSI_PROXY_PORT),
                    local_port: ports.last().port,
                },
            )
        } else {
            rest
        }
    }
}

/// The sockets that are to listen for connections to the guest.
pub fn create_listening_ipc_sockets(ports: &Vec<IpcPort>) -> (sockets: Vec<NewConnection>)
    ensures
        sockets@ == listening_spec(ports@),
{
    let mut sockets: Vec<NewConnection> = Vec::new();
    let mut i: usize = 0;
    while i < ports.len()
        invariant
            i <= ports@.len(),
            sockets@ == listening_spec(ports@.take(i as int)),
        decreases ports.len() - i,
    {
        assert(ports@.take(i + 1).drop_last() =~= ports@.take(i as int));
        let ipc = ports[i];
        if ipc.listen {
            sockets.push(
                NewConnection { id: proxy_id(ipc.port, TSI_PROXY_PORT), local_port: ipc.port },
            );
        }
        i += 1;
    }
    assert(ports@.take(i as int) =~= ports@);
    sockets
}

} // verus!
