//! What the connections of the socket device have in common.
use crate::events::EventSet;
use crate::vsock::defs::{
    AddressFamily, SocketAddress, VSOCK_PKT_HDR_SIZE,
};
use vstd::prelude::*;

verus! {

/// The answer to a question for a peer's name.
#[derive(Debug, PartialEq, Eq)]
pub struct TsiGetnameRsp {
    pub result: i32,
    pub addr_len: u32,
    pub addr: SocketAddress,
}

/// A packet for the guest.
#[derive(Debug, PartialEq, Eq)]
pub enum MuxerRx {
    Reset { local_port: u32, peer_port: u32 },
    Shutdown { local_port: u32, peer_port: u32, flags: u32 },
    GetnameResponse { local_port: u32, peer_port: u32, data: TsiGetnameRsp },
    ConnResponse { local_port: u32, peer_port: u32, result: i32 },
    OpRequest { local_port: u32, peer_port: u32 },
    OpResponse { local_port: u32, peer_port: u32 },
    CreditRequest { local_port: u32, peer_port: u32, fwd_cnt: u32 },
    CreditUpdate { local_port: u32, peer_port: u32, fwd_cnt: u32 },
    ListenResponse { local_port: u32, peer_port: u32, result: i32 },
    AcceptResponse { local_port: u32, peer_port: u32, result: i32 },
}

impl MuxerRx {
    /// The packet speaks of credit.
    pub open spec fn is_credit(self) -> bool {
        self is CreditRequest || self is CreditUpdate
    }

    /// The packet with the counter that is right now.
    pub open spec fn with_count(self, count: u32) -> MuxerRx {
        match self {
            MuxerRx::CreditRequest { local_port, peer_port, .. } => MuxerRx::CreditRequest {
                local_port,
                peer_port,
                fwd_cnt: count,
            },
            MuxerRx::CreditUpdate { local_port, peer_port, .. } => MuxerRx::CreditUpdate {
                local_port,
                peer_port,
                fwd_cnt: count,
            },
            _ => self,
        }
    }

    fn recount(self, count: u32) -> (packet: MuxerRx)
        ensures
            packet == self.with_count(count),
    {
        match self {
            MuxerRx::CreditRequest { local_port, peer_port, .. } => MuxerRx::CreditRequest {
                local_port,
                peer_port,
                fwd_cnt: count,
            },
            MuxerRx::CreditUpdate { local_port, peer_port, .. } => MuxerRx::CreditUpdate {
                local_port,
                peer_port,
                fwd_cnt: count,
            },
            other => other,
        }
    }
}

/// What came of reading into a packet.
#[derive(Clone, Copy, Debug, PartialEq, Eq, Structural)]
pub enum RecvPkt {
    Close,
    Error,
    Read(usize),
    WaitForCredit,
}

/// Why a connection was not made.
#[derive(Clone, Copy, Debug, PartialEq, Eq, Structural)]
pub enum ProxyError {
    CreatingSocket(i32),
    InvalidFamily,
    SettingReuseAddr(i32),
    SettingReusePort(i32),
}

#[derive(Clone, Copy, Debug, PartialEq, Eq, Structural)]
pub enum ProxyStatus {
    Idle,
    Connecting,
    Connected,
    Listening,
    Closed,
    WaitingCreditUpdate,
    ReverseInit,
    WaitingOnAccept,
    WaitingOnHost,
    SendingConnectResponse,
    PeerHalfClosed,
}

/// Whether a connection goes away, and when.
#[derive(Clone, Copy, Debug, PartialEq, Eq, Structural)]
pub enum ProxyRemoval {
    Keep,
    Immediate,
    Deferred,
}

#[derive(Clone, Copy, Debug, PartialEq, Eq, Structural)]
pub enum NewProxyType {
    Tcp,
    Unix,
}

/// What a descriptor is watched for.
#[derive(Clone, Copy, Debug, PartialEq, Eq, Structural)]
pub struct Polling {
    pub id: u64,
    pub fd: i32,
    pub events: EventSet,
}

/// A connection that was accepted.
#[derive(Clone, Copy, Debug, PartialEq, Eq, Structural)]
pub struct NewProxy {
    pub peer_port: u32,
    pub fd: i32,
    pub family: AddressFamily,
    pub kind: NewProxyType,
}

/// An accepted connection, and the socket that accepted it.
#[derive(Clone, Copy, Debug, PartialEq, Eq, Structural)]
pub struct Accepted {
    pub id: u64,
    pub parent_id: u64,
}

/// What a connection asks for after it has handled something.
#[derive(Debug, PartialEq, Eq)]
pub struct ProxyUpdate {
    pub signal_queue: bool,
    pub remove_proxy: ProxyRemoval,
    pub polling: Option<Polling>,
    pub new_proxy: Option<NewProxy>,
    pub push_accept: Option<Accepted>,
    pub push_credit_req: Option<MuxerRx>,
}

impl ProxyUpdate {
    /// Nothing is asked for.
    pub open spec fn nothing() -> ProxyUpdate {
        ProxyUpdate {
            signal_queue: false,
            remove_proxy: ProxyRemoval::Keep,
            polling: None,
            new_proxy: None,
            push_accept: None,
            push_credit_req: None,
        }
    }

    pub fn new() -> (update: ProxyUpdate)
        ensures
            update == ProxyUpdate::nothing(),
    {
        ProxyUpdate {
            signal_queue: false,
            remove_proxy: ProxyRemoval::Keep,
            polling: None,
            new_proxy: None,
            push_accept: None,
            push_credit_req: None,
        }
    }

    /// Only a descriptor is to be watched.
    pub fn poll(id: u64, fd: i32, events: EventSet) -> (update: ProxyUpdate)
        ensures
            update == (ProxyUpdate {
                polling: Some(Polling { id, fd, events }),
                ..ProxyUpdate::nothing()
            }),
    {
        let mut update = ProxyUpdate::new();
        update.polling = Some(Polling { id, fd, events });
        update
    }

    /// Only the connection is to go away.
    pub fn remove(remove_proxy: ProxyRemoval) -> (update: ProxyUpdate)
        ensures
            update == (ProxyUpdate { remove_proxy, ..ProxyUpdate::nothing() }),
    {
        let mut update = ProxyUpdate::new();
        update.remove_proxy = remove_proxy;
        update
    }
}

/// What a connection has done: the packet for the guest, if there is one, and what it asks for.
#[derive(Debug, PartialEq, Eq)]
pub struct Handled {
    pub push: Option<MuxerRx>,
    pub update: ProxyUpdate,
    /// The socket is to wait from now on.
    pub set_blocking: bool,
    /// Both sides of the socket are to be shut down.
    pub shutdown_both: bool,
}

impl Handled {
    /// Nothing was done.
    pub open spec fn nothing() -> Handled {
        Handled {
            push: None,
            update: ProxyUpdate::nothing(),
            set_blocking: false,
            shutdown_both: false,
        }
    }

    /// Only the update is asked for.
    pub fn only(update: ProxyUpdate) -> (handled: Handled)
        ensures
            handled == (Handled { update, ..Handled::nothing() }),
    {
        Handled { push: None, update, set_blocking: false, shutdown_both: false }
    }

    /// A packet is pushed, and the update is asked for.
    pub fn pushing(packet: MuxerRx, update: ProxyUpdate) -> (handled: Handled)
        ensures
            handled == (Handled { push: Some(packet), update, ..Handled::nothing() }),
    {
        Handled { push: Some(packet), update, set_blocking: false, shutdown_both: false }
    }
}

/// Packets about credit that the guest had no room for. Counters run free, so a later packet
/// of a kind says all that an earlier one did: one of each kind is kept.
#[derive(Debug, PartialEq, Eq)]
pub struct DeferredCredit {
    pub request: Option<MuxerRx>,
    pub update: Option<MuxerRx>,
    pub enabled: bool,
}

impl DeferredCredit {
    /// Each packet is kept under its kind, and none is kept once it is switched off.
    pub open spec fn wf(self) -> bool {
        &&& self.request matches Some(packet) ==> packet is CreditRequest
        &&& self.update matches Some(packet) ==> packet is CreditUpdate
        &&& !self.enabled ==> self.request is None && self.update is None
    }

    pub fn new() -> (credit: DeferredCredit)
        ensures
            credit == (DeferredCredit { request: None, update: None, enabled: true }),
            credit.wf(),
    {
        DeferredCredit { request: None, update: None, enabled: true }
    }

    /// What is kept once a packet has come, or nothing if it is not taken.
    pub open spec fn pushed(self, credit: MuxerRx, fwd_cnt: u32) -> Option<DeferredCredit> {
        if !self.enabled {
            None
        } else {
            match credit {
                MuxerRx::CreditRequest { .. } => Some(
                    DeferredCredit { request: Some(credit.with_count(fwd_cnt)), ..self },
                ),
                MuxerRx::CreditUpdate { .. } => Some(
                    DeferredCredit { update: Some(credit.with_count(fwd_cnt)), ..self },
                ),
                _ => None,
            }
        }
    }

    /// Keeps a packet in place of the last of its kind. A packet that is not about credit is
    /// given back, and so is any packet once this is switched off.
    pub fn push(&mut self, credit: MuxerRx, fwd_cnt: u32) -> (result: Result<(), MuxerRx>)
        requires
            old(self).wf(),
        ensures
            final(self).wf(),
            match old(self).pushed(credit, fwd_cnt) {
                Some(kept) => result is Ok && *final(self) == kept,
                None => result == Err::<(), MuxerRx>(credit) && *final(self) == *old(self),
            },
    {
        if !self.enabled {
            return Err(credit);
        }
        match credit {
            MuxerRx::CreditRequest { local_port, peer_port, fwd_cnt: _ } => {
                self.request = Some(MuxerRx::CreditRequest { local_port, peer_port, fwd_cnt });
                Ok(())
            },
            MuxerRx::CreditUpdate { local_port, peer_port, fwd_cnt: _ } => {
                self.update = Some(MuxerRx::CreditUpdate { local_port, peer_port, fwd_cnt });
                Ok(())
            },
            other => Err(other),
        }
    }

    /// The packet that is next: the request before the update.
    pub open spec fn next(self) -> Option<MuxerRx> {
        if self.request is Some {
            self.request
        } else {
            self.update
        }
    }

    /// What is kept without the packet that is next.
    pub open spec fn rest(self) -> DeferredCredit {
        if self.request is Some {
            DeferredCredit { request: None, ..self }
        } else {
            DeferredCredit { update: None, ..self }
        }
    }

    /// Takes the packet that is next, with the counter that is right now.
    pub fn pop(&mut self, fwd_cnt: u32) -> (result: Option<MuxerRx>)
        requires
            old(self).wf(),
        ensures
            final(self).wf(),
            *final(self) == old(self).rest(),
            match old(self).next() {
                Some(packet) => result == Some(packet.with_count(fwd_cnt)),
                None => result is None,
            },
    {
        match self.request.take() {
            Some(packet) => Some(packet.recount(fwd_cnt)),
            None => match self.update.take() {
                Some(packet) => Some(packet.recount(fwd_cnt)),
                None => None,
            },
        }
    }

    /// Drops what is kept and takes nothing from now on.
    pub fn disable(&mut self)
        ensures
            *final(self) == (DeferredCredit { request: None, update: None, enabled: false }),
            final(self).wf(),
    {
        self.request = None;
        self.update = None;
        self.enabled = false;
    }

    pub fn is_enabled(&self) -> (result: bool)
        ensures
            result == self.enabled,
    {
        self.enabled
    }

    /// The number of packets that are kept.
    pub open spec fn count(self) -> nat {
        (if self.request is Some {
            1nat
        } else {
            0nat
        }) + (if self.update is Some {
            1nat
        } else {
            0nat
        })
    }

    /// The packets that are delivered where the guest has room for `room`, in their order.
    pub open spec fn delivered(self, fwd_cnt: u32, room: int) -> Seq<MuxerRx>
        decreases self.count(),
    {
        if room <= 0 || self.next() is None {
            Seq::empty()
        } else {
            seq![self.next()->0.with_count(fwd_cnt)] + self.rest().delivered(fwd_cnt, room - 1)
        }
    }

    /// What is kept after the delivery. A packet that was tried in vain has the counter that is
    /// right now.
    pub open spec fn kept(self, fwd_cnt: u32, room: int) -> DeferredCredit
        decreases self.count(),
    {
        if self.next() is None {
            self
        } else if room <= 0 {
            self.rest().pushed(self.next()->0.with_count(fwd_cnt), fwd_cnt)->0
        } else {
            self.rest().kept(fwd_cnt, room - 1)
        }
    }

    /// Delivers what is kept as far as the guest has room.
    pub fn flush(&mut self, fwd_cnt: u32, room: usize) -> (packets: Vec<MuxerRx>)
        requires
            old(self).wf(),
        ensures
            final(self).wf(),
            packets@ == old(self).delivered(fwd_cnt, room as int),
            *final(self) == old(self).kept(fwd_cnt, room as int),
    {
        let mut packets: Vec<MuxerRx> = Vec::new();
        let mut left: usize = room;
        loop
            invariant
                self.wf(),
                packets@ + self.delivered(fwd_cnt, left as int) =~= old(self).delivered(
                    fwd_cnt,
                    room as int,
                ),
                self.kept(fwd_cnt, left as int) == old(self).kept(fwd_cnt, room as int),
            decreases self.count(),
        {
            let ghost before = *self;
            let ghost taken = packets@;
            match self.pop(fwd_cnt) {
                None => {
                    assert(before.delivered(fwd_cnt, left as int) =~= Seq::<MuxerRx>::empty());
                    assert(packets@ =~= old(self).delivered(fwd_cnt, room as int));
                    return packets;
                },
                Some(packet) => {
                    if left == 0 {
                        let ghost tried = packet;
                        let _ = self.push(packet, fwd_cnt);
                        assert(before.delivered(fwd_cnt, 0) =~= Seq::<MuxerRx>::empty());
                        assert(packets@ =~= old(self).delivered(fwd_cnt, room as int));
                        return packets;
                    }
                    packets.push(packet);
                    assert(before.delivered(fwd_cnt, left as int) == seq![packets@.last()]
                        + self.delivered(fwd_cnt, left - 1));
                    assert(packets@ =~= taken.push(packets@.last()));
                    left = left - 1;
                },
            }
        }
    }
}

/// The last counter that is known is the one that is delivered, whatever was kept earlier.
pub proof fn law_delivered_credit_is_current(credit: DeferredCredit, fwd_cnt: u32, room: int, at: int)
    requires
        credit.wf(),
        0 <= at < credit.delivered(fwd_cnt, room).len(),
    ensures
        credit.delivered(fwd_cnt, room)[at].is_credit(),
        credit.delivered(fwd_cnt, room)[at] == credit.delivered(fwd_cnt, room)[at].with_count(
            fwd_cnt,
        ),
        credit.delivered(fwd_cnt, room).len() <= 2,
    decreases credit.count(),
{
    if at > 0 {
        law_delivered_credit_is_current(credit.rest(), fwd_cnt, room - 1, at - 1);
    }
    reveal_with_fuel(DeferredCredit::delivered, 4);
}

/// Once it is switched off, nothing is kept and nothing is delivered again.
pub proof fn law_disabled_credit_stays_empty(credit: DeferredCredit, packet: MuxerRx, fwd_cnt: u32, room: int)
    requires
        credit.wf(),
        !credit.enabled,
    ensures
        credit.pushed(packet, fwd_cnt) is None,
        credit.delivered(fwd_cnt, room) == Seq::<MuxerRx>::empty(),
{
}

/// The counters of a connection. They run free and wrap.
#[derive(Clone, Copy, Debug, PartialEq, Eq, Structural)]
pub struct Counters {
    /// Bytes that went to the guest.
    pub rx_cnt: u32,
    /// Bytes that came from the guest.
    pub tx_cnt: u32,
    /// The value of `tx_cnt` that the guest was last told.
    pub last_tx_cnt_sent: u32,
    /// Bytes that the guest buffers.
    pub peer_buf_alloc: u32,
    /// Bytes that the guest has consumed.
    pub peer_fwd_cnt: u32,
    /// Bytes that were pushed into the guest's queue, headers and all.
    pub push_cnt: u32,
}

/// The difference of two counters that wrap.
pub open spec fn wrapped(difference: int) -> int {
    difference % 0x1_0000_0000
}

impl Counters {
    pub open spec fn zero() -> Counters {
        Counters {
            rx_cnt: 0,
            tx_cnt: 0,
            last_tx_cnt_sent: 0,
            peer_buf_alloc: 0,
            peer_fwd_cnt: 0,
            push_cnt: 0,
        }
    }

    pub fn new() -> (counters: Counters)
        ensures
            counters == Counters::zero(),
    {
        Counters {
            rx_cnt: 0,
            tx_cnt: 0,
            last_tx_cnt_sent: 0,
            peer_buf_alloc: 0,
            peer_fwd_cnt: 0,
            push_cnt: 0,
        }
    }

    /// The bytes that the guest has room for: what it buffers without what is on its way.
    pub open spec fn credit(self) -> int {
        wrapped(self.peer_buf_alloc - (self.rx_cnt - self.peer_fwd_cnt))
    }

    pub fn peer_avail_credit(&self) -> (credit: usize)
        ensures
            credit == self.credit(),
    {
        self.peer_buf_alloc.wrapping_sub(self.rx_cnt.wrapping_sub(self.peer_fwd_cnt)) as usize
    }

    /// Takes what the guest says of its buffer.
    pub fn set_peer(&mut self, buf_alloc: u32, fwd_cnt: u32)
        ensures
            *final(self) == (Counters {
                peer_buf_alloc: buf_alloc,
                peer_fwd_cnt: fwd_cnt,
                ..*old(self)
            }),
    {
        self.peer_buf_alloc = buf_alloc;
        self.peer_fwd_cnt = fwd_cnt;
    }

    /// The counters after bytes that came from the guest.
    pub open spec fn sent(self, count: u32) -> Counters {
        Counters { tx_cnt: wrapped(self.tx_cnt + count) as u32, ..self }
    }

    pub fn add_sent(&mut self, count: u32)
        ensures
            *final(self) == old(self).sent(count),
    {
        self.tx_cnt = self.tx_cnt.wrapping_add(count);
    }

    /// The guest is to be told what was consumed: at least half of its buffer since it was last
    /// told.
    pub open spec fn owes_update(self) -> bool {
        wrapped(self.tx_cnt - self.last_tx_cnt_sent) >= self.peer_buf_alloc / 2
    }

    /// The counters after the guest was told.
    pub open spec fn told(self) -> Counters {
        Counters { last_tx_cnt_sent: self.tx_cnt, ..self }
    }

    /// Tells the guest what was consumed, if that is owed.
    pub fn credit_update(&mut self, local_port: u32, peer_port: u32) -> (packet: Option<MuxerRx>)
        ensures
            *final(self) == if old(self).owes_update() {
                old(self).told()
            } else {
                *old(self)
            },
            packet == if old(self).owes_update() {
                Some(MuxerRx::CreditUpdate { local_port, peer_port, fwd_cnt: old(self).tx_cnt })
            } else {
                None
            },
    {
        if self.tx_cnt.wrapping_sub(self.last_tx_cnt_sent) >= self.peer_buf_alloc / 2 {
            self.last_tx_cnt_sent = self.tx_cnt;
            Some(MuxerRx::CreditUpdate { local_port, peer_port, fwd_cnt: self.tx_cnt })
        } else {
            None
        }
    }

    /// How many bytes are to be read for a packet that has room for `buffer` bytes.
    pub open spec fn limit(self, buffer: usize) -> int {
        if buffer < self.credit() {
            buffer as int
        } else {
            self.credit()
        }
    }

    pub fn receive_limit(&self, buffer: usize) -> (limit: usize)
        ensures
            limit == self.limit(buffer),
    {
        let credit: usize = self.peer_avail_credit();
        if buffer < credit {
            buffer
        } else {
            credit
        }
    }

    /// The counters after bytes that went to the guest.
    pub open spec fn received(self, count: usize) -> Counters {
        Counters {
            rx_cnt: wrapped(self.rx_cnt + count as u32) as u32,
            push_cnt: wrapped(self.push_cnt + ((VSOCK_PKT_HDR_SIZE + count) as u32)) as u32,
            ..self
        }
    }
}

/// What came of reading from a socket.
#[derive(Clone, Copy, Debug, PartialEq, Eq, Structural)]
pub enum RecvReply {
    /// So many bytes were read; none means that the peer has closed.
    Count(usize),
    /// Nothing is there right now.
    WouldBlock,
    Failed,
}

/// What reading into a packet of the guest came to. `buffer` is the room that the packet has,
/// if it has any at all. Nothing is read where the guest has no credit.
pub open spec fn recv_spec(counters: Counters, buffer: Option<usize>, reply: RecvReply) -> RecvPkt {
    match buffer {
        None => RecvPkt::Error,
        Some(room) => if counters.limit(room) == 0 {
            RecvPkt::WaitForCredit
        } else {
            match reply {
                RecvReply::Count(0) => RecvPkt::Close,
                RecvReply::Count(count) => RecvPkt::Read(count),
                _ => RecvPkt::Error,
            }
        },
    }
}

/// What reading into a packet of the guest came to.
pub fn recv_to_pkt(counters: &Counters, buffer: Option<usize>, reply: RecvReply) -> (result:
    RecvPkt)
    ensures
        result == recv_spec(*counters, buffer, reply),
{
    match buffer {
        None => RecvPkt::Error,
        Some(room) => if counters.receive_limit(room) == 0 {
            RecvPkt::WaitForCredit
        } else {
            match reply {
                RecvReply::Count(count) => if count == 0 {
                    RecvPkt::Close
                } else {
                    RecvPkt::Read(count)
                },
                _ => RecvPkt::Error,
            }
        },
    }
}

/// A turn of filling the guest's packets from a socket.
#[derive(Clone, Copy, Debug, PartialEq, Eq, Structural)]
pub struct Receiving {
    /// Some packet was filled.
    pub have_used: bool,
    /// The guest has no credit.
    pub wait_credit: bool,
    /// The peer has closed.
    pub closed: bool,
    /// The turn is over, and the packet that was tried last goes back.
    pub stopped: bool,
}

impl Receiving {
    pub open spec fn start() -> Receiving {
        Receiving { have_used: false, wait_credit: false, closed: false, stopped: false }
    }

    pub fn new() -> (turn: Receiving)
        ensures
            turn == Receiving::start(),
    {
        Receiving { have_used: false, wait_credit: false, closed: false, stopped: false }
    }

    /// The turn after one more packet.
    pub open spec fn next(self, result: RecvPkt) -> Receiving {
        match result {
            RecvPkt::Read(_) => Receiving { have_used: true, ..self },
            RecvPkt::WaitForCredit => Receiving { wait_credit: true, stopped: true, ..self },
            RecvPkt::Close => Receiving { closed: true, stopped: true, ..self },
            RecvPkt::Error => Receiving { stopped: true, ..self },
        }
    }

    /// Takes what reading into one more packet came to, and gives the bytes of the guest's
    /// queue that are used by it. The turn ends at the first packet that was not filled.
    pub fn step(&mut self, counters: &mut Counters, result: RecvPkt) -> (used: Option<u32>)
        requires
            result matches RecvPkt::Read(count) ==> count <= usize::MAX - VSOCK_PKT_HDR_SIZE,
        ensures
            *final(self) == old(self).next(result),
            match result {
                RecvPkt::Read(count) => *final(counters) == old(counters).received(count) && used
                    == Some((VSOCK_PKT_HDR_SIZE + count) as u32),
                _ => *final(counters) == *old(counters) && used is None,
            },
    {
        match result {
            RecvPkt::Read(count) => {
                let len: usize = VSOCK_PKT_HDR_SIZE + count;
                counters.rx_cnt = counters.rx_cnt.wrapping_add(count as u32);
                counters.push_cnt = counters.push_cnt.wrapping_add(len as u32);
                self.have_used = true;
                Some(len as u32)
            },
            RecvPkt::WaitForCredit => {
                self.wait_credit = true;
                self.stopped = true;
                None
            },
            RecvPkt::Close => {
                self.closed = true;
                self.stopped = true;
                None
            },
            RecvPkt::Error => {
                self.stopped = true;
                None
            },
        }
    }
}

/// Reading no more than the limit never takes more than the guest's credit: what is on its way
/// afterwards still fits the guest's buffer.
pub proof fn law_reads_stay_within_credit(counters: Counters, buffer: usize, count: usize)
    requires
        count <= counters.limit(buffer),
        counters.limit(buffer) <= u32::MAX,
        wrapped(counters.rx_cnt - counters.peer_fwd_cnt) <= counters.peer_buf_alloc,
    ensures
        counters.received(count).credit() == counters.credit() - count,
        wrapped(counters.received(count).rx_cnt - counters.peer_fwd_cnt)
            <= counters.peer_buf_alloc,
{
    let m = 0x1_0000_0000int;
    let rx = counters.rx_cnt as int;
    let fwd = counters.peer_fwd_cnt as int;
    let alloc = counters.peer_buf_alloc as int;
    let on_way = if rx >= fwd {
        rx - fwd
    } else {
        rx - fwd + m
    };
    assert(wrapped(rx - fwd) == on_way);
    assert(counters.credit() == alloc - on_way) by {
        assert(wrapped(alloc - (rx - fwd)) == alloc - on_way);
    }
    let next = if rx + count < m {
        rx + count
    } else {
        rx + count - m
    };
    assert(counters.received(count).rx_cnt == next);
    assert(wrapped(next - fwd) == on_way + count);
    assert(wrapped(alloc - (next - fwd)) == alloc - on_way - count);
}

} // verus!
