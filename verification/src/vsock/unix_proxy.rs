//! Connections to sockets of the host's file system, and to those that a control channel hands
//! over.
use crate::events::EventSet;
use crate::platform::HostPlatform;
use crate::vsock::control::SendReply;
use crate::vsock::defs::{
    AddressFamily, DataHeader, PacketHeader, CONN_TX_BUF_SIZE, LINUX_ECONNREFUSED, TSI_CONNECT,
    VSOCK_FLAGS_SHUTDOWN_SEND, VSOCK_HOST_CID, VSOCK_OP_RW, VSOCK_TYPE_STREAM,
};
use crate::vsock::frame::ok_line;
use crate::vsock::proxy::{
    Counters, DeferredCredit, Handled, MuxerRx, NewProxy, NewProxyType, Polling, ProxyRemoval,
    ProxyStatus, ProxyUpdate, Receiving,
};
use crate::vsock::unix_laws::{joined, lemma_joined_push};
use vstd::prelude::*;

verus! {

/// What came of connecting a socket. Errors are the guest's numbers.
#[derive(Clone, Copy, Debug, PartialEq, Eq, Structural)]
pub enum ConnectReply {
    Connected,
    InProgress,
    Failed(i32),
    /// The host has no such address.
    Unsupported,
}

/// The line that tells a host that its connection is there, and how much of it was sent.
#[derive(Debug)]
pub struct ConnectResponse {
    pub bytes: Vec<u8>,
    pub offset: usize,
}

/// The bytes of all pieces.
pub open spec fn piece_bytes(pieces: Seq<Vec<u8>>) -> nat
    decreases pieces.len(),
{
    if pieces.len() == 0 {
        0
    } else {
        pieces[0]@.len() + piece_bytes(pieces.drop_first())
    }
}

proof fn lemma_joined_len(pieces: Seq<Vec<u8>>)
    ensures
        joined(pieces).len() == piece_bytes(pieces),
    decreases pieces.len(),
{
    if pieces.len() > 0 {
        lemma_joined_len(pieces.drop_first());
    }
}

proof fn lemma_piece_push(pieces: Seq<Vec<u8>>, piece: Vec<u8>)
    ensures
        piece_bytes(pieces.push(piece)) == piece_bytes(pieces) + piece@.len(),
    decreases pieces.len(),
{
    if pieces.len() == 0 {
        assert(pieces.push(piece).drop_first() =~= Seq::<Vec<u8>>::empty());
        assert(piece_bytes(pieces.push(piece).drop_first()) == 0);
    } else {
        lemma_piece_push(pieces.drop_first(), piece);
        assert(pieces.push(piece).drop_first() =~= pieces.drop_first().push(piece));
    }
}

/// What is to follow an event.
#[derive(Clone, Copy, Debug, PartialEq, Eq, Structural)]
pub enum AfterEvent {
    Done,
    /// The line that answers the host is sent on.
    FlushResponse,
    /// What the guest has written is sent on.
    FlushPending,
}

/// What handling an event came to.
#[derive(Debug)]
pub struct EventOutcome {
    pub handled: Handled,
    pub then: AfterEvent,
}

/// What a packet of the guest leads to.
#[derive(Debug)]
pub enum Step {
    Done(Handled),
    /// Something has to be sent first.
    Send,
    /// Something has to be received first.
    Receive,
}

/// A connection of the guest to a socket of the host.
#[derive(Debug)]
pub struct UnixProxy {
    pub platform: HostPlatform,
    pub id: u64,
    pub cid: u64,
    pub fd: i32,
    pub status: ProxyStatus,
    pub peer_port: u32,
    pub local_port: u32,
    pub control_port: u32,
    pub counters: Counters,
    pub deferred_credit: DeferredCredit,
    /// The socket came over a control channel, or goes there.
    pub mux_transport: bool,
    pub connect_response: Option<ConnectResponse>,
    /// What the guest has written and the socket has not taken.
    pub pending_tx: Vec<Vec<u8>>,
    /// How much of the first piece was sent.
    pub pending_tx_offset: usize,
    pub pending_tx_bytes: usize,
}

impl UnixProxy {
    /// The number of bytes that wait is that of the pieces, and it is bounded.
    pub open spec fn wf(self) -> bool {
        &&& self.deferred_credit.wf()
        &&& self.pending_tx_bytes + self.pending_tx_offset == piece_bytes(self.pending_tx@)
        &&& self.pending_tx@.len() == 0 ==> self.pending_tx_offset == 0
        &&& self.pending_tx@.len() > 0 ==> self.pending_tx_offset <= self.pending_tx@[0]@.len()
        &&& self.pending_tx_bytes <= CONN_TX_BUF_SIZE
        &&& self.connect_response matches Some(response) ==> response.offset
            < response.bytes@.len()
    }

    /// A connection that the guest asks for.
    pub fn new(
        platform: HostPlatform,
        id: u64,
        cid: u64,
        local_port: u32,
        control_port: u32,
        fd: i32,
    ) -> (proxy: UnixProxy)
        ensures
            proxy.wf(),
            proxy.platform == platform,
            proxy.id == id,
            proxy.cid == cid,
            proxy.fd == fd,
            proxy.status == ProxyStatus::Idle,
            proxy.peer_port == 0,
            proxy.local_port == local_port,
            proxy.control_port == control_port,
            proxy.counters == Counters::zero(),
            proxy.deferred_credit == (DeferredCredit {
                request: None,
                update: None,
                enabled: true,
            }),
            !proxy.mux_transport,
            proxy.connect_response is None,
            proxy.pending_tx@.len() == 0,
    {
        UnixProxy {
            platform,
            id,
            cid,
            fd,
            status: ProxyStatus::Idle,
            peer_port: 0,
            local_port,
            control_port,
            counters: Counters::new(),
            deferred_credit: DeferredCredit::new(),
            mux_transport: false,
            connect_response: None,
            pending_tx: Vec::new(),
            pending_tx_offset: 0,
            pending_tx_bytes: 0,
        }
    }

    /// A connection that the host asks for.
    pub fn new_reverse(
        platform: HostPlatform,
        id: u64,
        cid: u64,
        local_port: u32,
        peer_port: u32,
        fd: i32,
    ) -> (proxy: UnixProxy)
        ensures
            proxy.wf(),
            proxy.platform == platform,
            proxy.id == id,
            proxy.cid == cid,
            proxy.fd == fd,
            proxy.status == ProxyStatus::ReverseInit,
            proxy.peer_port == peer_port,
            proxy.local_port == local_port,
            proxy.control_port == 0,
            proxy.counters == Counters::zero(),
            proxy.deferred_credit == (DeferredCredit {
                request: None,
                update: None,
                enabled: true,
            }),
            !proxy.mux_transport,
            proxy.connect_response is None,
            proxy.pending_tx@.len() == 0,
    {
        let mut proxy = UnixProxy::new(platform, id, cid, local_port, 0, fd);
        proxy.status = ProxyStatus::ReverseInit;
        proxy.peer_port = peer_port;
        proxy
    }

    /// A connection that the host asks for over a control channel.
    pub fn new_mux_reverse(
        platform: HostPlatform,
        id: u64,
        cid: u64,
        local_port: u32,
        peer_port: u32,
        fd: i32,
    ) -> (proxy: UnixProxy)
        ensures
            proxy.wf(),
            proxy.platform == platform,
            proxy.id == id,
            proxy.cid == cid,
            proxy.fd == fd,
            proxy.status == ProxyStatus::ReverseInit,
            proxy.peer_port == peer_port,
            proxy.local_port == local_port,
            proxy.control_port == 0,
            proxy.counters == Counters::zero(),
            proxy.deferred_credit == (DeferredCredit {
                request: None,
                update: None,
                enabled: true,
            }),
            proxy.mux_transport,
            proxy.connect_response is None,
            proxy.pending_tx@.len() == 0,
    {
        let mut proxy = UnixProxy::new_reverse(platform, id, cid, local_port, peer_port, fd);
        proxy.mux_transport = true;
        proxy
    }

    /// A connection that the guest asks for over a control channel, until the host grants it.
    pub fn new_waiting_on_host(
        platform: HostPlatform,
        id: u64,
        cid: u64,
        local_port: u32,
        peer_port: u32,
        fd: i32,
    ) -> (proxy: UnixProxy)
        ensures
            proxy.wf(),
            proxy.platform == platform,
            proxy.id == id,
            proxy.cid == cid,
            proxy.fd == fd,
            proxy.status == ProxyStatus::WaitingOnHost,
            proxy.peer_port == peer_port,
            proxy.local_port == local_port,
            proxy.control_port == 0,
            proxy.counters == Counters::zero(),
            proxy.deferred_credit == (DeferredCredit {
                request: None,
                update: None,
                enabled: true,
            }),
            proxy.mux_transport,
            proxy.connect_response is None,
            proxy.pending_tx@.len() == 0,
    {
        let mut proxy = UnixProxy::new_mux_reverse(platform, id, cid, local_port, peer_port, fd);
        proxy.status = ProxyStatus::WaitingOnHost;
        proxy
    }

    /// The packet that ends the connection for the guest.
    pub open spec fn reset_packet(self) -> MuxerRx {
        MuxerRx::Reset { local_port: self.local_port, peer_port: self.peer_port }
    }

    pub fn push_reset(&self) -> (packet: MuxerRx)
        ensures
            packet == self.reset_packet(),
    {
        MuxerRx::Reset { local_port: self.local_port, peer_port: self.peer_port }
    }

    /// The packet that answers the guest's wish to connect. It goes to the control port.
    pub open spec fn connect_packet(self, result: i32) -> MuxerRx {
        MuxerRx::ConnResponse { local_port: TSI_CONNECT, peer_port: self.control_port, result }
    }

    fn push_connect_rsp(&self, result: i32) -> (packet: MuxerRx)
        ensures
            packet == self.connect_packet(result),
    {
        MuxerRx::ConnResponse { local_port: TSI_CONNECT, peer_port: self.control_port, result }
    }

    /// What the descriptor is watched for, as an update.
    pub open spec fn polls(self, events: EventSet) -> Option<Polling> {
        Some(Polling { id: self.id, fd: self.fd, events })
    }

    /// A socket that waits from the moment it is connected: not on Windows, and not over a
    /// control channel.
    pub open spec fn blocks_when_connected(self) -> bool {
        self.platform != HostPlatform::Windows && !self.mux_transport
    }

    fn will_block(&self) -> (result: bool)
        ensures
            result == self.blocks_when_connected(),
    {
        match self.platform {
            HostPlatform::Windows => false,
            _ => !self.mux_transport,
        }
    }

    fn on_windows(&self) -> (result: bool)
        ensures
            result == (self.platform == HostPlatform::Windows),
    {
        match self.platform {
            HostPlatform::Windows => true,
            _ => false,
        }
    }

    /// The header of a packet with data.
    pub fn init_data_pkt(&self) -> (header: DataHeader)
        ensures
            header == (DataHeader {
                op: VSOCK_OP_RW,
                src_cid: VSOCK_HOST_CID,
                dst_cid: self.cid,
                src_port: self.local_port,
                dst_port: self.peer_port,
                kind: VSOCK_TYPE_STREAM,
                buf_alloc: CONN_TX_BUF_SIZE as u32,
                fwd_cnt: self.counters.tx_cnt,
            }),
    {
        DataHeader {
            op: VSOCK_OP_RW,
            src_cid: VSOCK_HOST_CID,
            dst_cid: self.cid,
            src_port: self.local_port,
            dst_port: self.peer_port,
            kind: VSOCK_TYPE_STREAM,
            buf_alloc: CONN_TX_BUF_SIZE as u32,
            fwd_cnt: self.counters.tx_cnt,
        }
    }

    /// Keeps a packet about credit for later.
    pub fn defer_credit(&mut self, credit: MuxerRx) -> (result: Result<(), MuxerRx>)
        requires
            old(self).wf(),
        ensures
            final(self).wf(),
            match old(self).deferred_credit.pushed(credit, old(self).counters.tx_cnt) {
                Some(kept) => result is Ok && *final(self) == (UnixProxy {
                    deferred_credit: kept,
                    ..*old(self)
                }),
                None => result == Err::<(), MuxerRx>(credit) && *final(self) == *old(self),
            },
    {
        let count: u32 = self.counters.tx_cnt;
        self.deferred_credit.push(credit, count)
    }

    /// Delivers the packets about credit as far as the guest has room.
    pub fn flush_credit(&mut self, room: usize) -> (packets: Vec<MuxerRx>)
        requires
            old(self).wf(),
        ensures
            final(self).wf(),
            packets@ == old(self).deferred_credit.delivered(
                old(self).counters.tx_cnt,
                room as int,
            ),
            *final(self) == (UnixProxy {
                deferred_credit: old(self).deferred_credit.kept(
                    old(self).counters.tx_cnt,
                    room as int,
                ),
                ..*old(self)
            }),
    {
        let count: u32 = self.counters.tx_cnt;
        self.deferred_credit.flush(count, room)
    }

    pub fn disable_deferred_credit(&mut self)
        requires
            old(self).wf(),
        ensures
            final(self).wf(),
            *final(self) == (UnixProxy {
                deferred_credit: DeferredCredit { request: None, update: None, enabled: false },
                ..*old(self)
            }),
    {
        self.deferred_credit.disable();
    }

    /// Takes what came of connecting the socket. A guest whose connection is under way is
    /// answered later.
    pub fn connect(&mut self, reply: ConnectReply) -> (handled: Handled)
        requires
            old(self).wf(),
            reply matches ConnectReply::Failed(error) ==> error > i32::MIN,
        ensures
            final(self).wf(),
            match reply {
                ConnectReply::Connected => {
                    &&& *final(self) == (UnixProxy { status: ProxyStatus::Connected, ..*old(self) })
                    &&& handled == (Handled {
                        push: Some(old(self).connect_packet(0)),
                        update: ProxyUpdate {
                            polling: old(self).polls(EventSet::only_input()),
                            ..ProxyUpdate::nothing()
                        },
                        set_blocking: old(self).blocks_when_connected(),
                        ..Handled::nothing()
                    })
                },
                ConnectReply::InProgress => {
                    &&& *final(self) == (UnixProxy {
                        status: ProxyStatus::Connecting,
                        ..*old(self)
                    })
                    &&& handled == (Handled {
                        update: ProxyUpdate {
                            polling: old(self).polls(
                                EventSet {
                                    edge_triggered: old(self).platform == HostPlatform::Windows,
                                    ..EventSet::both()
                                },
                            ),
                            ..ProxyUpdate::nothing()
                        },
                        ..Handled::nothing()
                    })
                },
                ConnectReply::Unsupported => *final(self) == *old(self) && handled
                    == Handled::nothing(),
                ConnectReply::Failed(error) => {
                    &&& *final(self) == *old(self)
                    &&& handled == if old(self).platform == HostPlatform::Windows || (
                    old(self).status != ProxyStatus::Connecting && old(self).status
                        != ProxyStatus::Connected) {
                        Handled {
                            push: Some(old(self).connect_packet((-error) as i32)),
                            ..Handled::nothing()
                        }
                    } else if old(self).status == ProxyStatus::Connecting {
                        Handled {
                            update: ProxyUpdate {
                                polling: old(self).polls(EventSet::both()),
                                ..ProxyUpdate::nothing()
                            },
                            ..Handled::nothing()
                        }
                    } else {
                        Handled {
                            push: Some(old(self).connect_packet((-error) as i32)),
                            update: ProxyUpdate {
                                polling: old(self).polls(EventSet::only_input()),
                                ..ProxyUpdate::nothing()
                            },
                            ..Handled::nothing()
                        }
                    }
                },
            },
    {
        match reply {
            ConnectReply::Connected => {
                self.status = ProxyStatus::Connected;
                let mut handled = Handled::pushing(
                    self.push_connect_rsp(0),
                    ProxyUpdate::poll(self.id, self.fd, EventSet::readable()),
                );
                handled.set_blocking = self.will_block();
                handled
            },
            ConnectReply::InProgress => {
                self.status = ProxyStatus::Connecting;
                let mut events = EventSet::readable_writable();
                events.edge_triggered = self.on_windows();
                Handled::only(ProxyUpdate::poll(self.id, self.fd, events))
            },
            ConnectReply::Unsupported => Handled::only(ProxyUpdate::new()),
            ConnectReply::Failed(error) => {
                let windows = self.on_windows();
                match self.status {
                    ProxyStatus::Connecting if !windows => Handled::only(
                        ProxyUpdate::poll(self.id, self.fd, EventSet::readable_writable()),
                    ),
                    ProxyStatus::Connected if !windows => Handled::pushing(
                        self.push_connect_rsp(-error),
                        ProxyUpdate::poll(self.id, self.fd, EventSet::readable()),
                    ),
                    _ => Handled::pushing(self.push_connect_rsp(-error), ProxyUpdate::new()),
                }
            },
        }
    }

    /// The connection with what a packet says of the guest's buffer.
    pub open spec fn with_peer(self, packet: PacketHeader) -> UnixProxy {
        UnixProxy {
            counters: Counters {
                peer_buf_alloc: packet.buf_alloc,
                peer_fwd_cnt: packet.fwd_cnt,
                ..self.counters
            },
            ..self
        }
    }

    /// The connection after a packet said what credit the guest has. Over a control channel
    /// only a connection that waited for credit goes on; elsewhere every one counts as connected.
    pub open spec fn credited(self, packet: PacketHeader) -> UnixProxy {
        let peer = self.with_peer(packet);
        let resumes = peer.status == ProxyStatus::WaitingCreditUpdate && peer.counters.credit()
            > 0;
        UnixProxy {
            status: if resumes || self.platform == HostPlatform::Windows || !self.mux_transport {
                ProxyStatus::Connected
            } else {
                peer.status
            },
            ..peer
        }
    }

    /// Takes the guest's request for a connection that is there already.
    pub fn confirm_connect(&mut self, packet: PacketHeader) -> (handled: Handled)
        requires
            old(self).wf(),
        ensures
            final(self).wf(),
            *final(self) == (UnixProxy {
                local_port: packet.dst_port,
                peer_port: packet.src_port,
                ..old(self).with_peer(packet)
            }),
            handled == (Handled {
                push: Some(
                    MuxerRx::OpResponse {
                        local_port: packet.dst_port,
                        peer_port: packet.src_port,
                    },
                ),
                update: ProxyUpdate {
                    polling: if old(self).platform == HostPlatform::Windows {
                        old(self).polls(EventSet::only_input())
                    } else {
                        None
                    },
                    ..ProxyUpdate::nothing()
                },
                ..Handled::nothing()
            }),
    {
        self.counters.set_peer(packet.buf_alloc, packet.fwd_cnt);
        self.local_port = packet.dst_port;
        self.peer_port = packet.src_port;
        let update = if self.on_windows() {
            ProxyUpdate::poll(self.id, self.fd, EventSet::readable())
        } else {
            ProxyUpdate::new()
        };
        Handled::pushing(
            MuxerRx::OpResponse { local_port: packet.dst_port, peer_port: packet.src_port },
            update,
        )
    }

    /// The connection is one over which the guest's data flows.
    pub open spec fn carries_data(self) -> bool {
        self.status == ProxyStatus::Connected || self.status == ProxyStatus::WaitingCreditUpdate
            || self.status == ProxyStatus::PeerHalfClosed
    }

    fn is_carrying(&self) -> (result: bool)
        ensures
            result == self.carries_data(),
    {
        match self.status {
            ProxyStatus::Connected => true,
            ProxyStatus::WaitingCreditUpdate => true,
            ProxyStatus::PeerHalfClosed => true,
            _ => false,
        }
    }

    /// What the guest has written was sent at once; `sent` is how much, if that worked. The
    /// guest is told what was consumed once that is owed.
    pub fn sendmsg(&mut self, packet: PacketHeader, sent: Option<u32>) -> (handled: Handled)
        requires
            old(self).wf(),
        ensures
            final(self).wf(),
            ({
                let counters = match sent {
                    Some(count) => old(self).counters.sent(count),
                    None => old(self).counters,
                };
                let owed = sent is Some && sent->0 > 0 && counters.owes_update();
                &&& *final(self) == (UnixProxy {
                    counters: if owed {
                        counters.told()
                    } else {
                        counters
                    },
                    ..*old(self)
                })
                &&& handled == (Handled {
                    update: ProxyUpdate {
                        push_credit_req: if owed {
                            Some(
                                MuxerRx::CreditUpdate {
                                    local_port: packet.dst_port,
                                    peer_port: packet.src_port,
                                    fwd_cnt: counters.tx_cnt,
                                },
                            )
                        } else {
                            None
                        },
                        ..ProxyUpdate::nothing()
                    },
                    ..Handled::nothing()
                })
            }),
    {
        let mut update = ProxyUpdate::new();
        if let Some(count) = sent {
            self.counters.add_sent(count);
            if count > 0 {
                update.push_credit_req = self.counters.credit_update(
                    packet.dst_port,
                    packet.src_port,
                );
            }
        }
        Handled::only(update)
    }

    /// What ends a connection over a control channel.
    pub open spec fn ended(self) -> UnixProxy {
        UnixProxy { status: ProxyStatus::Closed, ..self }
    }

    /// What the guest has written is kept to be sent. Writing before the host has granted the
    /// connection ends it, and so does writing more than is buffered.
    pub fn sendmsg_mux(&mut self, buffer: Option<Vec<u8>>) -> (step: Step)
        requires
            old(self).wf(),
        ensures
            final(self).wf(),
            if old(self).status == ProxyStatus::WaitingOnHost {
                &&& *final(self) == old(self).ended()
                &&& step == Step::Done(
                    Handled {
                        push: Some(old(self).reset_packet()),
                        update: ProxyUpdate {
                            remove_proxy: ProxyRemoval::Immediate,
                            signal_queue: true,
                            ..ProxyUpdate::nothing()
                        },
                        shutdown_both: true,
                        ..Handled::nothing()
                    },
                )
            } else if !old(self).carries_data() || buffer is None {
                *final(self) == *old(self) && step == Step::Done(Handled::nothing())
            } else if old(self).pending_tx_bytes + buffer->0@.len() > CONN_TX_BUF_SIZE {
                &&& *final(self) == old(self).ended()
                &&& step == Step::Done(
                    Handled {
                        push: Some(old(self).reset_packet()),
                        update: ProxyUpdate {
                            remove_proxy: ProxyRemoval::Immediate,
                            signal_queue: true,
                            ..ProxyUpdate::nothing()
                        },
                        ..Handled::nothing()
                    },
                )
            } else {
                &&& step is Send
                &&& final(self).unsent() == old(self).unsent() + buffer->0@
                &&& final(self).pending_tx@ == old(self).pending_tx@.push(buffer->0)
                &&& *final(self) == (UnixProxy {
                    pending_tx: final(self).pending_tx,
                    pending_tx_bytes: (old(self).pending_tx_bytes + buffer->0@.len()) as usize,
                    ..*old(self)
                })
            },
    {
        match self.status {
            ProxyStatus::WaitingOnHost => {
                return Step::Done(self.fail_waiting_on_host());
            },
            _ => {},
        }
        if !self.is_carrying() {
            return Step::Done(Handled::only(ProxyUpdate::new()));
        }
        let buffer = match buffer {
            Some(buffer) => buffer,
            None => return Step::Done(Handled::only(ProxyUpdate::new())),
        };
        if buffer.len() > CONN_TX_BUF_SIZE || self.pending_tx_bytes + buffer.len()
            > CONN_TX_BUF_SIZE {
            let packet = self.push_reset();
            self.status = ProxyStatus::Closed;
            let mut update = ProxyUpdate::remove(ProxyRemoval::Immediate);
            update.signal_queue = true;
            return Step::Done(Handled::pushing(packet, update));
        }
        proof {
            lemma_piece_push(self.pending_tx@, buffer);
            lemma_joined_push(self.pending_tx@, buffer);
            lemma_joined_len(self.pending_tx@);
            assert((joined(self.pending_tx@) + buffer@).skip(self.pending_tx_offset as int)
                =~= self.unsent() + buffer@);
        }
        self.pending_tx_bytes = self.pending_tx_bytes + buffer.len();
        self.pending_tx.push(buffer);
        assert(old(self).pending_tx@.len() > 0 ==> self.pending_tx@[0] == old(self).pending_tx@[0]);
        Step::Send
    }

    /// Ends a connection that the host has not granted.
    pub fn fail_waiting_on_host(&mut self) -> (handled: Handled)
        requires
            old(self).wf(),
        ensures
            final(self).wf(),
            *final(self) == old(self).ended(),
            handled == (Handled {
                push: Some(old(self).reset_packet()),
                update: ProxyUpdate {
                    remove_proxy: ProxyRemoval::Immediate,
                    signal_queue: true,
                    ..ProxyUpdate::nothing()
                },
                shutdown_both: true,
                ..Handled::nothing()
            }),
    {
        let packet = self.push_reset();
        self.status = ProxyStatus::Closed;
        let mut update = ProxyUpdate::remove(ProxyRemoval::Immediate);
        update.signal_queue = true;
        let mut handled = Handled::pushing(packet, update);
        handled.shutdown_both = true;
        handled
    }

    /// What the socket of a connection over a control channel is watched for: input while the
    /// guest has credit, and output while something waits to be sent.
    pub open spec fn mux_events(self) -> EventSet {
        if !self.carries_data() {
            EventSet::none()
        } else {
            EventSet {
                input: self.status == ProxyStatus::Connected,
                output: self.pending_tx@.len() > 0,
                ..EventSet::none()
            }
        }
    }

    fn mux_data_events(&self) -> (events: EventSet)
        ensures
            events == self.mux_events(),
    {
        let mut events = EventSet::empty();
        if self.is_carrying() {
            events.input = match self.status {
                ProxyStatus::Connected => true,
                _ => false,
            };
            events.output = self.pending_tx.len() > 0;
        }
        events
    }

    /// Whether something waits to be sent: the first piece, from its offset on.
    pub fn wants_send(&self) -> (result: bool)
        ensures
            result == (self.pending_tx@.len() > 0),
    {
        self.pending_tx.len() > 0
    }

    /// Takes what came of sending the first piece, and says whether to go on. A socket that
    /// takes nothing or fails ends the connection.
    pub fn pending_sent(&mut self, update: &mut ProxyUpdate, reply: SendReply) -> (go_on: bool)
        requires
            old(self).wf(),
            old(self).pending_tx@.len() > 0,
            reply matches SendReply::Written(count) ==> count <= old(self).pending_tx@[0]@.len()
                - old(self).pending_tx_offset,
        ensures
            final(self).wf(),
            match reply {
                SendReply::WouldBlock => !go_on && *final(self) == *old(self) && *final(update)
                    == *old(update),
                SendReply::Failed(_) | SendReply::Written(0) => !go_on && *final(self) == old(
                    self,
                ).ended() && *final(update) == (ProxyUpdate {
                    remove_proxy: ProxyRemoval::Immediate,
                    ..*old(update)
                }),
                SendReply::Written(count) => {
                    let whole = old(self).pending_tx_offset + count == old(
                        self,
                    ).pending_tx@[0]@.len();
                    &&& go_on
                    &&& final(self).unsent() == old(self).unsent().skip(count as int)
                    &&& *final(update) == *old(update)
                    &&& final(self).pending_tx@ == if whole {
                        old(self).pending_tx@.remove(0)
                    } else {
                        old(self).pending_tx@
                    }
                    &&& *final(self) == (UnixProxy {
                        pending_tx: final(self).pending_tx,
                        pending_tx_offset: if whole {
                            0
                        } else {
                            (old(self).pending_tx_offset + count) as usize
                        },
                        pending_tx_bytes: (old(self).pending_tx_bytes - count) as usize,
                        counters: old(self).counters.sent(count as u32),
                        ..*old(self)
                    })
                },
            },
    {
        match reply {
            SendReply::WouldBlock => false,
            SendReply::Failed(_) => {
                self.status = ProxyStatus::Closed;
                update.remove_proxy = ProxyRemoval::Immediate;
                false
            },
            SendReply::Written(count) => {
                if count == 0 {
                    self.status = ProxyStatus::Closed;
                    update.remove_proxy = ProxyRemoval::Immediate;
                    return false;
                }
                let len: usize = self.pending_tx[0].len();
                proof {
                    let all = joined(self.pending_tx@);
                    let at = self.pending_tx_offset as int;
                    lemma_joined_len(self.pending_tx@);
                    assert(all.skip(at).skip(count as int) =~= all.skip(at + count));
                    let rest = joined(self.pending_tx@.drop_first());
                    assert((self.pending_tx@[0]@ + rest).skip(len as int) =~= rest.skip(0));
                }
                self.pending_tx_offset = self.pending_tx_offset + count;
                assert(piece_bytes(self.pending_tx@) >= self.pending_tx@[0]@.len());
                self.pending_tx_bytes = self.pending_tx_bytes - count;
                self.counters.add_sent(count as u32);
                if self.pending_tx_offset == len {
                    assert(self.pending_tx@.remove(0) =~= self.pending_tx@.drop_first());
                    let _ = self.pending_tx.remove(0);
                    self.pending_tx_offset = 0;
                }
                true
            },
        }
    }

    /// Ends a turn of sending: says what the socket is watched for, and tells the guest what
    /// was consumed once that is owed.
    pub fn end_flush(&mut self, update: &mut ProxyUpdate)
        requires
            old(self).wf(),
        ensures
            final(self).wf(),
            *final(self) == (UnixProxy {
                counters: if old(self).counters.owes_update() {
                    old(self).counters.told()
                } else {
                    old(self).counters
                },
                ..*old(self)
            }),
            *final(update) == (ProxyUpdate {
                polling: old(self).polls(old(self).mux_events()),
                push_credit_req: if old(self).counters.owes_update() {
                    Some(
                        MuxerRx::CreditUpdate {
                            local_port: old(self).local_port,
                            peer_port: old(self).peer_port,
                            fwd_cnt: old(self).counters.tx_cnt,
                        },
                    )
                } else {
                    old(update).push_credit_req
                },
                ..*old(update)
            }),
    {
        update.polling = Some(
            Polling { id: self.id, fd: self.fd, events: self.mux_data_events() },
        );
        if let Some(packet) = self.counters.credit_update(self.local_port, self.peer_port) {
            update.push_credit_req = Some(packet);
        }
    }

    /// Takes what a packet says of the guest's credit. On Windows a connection that had waited
    /// for it reads at once, because the socket says only once that there is something.
    pub fn update_peer_credit(&mut self, packet: PacketHeader) -> (step: Step)
        requires
            old(self).wf(),
        ensures
            final(self).wf(),
            *final(self) == old(self).credited(packet),
            ({
                let next = old(self).credited(packet);
                let resumes = old(self).status == ProxyStatus::WaitingCreditUpdate
                    && next.counters.credit() > 0;
                if old(self).platform == HostPlatform::Windows && resumes {
                    step is Receive
                } else {
                    step == Step::Done(
                        Handled {
                            update: ProxyUpdate {
                                polling: if old(self).platform == HostPlatform::Windows
                                    || !old(self).mux_transport {
                                    old(self).polls(EventSet::only_input())
                                } else if next.carries_data() {
                                    next.polls(next.mux_events())
                                } else {
                                    None
                                },
                                ..ProxyUpdate::nothing()
                            },
                            ..Handled::nothing()
                        },
                    )
                }
            }),
    {
        self.counters.set_peer(packet.buf_alloc, packet.fwd_cnt);
        let waiting = match self.status {
            ProxyStatus::WaitingCreditUpdate => true,
            _ => false,
        };
        let resumes = waiting && self.counters.peer_avail_credit() > 0;
        let windows = self.on_windows();
        if windows && resumes {
            self.status = ProxyStatus::Connected;
            return Step::Receive;
        }
        if !windows && self.mux_transport {
            if resumes {
                self.status = ProxyStatus::Connected;
            }
            let update = if self.is_carrying() {
                ProxyUpdate::poll(self.id, self.fd, self.mux_data_events())
            } else {
                ProxyUpdate::new()
            };
            return Step::Done(Handled::only(update));
        }
        self.status = ProxyStatus::Connected;
        Step::Done(Handled::only(ProxyUpdate::poll(self.id, self.fd, EventSet::readable())))
    }

    /// The packet that asks the guest for credit.
    pub open spec fn credit_packet(self) -> MuxerRx {
        MuxerRx::CreditRequest {
            local_port: self.local_port,
            peer_port: self.peer_port,
            fwd_cnt: self.counters.tx_cnt,
        }
    }

    fn credit_request(&self) -> (packet: MuxerRx)
        ensures
            packet == self.credit_packet(),
    {
        MuxerRx::CreditRequest {
            local_port: self.local_port,
            peer_port: self.peer_port,
            fwd_cnt: self.counters.tx_cnt,
        }
    }

    /// The status that a turn of receiving leaves: a peer that has closed its side of a
    /// connection over a control channel can still be written to.
    pub open spec fn status_after(self, turn: Receiving) -> ProxyStatus {
        if !turn.closed {
            self.status
        } else if self.platform != HostPlatform::Windows && self.mux_transport {
            ProxyStatus::PeerHalfClosed
        } else {
            ProxyStatus::Closed
        }
    }

    fn note_turn(&mut self, turn: Receiving)
        ensures
            *final(self) == (UnixProxy { status: old(self).status_after(turn), ..*old(self) }),
    {
        if turn.closed {
            self.status = if !self.on_windows() && self.mux_transport {
                ProxyStatus::PeerHalfClosed
            } else {
                ProxyStatus::Closed
            };
        }
    }

    /// Takes the turn of receiving that followed the guest's credit on Windows.
    pub fn credit_received(&mut self, turn: Receiving) -> (handled: Handled)
        requires
            old(self).wf(),
        ensures
            final(self).wf(),
            *final(self) == (UnixProxy {
                status: if turn.wait_credit {
                    ProxyStatus::WaitingCreditUpdate
                } else {
                    old(self).status_after(turn)
                },
                ..*old(self)
            }),
            handled == (Handled {
                update: ProxyUpdate {
                    signal_queue: turn.have_used,
                    push_credit_req: if turn.wait_credit {
                        Some(old(self).credit_packet())
                    } else {
                        None
                    },
                    polling: old(self).polls(
                        if turn.wait_credit {
                            EventSet::none()
                        } else {
                            EventSet::only_input()
                        },
                    ),
                    ..ProxyUpdate::nothing()
                },
                ..Handled::nothing()
            }),
    {
        self.note_turn(turn);
        let mut update = ProxyUpdate::new();
        update.signal_queue = turn.have_used;
        if turn.wait_credit {
            self.status = ProxyStatus::WaitingCreditUpdate;
            update.push_credit_req = Some(self.credit_request());
            update.polling = Some(
                Polling { id: self.id, fd: self.fd, events: EventSet::empty() },
            );
        } else {
            update.polling = Some(
                Polling { id: self.id, fd: self.fd, events: EventSet::readable() },
            );
        }
        Handled::only(update)
    }

    /// The packet that asks the guest for a connection.
    pub fn push_op_request(&self) -> (packet: MuxerRx)
        ensures
            packet == (MuxerRx::OpRequest {
                local_port: self.local_port,
                peer_port: self.peer_port,
            }),
    {
        MuxerRx::OpRequest { local_port: self.local_port, peer_port: self.peer_port }
    }

    /// Takes the guest's consent to a connection. A host that asked over a control channel is
    /// told the connection's port before anything else.
    pub fn process_op_response(&mut self, packet: PacketHeader) -> (step: Step)
        requires
            old(self).wf(),
        ensures
            final(self).wf(),
            ({
                let peer = old(self).with_peer(packet);
                if old(self).platform != HostPlatform::Windows && old(self).mux_transport && old(
                    self,
                ).status == ProxyStatus::ReverseInit {
                    &&& step is Send
                    &&& final(self).connect_response matches Some(response)
                    &&& response.bytes@ == crate::vsock::frame::ok_line_spec(old(self).local_port)
                    &&& response.offset == 0
                    &&& *final(self) == (UnixProxy {
                        connect_response: final(self).connect_response,
                        ..peer
                    })
                } else {
                    &&& *final(self) == (UnixProxy { status: ProxyStatus::Connected, ..peer })
                    &&& step == Step::Done(
                        Handled {
                            update: ProxyUpdate {
                                polling: old(self).polls(EventSet::only_input()),
                                ..ProxyUpdate::nothing()
                            },
                            set_blocking: old(self).blocks_when_connected(),
                            ..Handled::nothing()
                        },
                    )
                }
            }),
    {
        self.counters.set_peer(packet.buf_alloc, packet.fwd_cnt);
        let reverse = match self.status {
            ProxyStatus::ReverseInit => true,
            _ => false,
        };
        if !self.on_windows() && self.mux_transport && reverse {
            self.connect_response = Some(
                ConnectResponse { bytes: ok_line(self.local_port), offset: 0 },
            );
            return Step::Send;
        }
        self.status = ProxyStatus::Connected;
        let mut handled = Handled::only(
            ProxyUpdate::poll(self.id, self.fd, EventSet::readable()),
        );
        handled.set_blocking = self.will_block();
        Step::Done(handled)
    }

    /// Takes what came of sending the line that answers the host. The connection is there once
    /// the line was sent whole; a socket that takes nothing or fails ends it.
    pub fn flush_connect_response(&mut self, reply: SendReply) -> (handled: Handled)
        requires
            old(self).wf(),
            reply matches SendReply::Written(count) ==> old(self).connect_response matches Some(
                response,
            ) ==> count <= response.bytes@.len() - response.offset,
        ensures
            final(self).wf(),
            old(self).connect_response is None ==> *final(self) == *old(self) && handled
                == Handled::nothing(),
            old(self).connect_response matches Some(response) ==> match reply {
                SendReply::Failed(_) | SendReply::Written(0) => {
                    &&& *final(self) == old(self).ended()
                    &&& handled == (Handled {
                        update: ProxyUpdate {
                            remove_proxy: ProxyRemoval::Immediate,
                            ..ProxyUpdate::nothing()
                        },
                        ..Handled::nothing()
                    })
                },
                SendReply::WouldBlock => {
                    &&& *final(self) == (UnixProxy {
                        status: ProxyStatus::SendingConnectResponse,
                        ..*old(self)
                    })
                    &&& handled == (Handled {
                        update: ProxyUpdate {
                            polling: old(self).polls(EventSet::only_output()),
                            ..ProxyUpdate::nothing()
                        },
                        ..Handled::nothing()
                    })
                },
                SendReply::Written(count) => if response.offset + count == response.bytes@.len() {
                    &&& *final(self) == (UnixProxy {
                        connect_response: None,
                        status: ProxyStatus::Connected,
                        ..*old(self)
                    })
                    &&& handled == (Handled {
                        update: ProxyUpdate {
                            polling: old(self).polls(EventSet::only_input()),
                            ..ProxyUpdate::nothing()
                        },
                        set_blocking: old(self).blocks_when_connected(),
                        ..Handled::nothing()
                    })
                } else {
                    &&& final(self).connect_response matches Some(next)
                    &&& next.bytes@ == response.bytes@
                    &&& next.offset == response.offset + count
                    &&& *final(self) == (UnixProxy {
                        connect_response: final(self).connect_response,
                        status: ProxyStatus::SendingConnectResponse,
                        ..*old(self)
                    })
                    &&& handled == (Handled {
                        update: ProxyUpdate {
                            polling: old(self).polls(EventSet::only_output()),
                            ..ProxyUpdate::nothing()
                        },
                        ..Handled::nothing()
                    })
                },
            },
    {
        let response = match self.connect_response.take() {
            None => return Handled::only(ProxyUpdate::new()),
            Some(response) => response,
        };
        match reply {
            SendReply::Written(count) => {
                if count == 0 {
                    self.connect_response = Some(response);
                    self.status = ProxyStatus::Closed;
                    return Handled::only(ProxyUpdate::remove(ProxyRemoval::Immediate));
                }
                let len: usize = response.bytes.len();
                let offset: usize = response.offset + count;
                if offset == len {
                    self.status = ProxyStatus::Connected;
                    let mut handled = Handled::only(
                        ProxyUpdate::poll(self.id, self.fd, EventSet::readable()),
                    );
                    handled.set_blocking = self.will_block();
                    return handled;
                }
                self.connect_response = Some(ConnectResponse { bytes: response.bytes, offset });
                self.status = ProxyStatus::SendingConnectResponse;
                Handled::only(ProxyUpdate::poll(self.id, self.fd, EventSet::writable()))
            },
            SendReply::WouldBlock => {
                self.connect_response = Some(response);
                self.status = ProxyStatus::SendingConnectResponse;
                Handled::only(ProxyUpdate::poll(self.id, self.fd, EventSet::writable()))
            },
            SendReply::Failed(_) => {
                self.connect_response = Some(response);
                self.status = ProxyStatus::Closed;
                Handled::only(ProxyUpdate::remove(ProxyRemoval::Immediate))
            },
        }
    }

    /// What a connection that the host grants asks for.
    pub open spec fn admitted(self) -> Handled {
        Handled {
            push: Some(
                MuxerRx::OpResponse { local_port: self.local_port, peer_port: self.peer_port },
            ),
            update: ProxyUpdate {
                signal_queue: true,
                polling: self.polls(EventSet::only_input()),
                ..ProxyUpdate::nothing()
            },
            ..Handled::nothing()
        }
    }

    /// The host grants the connection. Only one that waits for it is granted.
    pub fn admit_mux(&mut self) -> (result: Option<Handled>)
        requires
            old(self).wf(),
        ensures
            final(self).wf(),
            if old(self).mux_transport && old(self).status == ProxyStatus::WaitingOnHost {
                &&& *final(self) == (UnixProxy { status: ProxyStatus::Connected, ..*old(self) })
                &&& result == Some(old(self).admitted())
            } else {
                *final(self) == *old(self) && result is None
            },
    {
        let waiting = match self.status {
            ProxyStatus::WaitingOnHost => true,
            _ => false,
        };
        if !self.mux_transport || !waiting {
            return None;
        }
        self.status = ProxyStatus::Connected;
        let mut update = ProxyUpdate::poll(self.id, self.fd, EventSet::readable());
        update.signal_queue = true;
        Some(
            Handled::pushing(
                MuxerRx::OpResponse { local_port: self.local_port, peer_port: self.peer_port },
                update,
            ),
        )
    }

    /// What a connection over a control channel asks for when it ends.
    pub open spec fn failed(self) -> Handled {
        Handled {
            push: Some(self.reset_packet()),
            update: ProxyUpdate {
                signal_queue: true,
                polling: self.polls(EventSet::none()),
                remove_proxy: ProxyRemoval::Immediate,
                ..ProxyUpdate::nothing()
            },
            shutdown_both: true,
            ..Handled::nothing()
        }
    }

    /// Ends a connection over a control channel, because the host refuses it or the channel
    /// has failed. Other connections are left alone.
    pub fn fail_mux(&mut self) -> (result: Option<Handled>)
        requires
            old(self).wf(),
        ensures
            final(self).wf(),
            if old(self).mux_transport {
                *final(self) == old(self).ended() && result == Some(old(self).failed())
            } else {
                *final(self) == *old(self) && result is None
            },
    {
        if !self.mux_transport {
            return None;
        }
        let packet = self.push_reset();
        self.status = ProxyStatus::Closed;
        let mut update = ProxyUpdate::poll(self.id, self.fd, EventSet::empty());
        update.signal_queue = true;
        update.remove_proxy = ProxyRemoval::Immediate;
        let mut handled = Handled::pushing(packet, update);
        handled.shutdown_both = true;
        Some(handled)
    }

    /// A connection that was never there carries no data, and there is nothing to keep its
    /// number for. Others go away later.
    pub open spec fn removal(self) -> ProxyRemoval {
        if self.status == ProxyStatus::ReverseInit || self.status == ProxyStatus::Connecting || (
        self.platform != HostPlatform::Windows && (self.status == ProxyStatus::WaitingOnHost
            || self.status == ProxyStatus::SendingConnectResponse)) {
            ProxyRemoval::Immediate
        } else {
            ProxyRemoval::Deferred
        }
    }

    /// The guest is done with the connection.
    pub fn release(&self) -> (update: ProxyUpdate)
        ensures
            update == (ProxyUpdate { remove_proxy: self.removal(), ..ProxyUpdate::nothing() }),
    {
        let immediate = match self.status {
            ProxyStatus::ReverseInit => true,
            ProxyStatus::Connecting => true,
            ProxyStatus::WaitingOnHost => !self.on_windows(),
            ProxyStatus::SendingConnectResponse => !self.on_windows(),
            _ => false,
        };
        if immediate {
            ProxyUpdate::remove(ProxyRemoval::Immediate)
        } else {
            ProxyUpdate::remove(ProxyRemoval::Deferred)
        }
    }

    /// The number by which a guest is told that nobody takes its connection.
    pub open spec fn refused(self) -> i32 {
        (match self.platform {
            HostPlatform::Macos => -61int,
            _ => -111int,
        }) as i32
    }

    fn refused_number(&self) -> (number: i32)
        ensures
            number == self.refused(),
    {
        match self.platform {
            HostPlatform::Macos => -61,
            _ => -LINUX_ECONNREFUSED,
        }
    }

    /// Whether the guest's packets are to be filled from the socket before an event is handled.
    pub fn wants_receive(&self, events: EventSet) -> (result: bool)
        ensures
            result == (!events.hang_up && events.input && self.status == ProxyStatus::Connected),
    {
        let connected = match self.status {
            ProxyStatus::Connected => true,
            _ => false,
        };
        !events.hang_up && events.input && connected
    }

    /// The connection has ended because its socket hung up.
    pub open spec fn hung_up(self) -> EventOutcome {
        EventOutcome {
            handled: Handled {
                push: Some(
                    if self.status == ProxyStatus::Connecting {
                        self.connect_packet(self.refused())
                    } else {
                        self.reset_packet()
                    },
                ),
                update: ProxyUpdate {
                    polling: self.polls(EventSet::none()),
                    signal_queue: true,
                    remove_proxy: ProxyRemoval::Deferred,
                    ..ProxyUpdate::nothing()
                },
                ..Handled::nothing()
            },
            then: AfterEvent::Done,
        }
    }

    /// The connection after its guest's packets were filled from the socket.
    pub open spec fn filled(self, turn: Receiving) -> UnixProxy {
        UnixProxy {
            status: if turn.wait_credit {
                ProxyStatus::WaitingCreditUpdate
            } else {
                self.status_after(turn)
            },
            ..self
        }
    }

    /// What filling the guest's packets asks for: credit where there is none, an end where the
    /// peer has closed.
    pub open spec fn filled_handled(self, turn: Receiving) -> Handled {
        let next = self.filled(turn);
        Handled {
            push: if next.status == ProxyStatus::PeerHalfClosed {
                Some(
                    MuxerRx::Shutdown {
                        local_port: self.local_port,
                        peer_port: self.peer_port,
                        flags: VSOCK_FLAGS_SHUTDOWN_SEND,
                    },
                )
            } else if next.status == ProxyStatus::Closed {
                Some(self.reset_packet())
            } else {
                None
            },
            update: ProxyUpdate {
                signal_queue: turn.have_used || next.status == ProxyStatus::PeerHalfClosed
                    || next.status == ProxyStatus::Closed,
                push_credit_req: if turn.wait_credit {
                    Some(self.credit_packet())
                } else {
                    None
                },
                polling: if next.status == ProxyStatus::Connected {
                    None
                } else if next.status == ProxyStatus::Closed || self.platform
                    == HostPlatform::Windows {
                    self.polls(EventSet::none())
                } else {
                    self.polls(
                        EventSet { output: self.pending_tx@.len() > 0, ..EventSet::none() },
                    )
                },
                ..ProxyUpdate::nothing()
            },
            ..Handled::nothing()
        }
    }

    /// Takes what filling the guest's packets came to.
    fn fill(&mut self, turn: Receiving) -> (handled: Handled)
        requires
            old(self).wf(),
            old(self).status == ProxyStatus::Connected,
        ensures
            final(self).wf(),
            *final(self) == old(self).filled(turn),
            handled == old(self).filled_handled(turn),
    {
        self.note_turn(turn);
        let mut update = ProxyUpdate::new();
        update.signal_queue = turn.have_used;
        if turn.wait_credit {
            self.status = ProxyStatus::WaitingCreditUpdate;
            update.push_credit_req = Some(self.credit_request());
        }
        match self.status {
            ProxyStatus::PeerHalfClosed => {
                update.signal_queue = true;
                let events = if self.pending_tx.len() == 0 {
                    EventSet::empty()
                } else {
                    EventSet::writable()
                };
                update.polling = Some(Polling { id: self.id, fd: self.fd, events });
                let packet = MuxerRx::Shutdown {
                    local_port: self.local_port,
                    peer_port: self.peer_port,
                    flags: VSOCK_FLAGS_SHUTDOWN_SEND,
                };
                Handled::pushing(packet, update)
            },
            ProxyStatus::Closed => {
                update.signal_queue = true;
                update.polling = Some(
                    Polling { id: self.id, fd: self.fd, events: EventSet::empty() },
                );
                Handled::pushing(self.push_reset(), update)
            },
            ProxyStatus::WaitingCreditUpdate => {
                let events = if self.on_windows() {
                    EventSet::empty()
                } else {
                    self.mux_data_events()
                };
                update.polling = Some(Polling { id: self.id, fd: self.fd, events });
                Handled::only(update)
            },
            _ => Handled::only(update),
        }
    }

    /// The connection after an event, and what handling it came to. `turn` is what filling the
    /// guest's packets came to, where that was wanted, and `accepted` the connection that was
    /// accepted, where there is one.
    pub open spec fn event_spec(
        self,
        events: EventSet,
        turn: Receiving,
        accepted: Option<i32>,
    ) -> (UnixProxy, EventOutcome) {
        let fills = events.input && self.status == ProxyStatus::Connected;
        let accepts = events.input && self.platform == HostPlatform::Windows && (self.status
            == ProxyStatus::Listening || self.status == ProxyStatus::WaitingOnAccept);
        let next = if fills {
            self.filled(turn)
        } else {
            self
        };
        let handled = if fills {
            self.filled_handled(turn)
        } else {
            Handled::nothing()
        };
        if events.hang_up {
            (self.ended(), self.hung_up())
        } else if accepts {
            let update = ProxyUpdate {
                signal_queue: true,
                new_proxy: match accepted {
                    Some(fd) => Some(
                        NewProxy {
                            peer_port: self.peer_port,
                            fd,
                            family: AddressFamily::Unix,
                            kind: NewProxyType::Unix,
                        },
                    ),
                    None => None,
                },
                ..ProxyUpdate::nothing()
            };
            (
                self,
                EventOutcome {
                    handled: Handled { update, ..Handled::nothing() },
                    then: AfterEvent::Done,
                },
            )
        } else if !events.output || handled.push is Some {
            (next, EventOutcome { handled, then: AfterEvent::Done })
        } else if next.status == ProxyStatus::Connecting {
            let answer = Handled {
                push: Some(next.connect_packet(0)),
                update: ProxyUpdate {
                    signal_queue: true,
                    polling: next.polls(EventSet::only_input()),
                    ..ProxyUpdate::nothing()
                },
                set_blocking: next.blocks_when_connected(),
                ..Handled::nothing()
            };
            (
                UnixProxy { status: ProxyStatus::Connected, ..next },
                EventOutcome { handled: answer, then: AfterEvent::Done },
            )
        } else {
            let then = if self.platform == HostPlatform::Windows {
                AfterEvent::Done
            } else if next.status == ProxyStatus::SendingConnectResponse {
                AfterEvent::FlushResponse
            } else if next.mux_transport && next.carries_data() && next.pending_tx@.len() > 0 {
                AfterEvent::FlushPending
            } else {
                AfterEvent::Done
            };
            (next, EventOutcome { handled, then })
        }
    }

    /// Handles an event.
    pub fn process_event(&mut self, events: EventSet, turn: Receiving, accepted: Option<i32>) -> (outcome:
        EventOutcome)
        requires
            old(self).wf(),
        ensures
            final(self).wf(),
            *final(self) == old(self).event_spec(events, turn, accepted).0,
            outcome == old(self).event_spec(events, turn, accepted).1,
    {
        let windows = self.on_windows();
        if events.hang_up {
            let packet = match self.status {
                ProxyStatus::Connecting => self.push_connect_rsp(self.refused_number()),
                _ => self.push_reset(),
            };
            self.status = ProxyStatus::Closed;
            let mut update = ProxyUpdate::poll(self.id, self.fd, EventSet::empty());
            update.signal_queue = true;
            update.remove_proxy = ProxyRemoval::Deferred;
            return EventOutcome {
                handled: Handled::pushing(packet, update),
                then: AfterEvent::Done,
            };
        }
        let listening = match self.status {
            ProxyStatus::Listening => true,
            ProxyStatus::WaitingOnAccept => true,
            _ => false,
        };
        if events.input && windows && listening {
            let mut update = ProxyUpdate::new();
            if let Some(fd) = accepted {
                update.new_proxy = Some(
                    NewProxy {
                        peer_port: self.peer_port,
                        fd,
                        family: AddressFamily::Unix,
                        kind: NewProxyType::Unix,
                    },
                );
            }
            update.signal_queue = true;
            return EventOutcome { handled: Handled::only(update), then: AfterEvent::Done };
        }
        let handled = if self.wants_receive(events) {
            self.fill(turn)
        } else {
            Handled::only(ProxyUpdate::new())
        };
        if !events.output || handled.push.is_some() {
            return EventOutcome { handled, then: AfterEvent::Done };
        }
        match self.status {
            ProxyStatus::Connecting => {
                self.status = ProxyStatus::Connected;
                let mut update = ProxyUpdate::poll(self.id, self.fd, EventSet::readable());
                update.signal_queue = true;
                let mut answer = Handled::pushing(self.push_connect_rsp(0), update);
                answer.set_blocking = self.will_block();
                EventOutcome { handled: answer, then: AfterEvent::Done }
            },
            ProxyStatus::SendingConnectResponse => {
                let then = if windows {
                    AfterEvent::Done
                } else {
                    AfterEvent::FlushResponse
                };
                EventOutcome { handled, then }
            },
            _ => {
                let then = if !windows && self.mux_transport && self.is_carrying()
                    && self.pending_tx.len() > 0 {
                    AfterEvent::FlushPending
                } else {
                    AfterEvent::Done
                };
                EventOutcome { handled, then }
            },
        }
    }
}

/// A connection that the host has not granted publishes nothing to the guest: no event but
/// the socket's end changes it or leads to anything.
pub proof fn law_ungranted_connections_stay_silent(
    proxy: UnixProxy,
    events: EventSet,
    turn: Receiving,
    accepted: Option<i32>,
)
    requires
        proxy.wf(),
        proxy.status == ProxyStatus::WaitingOnHost,
        !events.hang_up,
    ensures
        proxy.event_spec(events, turn, accepted).0 == proxy,
        proxy.event_spec(events, turn, accepted).1 == (EventOutcome {
            handled: Handled::nothing(),
            then: AfterEvent::Done,
        }),
{
}

/// A peer that has closed its side does not end the other direction: what the guest writes is
/// still sent, and the socket is watched for output only while something waits.
pub proof fn law_half_close_keeps_the_other_direction(proxy: UnixProxy, turn: Receiving)
    requires
        proxy.wf(),
        proxy.platform != HostPlatform::Windows,
        proxy.mux_transport,
        proxy.status == ProxyStatus::Connected,
        turn.closed,
        !turn.wait_credit,
    ensures
        proxy.filled(turn).status == ProxyStatus::PeerHalfClosed,
        proxy.filled(turn).carries_data(),
        proxy.filled(turn).mux_events() == (EventSet {
            output: proxy.pending_tx@.len() > 0,
            ..EventSet::none()
        }),
        proxy.filled(turn).wf(),
{
}

/// What the guest says of its credit changes the state of a connection over a control channel
/// only where it waited for that credit: it goes on as soon as there is some, and no sooner.
/// What waits to be sent to the host is kept either way.
pub proof fn law_credit_resumes_only_waiting_connections(proxy: UnixProxy, packet: PacketHeader)
    requires
        proxy.wf(),
        proxy.platform != HostPlatform::Windows,
        proxy.mux_transport,
    ensures
        ({
            let next = proxy.credited(packet);
            &&& next.wf()
            &&& next.pending_tx@ == proxy.pending_tx@
            &&& proxy.status != ProxyStatus::WaitingCreditUpdate ==> {
                &&& next.status == proxy.status
                &&& next.mux_events() == proxy.mux_events()
            }
            &&& proxy.status == ProxyStatus::WaitingCreditUpdate ==> {
                &&& next.counters.credit() > 0 ==> next.status == ProxyStatus::Connected
                    && next.mux_events().input
                &&& next.counters.credit() == 0 ==> next.status
                    == ProxyStatus::WaitingCreditUpdate && !next.mux_events().input
            }
        }),
{
}

/// A socket of the host's file system that takes connections for the guest.
#[derive(Clone, Copy, Debug, PartialEq, Eq, Structural)]
pub struct UnixAcceptorProxy {
    pub id: u64,
    pub fd: i32,
    pub peer_port: u32,
}

impl UnixAcceptorProxy {
    pub fn new(id: u64, fd: i32, peer_port: u32) -> (proxy: UnixAcceptorProxy)
        ensures
            proxy == (UnixAcceptorProxy { id, fd, peer_port }),
    {
        UnixAcceptorProxy { id, fd, peer_port }
    }

    pub fn status(&self) -> (status: ProxyStatus)
        ensures
            status == ProxyStatus::WaitingOnAccept,
    {
        ProxyStatus::WaitingOnAccept
    }

    /// Handles an event. `accepted` is the connection that was accepted, where there is one.
    pub fn process_event(&self, events: EventSet, accepted: Option<i32>) -> (update: ProxyUpdate)
        ensures
            update == if events.hang_up {
                ProxyUpdate {
                    polling: Some(
                        Polling { id: self.id, fd: self.fd, events: EventSet::none() },
                    ),
                    signal_queue: true,
                    remove_proxy: ProxyRemoval::Deferred,
                    ..ProxyUpdate::nothing()
                }
            } else if events.input {
                ProxyUpdate {
                    signal_queue: true,
                    new_proxy: match accepted {
                        Some(fd) => Some(
                            NewProxy {
                                peer_port: self.peer_port,
                                fd,
                                family: AddressFamily::Unix,
                                kind: NewProxyType::Unix,
                            },
                        ),
                        None => None,
                    },
                    ..ProxyUpdate::nothing()
                }
            } else {
                ProxyUpdate::nothing()
            },
    {
        if events.hang_up {
            let mut update = ProxyUpdate::poll(self.id, self.fd, EventSet::empty());
            update.signal_queue = true;
            update.remove_proxy = ProxyRemoval::Deferred;
            return update;
        }
        let mut update = ProxyUpdate::new();
        if events.input {
            if let Some(fd) = accepted {
                update.new_proxy = Some(
                    NewProxy {
                        peer_port: self.peer_port,
                        fd,
                        family: AddressFamily::Unix,
                        kind: NewProxyType::Unix,
                    },
                );
            }
            update.signal_queue = true;
        }
        update
    }
}

} // verus!
