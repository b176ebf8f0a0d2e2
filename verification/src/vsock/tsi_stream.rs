//! Stream sockets that the guest's programs open and the host makes for them.
use crate::events::EventSet;
use crate::platform::HostPlatform;
use crate::vsock::defs::{
    AddressFamily, DataHeader, PacketHeader, SocketAddress, CONN_TX_BUF_SIZE, HOST_EINVAL,
    LINUX_EAGAIN, LINUX_ECONNREFUSED, LINUX_EINVAL, LINUX_O_NONBLOCK, TSI_ACCEPT, TSI_CONNECT,
    VSOCK_HOST_CID, VSOCK_OP_RW, VSOCK_TYPE_STREAM,
};
use crate::vsock::proxy::{
    Accepted, Counters, DeferredCredit, Handled, MuxerRx, NewProxy, NewProxyType, Polling,
    ProxyError, ProxyRemoval, ProxyStatus, ProxyUpdate, Receiving, TsiGetnameRsp,
};
use crate::vsock::unix_proxy::{ConnectReply, Step};
use std::collections::HashMap;
use vstd::prelude::*;

verus! {

broadcast use vstd::std_specs::hash::group_hash_axioms;

/// What a socket of the guest's program listens on.
#[derive(Debug)]
pub enum ListenAddress {
    /// The socket listens already.
    Listening,
    Bind(SocketAddress),
    /// The address is none that a port map knows.
    Invalid,
}

/// The port that the host uses in place of the guest's.
pub open spec fn mapped_port(map: Map<u16, u16>, port: u16) -> u16 {
    if map.dom().contains(port) {
        map[port]
    } else {
        port
    }
}

/// The address that the host binds in place of the guest's. A mapped address of the longer
/// kind carries its flow label as its scope, too.
pub open spec fn mapped_address(
    platform: HostPlatform,
    map: Map<u16, u16>,
    address: SocketAddress,
) -> Option<SocketAddress> {
    match address {
        SocketAddress::V4 { ip4, port } => Some(
            SocketAddress::V4 { ip4, port: mapped_port(map, port) },
        ),
        SocketAddress::V6 { ip, port, flowinfo, scope_id } => if platform != HostPlatform::Windows
            && map.dom().contains(port) {
            Some(SocketAddress::V6 { ip, port: map[port], flowinfo, scope_id: flowinfo })
        } else {
            Some(address)
        },
        SocketAddress::Unix(_) => Some(address),
        SocketAddress::Other(_) => if platform == HostPlatform::Windows {
            Some(address)
        } else {
            None
        },
    }
}

/// How many connections may wait: what the guest asks for, within what the host allows.
pub fn listen_backlog(requested: i32, limit: i32) -> (backlog: i32)
    requires
        limit >= 0,
    ensures
        backlog == if requested < 0 {
            0
        } else if requested > limit {
            limit
        } else {
            requested
        },
{
    if requested < 0 {
        0
    } else if requested > limit {
        limit
    } else {
        requested
    }
}

/// What listening came to: the guest's number of the first call that failed, negated, or zero.
pub fn listen_result(bind: Result<(), i32>, listen: Result<(), i32>) -> (result: i32)
    requires
        bind matches Err(error) ==> error > i32::MIN,
        listen matches Err(error) ==> error > i32::MIN,
    ensures
        result == match (bind, listen) {
            (Err(error), _) => -error,
            (Ok(_), Err(error)) => -error,
            (Ok(_), Ok(_)) => 0,
        },
{
    match bind {
        Err(error) => -error,
        Ok(_) => match listen {
            Err(error) => -error,
            Ok(_) => 0,
        },
    }
}

/// The error of a socket whose address could not be made reusable.
pub fn reuse_error(family: AddressFamily, error: i32) -> (result: ProxyError)
    ensures
        result == if family == AddressFamily::Unix {
            ProxyError::SettingReuseAddr(error)
        } else {
            ProxyError::SettingReusePort(error)
        },
{
    match family {
        AddressFamily::Unix => ProxyError::SettingReuseAddr(error),
        _ => ProxyError::SettingReusePort(error),
    }
}

/// The unspecified address.
pub open spec fn no_address() -> SocketAddress {
    SocketAddress::V4 { ip4: 0, port: 0 }
}

/// A stream socket of the guest's program.
#[derive(Debug)]
pub struct TsiStreamProxy {
    pub platform: HostPlatform,
    pub id: u64,
    pub cid: u64,
    pub parent_id: u64,
    pub family: AddressFamily,
    pub local_port: u32,
    pub peer_port: u32,
    pub control_port: u32,
    pub fd: i32,
    pub status: ProxyStatus,
    pub counters: Counters,
    /// Connections that were accepted and that the guest has not asked for.
    pub pending_accepts: u64,
    /// The socket's file, which goes away with the socket.
    pub unixsock_path: Option<Vec<u8>>,
    pub deferred_credit: DeferredCredit,
}

impl TsiStreamProxy {
    pub open spec fn wf(self) -> bool {
        self.deferred_credit.wf()
    }

    /// A socket that the guest's program opens.
    pub fn new(
        platform: HostPlatform,
        id: u64,
        cid: u64,
        family: AddressFamily,
        local_port: u32,
        peer_port: u32,
        control_port: u32,
        fd: i32,
    ) -> (proxy: TsiStreamProxy)
        ensures
            proxy.wf(),
            proxy == (TsiStreamProxy {
                platform,
                id,
                cid,
                parent_id: 0,
                family,
                local_port,
                peer_port,
                control_port,
                fd,
                status: ProxyStatus::Idle,
                counters: Counters::zero(),
                pending_accepts: 0,
                unixsock_path: None,
                deferred_credit: DeferredCredit { request: None, update: None, enabled: true },
            }),
    {
        TsiStreamProxy {
            platform,
            id,
            cid,
            parent_id: 0,
            family,
            local_port,
            peer_port,
            control_port,
            fd,
            status: ProxyStatus::Idle,
            counters: Counters::new(),
            pending_accepts: 0,
            unixsock_path: None,
            deferred_credit: DeferredCredit::new(),
        }
    }

    /// A connection that a socket of the guest's program has accepted.
    pub fn new_reverse(
        platform: HostPlatform,
        id: u64,
        cid: u64,
        parent_id: u64,
        family: AddressFamily,
        local_port: u32,
        peer_port: u32,
        fd: i32,
    ) -> (proxy: TsiStreamProxy)
        ensures
            proxy.wf(),
            proxy == (TsiStreamProxy {
                platform,
                id,
                cid,
                parent_id,
                family,
                local_port,
                peer_port,
                control_port: 0,
                fd,
                status: ProxyStatus::ReverseInit,
                counters: Counters::zero(),
                pending_accepts: 0,
                unixsock_path: None,
                deferred_credit: DeferredCredit { request: None, update: None, enabled: true },
            }),
    {
        let mut proxy = TsiStreamProxy::new(
            platform,
            id,
            cid,
            family,
            local_port,
            peer_port,
            0,
            fd,
        );
        proxy.parent_id = parent_id;
        proxy.status = ProxyStatus::ReverseInit;
        proxy
    }

    fn on_windows(&self) -> (result: bool)
        ensures
            result == (self.platform == HostPlatform::Windows),
    {
        match self.platform {
            HostPlatform::Windows => true,
            _ => false,
        }
    }

    /// What the descriptor is watched for, as an update.
    pub open spec fn polls(self, events: EventSet) -> Option<Polling> {
        Some(Polling { id: self.id, fd: self.fd, events })
    }

    /// The packet that answers the guest's wish to connect. It goes to the control port.
    pub open spec fn connect_packet(self, result: i32) -> MuxerRx {
        MuxerRx::ConnResponse { local_port: TSI_CONNECT, peer_port: self.control_port, result }
    }

    fn push_connect_rsp(&self, result: i32) -> (packet: MuxerRx)
        ensures
            packet == self.connect_packet(result),
    {
        MuxerRx::ConnResponse { local_port: TSI_CONNECT, peer_port: self.control_port, result }
    }

    /// The packet that answers the guest's wish to accept. It goes to the control port.
    pub open spec fn accept_packet(self, result: i32) -> MuxerRx {
        MuxerRx::AcceptResponse { local_port: TSI_ACCEPT, peer_port: self.control_port, result }
    }

    fn push_accept_rsp(&self, result: i32) -> (packet: MuxerRx)
        ensures
            packet == self.accept_packet(result),
    {
        MuxerRx::AcceptResponse { local_port: TSI_ACCEPT, peer_port: self.control_port, result }
    }

    /// The packet that ends the connection for the guest.
    pub open spec fn reset_packet(self) -> MuxerRx {
        MuxerRx::Reset { local_port: self.local_port, peer_port: self.peer_port }
    }

    fn push_reset(&self) -> (packet: MuxerRx)
        ensures
            packet == self.reset_packet(),
    {
        MuxerRx::Reset { local_port: self.local_port, peer_port: self.peer_port }
    }

    /// The packet that asks the guest for credit.
    pub open spec fn credit_packet(self) -> MuxerRx {
        MuxerRx::CreditRequest {
            local_port: self.local_port,
            peer_port: self.peer_port,
            fwd_cnt: self.counters.tx_cnt,
        }
    }

    fn credit_request(&self) -> (packet: MuxerRx)
        ensures
            packet == self.credit_packet(),
    {
        MuxerRx::CreditRequest {
            local_port: self.local_port,
            peer_port: self.peer_port,
            fwd_cnt: self.counters.tx_cnt,
        }
    }

    /// The header of a packet with data.
    pub fn init_data_pkt(&self) -> (header: DataHeader)
        ensures
            header == (DataHeader {
                op: VSOCK_OP_RW,
                src_cid: VSOCK_HOST_CID,
                dst_cid: self.cid,
                src_port: self.local_port,
                dst_port: self.peer_port,
                kind: VSOCK_TYPE_STREAM,
                buf_alloc: CONN_TX_BUF_SIZE as u32,
                fwd_cnt: self.counters.tx_cnt,
            }),
    {
        DataHeader {
            op: VSOCK_OP_RW,
            src_cid: VSOCK_HOST_CID,
            dst_cid: self.cid,
            src_port: self.local_port,
            dst_port: self.peer_port,
            kind: VSOCK_TYPE_STREAM,
            buf_alloc: CONN_TX_BUF_SIZE as u32,
            fwd_cnt: self.counters.tx_cnt,
        }
    }

    /// Keeps a packet about credit for later.
    pub fn defer_credit(&mut self, credit: MuxerRx) -> (result: Result<(), MuxerRx>)
        requires
            old(self).wf(),
        ensures
            final(self).wf(),
            match old(self).deferred_credit.pushed(credit, old(self).counters.tx_cnt) {
                Some(kept) => result is Ok && *final(self) == (TsiStreamProxy {
                    deferred_credit: kept,
                    ..*old(self)
                }),
                None => result == Err::<(), MuxerRx>(credit) && *final(self) == *old(self),
            },
    {
        let count: u32 = self.counters.tx_cnt;
        self.deferred_credit.push(credit, count)
    }

    /// Delivers the packets about credit as far as the guest has room.
    pub fn flush_credit(&mut self, room: usize) -> (packets: Vec<MuxerRx>)
        requires
            old(self).wf(),
        ensures
            final(self).wf(),
            packets@ == old(self).deferred_credit.delivered(
                old(self).counters.tx_cnt,
                room as int,
            ),
            *final(self) == (TsiStreamProxy {
                deferred_credit: old(self).deferred_credit.kept(
                    old(self).counters.tx_cnt,
                    room as int,
                ),
                ..*old(self)
            }),
    {
        let count: u32 = self.counters.tx_cnt;
        self.deferred_credit.flush(count, room)
    }

    pub fn disable_deferred_credit(&mut self)
        requires
            old(self).wf(),
        ensures
            final(self).wf(),
            *final(self) == (TsiStreamProxy {
                deferred_credit: DeferredCredit { request: None, update: None, enabled: false },
                ..*old(self)
            }),
    {
        self.deferred_credit.disable();
    }

    /// The events of a connection that is under way.
    pub open spec fn connecting_events() -> EventSet {
        EventSet { edge_triggered: true, ..EventSet::only_output() }
    }

    /// Takes what came of connecting the socket. A guest whose connection is under way is
    /// answered later.
    pub fn connect(&mut self, reply: ConnectReply) -> (handled: Handled)
        requires
            old(self).wf(),
            reply matches ConnectReply::Failed(error) ==> error > i32::MIN,
        ensures
            final(self).wf(),
            reply is Connected ==> final(self).status == ProxyStatus::Connected && handled.push
                == Some(
                MuxerRx::ConnResponse {
                    local_port: TSI_CONNECT,
                    peer_port: old(self).control_port,
                    result: 0,
                },
            ),
            reply is InProgress ==> final(self).status == ProxyStatus::Connecting && handled.push
                is None,
            reply matches ConnectReply::Failed(error) ==> old(self).status
                != ProxyStatus::Connecting ==> handled.push == Some(
                MuxerRx::ConnResponse {
                    local_port: TSI_CONNECT,
                    peer_port: old(self).control_port,
                    result: (-error) as i32,
                },
            ),
            ({
                let next = match reply {
                    ConnectReply::Connected => TsiStreamProxy {
                        status: ProxyStatus::Connected,
                        ..*old(self)
                    },
                    ConnectReply::InProgress => TsiStreamProxy {
                        status: ProxyStatus::Connecting,
                        ..*old(self)
                    },
                    _ => *old(self),
                };
                let result = match reply {
                    ConnectReply::Failed(error) => (-error) as i32,
                    _ => 0,
                };
                &&& *final(self) == next
                &&& handled == if reply is Unsupported {
                    Handled {
                        push: Some(next.connect_packet((-LINUX_EINVAL) as i32)),
                        ..Handled::nothing()
                    }
                } else if next.status == ProxyStatus::Connecting {
                    Handled {
                        update: ProxyUpdate {
                            polling: next.polls(TsiStreamProxy::connecting_events()),
                            ..ProxyUpdate::nothing()
                        },
                        ..Handled::nothing()
                    }
                } else {
                    Handled {
                        push: Some(next.connect_packet(result)),
                        update: ProxyUpdate {
                            polling: if next.status == ProxyStatus::Connected {
                                next.polls(EventSet::only_input())
                            } else {
                                None
                            },
                            ..ProxyUpdate::nothing()
                        },
                        set_blocking: reply is Connected && next.platform
                            != HostPlatform::Windows,
                        ..Handled::nothing()
                    }
                }
            }),
    {
        let mut set_blocking = false;
        let result: i32 = match reply {
            ConnectReply::Unsupported => {
                return Handled::pushing(
                    self.push_connect_rsp(-LINUX_EINVAL),
                    ProxyUpdate::new(),
                );
            },
            ConnectReply::Connected => {
                self.status = ProxyStatus::Connected;
                set_blocking = !self.on_windows();
                0
            },
            ConnectReply::InProgress => {
                self.status = ProxyStatus::Connecting;
                0
            },
            ConnectReply::Failed(error) => -error,
        };
        match self.status {
            ProxyStatus::Connecting => {
                let mut events = EventSet::writable();
                events.edge_triggered = true;
                Handled::only(ProxyUpdate::poll(self.id, self.fd, events))
            },
            _ => {
                let update = match self.status {
                    ProxyStatus::Connected => ProxyUpdate::poll(
                        self.id,
                        self.fd,
                        EventSet::readable(),
                    ),
                    _ => ProxyUpdate::new(),
                };
                let mut handled = Handled::pushing(self.push_connect_rsp(result), update);
                handled.set_blocking = set_blocking;
                handled
            },
        }
    }

    /// The connection with what a packet says of the guest's buffer.
    pub open spec fn with_peer(self, packet: PacketHeader) -> TsiStreamProxy {
        TsiStreamProxy {
            counters: Counters {
                peer_buf_alloc: packet.buf_alloc,
                peer_fwd_cnt: packet.fwd_cnt,
                ..self.counters
            },
            ..self
        }
    }

    /// Takes the guest's request for a connection that is there already. The socket is watched
    /// again now that the guest's side is there.
    pub fn confirm_connect(&mut self, packet: PacketHeader) -> (handled: Handled)
        requires
            old(self).wf(),
        ensures
            final(self).wf(),
            *final(self) == (TsiStreamProxy {
                local_port: packet.dst_port,
                peer_port: packet.src_port,
                ..old(self).with_peer(packet)
            }),
            handled == (Handled {
                push: Some(
                    MuxerRx::OpResponse {
                        local_port: packet.dst_port,
                        peer_port: packet.src_port,
                    },
                ),
                update: ProxyUpdate {
                    polling: old(self).polls(EventSet::only_input()),
                    ..ProxyUpdate::nothing()
                },
                ..Handled::nothing()
            }),
    {
        self.counters.set_peer(packet.buf_alloc, packet.fwd_cnt);
        self.local_port = packet.dst_port;
        self.peer_port = packet.src_port;
        Handled::pushing(
            MuxerRx::OpResponse { local_port: packet.dst_port, peer_port: packet.src_port },
            ProxyUpdate::poll(self.id, self.fd, EventSet::readable()),
        )
    }

    /// The length of an address that is of the socket's family. `len` is the length that the
    /// host gives.
    pub open spec fn addr_len(self, address: SocketAddress, len: u32) -> Option<u32> {
        match (self.family, address) {
            (AddressFamily::Inet, SocketAddress::V4 { .. }) => Some(len),
            (AddressFamily::Inet6, SocketAddress::V6 { .. }) => Some(len),
            (AddressFamily::Unix, SocketAddress::Unix(_)) => Some(len),
            _ => None,
        }
    }

    fn get_addr_len(&self, address: &SocketAddress, len: u32) -> (result: Option<u32>)
        ensures
            result == self.addr_len(*address, len),
    {
        match (self.family, address) {
            (AddressFamily::Inet, SocketAddress::V4 { .. }) => Some(len),
            (AddressFamily::Inet6, SocketAddress::V6 { .. }) => Some(len),
            (AddressFamily::Unix, SocketAddress::Unix(_)) => Some(len),
            _ => None,
        }
    }

    /// The answer to the guest's question for the peer's name. `name` is the address and its
    /// length; on Windows an address that the guest cannot be told is an error, elsewhere one
    /// of another family.
    pub fn getpeername(&self, packet: PacketHeader, name: Result<(SocketAddress, u32), i32>) -> (answer:
        MuxerRx)
        requires
            name matches Err(error) ==> error > i32::MIN,
        ensures
            answer == (MuxerRx::GetnameResponse {
                local_port: packet.dst_port,
                peer_port: packet.src_port,
                data: match name {
                    Err(error) => TsiGetnameRsp {
                        result: (-error) as i32,
                        addr_len: 0,
                        addr: no_address(),
                    },
                    Ok((addr, len)) => if self.platform == HostPlatform::Windows {
                        TsiGetnameRsp { result: 0, addr_len: len, addr }
                    } else {
                        match self.addr_len(addr, len) {
                            Some(addr_len) => TsiGetnameRsp { result: 0, addr_len, addr },
                            None => TsiGetnameRsp {
                                result: (-HOST_EINVAL) as i32,
                                addr_len: 0,
                                addr,
                            },
                        }
                    },
                },
            }),
    {
        let data = match name {
            Err(error) => TsiGetnameRsp {
                result: -error,
                addr_len: 0,
                addr: SocketAddress::V4 { ip4: 0, port: 0 },
            },
            Ok((addr, len)) => {
                if self.on_windows() {
                    TsiGetnameRsp { result: 0, addr_len: len, addr }
                } else {
                    match self.get_addr_len(&addr, len) {
                        Some(addr_len) => TsiGetnameRsp { result: 0, addr_len, addr },
                        None => TsiGetnameRsp { result: -HOST_EINVAL, addr_len: 0, addr },
                    }
                }
            },
        };
        MuxerRx::GetnameResponse { local_port: packet.dst_port, peer_port: packet.src_port, data }
    }

    /// What the guest has written was sent at once; `sent` is how much, if that worked. The
    /// guest is told what was consumed once that is owed.
    pub fn sendmsg(&mut self, packet: PacketHeader, sent: Option<u32>) -> (update: ProxyUpdate)
        requires
            old(self).wf(),
        ensures
            final(self).wf(),
            ({
                let counters = match sent {
                    Some(count) => old(self).counters.sent(count),
                    None => old(self).counters,
                };
                let owed = sent is Some && sent->0 > 0 && counters.owes_update();
                &&& *final(self) == (TsiStreamProxy {
                    counters: if owed {
                        counters.told()
                    } else {
                        counters
                    },
                    ..*old(self)
                })
                &&& update == (ProxyUpdate {
                    push_credit_req: if owed {
                        Some(
                            MuxerRx::CreditUpdate {
                                local_port: packet.dst_port,
                                peer_port: packet.src_port,
                                fwd_cnt: counters.tx_cnt,
                            },
                        )
                    } else {
                        None
                    },
                    ..ProxyUpdate::nothing()
                })
            }),
    {
        let mut update = ProxyUpdate::new();
        if let Some(count) = sent {
            self.counters.add_sent(count);
            if count > 0 {
                update.push_credit_req = self.counters.credit_update(
                    packet.dst_port,
                    packet.src_port,
                );
            }
        }
        update
    }

    /// The socket listens, or the guest's program waits for a connection.
    pub open spec fn listens(self) -> bool {
        self.status == ProxyStatus::Listening || self.status == ProxyStatus::WaitingOnAccept
    }

    fn is_listening(&self) -> (result: bool)
        ensures
            result == self.listens(),
    {
        match self.status {
            ProxyStatus::Listening => true,
            ProxyStatus::WaitingOnAccept => true,
            _ => false,
        }
    }

    /// The address that the socket is to be bound to. With a map of ports the host's port
    /// stands in for the guest's.
    pub fn try_listen(&self, address: SocketAddress, port_map: &Option<HashMap<u16, u16>>) -> (result:
        ListenAddress)
        ensures
            if self.listens() {
                result is Listening
            } else {
                match port_map {
                    None => result == ListenAddress::Bind(address),
                    Some(map) => match mapped_address(self.platform, map@, address) {
                        Some(mapped) => result == ListenAddress::Bind(mapped),
                        None => result is Invalid,
                    },
                }
            },
    {
        if self.is_listening() {
            return ListenAddress::Listening;
        }
        let map = match port_map {
            None => return ListenAddress::Bind(address),
            Some(map) => map,
        };
        let windows = self.on_windows();
        match address {
            SocketAddress::V4 { ip4, port } => {
                let mapped: u16 = match map.get(&port) {
                    Some(mapped) => *mapped,
                    None => port,
                };
                ListenAddress::Bind(SocketAddress::V4 { ip4, port: mapped })
            },
            SocketAddress::V6 { ip, port, flowinfo, scope_id } => match map.get(&port) {
                Some(mapped) if !windows => ListenAddress::Bind(
                    SocketAddress::V6 { ip, port: *mapped, flowinfo, scope_id: flowinfo },
                ),
                _ => ListenAddress::Bind(SocketAddress::V6 { ip, port, flowinfo, scope_id }),
            },
            SocketAddress::Unix(path) => ListenAddress::Bind(SocketAddress::Unix(path)),
            SocketAddress::Other(family) => {
                if windows {
                    ListenAddress::Bind(SocketAddress::Other(family))
                } else {
                    ListenAddress::Invalid
                }
            },
        }
    }

    /// Takes note that the socket was bound, with the file that it made.
    pub fn bound(&mut self, path: Option<Vec<u8>>)
        requires
            old(self).wf(),
        ensures
            final(self).wf(),
            *final(self) == (TsiStreamProxy { unixsock_path: path, ..*old(self) }),
    {
        self.unixsock_path = path;
    }

    /// Tells the guest what listening came to. From then on connections are taken for the
    /// guest's port.
    pub fn listen(&mut self, packet: PacketHeader, vm_port: u32, result: i32) -> (handled: Handled)
        requires
            old(self).wf(),
        ensures
            final(self).wf(),
            *final(self) == if result == 0 {
                TsiStreamProxy { peer_port: vm_port, status: ProxyStatus::Listening, ..*old(self) }
            } else {
                *old(self)
            },
            handled == (Handled {
                push: Some(
                    MuxerRx::ListenResponse {
                        local_port: packet.dst_port,
                        peer_port: packet.src_port,
                        result,
                    },
                ),
                update: ProxyUpdate {
                    polling: if result == 0 {
                        old(self).polls(EventSet::only_input())
                    } else {
                        None
                    },
                    ..ProxyUpdate::nothing()
                },
                ..Handled::nothing()
            }),
    {
        let packet = MuxerRx::ListenResponse {
            local_port: packet.dst_port,
            peer_port: packet.src_port,
            result,
        };
        if result == 0 {
            self.peer_port = vm_port;
            self.status = ProxyStatus::Listening;
            return Handled::pushing(
                packet,
                ProxyUpdate::poll(self.id, self.fd, EventSet::readable()),
            );
        }
        Handled::pushing(packet, ProxyUpdate::new())
    }

    /// The guest does not want to wait: the flag as the host writes it.
    pub open spec fn nonblocking(self, flags: u32) -> bool {
        match self.platform {
            HostPlatform::Macos => flags & 4 != 0,
            _ => flags & LINUX_O_NONBLOCK != 0,
        }
    }

    /// The number by which a guest that does not want to wait is told that it would have to.
    pub open spec fn would_block(self) -> i32 {
        (match self.platform {
            HostPlatform::Macos => -35int,
            _ => -11int,
        }) as i32
    }

    /// The socket after the guest's program asked for a connection, and what that came to.
    pub open spec fn accept_spec(self, flags: u32) -> (TsiStreamProxy, Handled) {
        let answer = |result: i32|
            Handled {
                push: Some(self.accept_packet(result)),
                update: ProxyUpdate { signal_queue: true, ..ProxyUpdate::nothing() },
                ..Handled::nothing()
            };
        if self.pending_accepts > 0 {
            (
                TsiStreamProxy { pending_accepts: (self.pending_accepts - 1) as u64, ..self },
                answer(0),
            )
        } else if self.nonblocking(flags) {
            (self, answer(self.would_block()))
        } else {
            (
                TsiStreamProxy { status: ProxyStatus::WaitingOnAccept, ..self },
                Handled::nothing(),
            )
        }
    }

    /// The guest's program wants a connection. One that was accepted is given at once;
    /// otherwise the program waits, unless it does not want to.
    pub fn accept(&mut self, flags: u32) -> (handled: Handled)
        requires
            old(self).wf(),
        ensures
            final(self).wf(),
            *final(self) == old(self).accept_spec(flags).0,
            handled == old(self).accept_spec(flags).1,
    {
        let mut update = ProxyUpdate::new();
        if self.pending_accepts > 0 {
            self.pending_accepts = self.pending_accepts - 1;
            update.signal_queue = true;
            return Handled::pushing(self.push_accept_rsp(0), update);
        }
        let (nonblocking, number) = match self.platform {
            HostPlatform::Macos => (flags & 4 != 0, -35i32),
            _ => (flags & LINUX_O_NONBLOCK != 0, -LINUX_EAGAIN),
        };
        if nonblocking {
            update.signal_queue = true;
            return Handled::pushing(self.push_accept_rsp(number), update);
        }
        self.status = ProxyStatus::WaitingOnAccept;
        Handled::only(update)
    }

    /// The socket after a connection that it accepted is there, and the packet that tells the
    /// guest's program of it.
    pub open spec fn enqueue_spec(self) -> (TsiStreamProxy, Option<MuxerRx>) {
        if self.status == ProxyStatus::WaitingOnAccept {
            (
                TsiStreamProxy { status: ProxyStatus::Listening, ..self },
                Some(self.accept_packet(0)),
            )
        } else {
            (
                TsiStreamProxy { pending_accepts: (self.pending_accepts + 1) as u64, ..self },
                None,
            )
        }
    }

    /// A connection that the socket accepted is there. A program that waits is given it; else
    /// it is kept.
    pub fn enqueue_accept(&mut self) -> (packet: Option<MuxerRx>)
        requires
            old(self).wf(),
            old(self).pending_accepts < u64::MAX,
        ensures
            final(self).wf(),
            *final(self) == old(self).enqueue_spec().0,
            packet == old(self).enqueue_spec().1,
    {
        match self.status {
            ProxyStatus::WaitingOnAccept => {
                self.status = ProxyStatus::Listening;
                Some(self.push_accept_rsp(0))
            },
            _ => {
                self.pending_accepts = self.pending_accepts + 1;
                None
            },
        }
    }

    /// Takes what a packet says of the guest's credit. On Windows a connection that had waited
    /// for it reads at once, because the socket says only once that there is something.
    pub fn update_peer_credit(&mut self, packet: PacketHeader) -> (step: Step)
        requires
            old(self).wf(),
        ensures
            final(self).wf(),
            ({
                let peer = old(self).with_peer(packet);
                &&& *final(self) == (TsiStreamProxy { status: ProxyStatus::Connected, ..peer })
                &&& if old(self).platform == HostPlatform::Windows && old(self).status
                    == ProxyStatus::WaitingCreditUpdate && peer.counters.credit() > 0 {
                    step is Receive
                } else {
                    step == Step::Done(
                        Handled {
                            update: ProxyUpdate {
                                polling: old(self).polls(EventSet::only_input()),
                                ..ProxyUpdate::nothing()
                            },
                            ..Handled::nothing()
                        },
                    )
                }
            }),
    {
        self.counters.set_peer(packet.buf_alloc, packet.fwd_cnt);
        let waiting = match self.status {
            ProxyStatus::WaitingCreditUpdate => true,
            _ => false,
        };
        self.status = ProxyStatus::Connected;
        if self.on_windows() && waiting && self.counters.peer_avail_credit() > 0 {
            return Step::Receive;
        }
        Step::Done(Handled::only(ProxyUpdate::poll(self.id, self.fd, EventSet::readable())))
    }

    /// The status that a turn of receiving leaves.
    pub open spec fn status_after(self, turn: Receiving) -> ProxyStatus {
        if turn.wait_credit {
            ProxyStatus::WaitingCreditUpdate
        } else if turn.closed {
            ProxyStatus::Closed
        } else {
            self.status
        }
    }

    /// Takes the turn of receiving that followed the guest's credit on Windows.
    pub fn credit_received(&mut self, turn: Receiving) -> (update: ProxyUpdate)
        requires
            old(self).wf(),
        ensures
            final(self).wf(),
            *final(self) == (TsiStreamProxy { status: old(self).status_after(turn), ..*old(self) }),
            update == (ProxyUpdate {
                signal_queue: turn.have_used,
                push_credit_req: if turn.wait_credit {
                    Some(old(self).credit_packet())
                } else {
                    None
                },
                polling: old(self).polls(
                    if turn.wait_credit {
                        EventSet::none()
                    } else {
                        EventSet::only_input()
                    },
                ),
                ..ProxyUpdate::nothing()
            }),
    {
        let mut update = ProxyUpdate::new();
        update.signal_queue = turn.have_used;
        if turn.closed {
            self.status = ProxyStatus::Closed;
        }
        let mut events = EventSet::readable();
        if turn.wait_credit {
            self.status = ProxyStatus::WaitingCreditUpdate;
            update.push_credit_req = Some(self.credit_request());
            events = EventSet::empty();
        }
        update.polling = Some(Polling { id: self.id, fd: self.fd, events });
        update
    }

    /// The packet that asks the guest for a connection.
    pub fn push_op_request(&self) -> (packet: MuxerRx)
        ensures
            packet == (MuxerRx::OpRequest {
                local_port: self.local_port,
                peer_port: self.peer_port,
            }),
    {
        MuxerRx::OpRequest { local_port: self.local_port, peer_port: self.peer_port }
    }

    /// Takes the guest's consent to a connection that a socket has accepted, which can now be
    /// given to the program that waits for one.
    pub fn process_op_response(&mut self, packet: PacketHeader) -> (handled: Handled)
        requires
            old(self).wf(),
        ensures
            final(self).wf(),
            *final(self) == (TsiStreamProxy {
                status: ProxyStatus::Connected,
                ..old(self).with_peer(packet)
            }),
            handled == (Handled {
                update: ProxyUpdate {
                    polling: old(self).polls(EventSet::only_input()),
                    push_accept: Some(
                        Accepted { id: old(self).id, parent_id: old(self).parent_id },
                    ),
                    ..ProxyUpdate::nothing()
                },
                set_blocking: old(self).platform != HostPlatform::Windows,
                ..Handled::nothing()
            }),
    {
        self.counters.set_peer(packet.buf_alloc, packet.fwd_cnt);
        self.status = ProxyStatus::Connected;
        let mut update = ProxyUpdate::poll(self.id, self.fd, EventSet::readable());
        update.push_accept = Some(Accepted { id: self.id, parent_id: self.parent_id });
        let mut handled = Handled::only(update);
        handled.set_blocking = !self.on_windows();
        handled
    }

    /// The guest is done with the socket. One that only listens goes away at once.
    pub fn release(&self) -> (update: ProxyUpdate)
        ensures
            update == (ProxyUpdate {
                remove_proxy: if self.status == ProxyStatus::Listening {
                    ProxyRemoval::Immediate
                } else {
                    ProxyRemoval::Deferred
                },
                ..ProxyUpdate::nothing()
            }),
    {
        match self.status {
            ProxyStatus::Listening => ProxyUpdate::remove(ProxyRemoval::Immediate),
            _ => ProxyUpdate::remove(ProxyRemoval::Deferred),
        }
    }

    /// The number by which a guest is told that nobody takes its connection.
    pub open spec fn refused(self) -> i32 {
        (match self.platform {
            HostPlatform::Macos => -61int,
            _ => -111int,
        }) as i32
    }

    /// Whether the guest's packets are to be filled from the socket before an event is handled.
    pub fn wants_receive(&self, events: EventSet) -> (result: bool)
        ensures
            result == (!events.hang_up && events.input && self.status == ProxyStatus::Connected),
    {
        let connected = match self.status {
            ProxyStatus::Connected => true,
            _ => false,
        };
        !events.hang_up && events.input && connected
    }

    /// Whether a connection is to be accepted before an event is handled.
    pub fn wants_accept(&self, events: EventSet) -> (result: bool)
        ensures
            result == (!events.hang_up && events.input && self.listens()),
    {
        !events.hang_up && events.input && self.is_listening()
    }

    /// What filling the guest's packets asks for.
    pub open spec fn filled_handled(self, turn: Receiving) -> Handled {
        let status = self.status_after(turn);
        Handled {
            push: if status == ProxyStatus::Closed {
                Some(self.reset_packet())
            } else {
                None
            },
            update: ProxyUpdate {
                signal_queue: turn.have_used || status == ProxyStatus::Closed || (self.platform
                    == HostPlatform::Windows && turn.wait_credit),
                push_credit_req: if turn.wait_credit {
                    Some(self.credit_packet())
                } else {
                    None
                },
                polling: if status == ProxyStatus::Connected {
                    None
                } else {
                    self.polls(EventSet::none())
                },
                ..ProxyUpdate::nothing()
            },
            ..Handled::nothing()
        }
    }

    /// The socket after an event, and what handling it came to.
    pub open spec fn event_spec(
        self,
        events: EventSet,
        turn: Receiving,
        accepted: Option<i32>,
    ) -> (TsiStreamProxy, Handled) {
        let fills = events.input && self.status == ProxyStatus::Connected;
        if events.hang_up {
            (
                TsiStreamProxy { status: ProxyStatus::Closed, ..self },
                Handled {
                    push: Some(
                        if self.status == ProxyStatus::Connecting {
                            self.connect_packet(self.refused())
                        } else {
                            self.reset_packet()
                        },
                    ),
                    update: ProxyUpdate {
                        polling: self.polls(EventSet::none()),
                        signal_queue: true,
                        remove_proxy: ProxyRemoval::Deferred,
                        ..ProxyUpdate::nothing()
                    },
                    ..Handled::nothing()
                },
            )
        } else if events.input && self.listens() {
            (
                self,
                Handled {
                    update: ProxyUpdate {
                        signal_queue: true,
                        new_proxy: match accepted {
                            Some(fd) => Some(
                                NewProxy {
                                    peer_port: self.peer_port,
                                    fd,
                                    family: self.family,
                                    kind: NewProxyType::Tcp,
                                },
                            ),
                            None => None,
                        },
                        ..ProxyUpdate::nothing()
                    },
                    ..Handled::nothing()
                },
            )
        } else if fills {
            (
                TsiStreamProxy { status: self.status_after(turn), ..self },
                self.filled_handled(turn),
            )
        } else if events.output && self.status == ProxyStatus::Connecting {
            (
                TsiStreamProxy { status: ProxyStatus::Connected, ..self },
                Handled {
                    push: Some(self.connect_packet(0)),
                    update: ProxyUpdate {
                        signal_queue: true,
                        polling: self.polls(EventSet::none()),
                        ..ProxyUpdate::nothing()
                    },
                    set_blocking: self.platform != HostPlatform::Windows,
                    ..Handled::nothing()
                },
            )
        } else {
            (self, Handled::nothing())
        }
    }

    /// Handles an event. A connection that is there is not watched until the guest has asked
    /// for it.
    pub fn process_event(&mut self, events: EventSet, turn: Receiving, accepted: Option<i32>) -> (handled:
        Handled)
        requires
            old(self).wf(),
        ensures
            final(self).wf(),
            *final(self) == old(self).event_spec(events, turn, accepted).0,
            handled == old(self).event_spec(events, turn, accepted).1,
            old(self).status == ProxyStatus::Connecting && final(self).status
                == ProxyStatus::Connected ==> handled.push == Some(
                MuxerRx::ConnResponse {
                    local_port: TSI_CONNECT,
                    peer_port: old(self).control_port,
                    result: 0,
                },
            ),
            old(self).status == ProxyStatus::Connecting && final(self).status
                == ProxyStatus::Closed ==> {
                &&& handled.push matches Some(MuxerRx::ConnResponse {
                    local_port,
                    peer_port,
                    result,
                })
                &&& local_port == TSI_CONNECT && peer_port == old(self).control_port && result < 0
            },
            old(self).status != ProxyStatus::Connecting && handled.push is Some ==> handled.push
                == Some(
                MuxerRx::Reset { local_port: old(self).local_port, peer_port: old(self).peer_port },
            ) && final(self).status == ProxyStatus::Closed,
    {
        if events.hang_up {
            let packet = match self.status {
                ProxyStatus::Connecting => {
                    let number: i32 = match self.platform {
                        HostPlatform::Macos => -61,
                        _ => -LINUX_ECONNREFUSED,
                    };
                    self.push_connect_rsp(number)
                },
                _ => self.push_reset(),
            };
            self.status = ProxyStatus::Closed;
            let mut update = ProxyUpdate::poll(self.id, self.fd, EventSet::empty());
            update.signal_queue = true;
            update.remove_proxy = ProxyRemoval::Deferred;
            return Handled::pushing(packet, update);
        }
        if self.wants_accept(events) {
            let mut update = ProxyUpdate::new();
            if let Some(fd) = accepted {
                update.new_proxy = Some(
                    NewProxy {
                        peer_port: self.peer_port,
                        fd,
                        family: self.family,
                        kind: NewProxyType::Tcp,
                    },
                );
            }
            update.signal_queue = true;
            return Handled::only(update);
        }
        if self.wants_receive(events) {
            let mut update = ProxyUpdate::new();
            update.signal_queue = turn.have_used || (self.on_windows() && turn.wait_credit);
            if turn.wait_credit {
                self.status = ProxyStatus::WaitingCreditUpdate;
                update.push_credit_req = Some(self.credit_request());
                update.polling = Some(
                    Polling { id: self.id, fd: self.fd, events: EventSet::empty() },
                );
                return Handled::only(update);
            }
            if turn.closed {
                self.status = ProxyStatus::Closed;
                update.signal_queue = true;
                update.polling = Some(
                    Polling { id: self.id, fd: self.fd, events: EventSet::empty() },
                );
                return Handled::pushing(self.push_reset(), update);
            }
            return Handled::only(update);
        }
        let connecting = match self.status {
            ProxyStatus::Connecting => true,
            _ => false,
        };
        if events.output && connecting {
            self.status = ProxyStatus::Connected;
            let mut update = ProxyUpdate::poll(self.id, self.fd, EventSet::empty());
            update.signal_queue = true;
            let mut handled = Handled::pushing(self.push_connect_rsp(0), update);
            handled.set_blocking = !self.on_windows();
            return handled;
        }
        Handled::only(ProxyUpdate::new())
    }
}

/// The guest's program is told once of each connection that was accepted, whether it asks
/// before the connection is there or after: what is kept is given out by the next request, and
/// a program that waits is given the next connection.
pub proof fn law_accepted_connections_are_given_out_once(proxy: TsiStreamProxy, flags: u32)
    requires
        proxy.pending_accepts < u64::MAX,
    ensures
        proxy.status != ProxyStatus::WaitingOnAccept ==> {
            &&& proxy.enqueue_spec().1 is None
            &&& proxy.enqueue_spec().0.accept_spec(flags).0 == proxy
            &&& proxy.enqueue_spec().0.accept_spec(flags).1.push == Some(proxy.accept_packet(0))
        },
        proxy.pending_accepts == 0 && !proxy.nonblocking(flags) ==> {
            &&& proxy.accept_spec(flags).1.push is None
            &&& proxy.accept_spec(flags).0.enqueue_spec().0 == (TsiStreamProxy {
                status: ProxyStatus::Listening,
                ..proxy
            })
            &&& proxy.accept_spec(flags).0.enqueue_spec().1 == Some(proxy.accept_packet(0))
        },
        proxy.pending_accepts == 0 && proxy.nonblocking(flags) ==> proxy.accept_spec(flags).0
            == proxy && proxy.accept_spec(flags).1.push == Some(
            proxy.accept_packet(proxy.would_block()),
        ),
{
}

/// The socket of a guest's connection is not read before the guest has asked for the
/// connection: from connecting to the guest's request nothing is watched.
pub proof fn law_new_connections_are_not_watched(
    proxy: TsiStreamProxy,
    events: EventSet,
    turn: Receiving,
)
    requires
        proxy.status == ProxyStatus::Connecting,
        events.output,
        !events.hang_up,
    ensures
        proxy.event_spec(events, turn, None).1.update.polling == proxy.polls(EventSet::none()),
        proxy.event_spec(events, turn, None).0.status == ProxyStatus::Connected,
{
}

} // verus!
