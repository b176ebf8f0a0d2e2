//! What the socket device does with the guest's packets, and with what its connections ask for.
use crate::platform::HostPlatform;
use crate::vsock::defs::{
    host_econnrefused, proxy_id, PacketHeader, SocketAddress, HOST_EINVAL, HOST_EPERM,
    LINUX_AF_INET, LINUX_AF_UNIX, SOCK_DGRAM, SOCK_STREAM, TSI_ACCEPT, TSI_CONNECT, TSI_GETNAME,
    TSI_LISTEN, TSI_PROXY_CREATE, TSI_PROXY_PORT, TSI_PROXY_RELEASE, TSI_SENDTO_ADDR,
    TSI_SENDTO_DATA, VSOCK_HOST_CID, VSOCK_OP_CREDIT_UPDATE, VSOCK_OP_REQUEST, VSOCK_OP_RESPONSE,
    VSOCK_OP_RST, VSOCK_OP_RW, VSOCK_OP_SHUTDOWN,
};
use crate::vsock::proxy::{DeferredCredit, MuxerRx, ProxyStatus, TsiGetnameRsp};
use crate::vsock::unix_proxy::UnixProxy;
use vstd::prelude::*;

verus! {

/// Packets that wait where the guest's queue has no room.
pub const MUXER_RXQ_SIZE: usize = 256;

/// Which sockets of the guest's programs the host makes for them.
#[derive(Clone, Copy, Debug, PartialEq, Eq, Structural)]
pub struct TsiFlags {
    pub hijack_inet: bool,
    pub hijack_unix: bool,
}

impl TsiFlags {
    pub open spec fn enabled(self) -> bool {
        self.hijack_inet || self.hijack_unix
    }

    pub fn tsi_enabled(&self) -> (result: bool)
        ensures
            result == self.enabled(),
    {
        self.hijack_inet || self.hijack_unix
    }
}

/// What a datagram of the guest asks for.
#[derive(Clone, Copy, Debug, PartialEq, Eq, Structural)]
pub enum DgramRoute {
    /// It is not for the host.
    Drop,
    ProxyCreate,
    Connect,
    Getname,
    SendtoAddr,
    SendtoData,
    Listen,
    Accept,
    ProxyRelease,
    Data,
    Unexpected,
}

/// What a datagram of the guest asks for. The ports that programs' sockets are served at count
/// only where they are served.
pub open spec fn dgram_route_spec(packet: PacketHeader, enabled: bool) -> DgramRoute {
    if packet.dst_cid != VSOCK_HOST_CID {
        DgramRoute::Drop
    } else if enabled && packet.dst_port == TSI_PROXY_CREATE {
        DgramRoute::ProxyCreate
    } else if enabled && packet.dst_port == TSI_CONNECT {
        DgramRoute::Connect
    } else if enabled && packet.dst_port == TSI_GETNAME {
        DgramRoute::Getname
    } else if enabled && packet.dst_port == TSI_SENDTO_ADDR {
        DgramRoute::SendtoAddr
    } else if enabled && packet.dst_port == TSI_SENDTO_DATA {
        DgramRoute::SendtoData
    } else if enabled && packet.dst_port == TSI_LISTEN {
        DgramRoute::Listen
    } else if enabled && packet.dst_port == TSI_ACCEPT {
        DgramRoute::Accept
    } else if enabled && packet.dst_port == TSI_PROXY_RELEASE {
        DgramRoute::ProxyRelease
    } else if packet.op == VSOCK_OP_RW {
        DgramRoute::Data
    } else {
        DgramRoute::Unexpected
    }
}

/// What a packet of a stream asks for.
#[derive(Clone, Copy, Debug, PartialEq, Eq, Structural)]
pub enum StreamRoute {
    /// It is not for the host.
    Drop,
    Request,
    Response,
    Shutdown,
    CreditUpdate,
    Data,
    Reset,
    Unhandled,
}

/// What a packet of a stream asks for.
pub open spec fn stream_route_spec(packet: PacketHeader) -> StreamRoute {
    if packet.dst_cid != VSOCK_HOST_CID {
        StreamRoute::Drop
    } else if packet.op == VSOCK_OP_REQUEST {
        StreamRoute::Request
    } else if packet.op == VSOCK_OP_RESPONSE {
        StreamRoute::Response
    } else if packet.op == VSOCK_OP_SHUTDOWN {
        StreamRoute::Shutdown
    } else if packet.op == VSOCK_OP_CREDIT_UPDATE {
        StreamRoute::CreditUpdate
    } else if packet.op == VSOCK_OP_RW {
        StreamRoute::Data
    } else if packet.op == VSOCK_OP_RST {
        StreamRoute::Reset
    } else {
        StreamRoute::Unhandled
    }
}

/// What a packet of a stream asks for.
pub fn send_stream_pkt(packet: PacketHeader) -> (route: StreamRoute)
    ensures
        route == stream_route_spec(packet),
        route == StreamRoute::Drop <==> packet.dst_cid != VSOCK_HOST_CID,
        packet.dst_cid == VSOCK_HOST_CID ==> {
            &&& packet.op == VSOCK_OP_REQUEST <==> route == StreamRoute::Request
            &&& packet.op == VSOCK_OP_RESPONSE <==> route == StreamRoute::Response
            &&& packet.op == VSOCK_OP_SHUTDOWN <==> route == StreamRoute::Shutdown
            &&& packet.op == VSOCK_OP_CREDIT_UPDATE <==> route == StreamRoute::CreditUpdate
            &&& packet.op == VSOCK_OP_RW <==> route == StreamRoute::Data
            &&& packet.op == VSOCK_OP_RST <==> route == StreamRoute::Reset
        },
{
    if packet.dst_cid != VSOCK_HOST_CID {
        StreamRoute::Drop
    } else if packet.op == VSOCK_OP_REQUEST {
        StreamRoute::Request
    } else if packet.op == VSOCK_OP_RESPONSE {
        StreamRoute::Response
    } else if packet.op == VSOCK_OP_SHUTDOWN {
        StreamRoute::Shutdown
    } else if packet.op == VSOCK_OP_CREDIT_UPDATE {
        StreamRoute::CreditUpdate
    } else if packet.op == VSOCK_OP_RW {
        StreamRoute::Data
    } else if packet.op == VSOCK_OP_RST {
        StreamRoute::Reset
    } else {
        StreamRoute::Unhandled
    }
}

/// The guest's wish for a socket.
#[derive(Clone, Copy, Debug, PartialEq, Eq, Structural)]
pub struct ProxyCreateReq {
    pub peer_port: u32,
    pub family: u16,
    pub kind: u16,
}

/// What becomes of the guest's wish for a socket.
#[derive(Clone, Copy, Debug, PartialEq, Eq, Structural)]
pub enum CreateDecision {
    Stream { id: u64, local_port: u32, peer_port: u32, control_port: u32 },
    Dgram { id: u64, peer_port: u32 },
    NotActive,
    UnixDisabled,
    InetDisabled,
    UnknownType,
}

/// The host's number of the longer kind of addresses.
pub open spec fn host_af_inet6_spec(platform: HostPlatform) -> u16 {
    match platform {
        HostPlatform::Macos => 30,
        _ => 10,
    }
}

/// What becomes of the guest's wish for a socket. The families are the host's numbers.
pub open spec fn create_spec(
    platform: HostPlatform,
    flags: TsiFlags,
    active: bool,
    request: ProxyCreateReq,
    src_port: u32,
) -> CreateDecision {
    let id = crate::vsock::defs::proxy_id_spec(request.peer_port, TSI_PROXY_PORT);
    if !active {
        CreateDecision::NotActive
    } else if request.kind != SOCK_STREAM && request.kind != SOCK_DGRAM {
        CreateDecision::UnknownType
    } else if request.family == LINUX_AF_UNIX && !flags.hijack_unix {
        CreateDecision::UnixDisabled
    } else if (request.family == LINUX_AF_INET || request.family == host_af_inet6_spec(platform))
        && !flags.hijack_inet {
        CreateDecision::InetDisabled
    } else if request.kind == SOCK_STREAM {
        CreateDecision::Stream {
            id,
            local_port: TSI_PROXY_PORT,
            peer_port: request.peer_port,
            control_port: src_port,
        }
    } else {
        CreateDecision::Dgram { id, peer_port: request.peer_port }
    }
}

/// What is known of a connection.
#[derive(Clone, Copy, Debug, PartialEq, Eq, Structural)]
pub enum ProxyLookup {
    /// The table of connections cannot be trusted.
    TablePoisoned,
    /// The connection cannot be trusted.
    Poisoned,
    Missing,
    Found(ProxyStatus),
}

/// What becomes of the guest's request for a connection.
#[derive(Debug)]
pub enum RequestAction {
    /// The control channel is given up.
    Fence,
    /// The request is one that the host is about to answer.
    Ignore,
    /// The connection is there, and the request confirms it.
    Confirm,
    /// Nothing can be sent to the guest yet.
    NotActive,
    /// The packet is sent: the port is one that the host listens at.
    Reset(MuxerRx),
    /// A socket of the host's file system is connected.
    ConnectUnix,
    /// The host is asked over its control channel.
    AskHost,
}

/// What becomes of the guest's data.
#[derive(Debug)]
pub enum DataAction {
    /// The control channel is given up.
    Fence,
    /// The control channel is given up, and the packet is sent if there is one.
    FenceAndReset(Option<MuxerRx>),
    /// The data is sent. With `cancel` the host is no longer asked for the connection.
    Send { cancel: bool },
    /// There is no such connection; the packet is sent if there is one.
    Reset(Option<MuxerRx>),
}

/// What becomes of the guest's end of a connection.
#[derive(Clone, Copy, Debug, PartialEq, Eq, Structural)]
pub enum ResetAction {
    /// The control channel is given up.
    Fence,
    /// The connection is released, after what it kept for the guest was dropped. With `cancel`
    /// the host is no longer asked for the connection.
    Release { cancel: bool },
    Ignore,
}

/// The next thing to do for a request to the host.
#[derive(Clone, Copy, Debug, PartialEq, Eq, Structural)]
pub enum AskHostStep {
    /// A pair of sockets is made.
    CreatePair,
    /// Both sockets are prepared.
    Prepare,
    /// The connection enters the table.
    Insert,
    /// The request is queued with one of the sockets.
    Enqueue,
    Done,
    /// Nothing is done: there is no control channel, or the connection is known already.
    Ignore,
    /// The guest's connection is reset.
    Reset,
    /// The connection leaves the table again, and is reset.
    RemoveAndReset,
    /// The control channel is given up.
    Fence,
}

/// What came of a step of a request to the host.
#[derive(Clone, Copy, Debug, PartialEq, Eq, Structural)]
pub enum AskHostReply {
    Worked,
    Failed,
    /// The table of connections cannot be trusted.
    Poisoned,
}

/// The device, as far as its decisions go.
#[derive(Clone, Copy, Debug, PartialEq, Eq, Structural)]
pub struct VsockMuxer {
    pub platform: HostPlatform,
    pub cid: u64,
    /// The guest has given its queues.
    pub active: bool,
    pub tsi_flags: TsiFlags,
    /// There is a control channel.
    pub has_control: bool,
}

impl VsockMuxer {
    pub fn new(platform: HostPlatform, cid: u64, tsi_flags: TsiFlags) -> (muxer: VsockMuxer)
        ensures
            muxer == (VsockMuxer { platform, cid, active: false, tsi_flags, has_control: false }),
    {
        VsockMuxer { platform, cid, active: false, tsi_flags, has_control: false }
    }

    pub fn activate(&mut self)
        ensures
            *final(self) == (VsockMuxer { active: true, ..*old(self) }),
    {
        self.active = true;
    }

    pub fn set_unix_mux_fd(&mut self)
        ensures
            *final(self) == (VsockMuxer { has_control: true, ..*old(self) }),
    {
        self.has_control = true;
    }

    /// What a datagram of the guest asks for.
    pub fn send_dgram_pkt(&self, packet: PacketHeader) -> (route: DgramRoute)
        ensures
            route == dgram_route_spec(packet, self.tsi_flags.enabled()),
            route == DgramRoute::Drop <==> packet.dst_cid != VSOCK_HOST_CID,
            packet.dst_cid == VSOCK_HOST_CID && (self.tsi_flags.hijack_inet
                || self.tsi_flags.hijack_unix) ==> {
                &&& packet.dst_port == TSI_PROXY_CREATE <==> route == DgramRoute::ProxyCreate
                &&& packet.dst_port == TSI_CONNECT <==> route == DgramRoute::Connect
                &&& packet.dst_port == TSI_GETNAME <==> route == DgramRoute::Getname
                &&& packet.dst_port == TSI_SENDTO_ADDR <==> route == DgramRoute::SendtoAddr
                &&& packet.dst_port == TSI_SENDTO_DATA <==> route == DgramRoute::SendtoData
                &&& packet.dst_port == TSI_LISTEN <==> route == DgramRoute::Listen
                &&& packet.dst_port == TSI_ACCEPT <==> route == DgramRoute::Accept
                &&& packet.dst_port == TSI_PROXY_RELEASE <==> route == DgramRoute::ProxyRelease
            },
            route == DgramRoute::Data ==> packet.op == VSOCK_OP_RW,
    {
        if packet.dst_cid != VSOCK_HOST_CID {
            return DgramRoute::Drop;
        }
        if self.tsi_flags.tsi_enabled() {
            if packet.dst_port == TSI_PROXY_CREATE {
                return DgramRoute::ProxyCreate;
            }
            if packet.dst_port == TSI_CONNECT {
                return DgramRoute::Connect;
            }
            if packet.dst_port == TSI_GETNAME {
                return DgramRoute::Getname;
            }
            if packet.dst_port == TSI_SENDTO_ADDR {
                return DgramRoute::SendtoAddr;
            }
            if packet.dst_port == TSI_SENDTO_DATA {
                return DgramRoute::SendtoData;
            }
            if packet.dst_port == TSI_LISTEN {
                return DgramRoute::Listen;
            }
            if packet.dst_port == TSI_ACCEPT {
                return DgramRoute::Accept;
            }
            if packet.dst_port == TSI_PROXY_RELEASE {
                return DgramRoute::ProxyRelease;
            }
        }
        if packet.op == VSOCK_OP_RW {
            DgramRoute::Data
        } else {
            DgramRoute::Unexpected
        }
    }

    /// What becomes of the guest's wish for a socket.
    pub fn process_proxy_create(&self, request: ProxyCreateReq, src_port: u32) -> (decision:
        CreateDecision)
        ensures
            decision == create_spec(
                self.platform,
                self.tsi_flags,
                self.active,
                request,
                src_port,
            ),
    {
        if !self.active {
            return CreateDecision::NotActive;
        }
        if request.kind != SOCK_STREAM && request.kind != SOCK_DGRAM {
            return CreateDecision::UnknownType;
        }
        let inet6: u16 = match self.platform {
            HostPlatform::Macos => 30,
            _ => 10,
        };
        if request.family == LINUX_AF_UNIX && !self.tsi_flags.hijack_unix {
            return CreateDecision::UnixDisabled;
        }
        if (request.family == LINUX_AF_INET || request.family == inet6)
            && !self.tsi_flags.hijack_inet {
            return CreateDecision::InetDisabled;
        }
        let id: u64 = proxy_id(request.peer_port, TSI_PROXY_PORT);
        if request.kind == SOCK_STREAM {
            CreateDecision::Stream {
                id,
                local_port: TSI_PROXY_PORT,
                peer_port: request.peer_port,
                control_port: src_port,
            }
        } else {
            CreateDecision::Dgram { id, peer_port: request.peer_port }
        }
    }

    /// A packet for the guest, once the guest has given its queues.
    pub open spec fn sent(self, packet: MuxerRx) -> Option<MuxerRx> {
        if self.active {
            Some(packet)
        } else {
            None
        }
    }

    /// What is sent to the guest of a packet for it: nothing before the guest has given its
    /// queues.
    pub fn push_packet(&self, packet: MuxerRx) -> (sent: Option<MuxerRx>)
        ensures
            sent == self.sent(packet),
    {
        if self.active {
            Some(packet)
        } else {
            None
        }
    }

    /// The answer to a datagram for a socket that there is not. Most are passed over in
    /// silence.
    pub fn answer_without_proxy(&self, route: DgramRoute, packet: PacketHeader) -> (answer: Option<
        MuxerRx,
    >)
        ensures
            answer == match route {
                DgramRoute::Connect => self.sent(
                    MuxerRx::ConnResponse {
                        local_port: packet.dst_port,
                        peer_port: packet.src_port,
                        result: (-crate::vsock::defs::host_econnrefused_spec(
                            self.platform,
                        )) as i32,
                    },
                ),
                DgramRoute::Getname => self.sent(
                    MuxerRx::GetnameResponse {
                        local_port: packet.dst_port,
                        peer_port: packet.src_port,
                        data: TsiGetnameRsp {
                            result: (-HOST_EINVAL) as i32,
                            addr_len: 0,
                            addr: crate::vsock::tsi_stream::no_address(),
                        },
                    },
                ),
                DgramRoute::Listen => self.sent(
                    MuxerRx::ListenResponse {
                        local_port: packet.dst_port,
                        peer_port: packet.src_port,
                        result: (-HOST_EPERM) as i32,
                    },
                ),
                DgramRoute::Accept => self.sent(
                    MuxerRx::AcceptResponse {
                        local_port: packet.dst_port,
                        peer_port: packet.src_port,
                        result: (-HOST_EINVAL) as i32,
                    },
                ),
                _ => None,
            },
    {
        let local_port: u32 = packet.dst_port;
        let peer_port: u32 = packet.src_port;
        match route {
            DgramRoute::Connect => {
                let number: i32 = host_econnrefused(self.platform);
                self.push_packet(MuxerRx::ConnResponse { local_port, peer_port, result: -number })
            },
            DgramRoute::Getname => self.push_packet(
                MuxerRx::GetnameResponse {
                    local_port,
                    peer_port,
                    data: TsiGetnameRsp {
                        result: -HOST_EINVAL,
                        addr_len: 0,
                        addr: SocketAddress::V4 { ip4: 0, port: 0 },
                    },
                },
            ),
            DgramRoute::Listen => self.push_packet(
                MuxerRx::ListenResponse { local_port, peer_port, result: -HOST_EPERM },
            ),
            DgramRoute::Accept => self.push_packet(
                MuxerRx::AcceptResponse { local_port, peer_port, result: -HOST_EINVAL },
            ),
            _ => None,
        }
    }

    /// The packet that ends a connection for the guest.
    pub open spec fn reset_for(packet: PacketHeader) -> MuxerRx {
        MuxerRx::Reset { local_port: packet.dst_port, peer_port: packet.src_port }
    }

    fn reset(packet: PacketHeader) -> (answer: MuxerRx)
        ensures
            answer == VsockMuxer::reset_for(packet),
    {
        MuxerRx::Reset { local_port: packet.dst_port, peer_port: packet.src_port }
    }

    /// What becomes of the guest's request for a connection. `proxy` is what is known of the
    /// connection, and `ipc_port` whether the port is one of the host's file system, and if so
    /// whether the host listens there.
    pub fn process_op_request(&self, packet: PacketHeader, proxy: ProxyLookup, ipc_port: Option<
        bool,
    >) -> (action: RequestAction)
        ensures
            action == match proxy {
                ProxyLookup::TablePoisoned | ProxyLookup::Poisoned => RequestAction::Fence,
                ProxyLookup::Found(status) => if status == ProxyStatus::WaitingOnHost {
                    RequestAction::Ignore
                } else {
                    RequestAction::Confirm
                },
                ProxyLookup::Missing => match ipc_port {
                    Some(listen) => if !self.active {
                        RequestAction::NotActive
                    } else if listen {
                        RequestAction::Reset(VsockMuxer::reset_for(packet))
                    } else {
                        RequestAction::ConnectUnix
                    },
                    None => if self.platform == HostPlatform::Windows {
                        RequestAction::Ignore
                    } else {
                        RequestAction::AskHost
                    },
                },
            },
    {
        match proxy {
            ProxyLookup::TablePoisoned => RequestAction::Fence,
            ProxyLookup::Poisoned => RequestAction::Fence,
            ProxyLookup::Found(status) => match status {
                ProxyStatus::WaitingOnHost => RequestAction::Ignore,
                _ => RequestAction::Confirm,
            },
            ProxyLookup::Missing => match ipc_port {
                Some(listen) => if !self.active {
                    RequestAction::NotActive
                } else if listen {
                    RequestAction::Reset(VsockMuxer::reset(packet))
                } else {
                    RequestAction::ConnectUnix
                },
                None => match self.platform {
                    HostPlatform::Windows => RequestAction::Ignore,
                    _ => RequestAction::AskHost,
                },
            },
        }
    }

    /// Where a request to the host starts.
    pub fn process_mux_request(&self) -> (step: AskHostStep)
        ensures
            step == if self.has_control {
                AskHostStep::CreatePair
            } else {
                AskHostStep::Ignore
            },
    {
        if self.has_control {
            AskHostStep::CreatePair
        } else {
            AskHostStep::Ignore
        }
    }

    /// What follows a step of a request to the host. Before the guest has given its queues, no
    /// request is made.
    pub open spec fn ask_host_spec(self, step: AskHostStep, reply: AskHostReply) -> AskHostStep {
        match step {
            AskHostStep::CreatePair => if reply == AskHostReply::Worked {
                AskHostStep::Prepare
            } else {
                AskHostStep::Reset
            },
            AskHostStep::Prepare => if reply != AskHostReply::Worked {
                AskHostStep::Reset
            } else if !self.active {
                AskHostStep::Fence
            } else {
                AskHostStep::Insert
            },
            AskHostStep::Insert => match reply {
                AskHostReply::Worked => AskHostStep::Enqueue,
                AskHostReply::Failed => AskHostStep::Ignore,
                AskHostReply::Poisoned => AskHostStep::Fence,
            },
            AskHostStep::Enqueue => if reply == AskHostReply::Worked {
                AskHostStep::Done
            } else {
                AskHostStep::RemoveAndReset
            },
            other => other,
        }
    }

    pub fn ask_host(&self, step: AskHostStep, reply: AskHostReply) -> (next: AskHostStep)
        ensures
            next == self.ask_host_spec(step, reply),
    {
        let worked = match reply {
            AskHostReply::Worked => true,
            _ => false,
        };
        match step {
            AskHostStep::CreatePair => if worked {
                AskHostStep::Prepare
            } else {
                AskHostStep::Reset
            },
            AskHostStep::Prepare => if !worked {
                AskHostStep::Reset
            } else if !self.active {
                AskHostStep::Fence
            } else {
                AskHostStep::Insert
            },
            AskHostStep::Insert => match reply {
                AskHostReply::Worked => AskHostStep::Enqueue,
                AskHostReply::Failed => AskHostStep::Ignore,
                AskHostReply::Poisoned => AskHostStep::Fence,
            },
            AskHostStep::Enqueue => if worked {
                AskHostStep::Done
            } else {
                AskHostStep::RemoveAndReset
            },
            other => other,
        }
    }

    /// The connection that the host is asked for.
    pub fn requested_proxy(&self, packet: PacketHeader, id: u64, fd: i32) -> (proxy: UnixProxy)
        ensures
            proxy.wf(),
            proxy.id == id,
            proxy.cid == self.cid,
            proxy.fd == fd,
            proxy.platform == self.platform,
            proxy.status == ProxyStatus::WaitingOnHost,
            proxy.mux_transport,
            proxy.local_port == packet.dst_port,
            proxy.peer_port == packet.src_port,
            proxy.control_port == 0,
            proxy.deferred_credit == (crate::vsock::proxy::DeferredCredit {
                request: None,
                update: None,
                enabled: true,
            }),
            proxy.connect_response is None,
            proxy.counters == (crate::vsock::proxy::Counters {
                peer_buf_alloc: packet.buf_alloc,
                peer_fwd_cnt: packet.fwd_cnt,
                ..crate::vsock::proxy::Counters::zero()
            }),
            proxy.pending_tx@.len() == 0,
    {
        let mut proxy = UnixProxy::new_waiting_on_host(
            self.platform,
            id,
            self.cid,
            packet.dst_port,
            packet.src_port,
            fd,
        );
        proxy.counters.set_peer(packet.buf_alloc, packet.fwd_cnt);
        proxy
    }

    /// The host is no longer asked for a connection that waits for it.
    pub open spec fn cancels(self, status: ProxyStatus) -> bool {
        self.platform != HostPlatform::Windows && status == ProxyStatus::WaitingOnHost
            && self.has_control
    }

    fn is_cancelling(&self, status: ProxyStatus) -> (result: bool)
        ensures
            result == self.cancels(status),
    {
        let windows = match self.platform {
            HostPlatform::Windows => true,
            _ => false,
        };
        let waiting = match status {
            ProxyStatus::WaitingOnHost => true,
            _ => false,
        };
        !windows && waiting && self.has_control
    }

    /// The packet that ends a connection that there is not, once the guest has given its queues.
    pub open spec fn stray_answer(self, packet: PacketHeader) -> Option<MuxerRx> {
        self.sent(VsockMuxer::reset_for(packet))
    }

    pub fn answer_stray(&self, packet: PacketHeader) -> (answer: Option<MuxerRx>)
        ensures
            answer == self.stray_answer(packet),
    {
        self.push_packet(VsockMuxer::reset(packet))
    }

    /// What becomes of the guest's data. Data for a connection that the host has not granted
    /// ends the request for it.
    pub fn process_stream_rw(&self, packet: PacketHeader, proxy: ProxyLookup) -> (action: DataAction)
        ensures
            action == match proxy {
                ProxyLookup::TablePoisoned => DataAction::Fence,
                ProxyLookup::Poisoned => DataAction::FenceAndReset(self.stray_answer(packet)),
                ProxyLookup::Missing => DataAction::Reset(self.stray_answer(packet)),
                ProxyLookup::Found(status) => DataAction::Send { cancel: self.cancels(status) },
            },
    {
        match proxy {
            ProxyLookup::TablePoisoned => DataAction::Fence,
            ProxyLookup::Poisoned => DataAction::FenceAndReset(self.answer_stray(packet)),
            ProxyLookup::Missing => DataAction::Reset(self.answer_stray(packet)),
            ProxyLookup::Found(status) => DataAction::Send { cancel: self.is_cancelling(status) },
        }
    }

    /// What becomes of the guest's end of a connection.
    pub fn process_stream_rst(&self, proxy: ProxyLookup) -> (action: ResetAction)
        ensures
            action == match proxy {
                ProxyLookup::TablePoisoned | ProxyLookup::Poisoned => ResetAction::Fence,
                ProxyLookup::Missing => ResetAction::Ignore,
                ProxyLookup::Found(status) => ResetAction::Release { cancel: self.cancels(status) },
            },
    {
        match proxy {
            ProxyLookup::TablePoisoned => ResetAction::Fence,
            ProxyLookup::Poisoned => ResetAction::Fence,
            ProxyLookup::Missing => ResetAction::Ignore,
            ProxyLookup::Found(status) => ResetAction::Release {
                cancel: self.is_cancelling(status),
            },
        }
    }
}

/// The number by which a datagram names its connection. `peer_port` and `local_port` are those
/// that the datagram's data gives, where it gives them.
pub fn dgram_proxy_id(route: DgramRoute, packet: PacketHeader, peer_port: u32, local_port: u32) -> (id:
    u64)
    ensures
        id == match route {
            DgramRoute::SendtoData | DgramRoute::Data => crate::vsock::defs::proxy_id_spec(
                packet.src_port,
                TSI_PROXY_PORT,
            ),
            DgramRoute::Getname | DgramRoute::ProxyRelease => crate::vsock::defs::proxy_id_spec(
                peer_port,
                local_port,
            ),
            _ => crate::vsock::defs::proxy_id_spec(peer_port, TSI_PROXY_PORT),
        },
{
    match route {
        DgramRoute::SendtoData => proxy_id(packet.src_port, TSI_PROXY_PORT),
        DgramRoute::Data => proxy_id(packet.src_port, TSI_PROXY_PORT),
        DgramRoute::Getname => proxy_id(peer_port, local_port),
        DgramRoute::ProxyRelease => proxy_id(peer_port, local_port),
        _ => proxy_id(peer_port, TSI_PROXY_PORT),
    }
}

/// The number by which a packet of a stream names its connection.
pub fn stream_proxy_id(packet: PacketHeader) -> (id: u64)
    ensures
        id == crate::vsock::defs::proxy_id_spec(packet.src_port, packet.dst_port),
{
    proxy_id(packet.src_port, packet.dst_port)
}

/// Hands a packet about credit to the guest, after the one of the other kind that may be kept,
/// as far as the guest has room. What does not fit is kept.
pub fn push_proxy_credit(kept: &mut DeferredCredit, credit: MuxerRx, fwd_cnt: u32, room: usize) -> (packets:
    Vec<MuxerRx>)
    requires
        old(kept).wf(),
    ensures
        final(kept).wf(),
        match old(kept).pushed(credit, fwd_cnt) {
            Some(next) => packets@ == next.delivered(fwd_cnt, room as int) && *final(kept)
                == next.kept(fwd_cnt, room as int),
            None => packets@.len() == 0 && *final(kept) == *old(kept),
        },
{
    if !kept.is_enabled() {
        return Vec::new();
    }
    match kept.push(credit, fwd_cnt) {
        Ok(_) => kept.flush(fwd_cnt, room),
        Err(_) => Vec::new(),
    }
}

/// A later packet about credit never overtakes one that is kept, and what is kept is delivered
/// with the counter of the later one.
pub proof fn law_later_credit_does_not_overtake(
    kept: DeferredCredit,
    request: MuxerRx,
    later: MuxerRx,
    fwd_cnt: u32,
)
    requires
        kept.wf(),
        kept.enabled,
        kept.request == Some(request),
        later is CreditUpdate,
    ensures
        kept.pushed(later, fwd_cnt) matches Some(next) && next.delivered(fwd_cnt, 2)
            =~= seq![request.with_count(fwd_cnt), later.with_count(fwd_cnt)],
{
    let next = kept.pushed(later, fwd_cnt)->0;
    assert(next.rest().rest().delivered(fwd_cnt, 0) =~= Seq::<MuxerRx>::empty());
    assert(next.rest().delivered(fwd_cnt, 1) =~= seq![later.with_count(fwd_cnt)]);
}

/// Where a packet for the guest went.
#[derive(Clone, Copy, Debug, PartialEq, Eq, Structural)]
pub enum PushPacketOutcome {
    UsedQueue,
    Buffered,
}

/// Packets that wait until the guest's queue has room, oldest first.
#[derive(Debug)]
pub struct MuxerRxQ {
    pub packets: Vec<MuxerRx>,
}

impl MuxerRxQ {
    pub open spec fn wf(self) -> bool {
        self.packets@.len() <= MUXER_RXQ_SIZE
    }

    pub fn new() -> (queue: MuxerRxQ)
        ensures
            queue.wf(),
            queue.packets@.len() == 0,
    {
        MuxerRxQ { packets: Vec::new() }
    }

    /// Hands a packet to the guest. `queue_took` says that the guest's queue had a buffer; else
    /// the packet waits, and is given back when too many wait already.
    pub fn try_push_packet(&mut self, packet: MuxerRx, queue_took: bool) -> (result: Result<
        PushPacketOutcome,
        MuxerRx,
    >)
        requires
            old(self).wf(),
        ensures
            final(self).wf(),
            if queue_took {
                result == Ok::<PushPacketOutcome, MuxerRx>(PushPacketOutcome::UsedQueue)
                    && final(self).packets@ == old(self).packets@
            } else if old(self).packets@.len() < MUXER_RXQ_SIZE {
                result == Ok::<PushPacketOutcome, MuxerRx>(PushPacketOutcome::Buffered)
                    && final(self).packets@ == old(self).packets@.push(packet)
            } else {
                result == Err::<PushPacketOutcome, MuxerRx>(packet) && final(self).packets@ == old(
                    self,
                ).packets@
            },
    {
        if queue_took {
            return Ok(PushPacketOutcome::UsedQueue);
        }
        if self.packets.len() >= MUXER_RXQ_SIZE {
            return Err(packet);
        }
        self.packets.push(packet);
        Ok(PushPacketOutcome::Buffered)
    }

    pub fn has_pending_rx(&self) -> (result: bool)
        ensures
            result == (self.packets@.len() > 0),
    {
        self.packets.len() > 0
    }

    /// Takes the packet that has waited longest.
    pub fn recv_pkt(&mut self) -> (result: Option<MuxerRx>)
        requires
            old(self).wf(),
        ensures
            final(self).wf(),
            if old(self).packets@.len() == 0 {
                result is None && final(self).packets@ == old(self).packets@
            } else {
                result == Some(old(self).packets@[0]) && final(self).packets@ == old(
                    self,
                ).packets@.remove(0)
            },
    {
        if self.packets.len() == 0 {
            return None;
        }
        Some(self.packets.remove(0))
    }
}

/// A request to the host that has been queued is never undone by a later step, and one that
/// was not queued leaves no connection behind.
pub proof fn law_unqueued_requests_leave_nothing(muxer: VsockMuxer, reply: AskHostReply)
    requires
        reply != AskHostReply::Worked,
    ensures
        muxer.ask_host_spec(AskHostStep::CreatePair, reply) == AskHostStep::Reset,
        muxer.ask_host_spec(AskHostStep::Prepare, reply) == AskHostStep::Reset,
        muxer.ask_host_spec(AskHostStep::Insert, reply) == AskHostStep::Ignore
            || muxer.ask_host_spec(AskHostStep::Insert, reply) == AskHostStep::Fence,
        muxer.ask_host_spec(AskHostStep::Enqueue, reply) == AskHostStep::RemoveAndReset,
        muxer.ask_host_spec(AskHostStep::Done, reply) == AskHostStep::Done,
{
}

} // verus!
