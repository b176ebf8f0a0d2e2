//! Numbers of the socket device's protocol.
use crate::platform::HostPlatform;
use vstd::prelude::*;

verus! {

/// The host's address.
pub const VSOCK_HOST_CID: u64 = 2;

/// The port that connections of the guest's own sockets start from.
pub const TSI_PROXY_PORT: u32 = 620;

pub const TSI_PROXY_CREATE: u32 = 1024;

pub const TSI_CONNECT: u32 = 1025;

pub const TSI_GETNAME: u32 = 1026;

pub const TSI_SENDTO_ADDR: u32 = 1027;

pub const TSI_SENDTO_DATA: u32 = 1028;

pub const TSI_LISTEN: u32 = 1029;

pub const TSI_ACCEPT: u32 = 1030;

pub const TSI_PROXY_RELEASE: u32 = 1031;

pub const SOCK_STREAM: u16 = 1;

pub const SOCK_DGRAM: u16 = 2;

pub const LINUX_AF_UNIX: u16 = 1;

pub const LINUX_AF_INET: u16 = 2;

pub const LINUX_AF_INET6: u16 = 10;

/// Bytes that the host buffers for a connection.
pub const CONN_TX_BUF_SIZE: usize = 0x1_0000;

/// Bytes of a packet's header.
pub const VSOCK_PKT_HDR_SIZE: usize = 44;

pub const VSOCK_TYPE_STREAM: u16 = 1;

pub const VSOCK_TYPE_DGRAM: u16 = 3;

pub const VSOCK_OP_REQUEST: u16 = 1;

pub const VSOCK_OP_RESPONSE: u16 = 2;

pub const VSOCK_OP_RST: u16 = 3;

pub const VSOCK_OP_SHUTDOWN: u16 = 4;

pub const VSOCK_OP_RW: u16 = 5;

pub const VSOCK_OP_CREDIT_UPDATE: u16 = 6;

pub const VSOCK_OP_CREDIT_REQUEST: u16 = 7;

pub const VSOCK_FLAGS_SHUTDOWN_RCV: u32 = 1;

pub const VSOCK_FLAGS_SHUTDOWN_SEND: u32 = 2;

/// The guest's number of an argument that makes no sense.
pub const LINUX_EINVAL: i32 = 22;

/// The guest's number of something that would have to wait.
pub const LINUX_EAGAIN: i32 = 11;

/// The guest's number of a connection that nobody takes.
pub const LINUX_ECONNREFUSED: i32 = 111;

/// The host's number of an argument that makes no sense. It is the same everywhere.
pub const HOST_EINVAL: i32 = 22;

/// The host's number of something that is not permitted. It is the same everywhere.
pub const HOST_EPERM: i32 = 1;

/// The flag of a descriptor that never waits, as the guest sets it.
pub const LINUX_O_NONBLOCK: u32 = 2048;

/// The host's number of a connection that nobody takes.
pub open spec fn host_econnrefused_spec(platform: HostPlatform) -> i32 {
    match platform {
        HostPlatform::Linux => 111,
        HostPlatform::Macos => 61,
        HostPlatform::Windows => 107,
    }
}

/// The host's number of a connection that nobody takes.
pub fn host_econnrefused(platform: HostPlatform) -> (number: i32)
    ensures
        number == host_econnrefused_spec(platform),
        0 < number < 200,
{
    match platform {
        HostPlatform::Linux => 111,
        HostPlatform::Macos => 61,
        HostPlatform::Windows => 107,
    }
}

/// The connection of the guest's `peer_port` and the host's `local_port`.
pub open spec fn proxy_id_spec(peer_port: u32, local_port: u32) -> u64 {
    (peer_port * 0x1_0000_0000 + local_port) as u64
}

/// The connection of the guest's `peer_port` and the host's `local_port`.
pub fn proxy_id(peer_port: u32, local_port: u32) -> (id: u64)
    ensures
        id == proxy_id_spec(peer_port, local_port),
{
    assert(peer_port as u64 * 0x1_0000_0000 + local_port as u64 <= u64::MAX);
    peer_port as u64 * 0x1_0000_0000 + local_port as u64
}

/// The host's port of a connection.
pub open spec fn source_port_spec(id: u64) -> u32 {
    (id % 0x1_0000_0000) as u32
}

/// The host's port of a connection.
pub fn source_port(id: u64) -> (port: u32)
    ensures
        port == source_port_spec(id),
{
    (id % 0x1_0000_0000) as u32
}

/// Connections of different ports have different numbers, and the host's port can be read off
/// the number.
pub proof fn law_proxy_ids_are_distinct(peer: u32, local: u32, other_peer: u32, other_local: u32)
    ensures
        proxy_id_spec(peer, local) == proxy_id_spec(other_peer, other_local) <==> peer == other_peer
            && local == other_local,
        source_port_spec(proxy_id_spec(peer, local)) == local,
{
}

/// What the logic reads of a packet from the guest.
#[derive(Clone, Copy, Debug, PartialEq, Eq, Structural)]
pub struct PacketHeader {
    pub dst_cid: u64,
    pub src_port: u32,
    pub dst_port: u32,
    pub op: u16,
    pub flags: u32,
    pub buf_alloc: u32,
    pub fwd_cnt: u32,
}

/// The header of a packet with data for the guest.
#[derive(Clone, Copy, Debug, PartialEq, Eq, Structural)]
pub struct DataHeader {
    pub op: u16,
    pub src_cid: u64,
    pub dst_cid: u64,
    pub src_port: u32,
    pub dst_port: u32,
    pub kind: u16,
    pub buf_alloc: u32,
    pub fwd_cnt: u32,
}

/// What is shut down of a socket.
#[derive(Clone, Copy, Debug, PartialEq, Eq, Structural)]
pub enum ShutdownHow {
    Both,
    Read,
    Write,
}

/// What the guest's flags shut down.
pub open spec fn shutdown_spec(flags: u32) -> ShutdownHow {
    if flags & VSOCK_FLAGS_SHUTDOWN_RCV != 0 && flags & VSOCK_FLAGS_SHUTDOWN_SEND != 0 {
        ShutdownHow::Both
    } else if flags & VSOCK_FLAGS_SHUTDOWN_RCV != 0 {
        ShutdownHow::Read
    } else {
        ShutdownHow::Write
    }
}

/// What the guest's flags shut down. Without a flag it is the writing side.
pub fn shutdown_how(flags: u32) -> (how: ShutdownHow)
    ensures
        how == shutdown_spec(flags),
{
    let recv_off = flags & VSOCK_FLAGS_SHUTDOWN_RCV != 0;
    let send_off = flags & VSOCK_FLAGS_SHUTDOWN_SEND != 0;
    if recv_off && send_off {
        ShutdownHow::Both
    } else if recv_off {
        ShutdownHow::Read
    } else {
        ShutdownHow::Write
    }
}

/// What came of shutting down a socket.
#[derive(Clone, Copy, Debug, PartialEq, Eq, Structural)]
pub enum ShutdownReply {
    Done,
    NotConnected,
    Failed(i32),
}

/// Whether shutting down a socket failed. The peer can disconnect before the guest's shutdown
/// arrives.
pub fn shutdown_socket(reply: ShutdownReply) -> (result: Result<(), i32>)
    ensures
        match reply {
            ShutdownReply::Failed(error) => result == Err::<(), i32>(error),
            _ => result is Ok,
        },
{
    match reply {
        ShutdownReply::Done => Ok(()),
        ShutdownReply::NotConnected => Ok(()),
        ShutdownReply::Failed(error) => Err(error),
    }
}

/// The families of addresses that connections can have.
#[derive(Clone, Copy, Debug, PartialEq, Eq, Structural)]
pub enum AddressFamily {
    Inet,
    Inet6,
    Unix,
}

/// The family that the guest's number stands for. A host that runs macOS does not proxy
/// sockets of the file system.
pub open spec fn address_family_spec(platform: HostPlatform, family: u16) -> Option<AddressFamily> {
    if family == LINUX_AF_INET {
        Some(AddressFamily::Inet)
    } else if family == LINUX_AF_INET6 {
        Some(AddressFamily::Inet6)
    } else if family == LINUX_AF_UNIX && platform != HostPlatform::Macos {
        Some(AddressFamily::Unix)
    } else {
        None
    }
}

/// The family that the guest's number stands for.
pub fn address_family_from_linux(platform: HostPlatform, family: u16) -> (result: Option<
    AddressFamily,
>)
    ensures
        result == address_family_spec(platform, family),
{
    let macos = match platform {
        HostPlatform::Macos => true,
        _ => false,
    };
    if family == LINUX_AF_INET {
        Some(AddressFamily::Inet)
    } else if family == LINUX_AF_INET6 {
        Some(AddressFamily::Inet6)
    } else if family == LINUX_AF_UNIX && !macos {
        Some(AddressFamily::Unix)
    } else {
        None
    }
}

/// The address of a socket.
#[derive(Debug, PartialEq, Eq)]
pub enum SocketAddress {
    V4 { ip4: u32, port: u16 },
    V6 { ip: u128, port: u16, flowinfo: u32, scope_id: u32 },
    Unix(Vec<u8>),
    Other(u16),
}

} // verus!
