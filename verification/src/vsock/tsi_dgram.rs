//! Datagram sockets that the guest's programs open and the host makes for them.
use crate::events::EventSet;
use crate::platform::HostPlatform;
use crate::vsock::defs::{
    AddressFamily, DataHeader, PacketHeader, SocketAddress, CONN_TX_BUF_SIZE, TSI_PROXY_PORT,
    VSOCK_HOST_CID, VSOCK_OP_RW, VSOCK_TYPE_DGRAM,
};
use crate::vsock::proxy::{
    Counters, Handled, MuxerRx, Polling, ProxyRemoval, ProxyStatus, ProxyUpdate, RecvPkt,
    RecvReply, Receiving, TsiGetnameRsp,
};
use vstd::prelude::*;

verus! {

/// The length of the unspecified address.
pub const NO_ADDRESS_LEN: u32 = 16;

/// What a socket is bound to before it sends: any address of its family.
#[derive(Clone, Copy, Debug, PartialEq, Eq, Structural)]
pub enum BindTarget {
    AnyV4,
    AnyV6,
    Unnamed,
}

/// A datagram socket of the guest's program.
#[derive(Debug)]
pub struct TsiDgramProxy {
    pub platform: HostPlatform,
    pub id: u64,
    pub cid: u64,
    pub local_port: u32,
    pub peer_port: u32,
    pub fd: i32,
    pub status: ProxyStatus,
    pub sendto_addr: Option<SocketAddress>,
    pub listening: bool,
    pub family: AddressFamily,
    pub counters: Counters,
}

impl TsiDgramProxy {
    pub fn new(
        platform: HostPlatform,
        id: u64,
        cid: u64,
        family: AddressFamily,
        peer_port: u32,
        fd: i32,
    ) -> (proxy: TsiDgramProxy)
        ensures
            proxy == (TsiDgramProxy {
                platform,
                id,
                cid,
                local_port: if platform == HostPlatform::Windows {
                    TSI_PROXY_PORT
                } else {
                    0
                },
                peer_port,
                fd,
                status: ProxyStatus::Idle,
                sendto_addr: None,
                listening: false,
                family,
                counters: Counters::zero(),
            }),
    {
        let local_port: u32 = match platform {
            HostPlatform::Windows => TSI_PROXY_PORT,
            _ => 0,
        };
        TsiDgramProxy {
            platform,
            id,
            cid,
            local_port,
            peer_port,
            fd,
            status: ProxyStatus::Idle,
            sendto_addr: None,
            listening: false,
            family,
            counters: Counters::new(),
        }
    }

    fn on_windows(&self) -> (result: bool)
        ensures
            result == (self.platform == HostPlatform::Windows),
    {
        match self.platform {
            HostPlatform::Windows => true,
            _ => false,
        }
    }

    /// What the descriptor is watched for, as an update.
    pub open spec fn polls(self, events: EventSet) -> Option<Polling> {
        Some(Polling { id: self.id, fd: self.fd, events })
    }

    /// The header of a packet with data. Where the host is no Windows, it names the guest as
    /// its sender.
    pub fn init_pkt(&self) -> (header: DataHeader)
        ensures
            header == (DataHeader {
                op: VSOCK_OP_RW,
                src_cid: if self.platform == HostPlatform::Windows {
                    VSOCK_HOST_CID
                } else {
                    self.cid
                },
                dst_cid: if self.platform == HostPlatform::Windows {
                    self.cid
                } else {
                    VSOCK_HOST_CID
                },
                src_port: if self.platform == HostPlatform::Windows {
                    self.local_port
                } else {
                    0
                },
                dst_port: self.peer_port,
                kind: VSOCK_TYPE_DGRAM,
                buf_alloc: CONN_TX_BUF_SIZE as u32,
                fwd_cnt: self.counters.tx_cnt,
            }),
    {
        let (src_cid, dst_cid, src_port) = if self.on_windows() {
            (VSOCK_HOST_CID, self.cid, self.local_port)
        } else {
            (self.cid, VSOCK_HOST_CID, 0)
        };
        DataHeader {
            op: VSOCK_OP_RW,
            src_cid,
            dst_cid,
            src_port,
            dst_port: self.peer_port,
            kind: VSOCK_TYPE_DGRAM,
            buf_alloc: CONN_TX_BUF_SIZE as u32,
            fwd_cnt: self.counters.tx_cnt,
        }
    }

    /// How many bytes are to be read for a packet that has room for `buffer` bytes. Only on
    /// Windows the guest's credit counts.
    pub open spec fn limit(self, buffer: usize) -> int {
        if self.platform == HostPlatform::Windows {
            self.counters.limit(buffer)
        } else {
            buffer as int
        }
    }

    pub fn receive_limit(&self, buffer: usize) -> (limit: usize)
        ensures
            limit == self.limit(buffer),
    {
        if self.on_windows() {
            self.counters.receive_limit(buffer)
        } else {
            buffer
        }
    }

    /// What reading into a packet of the guest came to.
    pub fn recv_to_pkt(&self, buffer: Option<usize>, reply: RecvReply) -> (result: RecvPkt)
        ensures
            result == match buffer {
                None => RecvPkt::Error,
                Some(room) => if self.platform == HostPlatform::Windows && self.limit(room) == 0 {
                    RecvPkt::WaitForCredit
                } else {
                    match reply {
                        RecvReply::Count(0) => RecvPkt::Close,
                        RecvReply::Count(count) => RecvPkt::Read(count),
                        RecvReply::WouldBlock => if self.platform == HostPlatform::Windows {
                            RecvPkt::WaitForCredit
                        } else {
                            RecvPkt::Error
                        },
                        RecvReply::Failed => RecvPkt::Error,
                    }
                },
            },
    {
        let room: usize = match buffer {
            None => return RecvPkt::Error,
            Some(room) => room,
        };
        let windows = self.on_windows();
        if windows && self.receive_limit(room) == 0 {
            return RecvPkt::WaitForCredit;
        }
        match reply {
            RecvReply::Count(count) => if count == 0 {
                RecvPkt::Close
            } else {
                RecvPkt::Read(count)
            },
            RecvReply::WouldBlock => if windows {
                RecvPkt::WaitForCredit
            } else {
                RecvPkt::Error
            },
            RecvReply::Failed => RecvPkt::Error,
        }
    }

    /// The socket with what a packet says of the guest's buffer.
    pub open spec fn with_peer(self, packet: PacketHeader) -> TsiDgramProxy {
        TsiDgramProxy {
            counters: Counters {
                peer_buf_alloc: packet.buf_alloc,
                peer_fwd_cnt: packet.fwd_cnt,
                ..self.counters
            },
            ..self
        }
    }

    /// Takes what came of connecting the socket, and tells the guest. An address that the host
    /// does not have is passed over in silence.
    pub fn connect(&mut self, packet: PacketHeader, reply: Option<Result<(), i32>>) -> (handled:
        Handled)
        requires
            reply matches Some(Err(error)) ==> error > i32::MIN,
        ensures
            match reply {
                None => *final(self) == *old(self) && handled == Handled::nothing(),
                Some(reply) => {
                    let result = match reply {
                        Ok(_) => 0int,
                        Err(error) => -error,
                    };
                    &&& *final(self) == (TsiDgramProxy {
                        status: if reply is Ok {
                            ProxyStatus::Connected
                        } else {
                            old(self).status
                        },
                        ..old(self).with_peer(packet)
                    })
                    &&& handled == (Handled {
                        push: Some(
                            MuxerRx::ConnResponse {
                                local_port: packet.dst_port,
                                peer_port: packet.src_port,
                                result: result as i32,
                            },
                        ),
                        update: ProxyUpdate {
                            polling: if result == 0 && !old(self).listening {
                                old(self).polls(EventSet::only_input())
                            } else {
                                None
                            },
                            ..ProxyUpdate::nothing()
                        },
                        ..Handled::nothing()
                    })
                },
            },
    {
        let result: i32 = match reply {
            None => return Handled::only(ProxyUpdate::new()),
            Some(Ok(_)) => {
                self.status = ProxyStatus::Connected;
                0
            },
            Some(Err(error)) => -error,
        };
        self.counters.set_peer(packet.buf_alloc, packet.fwd_cnt);
        let answer = MuxerRx::ConnResponse {
            local_port: packet.dst_port,
            peer_port: packet.src_port,
            result,
        };
        let update = if result == 0 && !self.listening {
            ProxyUpdate::poll(self.id, self.fd, EventSet::readable())
        } else {
            ProxyUpdate::new()
        };
        Handled::pushing(answer, update)
    }

    /// The answer to the guest's question for the peer's name. `name` is the address and its
    /// length.
    pub fn getpeername(&self, packet: PacketHeader, name: Result<(SocketAddress, u32), i32>) -> (answer:
        MuxerRx)
        requires
            name matches Err(error) ==> error > i32::MIN,
        ensures
            answer == (MuxerRx::GetnameResponse {
                local_port: packet.dst_port,
                peer_port: packet.src_port,
                data: match name {
                    Ok((addr, addr_len)) => TsiGetnameRsp { result: 0, addr_len, addr },
                    Err(error) => TsiGetnameRsp {
                        result: (-error) as i32,
                        addr_len: NO_ADDRESS_LEN,
                        addr: crate::vsock::tsi_stream::no_address(),
                    },
                },
            }),
    {
        let data = match name {
            Ok((addr, addr_len)) => TsiGetnameRsp { result: 0, addr_len, addr },
            Err(error) => TsiGetnameRsp {
                result: -error,
                addr_len: NO_ADDRESS_LEN,
                addr: SocketAddress::V4 { ip4: 0, port: 0 },
            },
        };
        MuxerRx::GetnameResponse { local_port: packet.dst_port, peer_port: packet.src_port, data }
    }

    /// What the guest has written was sent at once; `sent` is how much, if that worked.
    pub fn sendmsg(&mut self, sent: Option<u32>)
        ensures
            *final(self) == match sent {
                Some(count) => TsiDgramProxy {
                    counters: old(self).counters.sent(count),
                    ..*old(self)
                },
                None => *old(self),
            },
    {
        if let Some(count) = sent {
            self.counters.add_sent(count);
        }
    }

    /// What the socket is to be bound to.
    pub open spec fn bind_target(self) -> Option<BindTarget> {
        match self.family {
            AddressFamily::Inet => Some(BindTarget::AnyV4),
            AddressFamily::Inet6 => Some(BindTarget::AnyV6),
            AddressFamily::Unix => if self.platform == HostPlatform::Linux {
                Some(BindTarget::Unnamed)
            } else {
                None
            },
        }
    }

    /// Takes the address that the guest's data goes to. A socket that is not bound is to be
    /// bound first, so that answers arrive.
    pub fn sendto_addr(&mut self, address: SocketAddress) -> (bind: Option<BindTarget>)
        ensures
            *final(self) == (TsiDgramProxy { sendto_addr: Some(address), ..*old(self) }),
            bind == if old(self).listening {
                None
            } else {
                old(self).bind_target()
            },
    {
        self.sendto_addr = Some(address);
        if self.listening {
            return None;
        }
        match self.family {
            AddressFamily::Inet => Some(BindTarget::AnyV4),
            AddressFamily::Inet6 => Some(BindTarget::AnyV6),
            AddressFamily::Unix => match self.platform {
                HostPlatform::Linux => Some(BindTarget::Unnamed),
                _ => None,
            },
        }
    }

    /// Takes note of whether the socket was bound. From then on it is watched.
    pub fn bound(&mut self, worked: bool) -> (update: ProxyUpdate)
        ensures
            *final(self) == (TsiDgramProxy {
                listening: old(self).listening || worked,
                ..*old(self)
            }),
            update == (ProxyUpdate {
                polling: if worked {
                    old(self).polls(EventSet::only_input())
                } else {
                    None
                },
                ..ProxyUpdate::nothing()
            }),
    {
        if worked {
            self.listening = true;
            return ProxyUpdate::poll(self.id, self.fd, EventSet::readable());
        }
        ProxyUpdate::new()
    }

    /// Data of the guest was sent to the address that it gave; `sent` is how much, if there was
    /// an address and data and it worked.
    pub fn sendto_data(&mut self, packet: PacketHeader, sent: Option<u32>)
        ensures
            *final(self) == match sent {
                Some(count) if old(self).sendto_addr is Some => TsiDgramProxy {
                    counters: old(self).with_peer(packet).counters.sent(count),
                    ..*old(self)
                },
                _ => old(self).with_peer(packet),
            },
    {
        self.counters.set_peer(packet.buf_alloc, packet.fwd_cnt);
        if let Some(count) = sent {
            if self.sendto_addr.is_some() {
                self.counters.add_sent(count);
            }
        }
    }

    /// A datagram socket does not listen. Only a Windows host tells the guest.
    pub fn listen(&self, packet: PacketHeader) -> (answer: Option<MuxerRx>)
        ensures
            answer == if self.platform == HostPlatform::Windows {
                Some(
                    MuxerRx::ListenResponse {
                        local_port: packet.dst_port,
                        peer_port: packet.src_port,
                        result: (-1int) as i32,
                    },
                )
            } else {
                None
            },
    {
        if self.on_windows() {
            Some(
                MuxerRx::ListenResponse {
                    local_port: packet.dst_port,
                    peer_port: packet.src_port,
                    result: -1,
                },
            )
        } else {
            None
        }
    }

    /// Takes what a packet says of the guest's credit.
    pub fn update_peer_credit(&mut self, packet: PacketHeader) -> (update: ProxyUpdate)
        ensures
            *final(self) == (TsiDgramProxy {
                status: if old(self).platform == HostPlatform::Windows {
                    ProxyStatus::Connected
                } else {
                    old(self).status
                },
                ..old(self).with_peer(packet)
            }),
            update == (ProxyUpdate {
                polling: old(self).polls(EventSet::only_input()),
                ..ProxyUpdate::nothing()
            }),
    {
        self.counters.set_peer(packet.buf_alloc, packet.fwd_cnt);
        if self.on_windows() {
            self.status = ProxyStatus::Connected;
        }
        ProxyUpdate::poll(self.id, self.fd, EventSet::readable())
    }

    /// The guest is done with the socket.
    pub fn release(&self) -> (update: ProxyUpdate)
        ensures
            update == (ProxyUpdate {
                remove_proxy: if self.platform == HostPlatform::Windows || self.status
                    == ProxyStatus::Listening {
                    ProxyRemoval::Immediate
                } else {
                    ProxyRemoval::Deferred
                },
                ..ProxyUpdate::nothing()
            }),
    {
        let listening = match self.status {
            ProxyStatus::Listening => true,
            _ => false,
        };
        if self.on_windows() || listening {
            ProxyUpdate::remove(ProxyRemoval::Immediate)
        } else {
            ProxyUpdate::remove(ProxyRemoval::Deferred)
        }
    }

    /// The status that a turn of receiving leaves.
    pub open spec fn status_after(self, turn: Receiving) -> ProxyStatus {
        if turn.wait_credit {
            ProxyStatus::WaitingCreditUpdate
        } else if turn.closed {
            ProxyStatus::Closed
        } else {
            self.status
        }
    }

    /// The status in which the wait for credit is looked at: that of the socket, or closed.
    pub open spec fn was_waiting(self, turn: Receiving) -> bool {
        !turn.closed && self.status == ProxyStatus::WaitingCreditUpdate
    }

    /// Handles an event. `turn` is what filling the guest's packets came to. A guest without
    /// credit is asked for it once, and the socket is not watched until then.
    pub fn process_event(&mut self, events: EventSet, turn: Receiving) -> (update: ProxyUpdate)
        ensures
            if events.hang_up {
                &&& *final(self) == *old(self)
                &&& update == (ProxyUpdate {
                    remove_proxy: if old(self).status == ProxyStatus::Listening {
                        ProxyRemoval::Immediate
                    } else {
                        ProxyRemoval::Deferred
                    },
                    ..ProxyUpdate::nothing()
                })
            } else if events.input {
                &&& *final(self) == (TsiDgramProxy {
                    status: old(self).status_after(turn),
                    ..*old(self)
                })
                &&& update == (ProxyUpdate {
                    signal_queue: turn.have_used || turn.wait_credit,
                    push_credit_req: if turn.wait_credit && !old(self).was_waiting(turn) {
                        Some(
                            MuxerRx::CreditRequest {
                                local_port: old(self).local_port,
                                peer_port: old(self).peer_port,
                                fwd_cnt: old(self).counters.tx_cnt,
                            },
                        )
                    } else {
                        None
                    },
                    polling: if old(self).status_after(turn) == ProxyStatus::WaitingCreditUpdate {
                        old(self).polls(EventSet::none())
                    } else {
                        None
                    },
                    ..ProxyUpdate::nothing()
                })
            } else {
                *final(self) == *old(self) && update == ProxyUpdate::nothing()
            },
    {
        if events.hang_up {
            return match self.status {
                ProxyStatus::Listening => ProxyUpdate::remove(ProxyRemoval::Immediate),
                _ => ProxyUpdate::remove(ProxyRemoval::Deferred),
            };
        }
        let mut update = ProxyUpdate::new();
        if !events.input {
            return update;
        }
        if turn.closed {
            self.status = ProxyStatus::Closed;
        }
        update.signal_queue = turn.have_used || turn.wait_credit;
        let waiting = match self.status {
            ProxyStatus::WaitingCreditUpdate => true,
            _ => false,
        };
        if turn.wait_credit && !waiting {
            self.status = ProxyStatus::WaitingCreditUpdate;
            update.push_credit_req = Some(
                MuxerRx::CreditRequest {
                    local_port: self.local_port,
                    peer_port: self.peer_port,
                    fwd_cnt: self.counters.tx_cnt,
                },
            );
        }
        if waiting || turn.wait_credit {
            update.polling = Some(
                Polling { id: self.id, fd: self.fd, events: EventSet::empty() },
            );
        }
        update
    }
}

} // verus!
