//! The control channel: requests of the guest to the host, and the host's answers.
use crate::platform::HostPlatform;
use crate::vsock::frame::{connect_frame, parse_line, ControlError, Incoming, NEWLINE};
use vstd::prelude::*;

verus! {

/// Bytes of the longest line.
pub const MAX_LINE_BYTES: usize = 64;

pub const MAX_FRAMES: usize = 2048;

pub const MAX_QUEUED_BYTES: usize = 0x2_0000;

pub const MAX_QUEUED_FDS: usize = 1024;

pub const MAX_PENDING: usize = 1024;

/// Nanoseconds that a request may take.
pub const REQUEST_TIMEOUT: u64 = 5_000_000_000;

/// Nanoseconds of a millisecond.
pub const MILLISECOND: u64 = 1_000_000;

/// Frames that are read in one turn.
pub const RECEIVE_FRAME_BUDGET: usize = 32;

/// Bytes that are read in one turn.
pub const RECEIVE_BYTE_BUDGET: usize = 2048;

/// What tells one socket of the host from another.
#[derive(Clone, Copy, Debug, PartialEq, Eq, Structural)]
pub struct UnixSocketIdentity {
    pub device: u64,
    pub inode: u64,
}

/// A frame on its way to the host. Its descriptor goes with its first byte.
#[derive(Debug)]
pub struct OutboundFrame {
    pub bytes: Vec<u8>,
    pub offset: usize,
    pub fd: Option<i32>,
    pub request_id: u32,
    pub deadline: u64,
}

/// A request of the guest that the host has not answered.
#[derive(Clone, Copy, Debug, PartialEq, Eq, Structural)]
pub struct PendingRequest {
    pub request_id: u32,
    pub proxy_id: u64,
    pub deadline: u64,
}

/// The bytes of all frames.
pub open spec fn total_bytes(frames: Seq<OutboundFrame>) -> nat
    decreases frames.len(),
{
    if frames.len() == 0 {
        0
    } else {
        total_bytes(frames.drop_last()) + frames.last().bytes@.len()
    }
}

/// The frames that still have their descriptor.
pub open spec fn total_fds(frames: Seq<OutboundFrame>) -> nat
    decreases frames.len(),
{
    if frames.len() == 0 {
        0
    } else {
        total_fds(frames.drop_last()) + (if frames.last().fd is Some {
            1nat
        } else {
            0nat
        })
    }
}

/// The descriptors that the frames still have, in order.
pub open spec fn held(frames: Seq<OutboundFrame>) -> Seq<i32>
    decreases frames.len(),
{
    if frames.len() == 0 {
        Seq::empty()
    } else {
        match frames.last().fd {
            Some(fd) => held(frames.drop_last()).push(fd),
            None => held(frames.drop_last()),
        }
    }
}

/// As many descriptors are held as are counted, and a channel that is no longer in use holds
/// none.
pub proof fn law_held_descriptors_are_counted(handle: ControlHandle)
    requires
        handle.wf(),
    ensures
        held(handle.frames@).len() == handle.queued_fds,
        handle.fenced ==> held(handle.frames@).len() == 0,
{
    lemma_held_count(handle.frames@);
}

proof fn lemma_held_count(frames: Seq<OutboundFrame>)
    ensures
        held(frames).len() == total_fds(frames),
    decreases frames.len(),
{
    if frames.len() > 0 {
        lemma_held_count(frames.drop_last());
    }
}

proof fn lemma_totals_push(frames: Seq<OutboundFrame>, frame: OutboundFrame)
    ensures
        total_bytes(frames.push(frame)) == total_bytes(frames) + frame.bytes@.len(),
        total_fds(frames.push(frame)) == total_fds(frames) + (if frame.fd is Some {
            1nat
        } else {
            0nat
        }),
{
    assert(frames.push(frame).drop_last() =~= frames);
}

proof fn lemma_totals_remove(frames: Seq<OutboundFrame>, at: int)
    requires
        0 <= at < frames.len(),
    ensures
        total_bytes(frames) == total_bytes(frames.remove(at)) + frames[at].bytes@.len(),
        total_fds(frames) == total_fds(frames.remove(at)) + (if frames[at].fd is Some {
            1nat
        } else {
            0nat
        }),
    decreases frames.len(),
{
    if at == frames.len() - 1 {
        assert(frames.remove(at) =~= frames.drop_last());
    } else {
        lemma_totals_remove(frames.drop_last(), at);
        assert(frames.remove(at).drop_last() =~= frames.drop_last().remove(at));
        assert(frames.remove(at).last() == frames.last());
    }
}

proof fn lemma_totals_update(frames: Seq<OutboundFrame>, at: int, frame: OutboundFrame)
    requires
        0 <= at < frames.len(),
        frame.bytes@.len() == frames[at].bytes@.len(),
    ensures
        total_bytes(frames.update(at, frame)) == total_bytes(frames),
        total_fds(frames.update(at, frame)) == total_fds(frames) - (if frames[at].fd is Some {
            1int
        } else {
            0int
        }) + (if frame.fd is Some {
            1int
        } else {
            0int
        }),
    decreases frames.len(),
{
    if at == frames.len() - 1 {
        assert(frames.update(at, frame).drop_last() =~= frames.drop_last());
    } else {
        lemma_totals_update(frames.drop_last(), at, frame);
        assert(frames.update(at, frame).drop_last() =~= frames.drop_last().update(at, frame));
        assert(frames.update(at, frame).last() == frames.last());
    }
}

/// The frames after so many bytes of the first were sent. The descriptor went with them, and a
/// frame that was sent whole is done with.
pub open spec fn frames_sent(frames: Seq<OutboundFrame>, count: usize) -> Seq<OutboundFrame> {
    let frame = frames[0];
    if frame.offset + count == frame.bytes@.len() {
        frames.remove(0)
    } else {
        frames.update(
            0,
            OutboundFrame { offset: (frame.offset + count) as usize, fd: None, ..frame },
        )
    }
}

/// The first frame's descriptor is the first of those that are held.
proof fn lemma_held_first(frames: Seq<OutboundFrame>)
    requires
        frames.len() > 0,
    ensures
        held(frames) == (match frames[0].fd {
            Some(fd) => seq![fd],
            None => Seq::<i32>::empty(),
        }) + held(frames.drop_first()),
    decreases frames.len(),
{
    if frames.len() == 1 {
        assert(frames.drop_last() =~= Seq::<OutboundFrame>::empty());
        assert(frames.drop_first() =~= Seq::<OutboundFrame>::empty());
        assert(held(frames.drop_last()) =~= Seq::<i32>::empty());
        assert(frames.last() == frames[0]);
    } else {
        lemma_held_first(frames.drop_last());
        assert(frames.drop_last()[0] == frames[0]);
        assert(frames.drop_last().drop_first() =~= frames.drop_first().drop_last());
        assert(frames.drop_first().last() == frames.last());
    }
    assert(held(frames) =~= (match frames[0].fd {
        Some(fd) => seq![fd],
        None => Seq::<i32>::empty(),
    }) + held(frames.drop_first()));
}

/// The frame of the request stands at that place.
pub open spec fn frame_at(frames: Seq<OutboundFrame>, request_id: u32, at: int) -> bool {
    0 <= at < frames.len() && frames[at].request_id == request_id
}

/// Where the frame of the request stands.
pub open spec fn frame_position(frames: Seq<OutboundFrame>, request_id: u32) -> Option<int> {
    if exists|at: int| frame_at(frames, request_id, at) {
        Some(choose|at: int| frame_at(frames, request_id, at))
    } else {
        None
    }
}

/// The frame of the request was sent in part.
pub open spec fn partly_sent(frames: Seq<OutboundFrame>, request_id: u32) -> bool {
    frame_position(frames, request_id) matches Some(at) && frames[at].offset != 0
}

/// The frames without that of the request.
pub open spec fn without_frame(frames: Seq<OutboundFrame>, request_id: u32) -> Seq<OutboundFrame> {
    match frame_position(frames, request_id) {
        Some(at) => frames.remove(at),
        None => frames,
    }
}

/// The request stands at that place.
pub open spec fn pending_at(pending: Seq<PendingRequest>, request_id: u32, at: int) -> bool {
    0 <= at < pending.len() && pending[at].request_id == request_id
}

/// Where the request stands.
pub open spec fn pending_position(pending: Seq<PendingRequest>, request_id: u32) -> Option<int> {
    if exists|at: int| pending_at(pending, request_id, at) {
        Some(choose|at: int| pending_at(pending, request_id, at))
    } else {
        None
    }
}

/// The requests without that one.
pub open spec fn without_pending(pending: Seq<PendingRequest>, request_id: u32) -> Seq<
    PendingRequest,
> {
    match pending_position(pending, request_id) {
        Some(at) => pending.remove(at),
        None => pending,
    }
}

/// The connection that the request is for.
pub open spec fn pending_proxy(pending: Seq<PendingRequest>, request_id: u32) -> Option<u64> {
    match pending_position(pending, request_id) {
        Some(at) => Some(pending[at].proxy_id),
        None => None,
    }
}

/// The request that a connection waits for.
pub open spec fn waits(pending: Seq<PendingRequest>, proxy_id: u64, at: int) -> bool {
    0 <= at < pending.len() && pending[at].proxy_id == proxy_id
}

/// Every frame is unfinished, only the first may be sent in part, and no request has two.
pub open spec fn frames_wf(frames: Seq<OutboundFrame>) -> bool {
    &&& forall|i: int|
        0 <= i < frames.len() ==> (#[trigger] frames[i]).offset < frames[i].bytes@.len()
    &&& forall|i: int| 0 < i < frames.len() ==> (#[trigger] frames[i]).offset == 0
    &&& forall|i: int, j: int|
        0 <= i < j < frames.len() ==> (#[trigger] frames[i]).request_id < (
        #[trigger] frames[j]).request_id
}

/// No request occurs twice, and no connection waits for two.
pub open spec fn pending_wf(pending: Seq<PendingRequest>) -> bool {
    forall|i: int, j: int|
        0 <= i < j < pending.len() ==> (#[trigger] pending[i]).request_id != (
        #[trigger] pending[j]).request_id && pending[i].proxy_id != pending[j].proxy_id
}

proof fn lemma_frame_position(frames: Seq<OutboundFrame>, request_id: u32, at: int)
    requires
        frames_wf(frames),
        frame_at(frames, request_id, at),
    ensures
        frame_position(frames, request_id) == Some(at),
{
    let other = choose|p: int| frame_at(frames, request_id, p);
    assert(frame_at(frames, request_id, other));
    if other < at {
        assert(frames[other].request_id < frames[at].request_id);
    } else if at < other {
        assert(frames[at].request_id < frames[other].request_id);
    }
}

proof fn lemma_pending_position(pending: Seq<PendingRequest>, request_id: u32, at: int)
    requires
        pending_wf(pending),
        pending_at(pending, request_id, at),
    ensures
        pending_position(pending, request_id) == Some(at),
{
    let other = choose|p: int| pending_at(pending, request_id, p);
    assert(pending_at(pending, request_id, other));
    if other < at {
        assert(pending[other].request_id != pending[at].request_id);
    } else if at < other {
        assert(pending[at].request_id != pending[other].request_id);
    }
}

proof fn lemma_frames_remove(frames: Seq<OutboundFrame>, at: int)
    requires
        frames_wf(frames),
        0 <= at < frames.len(),
    ensures
        frames_wf(frames.remove(at)),
{
    let rest = frames.remove(at);
    assert forall|i: int| 0 <= i < rest.len() implies (#[trigger] rest[i]).offset
        < rest[i].bytes@.len() by {
        if i < at {
            assert(rest[i] == frames[i]);
        } else {
            assert(rest[i] == frames[i + 1]);
        }
    }
    assert forall|i: int| 0 < i < rest.len() implies (#[trigger] rest[i]).offset == 0 by {
        if i < at {
            assert(rest[i] == frames[i]);
        } else {
            assert(rest[i] == frames[i + 1]);
        }
    }
    assert forall|i: int, j: int| 0 <= i < j < rest.len() implies (#[trigger] rest[i]).request_id
        < (#[trigger] rest[j]).request_id by {
        let a = if i < at {
            i
        } else {
            i + 1
        };
        let b = if j < at {
            j
        } else {
            j + 1
        };
        assert(rest[i] == frames[a] && rest[j] == frames[b]);
    }
}

proof fn lemma_pending_remove(pending: Seq<PendingRequest>, at: int)
    requires
        pending_wf(pending),
        0 <= at < pending.len(),
    ensures
        pending_wf(pending.remove(at)),
{
    let rest = pending.remove(at);
    assert forall|i: int, j: int| 0 <= i < j < rest.len() implies (#[trigger] rest[i]).request_id
        != (#[trigger] rest[j]).request_id && rest[i].proxy_id != rest[j].proxy_id by {
        let a = if i < at {
            i
        } else {
            i + 1
        };
        let b = if j < at {
            j
        } else {
            j + 1
        };
        assert(rest[i] == pending[a] && rest[j] == pending[b]);
    }
}

/// What is left after the requests were given up one after another, the connections that they
/// were for, and whether one could not be given up because its frame was sent in part.
pub struct Expiry {
    pub frames: Seq<OutboundFrame>,
    pub pending: Seq<PendingRequest>,
    pub proxies: Seq<u64>,
    pub failed: bool,
}

/// What giving up the requests comes to.
pub open spec fn expiry(
    frames: Seq<OutboundFrame>,
    pending: Seq<PendingRequest>,
    ids: Seq<u32>,
) -> Expiry
    decreases ids.len(),
{
    if ids.len() == 0 {
        Expiry { frames, pending, proxies: Seq::empty(), failed: false }
    } else if partly_sent(frames, ids.first()) {
        Expiry { frames, pending, proxies: Seq::empty(), failed: true }
    } else {
        let rest = expiry(
            without_frame(frames, ids.first()),
            without_pending(pending, ids.first()),
            ids.drop_first(),
        );
        Expiry {
            proxies: (match pending_proxy(pending, ids.first()) {
                Some(proxy_id) => seq![proxy_id],
                None => Seq::empty(),
            }) + rest.proxies,
            ..rest
        }
    }
}

/// The requests whose time is over, in the order in which they were made.
pub open spec fn expired_ids(pending: Seq<PendingRequest>, now: u64) -> Seq<u32>
    decreases pending.len(),
{
    if pending.len() == 0 {
        Seq::empty()
    } else {
        let rest = expired_ids(pending.drop_last(), now);
        if pending.last().deadline <= now {
            rest.push(pending.last().request_id)
        } else {
            rest
        }
    }
}

/// The earliest deadline of the requests.
pub open spec fn earliest(pending: Seq<PendingRequest>) -> Option<u64>
    decreases pending.len(),
{
    if pending.len() == 0 {
        None
    } else {
        Some(sooner(earliest(pending.drop_last()), pending.last().deadline))
    }
}

/// The earlier of two deadlines.
pub open spec fn sooner(first: Option<u64>, second: u64) -> u64 {
    match first {
        Some(deadline) => if deadline < second {
            deadline
        } else {
            second
        },
        None => second,
    }
}

/// Whole milliseconds until a deadline, as far as a timeout can say.
pub open spec fn millis_until(deadline: u64, now: u64) -> i32 {
    let wait = if deadline > now {
        (deadline - now) / 1_000_000
    } else {
        0
    };
    if wait > i32::MAX {
        i32::MAX
    } else {
        wait as i32
    }
}

fn timeout_millis(deadline: u64, now: u64) -> (timeout: i32)
    ensures
        timeout == millis_until(deadline, now),
{
    if deadline <= now {
        return 0;
    }
    let wait: u64 = (deadline - now) / MILLISECOND;
    if wait > i32::MAX as u64 {
        i32::MAX
    } else {
        wait as i32
    }
}

/// What is to be sent next.
#[derive(Clone, Copy, Debug, PartialEq, Eq, Structural)]
pub enum SendStep {
    /// Nothing is left.
    Idle,
    /// Something is left, but nothing may be sent now.
    Paused,
    /// Bytes of the first frame, and the descriptor that goes with them.
    Send { from: usize, len: usize, fd: Option<i32> },
}

/// What came of sending.
#[derive(Clone, Copy, Debug, PartialEq, Eq, Structural)]
pub enum SendReply {
    Written(usize),
    /// The channel takes nothing right now.
    WouldBlock,
    Failed(i32),
}

/// The requests of the guest that wait for the host, and the frames that carry them there.
#[derive(Debug)]
pub struct ControlHandle {
    pub fenced: bool,
    pub active: bool,
    /// The number of the next request. Zero means that the numbers are used up.
    pub next_request_id: u32,
    pub frames: Vec<OutboundFrame>,
    pub queued_bytes: usize,
    pub queued_fds: usize,
    pub pending: Vec<PendingRequest>,
    /// Whoever serves the channel is to be woken.
    pub wake: bool,
}

impl ControlHandle {
    /// The counters are those of the frames, everything is bounded, and every number in use is
    /// an old one.
    pub open spec fn wf(self) -> bool {
        &&& frames_wf(self.frames@)
        &&& pending_wf(self.pending@)
        &&& self.queued_bytes == total_bytes(self.frames@)
        &&& self.queued_fds == total_fds(self.frames@)
        &&& self.frames@.len() <= MAX_FRAMES
        &&& self.queued_bytes <= MAX_QUEUED_BYTES
        &&& self.queued_fds <= MAX_QUEUED_FDS
        &&& self.pending@.len() <= MAX_PENDING
        &&& self.next_request_id != 0 ==> {
            &&& forall|i: int|
                0 <= i < self.frames@.len() ==> (#[trigger] self.frames@[i]).request_id
                    < self.next_request_id
            &&& forall|i: int|
                0 <= i < self.pending@.len() ==> (#[trigger] self.pending@[i]).request_id
                    < self.next_request_id
        }
        &&& self.fenced ==> !self.active && self.frames@.len() == 0 && self.pending@.len() == 0
    }

    pub fn new() -> (handle: ControlHandle)
        ensures
            handle.wf(),
            !handle.fenced,
            handle.active,
            handle.next_request_id == 1,
            handle.frames@.len() == 0,
            handle.pending@.len() == 0,
            !handle.wake,
    {
        ControlHandle {
            fenced: false,
            active: true,
            next_request_id: 1,
            frames: Vec::new(),
            queued_bytes: 0,
            queued_fds: 0,
            pending: Vec::new(),
            wake: false,
        }
    }

    /// Ends the channel's use: what is queued is dropped, and nothing is taken from now on.
    pub fn fence(&mut self)
        ensures
            final(self).wf(),
            final(self).fenced,
            final(self).wake,
            final(self).next_request_id == old(self).next_request_id,
    {
        self.fenced = true;
        self.active = false;
        self.frames = Vec::new();
        self.pending = Vec::new();
        self.queued_bytes = 0;
        self.queued_fds = 0;
        self.wake = true;
    }

    /// Ends the channel's use and gives the connections that wait for the host.
    pub fn fail(&mut self) -> (proxies: Vec<u64>)
        requires
            old(self).wf(),
        ensures
            final(self).wf(),
            final(self).fenced,
            final(self).wake == old(self).wake,
            final(self).next_request_id == old(self).next_request_id,
            proxies@ == old(self).pending@.map_values(|p: PendingRequest| p.proxy_id),
    {
        let mut proxies: Vec<u64> = Vec::new();
        let mut i: usize = 0;
        while i < self.pending.len()
            invariant
                i <= self.pending@.len(),
                *self == *old(self),
                proxies@ =~= self.pending@.take(i as int).map_values(
                    |p: PendingRequest| p.proxy_id,
                ),
            decreases self.pending.len() - i,
        {
            proxies.push(self.pending[i].proxy_id);
            i += 1;
        }
        assert(self.pending@.take(i as int) =~= self.pending@);
        self.fenced = true;
        self.active = false;
        self.frames = Vec::new();
        self.pending = Vec::new();
        self.queued_bytes = 0;
        self.queued_fds = 0;
        proxies
    }

    /// A further request cannot be taken: the channel is not in use, the connection waits
    /// already, or a bound is reached.
    pub open spec fn refuses(self, line: nat, proxy_id: u64) -> bool {
        ||| !self.active
        ||| exists|at: int| waits(self.pending@, proxy_id, at)
        ||| self.pending@.len() >= MAX_PENDING
        ||| self.frames@.len() >= MAX_FRAMES
        ||| self.queued_bytes + line > MAX_QUEUED_BYTES
        ||| self.queued_fds >= MAX_QUEUED_FDS
    }

    fn is_waiting(&self, proxy_id: u64) -> (result: Option<usize>)
        ensures
            match result {
                Some(at) => waits(self.pending@, proxy_id, at as int),
                None => forall|at: int| !waits(self.pending@, proxy_id, at),
            },
    {
        let mut i: usize = 0;
        while i < self.pending.len()
            invariant
                i <= self.pending@.len(),
                forall|at: int| 0 <= at < i ==> !waits(self.pending@, proxy_id, at),
            decreases self.pending.len() - i,
        {
            if self.pending[i].proxy_id == proxy_id {
                return Some(i);
            }
            i += 1;
        }
        None
    }

    /// Queues the frame of a request with the descriptor that goes with it, and gives the
    /// request's number. Otherwise the descriptor is given back. When the numbers are used up,
    /// the channel is no longer in use.
    pub fn enqueue_connect(
        &mut self,
        host_port: u32,
        guest_port: u32,
        proxy_id: u64,
        fd: i32,
        now: u64,
    ) -> (result: Result<u32, i32>)
        requires
            old(self).wf(),
            now <= u64::MAX - REQUEST_TIMEOUT,
        ensures
            final(self).wf(),
            final(self).fenced == old(self).fenced,
            ({
                let id = old(self).next_request_id;
                let line = crate::vsock::frame::connect_frame_spec(id, host_port, guest_port);
                if old(self).fenced {
                    result == Err::<u32, i32>(fd) && *final(self) == *old(self)
                } else if id == 0 {
                    result == Err::<u32, i32>(fd) && *final(self) == (ControlHandle {
                        active: false,
                        wake: true,
                        ..*old(self)
                    })
                } else if old(self).refuses(line.len(), proxy_id) {
                    result == Err::<u32, i32>(fd) && *final(self) == *old(self)
                } else {
                    &&& result == Ok::<u32, i32>(id)
                    &&& final(self).active
                    &&& final(self).wake
                    &&& final(self).next_request_id == if id == u32::MAX {
                        0
                    } else {
                        id + 1
                    }
                    &&& final(self).frames@.drop_last() == old(self).frames@
                    &&& final(self).frames@.len() == old(self).frames@.len() + 1
                    &&& final(self).frames@.last().bytes@ == line
                    &&& final(self).frames@.last().offset == 0
                    &&& final(self).frames@.last().fd == Some(fd)
                    &&& final(self).frames@.last().request_id == id
                    &&& final(self).frames@.last().deadline == now + REQUEST_TIMEOUT
                    &&& final(self).pending@ == old(self).pending@.push(
                        PendingRequest {
                            request_id: id,
                            proxy_id,
                            deadline: (now + REQUEST_TIMEOUT) as u64,
                        },
                    )
                }
            }),
    {
        if self.fenced {
            return Err(fd);
        }
        let request_id: u32 = self.next_request_id;
        let line = connect_frame(request_id, host_port, guest_port);
        if request_id == 0 {
            self.active = false;
            self.wake = true;
            return Err(fd);
        }
        if !self.active || self.is_waiting(proxy_id).is_some() || self.pending.len() >= MAX_PENDING
            || self.frames.len() >= MAX_FRAMES || self.queued_bytes + line.len() > MAX_QUEUED_BYTES
            || self.queued_fds >= MAX_QUEUED_FDS {
            return Err(fd);
        }
        self.next_request_id = if request_id == u32::MAX {
            0
        } else {
            request_id + 1
        };
        let deadline: u64 = now + REQUEST_TIMEOUT;
        self.queued_bytes = self.queued_bytes + line.len();
        self.queued_fds = self.queued_fds + 1;
        let frame = OutboundFrame { bytes: line, offset: 0, fd: Some(fd), request_id, deadline };
        proof {
            lemma_totals_push(self.frames@, frame);
        }
        self.frames.push(frame);
        self.pending.push(PendingRequest { request_id, proxy_id, deadline });
        self.wake = true;
        assert(self.frames@.drop_last() =~= old(self).frames@);
        assert forall|i: int| 0 <= i < old(self).pending@.len() implies old(
            self,
        ).pending@[i].proxy_id != proxy_id by {
            assert(!waits(old(self).pending@, proxy_id, i));
        }
        Ok(request_id)
    }

    fn find_pending(&self, request_id: u32) -> (result: Option<usize>)
        requires
            pending_wf(self.pending@),
        ensures
            match result {
                Some(at) => at < self.pending@.len() && pending_position(self.pending@, request_id)
                    == Some(at as int) && self.pending@[at as int].request_id == request_id,
                None => pending_position(self.pending@, request_id) is None,
            },
    {
        let mut i: usize = 0;
        while i < self.pending.len()
            invariant
                i <= self.pending@.len(),
                pending_wf(self.pending@),
                forall|at: int| 0 <= at < i ==> !pending_at(self.pending@, request_id, at),
            decreases self.pending.len() - i,
        {
            if self.pending[i].request_id == request_id {
                proof {
                    lemma_pending_position(self.pending@, request_id, i as int);
                }
                return Some(i);
            }
            i += 1;
        }
        assert(forall|at: int| !pending_at(self.pending@, request_id, at));
        None
    }

    fn find_frame(&self, request_id: u32) -> (result: Option<usize>)
        requires
            frames_wf(self.frames@),
        ensures
            match result {
                Some(at) => at < self.frames@.len() && frame_position(self.frames@, request_id)
                    == Some(at as int),
                None => frame_position(self.frames@, request_id) is None,
            },
    {
        let mut i: usize = 0;
        while i < self.frames.len()
            invariant
                i <= self.frames@.len(),
                frames_wf(self.frames@),
                forall|at: int| 0 <= at < i ==> !frame_at(self.frames@, request_id, at),
            decreases self.frames.len() - i,
        {
            if self.frames[i].request_id == request_id {
                proof {
                    lemma_frame_position(self.frames@, request_id, i as int);
                }
                return Some(i);
            }
            i += 1;
        }
        assert(forall|at: int| !frame_at(self.frames@, request_id, at));
        None
    }

    /// Drops the frame of a request that was not sent at all.
    fn drop_frame(&mut self, at: usize)
        requires
            old(self).wf(),
            at < old(self).frames@.len(),
        ensures
            final(self).wf(),
            final(self).frames@ == old(self).frames@.remove(at as int),
            final(self).pending@ == old(self).pending@,
            final(self).fenced == old(self).fenced,
            final(self).active == old(self).active,
            final(self).wake == old(self).wake,
            final(self).next_request_id == old(self).next_request_id,
    {
        proof {
            lemma_totals_remove(self.frames@, at as int);
            lemma_frames_remove(self.frames@, at as int);
        }
        let ghost before = self.frames@;
        let frame = self.frames.remove(at);
        self.queued_bytes = self.queued_bytes - frame.bytes.len();
        if frame.fd.is_some() {
            self.queued_fds = self.queued_fds - 1;
        }
        assert forall|i: int| 0 <= i < self.frames@.len() implies (
        #[trigger] self.frames@[i]).request_id < self.next_request_id || self.next_request_id
            == 0 by {
            if i < at {
                assert(self.frames@[i] == before[i]);
            } else {
                assert(self.frames@[i] == before[i + 1]);
            }
        }
    }

    fn drop_pending(&mut self, at: usize) -> (request: PendingRequest)
        requires
            old(self).wf(),
            at < old(self).pending@.len(),
        ensures
            final(self).wf(),
            request == old(self).pending@[at as int],
            final(self).pending@ == old(self).pending@.remove(at as int),
            *final(self) == (ControlHandle { pending: final(self).pending, ..*old(self) }),
    {
        proof {
            lemma_pending_remove(self.pending@, at as int);
        }
        let ghost before = self.pending@;
        let request = self.pending.remove(at);
        assert forall|i: int| 0 <= i < self.pending@.len() implies (
        #[trigger] self.pending@[i]).request_id < self.next_request_id || self.next_request_id
            == 0 by {
            if i < at {
                assert(self.pending@[i] == before[i]);
            } else {
                assert(self.pending@[i] == before[i + 1]);
            }
        }
        request
    }

    /// Takes a request that the host has answered, and gives the connection that it was for.
    /// An answer to no request of that number is late.
    pub fn take_pending(&mut self, request_id: u32) -> (result: Option<u64>)
        requires
            old(self).wf(),
        ensures
            final(self).wf(),
            result == pending_proxy(old(self).pending@, request_id),
            final(self).pending@ == without_pending(old(self).pending@, request_id),
            *final(self) == (ControlHandle { pending: final(self).pending, ..*old(self) }),
    {
        if self.fenced {
            assert(forall|at: int| !pending_at(self.pending@, request_id, at));
            return None;
        }
        match self.find_pending(request_id) {
            None => None,
            Some(at) => Some(self.drop_pending(at).proxy_id),
        }
    }

    /// Gives up the request of a connection. Its frame is dropped if nothing of it was sent;
    /// a frame that was sent in part ends the channel's use.
    pub fn cancel_proxy(&mut self, proxy_id: u64)
        requires
            old(self).wf(),
        ensures
            final(self).wf(),
            final(self).fenced == old(self).fenced,
            final(self).next_request_id == old(self).next_request_id,
            (forall|at: int| !waits(old(self).pending@, proxy_id, at)) ==> *final(self) == *old(
                self,
            ),
            forall|at: int|
                waits(old(self).pending@, proxy_id, at) ==> {
                    let id = old(self).pending@[at].request_id;
                    let partly = partly_sent(old(self).frames@, id);
                    &&& final(self).pending@ == #[trigger] old(self).pending@.remove(at)
                    &&& final(self).active == (old(self).active && !partly)
                    &&& final(self).wake == (old(self).wake || partly)
                    &&& final(self).frames@ == if partly {
                        old(self).frames@
                    } else {
                        without_frame(old(self).frames@, id)
                    }
                },
    {
        if self.fenced {
            return ;
        }
        let at: usize = match self.is_waiting(proxy_id) {
            None => return ,
            Some(at) => at,
        };
        assert forall|other: int| waits(old(self).pending@, proxy_id, other) implies other
            == at by {
            assert(waits(old(self).pending@, proxy_id, at as int));
            if other < at {
                assert(self.pending@[other].request_id != self.pending@[at as int].request_id);
            } else if at < other {
                assert(self.pending@[at as int].request_id != self.pending@[other].request_id);
            }
        }
        let request = self.drop_pending(at);
        if let Some(position) = self.find_frame(request.request_id) {
            if self.frames[position].offset != 0 {
                self.active = false;
                self.wake = true;
            } else {
                self.drop_frame(position);
            }
        }
    }

    /// The milliseconds until the next request is to be given up.
    pub open spec fn timeout_spec(self, now: u64) -> int {
        if self.fenced {
            0
        } else if self.frames@.len() > 0 {
            millis_until(sooner(earliest(self.pending@), self.frames@[0].deadline), now) as int
        } else {
            match earliest(self.pending@) {
                Some(deadline) => millis_until(deadline, now) as int,
                None => -1,
            }
        }
    }

    /// The milliseconds until the next request is to be given up: none where nothing waits, and
    /// no time at all once the channel has ended.
    pub fn next_timeout_ms(&self, now: u64) -> (timeout: i32)
        ensures
            timeout == self.timeout_spec(now),
    {
        if self.fenced {
            return 0;
        }
        let mut first: Option<u64> = None;
        let mut i: usize = 0;
        while i < self.pending.len()
            invariant
                i <= self.pending@.len(),
                first == earliest(self.pending@.take(i as int)),
            decreases self.pending.len() - i,
        {
            let deadline: u64 = self.pending[i].deadline;
            assert(self.pending@.take(i + 1).drop_last() =~= self.pending@.take(i as int));
            first = match first {
                Some(other) => if other < deadline {
                    Some(other)
                } else {
                    Some(deadline)
                },
                None => Some(deadline),
            };
            i += 1;
        }
        assert(self.pending@.take(i as int) =~= self.pending@);
        if self.frames.len() > 0 {
            let deadline: u64 = self.frames[0].deadline;
            first = match first {
                Some(other) => if other < deadline {
                    Some(other)
                } else {
                    Some(deadline)
                },
                None => Some(deadline),
            };
        }
        match first {
            Some(deadline) => timeout_millis(deadline, now),
            None => -1,
        }
    }

    /// Gives up the requests whose time is over, and gives the connections that they were for.
    /// A request whose frame was sent in part cannot be given up: the channel has failed.
    pub fn expire(&mut self, now: u64) -> (result: (Vec<u64>, bool))
        requires
            old(self).wf(),
        ensures
            final(self).wf(),
            ({
                let outcome = expiry(
                    old(self).frames@,
                    old(self).pending@,
                    expired_ids(old(self).pending@, now),
                );
                if old(self).fenced {
                    result.0@.len() == 0 && result.1 && *final(self) == *old(self)
                } else {
                    &&& result.0@ == outcome.proxies
                    &&& result.1 == outcome.failed
                    &&& final(self).frames@ == outcome.frames
                    &&& final(self).pending@ == outcome.pending
                    &&& final(self).fenced == old(self).fenced
                    &&& final(self).active == old(self).active
                    &&& final(self).wake == old(self).wake
                    &&& final(self).next_request_id == old(self).next_request_id
                }
            }),
    {
        if self.fenced {
            return (Vec::new(), true);
        }
        let mut ids: Vec<u32> = Vec::new();
        let mut i: usize = 0;
        while i < self.pending.len()
            invariant
                i <= self.pending@.len(),
                *self == *old(self),
                ids@ == expired_ids(self.pending@.take(i as int), now),
            decreases self.pending.len() - i,
        {
            let request = self.pending[i];
            assert(self.pending@.take(i + 1).drop_last() =~= self.pending@.take(i as int));
            if request.deadline <= now {
                ids.push(request.request_id);
            }
            i += 1;
        }
        assert(self.pending@.take(i as int) =~= self.pending@);
        let ghost whole = expiry(old(self).frames@, old(self).pending@, ids@);
        let mut proxies: Vec<u64> = Vec::new();
        let mut k: usize = 0;
        assert(ids@.skip(0) =~= ids@);
        while k < ids.len()
            invariant
                k <= ids@.len(),
                self.wf(),
                self.fenced == old(self).fenced,
                self.active == old(self).active,
                self.wake == old(self).wake,
                self.next_request_id == old(self).next_request_id,
                whole.frames == expiry(self.frames@, self.pending@, ids@.skip(k as int)).frames,
                whole.pending == expiry(self.frames@, self.pending@, ids@.skip(k as int)).pending,
                whole.proxies == proxies@ + expiry(
                    self.frames@,
                    self.pending@,
                    ids@.skip(k as int),
                ).proxies,
                whole.failed == expiry(self.frames@, self.pending@, ids@.skip(k as int)).failed,
                ids@ == expired_ids(old(self).pending@, now),
                whole == expiry(old(self).frames@, old(self).pending@, ids@),
                !old(self).fenced,
            decreases ids.len() - k,
        {
            let request_id: u32 = ids[k];
            let ghost frames = self.frames@;
            let ghost pending = self.pending@;
            let ghost left = ids@.skip(k as int);
            let ghost taken = proxies@;
            assert(left.first() == request_id);
            assert(left.drop_first() =~= ids@.skip(k + 1));
            if let Some(position) = self.find_frame(request_id) {
                if self.frames[position].offset != 0 {
                    assert(proxies@ =~= proxies@ + Seq::<u64>::empty());
                    return (proxies, true);
                }
                self.drop_frame(position);
            }
            match self.find_pending(request_id) {
                Some(at) => {
                    let request = self.drop_pending(at);
                    proxies.push(request.proxy_id);
                },
                None => {},
            }
            assert(self.frames@ == without_frame(frames, request_id));
            assert(self.pending@ == without_pending(pending, request_id));
            assert(proxies@ + expiry(self.frames@, self.pending@, ids@.skip(k + 1)).proxies
                =~= taken + expiry(frames, pending, left).proxies);
            k += 1;
        }
        assert(ids@.skip(k as int) =~= Seq::<u32>::empty());
        assert(proxies@ =~= proxies@ + Seq::<u64>::empty());
        (proxies, false)
    }

    /// The descriptors that frames still have. Whoever owns a descriptor that was handed over
    /// closes it when it is no longer among them.
    pub fn held_fds(&self) -> (fds: Vec<i32>)
        ensures
            fds@ == held(self.frames@),
    {
        let mut fds: Vec<i32> = Vec::new();
        let mut i: usize = 0;
        while i < self.frames.len()
            invariant
                i <= self.frames@.len(),
                fds@ == held(self.frames@.take(i as int)),
            decreases self.frames.len() - i,
        {
            assert(self.frames@.take(i + 1).drop_last() =~= self.frames@.take(i as int));
            if let Some(fd) = self.frames[i].fd {
                fds.push(fd);
            }
            i += 1;
        }
        assert(self.frames@.take(i as int) =~= self.frames@);
        fds
    }

    pub fn wants_write(&self) -> (result: bool)
        ensures
            result == (!self.fenced && self.frames@.len() > 0),
    {
        !self.fenced && self.frames.len() > 0
    }

    pub fn is_active(&self) -> (result: bool)
        ensures
            result == (!self.fenced && self.active),
    {
        !self.fenced && self.active
    }

    /// Takes note that whoever serves the channel is awake.
    pub fn drain_wake(&mut self)
        ensures
            *final(self) == (ControlHandle { wake: false, ..*old(self) }),
    {
        self.wake = false;
    }

    /// What is to be sent next, where `budget` bytes may be sent.
    pub open spec fn next_send_spec(self, budget: usize) -> SendStep {
        if self.frames@.len() == 0 {
            SendStep::Idle
        } else if budget == 0 {
            SendStep::Paused
        } else {
            let frame = self.frames@[0];
            let left = frame.bytes@.len() - frame.offset;
            SendStep::Send {
                from: frame.offset,
                len: if left < budget {
                    left as usize
                } else {
                    budget
                },
                fd: frame.fd,
            }
        }
    }

    pub fn next_send(&self, budget: usize) -> (result: Result<SendStep, ControlError>)
        requires
            self.wf(),
        ensures
            result == if self.fenced {
                Err::<SendStep, ControlError>(ControlError::Fenced)
            } else {
                Ok(self.next_send_spec(budget))
            },
    {
        if self.fenced {
            return Err(ControlError::Fenced);
        }
        if self.frames.len() == 0 {
            return Ok(SendStep::Idle);
        }
        if budget == 0 {
            return Ok(SendStep::Paused);
        }
        let left: usize = self.frames[0].bytes.len() - self.frames[0].offset;
        Ok(
            SendStep::Send {
                from: self.frames[0].offset,
                len: if left < budget {
                    left
                } else {
                    budget
                },
                fd: self.frames[0].fd,
            },
        )
    }

    /// Takes note of what came of sending, and says whether to go on. The descriptor went with
    /// the first bytes, and a frame that was sent whole is done with.
    pub fn sent(&mut self, budget: usize, reply: SendReply) -> (result: Result<bool, ControlError>)
        requires
            old(self).wf(),
            !old(self).fenced,
            old(self).next_send_spec(budget) is Send,
            reply matches SendReply::Written(count) ==> count <= old(self).next_send_spec(
                budget,
            )->len,
        ensures
            final(self).wf(),
            match reply {
                SendReply::Written(0) => result == Err::<bool, ControlError>(
                    ControlError::NoProgress,
                ) && *final(self) == *old(self),
                SendReply::WouldBlock => result == Ok::<bool, ControlError>(false) && *final(self)
                    == *old(self),
                SendReply::Failed(error) => result == Err::<bool, ControlError>(
                    ControlError::SendFailed(error),
                ) && *final(self) == *old(self),
                SendReply::Written(count) => {
                    &&& result == Ok::<bool, ControlError>(true)
                    &&& final(self).pending@ == old(self).pending@
                    &&& final(self).fenced == old(self).fenced
                    &&& final(self).active == old(self).active
                    &&& final(self).wake == old(self).wake
                    &&& final(self).next_request_id == old(self).next_request_id
                    &&& final(self).frames@ == frames_sent(old(self).frames@, count)
                },
            },
    {
        match reply {
            SendReply::WouldBlock => Ok(false),
            SendReply::Failed(error) => Err(ControlError::SendFailed(error)),
            SendReply::Written(count) => {
                if count == 0 {
                    return Err(ControlError::NoProgress);
                }
                let len: usize = self.frames[0].bytes.len();
                let offset: usize = self.frames[0].offset + count;
                if offset == len {
                    self.drop_frame(0);
                    return Ok(true);
                }
                let ghost before = self.frames@;
                proof {
                    let next = OutboundFrame { offset, fd: None, ..before[0] };
                    lemma_totals_update(before, 0, next);
                    if before[0].fd is Some {
                        lemma_totals_remove(before, 0);
                    }
                }
                let mut frame = self.frames.remove(0);
                if frame.fd.is_some() {
                    self.queued_fds = self.queued_fds - 1;
                }
                frame.fd = None;
                frame.offset = offset;
                self.frames.insert(0, frame);
                assert(self.frames@ =~= before.update(
                    0,
                    OutboundFrame { offset, fd: None, ..before[0] },
                ));
                Ok(true)
            },
        }
    }
}

/// Why a received descriptor is of no use.
#[derive(Clone, Copy, Debug, PartialEq, Eq)]
pub struct ReceivedFd {
    /// What the descriptor is, or the error of the first call on it that failed.
    pub identity: Result<UnixSocketIdentity, i32>,
}

/// The bits by which the host says that it cut off data or descriptors.
pub open spec fn truncation_bits(platform: HostPlatform) -> i32 {
    match platform {
        HostPlatform::Macos => 0x30,
        _ => 0x28,
    }
}

/// The first descriptor from one on that is not taken, and why.
pub open spec fn received_spec(
    received: Seq<ReceivedFd>,
    protected: Seq<UnixSocketIdentity>,
    from: int,
) -> Option<ControlError>
    decreases received.len() - from,
{
    if from < 0 || from >= received.len() {
        None
    } else {
        match received[from].identity {
            Err(error) => Some(ControlError::DescriptorRejected(error)),
            Ok(identity) => if protected.contains(identity) {
                Some(ControlError::ProtectedEndpoint)
            } else {
                received_spec(received, protected, from + 1)
            },
        }
    }
}

/// Whether what came with a byte is taken: nothing was cut off or unknown, and every descriptor
/// is a stream of the host that is none of the protected sockets.
pub fn validate_received_fds(
    platform: HostPlatform,
    message_flags: i32,
    unknown: bool,
    received: &Vec<ReceivedFd>,
    protected: &Vec<UnixSocketIdentity>,
) -> (result: Result<(), ControlError>)
    ensures
        (message_flags & truncation_bits(platform) != 0 || unknown) ==> result == Err::<
            (),
            ControlError,
        >(ControlError::AncillaryTruncated),
        !(message_flags & truncation_bits(platform) != 0 || unknown) ==> match received_spec(
            received@,
            protected@,
            0,
        ) {
            Some(error) => result == Err::<(), ControlError>(error),
            None => result is Ok,
        },
{
    let bits: i32 = match platform {
        HostPlatform::Macos => 0x30,
        _ => 0x28,
    };
    if message_flags & bits != 0 || unknown {
        return Err(ControlError::AncillaryTruncated);
    }
    let mut i: usize = 0;
    while i < received.len()
        invariant
            i <= received@.len(),
            !(message_flags & truncation_bits(platform) != 0 || unknown),
            received_spec(received@, protected@, 0) == received_spec(
                received@,
                protected@,
                i as int,
            ),
        decreases received.len() - i,
    {
        match received[i].identity {
            Err(error) => {
                return Err(ControlError::DescriptorRejected(error));
            },
            Ok(identity) => {
                if is_protected(protected, identity) {
                    return Err(ControlError::ProtectedEndpoint);
                }
            },
        }
        i += 1;
    }
    Ok(())
}

fn is_protected(protected: &Vec<UnixSocketIdentity>, identity: UnixSocketIdentity) -> (result: bool)
    ensures
        result == protected@.contains(identity),
{
    let mut i: usize = 0;
    while i < protected.len()
        invariant
            i <= protected@.len(),
            forall|j: int| 0 <= j < i ==> protected@[j] != identity,
        decreases protected.len() - i,
    {
        if protected[i] == identity {
            assert(protected@[i as int] == identity);
            return true;
        }
        i += 1;
    }
    false
}

/// A descriptor of a protected socket is never taken.
pub proof fn law_protected_sockets_are_refused(
    received: Seq<ReceivedFd>,
    protected: Seq<UnixSocketIdentity>,
    from: int,
    at: int,
)
    requires
        0 <= from <= at < received.len(),
        received[at].identity matches Ok(identity) && protected.contains(identity),
    ensures
        received_spec(received, protected, from) is Some,
    decreases received.len() - from,
{
    if from < at && received_spec(received, protected, from) is None {
        law_protected_sockets_are_refused(received, protected, from + 1, at);
    }
}

/// What came of reading a byte from the channel.
#[derive(Debug)]
pub enum ReadReply {
    /// A byte, and the descriptors that came with it.
    Byte { byte: u8, fds: Vec<i32> },
    /// Nothing is there right now.
    WouldBlock,
    EndOfFile,
    Failed(i32),
}

/// The host's end of the channel: the line that is being read.
#[derive(Debug)]
pub struct ControlProxy {
    pub fd: Option<i32>,
    pub line: Vec<u8>,
    pub line_fd: Option<i32>,
    pub protected_identities: Vec<UnixSocketIdentity>,
    pub line_deadline: Option<u64>,
}

/// What a byte of a line comes to.
pub struct ByteOutcome {
    pub line: Seq<u8>,
    pub line_fd: Option<i32>,
    pub line_deadline: Option<u64>,
    pub result: Result<Option<Incoming>, ControlError>,
}

impl ControlProxy {
    pub open spec fn wf(self) -> bool {
        &&& self.line@.len() <= MAX_LINE_BYTES
        &&& self.line@.len() == 0 ==> self.line_fd is None && self.line_deadline is None
        &&& self.line@.len() > 0 ==> self.line_deadline is Some
        &&& !self.line@.contains(NEWLINE)
    }

    /// The channel over a descriptor. The channel's own socket is protected too.
    pub fn new(fd: i32, identity: UnixSocketIdentity, protected: Vec<UnixSocketIdentity>) -> (proxy:
        ControlProxy)
        ensures
            proxy.wf(),
            proxy.fd == Some(fd),
            proxy.line@.len() == 0,
            proxy.protected_identities@ == protected@.push(identity),
    {
        let mut protected_identities = protected;
        protected_identities.push(identity);
        let line: Vec<u8> = Vec::new();
        assert(!line@.contains(NEWLINE));
        ControlProxy {
            fd: Some(fd),
            line,
            line_fd: None,
            protected_identities,
            line_deadline: None,
        }
    }

    pub fn add_protected_identity(&mut self, identity: UnixSocketIdentity)
        requires
            old(self).wf(),
        ensures
            final(self).wf(),
            final(self).protected_identities@ == old(self).protected_identities@.push(identity),
            final(self).fd == old(self).fd,
            final(self).line == old(self).line,
            final(self).line_fd == old(self).line_fd,
            final(self).line_deadline == old(self).line_deadline,
    {
        self.protected_identities.push(identity);
    }

    /// What a byte comes to: descriptors come with the first byte of a line, at most one, and
    /// the line's time starts with that byte.
    pub open spec fn byte_spec(self, now: u64, byte: u8, fds: Seq<i32>) -> ByteOutcome {
        let first = self.line@.len() == 0;
        let deadline = if first {
            Some((now + REQUEST_TIMEOUT) as u64)
        } else {
            self.line_deadline
        };
        let line_fd = if first && fds.len() == 1 {
            Some(fds[0])
        } else {
            self.line_fd
        };
        if (!first && fds.len() > 0) || fds.len() > 1 {
            ByteOutcome {
                line: self.line@,
                line_fd: self.line_fd,
                line_deadline: deadline,
                result: Err(ControlError::AncillaryMisplaced),
            }
        } else if byte >= 0x80 || self.line@.len() == MAX_LINE_BYTES {
            ByteOutcome {
                line: self.line@,
                line_fd,
                line_deadline: deadline,
                result: Err(ControlError::FrameInvalidByte),
            }
        } else if byte != NEWLINE {
            ByteOutcome {
                line: self.line@.push(byte),
                line_fd,
                line_deadline: deadline,
                result: Ok(None),
            }
        } else {
            ByteOutcome {
                line: Seq::empty(),
                line_fd: None,
                line_deadline: None,
                result: match crate::vsock::frame::parse_line_spec(
                    self.line@.push(byte),
                    line_fd,
                ) {
                    Ok(message) => Ok(Some(message)),
                    Err(error) => Err(error),
                },
            }
        }
    }

    /// Takes a byte of the channel, and gives what the line says that it ends.
    pub fn take_byte(&mut self, now: u64, byte: u8, fds: &Vec<i32>) -> (result: Result<
        Option<Incoming>,
        ControlError,
    >)
        requires
            old(self).wf(),
            now <= u64::MAX - REQUEST_TIMEOUT,
        ensures
            result is Ok ==> final(self).wf(),
            ({
                let outcome = old(self).byte_spec(now, byte, fds@);
                &&& result == outcome.result
                &&& final(self).line@ == outcome.line
                &&& final(self).line_fd == outcome.line_fd
                &&& final(self).line_deadline == outcome.line_deadline
            }),
            final(self).fd == old(self).fd,
            final(self).protected_identities == old(self).protected_identities,
    {
        let first = self.line.len() == 0;
        if first {
            self.line_deadline = Some(now + REQUEST_TIMEOUT);
        }
        if (!first && fds.len() > 0) || fds.len() > 1 {
            return Err(ControlError::AncillaryMisplaced);
        }
        if first && fds.len() == 1 {
            self.line_fd = Some(fds[0]);
        }
        if byte >= 0x80 || self.line.len() == MAX_LINE_BYTES {
            return Err(ControlError::FrameInvalidByte);
        }
        self.line.push(byte);
        if byte != NEWLINE {
            assert forall|i: int| 0 <= i < self.line@.len() implies self.line@[i] != NEWLINE by {
                if i < old(self).line@.len() {
                    assert(old(self).line@.contains(old(self).line@[i]));
                }
            }
            return Ok(None);
        }
        let line_fd = self.line_fd;
        let result = parse_line(&self.line, line_fd);
        self.line = Vec::new();
        self.line_fd = None;
        self.line_deadline = None;
        assert(!self.line@.contains(NEWLINE));
        match result {
            Ok(message) => Ok(Some(message)),
            Err(error) => Err(error),
        }
    }

    /// The milliseconds that the line's other bytes may still take.
    pub fn partial_timeout_ms(&self, now: u64) -> (timeout: Option<i32>)
        ensures
            timeout == match self.line_deadline {
                Some(deadline) => Some(millis_until(deadline, now)),
                None => None,
            },
    {
        match self.line_deadline {
            Some(deadline) => Some(timeout_millis(deadline, now)),
            None => None,
        }
    }

    /// Whether a line was begun and its time is over.
    pub fn partial_expired(&self, now: u64) -> (result: bool)
        ensures
            result == (self.line_deadline matches Some(deadline) && deadline <= now),
    {
        match self.line_deadline {
            Some(deadline) => deadline <= now,
            None => false,
        }
    }

    /// Closes the channel and gives the connections that wait for the host.
    pub fn close(&mut self, handle: &mut ControlHandle) -> (proxies: Vec<u64>)
        requires
            old(handle).wf(),
        ensures
            final(self).wf(),
            final(self).fd is None,
            final(self).line@.len() == 0,
            final(self).protected_identities == old(self).protected_identities,
            final(handle).wf(),
            final(handle).fenced,
            final(handle).next_request_id == old(handle).next_request_id,
            final(handle).wake == old(handle).wake,
            proxies@ == old(handle).pending@.map_values(|p: PendingRequest| p.proxy_id),
    {
        self.fd = None;
        self.line = Vec::new();
        self.line_fd = None;
        self.line_deadline = None;
        assert(!self.line@.contains(NEWLINE));
        handle.fail()
    }
}

/// A turn of reading the channel. It ends after so many frames or bytes; what is left is read
/// in the next turn.
#[derive(Debug)]
pub struct ReadTurn {
    pub bytes_read: usize,
    pub messages: Vec<Incoming>,
}

impl ReadTurn {
    /// The turn has not used up what it may read.
    pub open spec fn open_spec(self) -> bool {
        self.bytes_read < RECEIVE_BYTE_BUDGET && self.messages@.len() < RECEIVE_FRAME_BUDGET
    }

    pub open spec fn wf(self) -> bool {
        self.bytes_read <= RECEIVE_BYTE_BUDGET && self.messages@.len() <= RECEIVE_FRAME_BUDGET
            && self.messages@.len() <= self.bytes_read
    }

    pub fn new() -> (turn: ReadTurn)
        ensures
            turn.wf(),
            turn.bytes_read == 0,
            turn.messages@.len() == 0,
    {
        ReadTurn { bytes_read: 0, messages: Vec::new() }
    }

    /// Whether one more byte is to be read.
    pub fn wants_byte(&self) -> (result: bool)
        ensures
            result == self.open_spec(),
    {
        self.bytes_read < RECEIVE_BYTE_BUDGET && self.messages.len() < RECEIVE_FRAME_BUDGET
    }

    /// Takes what came of reading a byte, and says whether to go on reading.
    pub fn take(&mut self, proxy: &mut ControlProxy, now: u64, reply: ReadReply) -> (result: Result<
        bool,
        ControlError,
    >)
        requires
            old(self).wf(),
            old(self).open_spec(),
            old(proxy).wf(),
            now <= u64::MAX - REQUEST_TIMEOUT,
        ensures
            final(self).wf(),
            result is Ok ==> final(proxy).wf(),
            match reply {
                ReadReply::WouldBlock => result == Ok::<bool, ControlError>(false) && *final(self)
                    == *old(self) && *final(proxy) == *old(proxy),
                ReadReply::EndOfFile => result == Err::<bool, ControlError>(
                    ControlError::EndOfFile,
                ) && *final(self) == *old(self) && *final(proxy) == *old(proxy),
                ReadReply::Failed(error) => result == Err::<bool, ControlError>(
                    ControlError::ReceiveFailed(error),
                ) && *final(self) == *old(self) && *final(proxy) == *old(proxy),
                ReadReply::Byte { byte, fds } => {
                    let outcome = old(proxy).byte_spec(now, byte, fds@);
                    &&& final(proxy).line@ == outcome.line
                    &&& final(proxy).line_fd == outcome.line_fd
                    &&& final(proxy).line_deadline == outcome.line_deadline
                    &&& final(proxy).fd == old(proxy).fd
                    &&& final(proxy).protected_identities == old(proxy).protected_identities
                    &&& final(self).bytes_read == old(self).bytes_read + 1
                    &&& match outcome.result {
                        Err(error) => result == Err::<bool, ControlError>(error)
                            && final(self).messages@ == old(self).messages@,
                        Ok(None) => result == Ok::<bool, ControlError>(final(self).open_spec())
                            && final(self).messages@ == old(self).messages@,
                        Ok(Some(message)) => result == Ok::<bool, ControlError>(
                            final(self).open_spec(),
                        ) && final(self).messages@ == old(self).messages@.push(message),
                    }
                },
            },
    {
        match reply {
            ReadReply::WouldBlock => Ok(false),
            ReadReply::EndOfFile => Err(ControlError::EndOfFile),
            ReadReply::Failed(error) => Err(ControlError::ReceiveFailed(error)),
            ReadReply::Byte { byte, fds } => {
                self.bytes_read = self.bytes_read + 1;
                match proxy.take_byte(now, byte, &fds) {
                    Err(error) => Err(error),
                    Ok(None) => Ok(self.wants_byte()),
                    Ok(Some(message)) => {
                        self.messages.push(message);
                        Ok(self.wants_byte())
                    },
                }
            },
        }
    }
}

/// The time that a line may take starts with its first byte; no later byte renews it.
pub proof fn law_line_deadline_is_not_renewed(proxy: ControlProxy, now: u64, byte: u8, fds: Seq<i32>)
    requires
        proxy.wf(),
        proxy.line@.len() > 0,
        proxy.byte_spec(now, byte, fds).line.len() > 0,
    ensures
        proxy.byte_spec(now, byte, fds).line_deadline == proxy.line_deadline,
        proxy.byte_spec(now, byte, fds).line_fd == proxy.line_fd,
{
}

/// The descriptor of a request goes with the first bytes of its frame, however few they are, and
/// never again: then it is no longer held, and the other descriptors are.
pub proof fn law_descriptor_goes_with_the_first_byte(frames: Seq<OutboundFrame>, count: usize)
    requires
        frames_wf(frames),
        frames.len() > 0,
        0 < count <= frames[0].bytes@.len() - frames[0].offset,
    ensures
        held(frames_sent(frames, count)) == held(frames.drop_first()),
        held(frames) == (match frames[0].fd {
            Some(fd) => seq![fd] + held(frames_sent(frames, count)),
            None => held(frames_sent(frames, count)),
        }),
        frame_at(frames_sent(frames, count), frames[0].request_id, 0) ==> frames_sent(
            frames,
            count,
        )[0].fd is None,
{
    let after = frames_sent(frames, count);
    lemma_held_first(frames);
    if frames[0].offset + count == frames[0].bytes@.len() {
        assert(after =~= frames.drop_first());
        if after.len() > 0 {
            assert(frames[0].request_id < frames[1].request_id);
        }
    } else {
        lemma_held_first(after);
        assert(after.drop_first() =~= frames.drop_first());
    }
    assert(held(after) =~= held(frames.drop_first()));
    assert(held(frames) =~= (match frames[0].fd {
        Some(fd) => seq![fd] + held(after),
        None => held(after),
    }));
}

} // verus!
