//! What the two ends of a control channel can rely on.
use crate::platform::HostPlatform;
use crate::vsock::control::{
    earliest, expired_ids, expiry, frame_at, frames_sent, frames_wf, millis_until, partly_sent,
    pending_at, pending_position, pending_proxy, pending_wf, received_spec, truncation_bits, waits,
    without_frame, without_pending, ControlHandle, ControlProxy, OutboundFrame, PendingRequest,
    ReadTurn, ReceivedFd, SendStep, UnixSocketIdentity,
};
use crate::vsock::frame::{
    connect_frame_spec, decimal, law_decimal_is_canonical, ok_line_spec, parse_line_spec, value_of,
    word_connect, word_ok, word_reject, ControlError, Incoming,
};
use vstd::prelude::*;

verus! {

/// The earliest deadline is that of one of the requests and no later than that of any; there is
/// none only where there is no request.
pub proof fn law_no_request_is_due_before_the_earliest(pending: Seq<PendingRequest>, i: int)
    ensures
        earliest(pending) is None <==> pending.len() == 0,
        earliest(pending) matches Some(deadline) ==> {
            &&& 0 <= i < pending.len() ==> deadline <= pending[i].deadline
            &&& exists|j: int| 0 <= j < pending.len() && #[trigger] pending[j].deadline == deadline
        },
    decreases pending.len(),
{
    if pending.len() > 0 {
        let rest = pending.drop_last();
        law_no_request_is_due_before_the_earliest(rest, i);
        if rest.len() > 0 {
            let deadline = earliest(rest)->0;
            let j = choose|j: int|
                0 <= j < rest.len() && #[trigger] rest[j].deadline == deadline;
            assert(pending[j].deadline == deadline);
        }
        assert(pending[pending.len() - 1].deadline == pending.last().deadline);
        if 0 <= i < rest.len() {
            assert(rest[i] == pending[i]);
        }
    }
}

/// A timeout is in whole milliseconds, is never longer than the time that is left, and falls
/// short of it by less than one millisecond unless it is as long as a timeout can be. A deadline
/// that has passed leaves no time.
pub proof fn law_timeouts_end_by_the_deadline(deadline: u64, now: u64)
    ensures
        deadline <= now ==> millis_until(deadline, now) == 0,
        deadline > now ==> {
            &&& 0 <= millis_until(deadline, now) * 1_000_000 <= deadline - now
            &&& millis_until(deadline, now) == i32::MAX || deadline - now < (millis_until(
                deadline,
                now,
            ) + 1) * 1_000_000
        },
{
}

/// Whoever serves the channel sleeps past no deadline: the timeout is at most the time that any
/// request has left, and the time that the first frame has left. It sleeps for good exactly
/// where nothing waits, and not at all once the channel has ended.
pub proof fn law_no_deadline_is_slept_over(handle: ControlHandle, now: u64, i: int)
    requires
        handle.wf(),
    ensures
        handle.fenced ==> handle.timeout_spec(now) == 0,
        !handle.fenced ==> (handle.timeout_spec(now) == -1 <==> handle.pending@.len() == 0
            && handle.frames@.len() == 0),
        !handle.fenced && 0 <= i < handle.pending@.len() ==> {
            let left = handle.pending@[i].deadline - now;
            handle.timeout_spec(now) * 1_000_000 <= if left > 0 {
                left
            } else {
                0
            }
        },
        !handle.fenced && handle.frames@.len() > 0 ==> {
            let left = handle.frames@[0].deadline - now;
            handle.timeout_spec(now) * 1_000_000 <= if left > 0 {
                left
            } else {
                0
            }
        },
        handle.timeout_spec(now) >= -1,
{
    law_no_request_is_due_before_the_earliest(handle.pending@, i);
}

/// Exactly the requests whose time is over are given up.
pub proof fn law_due_requests_are_given_up(pending: Seq<PendingRequest>, now: u64, i: int)
    requires
        pending_wf(pending),
        0 <= i < pending.len(),
    ensures
        expired_ids(pending, now).contains(pending[i].request_id) <==> pending[i].deadline <= now,
        expired_ids(pending, now).len() <= pending.len(),
    decreases pending.len(),
{
    let rest = pending.drop_last();
    let ids = expired_ids(rest, now);
    let last = pending.last();
    assert(pending_wf(rest));
    lemma_expired_are_pending(rest, now);
    if i < rest.len() {
        law_due_requests_are_given_up(rest, now, i);
        assert(pending[i].request_id != pending[pending.len() - 1].request_id);
        if ids.contains(pending[i].request_id) {
            let k = choose|k: int| 0 <= k < ids.len() && ids[k] == pending[i].request_id;
            if last.deadline <= now {
                assert(ids.push(last.request_id)[k] == pending[i].request_id);
            }
        }
        if last.deadline <= now && ids.push(last.request_id).contains(pending[i].request_id) {
            let all = ids.push(last.request_id);
            let k = choose|k: int| 0 <= k < all.len() && all[k] == pending[i].request_id;
            assert(k < ids.len());
            assert(ids[k] == pending[i].request_id);
        }
    } else {
        if last.deadline <= now {
            assert(ids.push(last.request_id)[ids.len() as int] == last.request_id);
        } else if ids.contains(last.request_id) {
            let k = choose|k: int| 0 <= k < ids.len() && ids[k] == last.request_id;
            let j = choose|j: int| 0 <= j < rest.len() && rest[j].request_id == ids[k];
            assert(pending[j].request_id != pending[pending.len() - 1].request_id);
        }
        if rest.len() > 0 {
            law_due_requests_are_given_up(rest, now, 0);
        }
    }
}

proof fn lemma_expired_are_pending(pending: Seq<PendingRequest>, now: u64)
    ensures
        forall|k: int|
            0 <= k < expired_ids(pending, now).len() ==> exists|j: int|
                0 <= j < pending.len() && pending[j].request_id == #[trigger] expired_ids(
                    pending,
                    now,
                )[k],
    decreases pending.len(),
{
    if pending.len() > 0 {
        let rest = pending.drop_last();
        lemma_expired_are_pending(rest, now);
        let ids = expired_ids(pending, now);
        assert forall|k: int| 0 <= k < ids.len() implies exists|j: int|
            0 <= j < pending.len() && pending[j].request_id == #[trigger] ids[k] by {
            if k < expired_ids(rest, now).len() {
                let j = choose|j: int|
                    0 <= j < rest.len() && rest[j].request_id == expired_ids(rest, now)[k];
                assert(pending[j].request_id == ids[k]);
            } else {
                assert(pending[pending.len() - 1].request_id == ids[k]);
            }
        }
    }
}

/// A request that is taken or given up is the one with that number: it is gone afterwards, its
/// connection is the one that is told, and every other request stays.
pub proof fn law_answers_find_their_request(
    pending: Seq<PendingRequest>,
    request_id: u32,
    other: PendingRequest,
)
    requires
        pending_wf(pending),
    ensures
        pending_proxy(pending, request_id) is Some <==> exists|i: int|
            0 <= i < pending.len() && (#[trigger] pending[i]).request_id == request_id,
        pending_proxy(pending, request_id) matches Some(proxy_id) ==> exists|i: int|
            0 <= i < pending.len() && (#[trigger] pending[i]).request_id == request_id
                && pending[i].proxy_id == proxy_id,
        without_pending(pending, request_id).contains(other) <==> pending.contains(other)
            && other.request_id != request_id,
        pending_proxy(pending, request_id) is None ==> without_pending(pending, request_id)
            == pending,
{
    let rest = without_pending(pending, request_id);
    if exists|i: int| pending_at(pending, request_id, i) {
        let at = choose|i: int| pending_at(pending, request_id, i);
        assert(pending_position(pending, request_id) == Some(at));
        assert(pending[at].request_id == request_id);
        if rest.contains(other) {
            let k = choose|k: int| 0 <= k < rest.len() && rest[k] == other;
            let j = if k < at {
                k
            } else {
                k + 1
            };
            assert(pending[j] == other);
            if j < at {
                assert(pending[j].request_id != pending[at].request_id);
            } else {
                assert(pending[at].request_id != pending[j].request_id);
            }
        }
        if pending.contains(other) && other.request_id != request_id {
            let j = choose|j: int| 0 <= j < pending.len() && pending[j] == other;
            let k = if j < at {
                j
            } else {
                j - 1
            };
            assert(rest[k] == other);
        }
    } else {
        assert forall|i: int| 0 <= i < pending.len() implies (
        #[trigger] pending[i]).request_id != request_id by {
            assert(!pending_at(pending, request_id, i));
        }
        if pending.contains(other) {
            let j = choose|j: int| 0 <= j < pending.len() && pending[j] == other;
            assert(pending[j].request_id != request_id);
        }
    }
}

/// Giving up requests drops those and no others, unless one of them is on its way to the host:
/// then the channel has failed.
pub proof fn law_given_up_requests_are_gone(
    frames: Seq<OutboundFrame>,
    pending: Seq<PendingRequest>,
    ids: Seq<u32>,
    request: PendingRequest,
)
    requires
        pending_wf(pending),
        !expiry(frames, pending, ids).failed,
    ensures
        expiry(frames, pending, ids).pending.contains(request) <==> pending.contains(request)
            && !ids.contains(request.request_id),
        pending.contains(request) && ids.contains(request.request_id) ==> expiry(
            frames,
            pending,
            ids,
        ).proxies.contains(request.proxy_id),
    decreases ids.len(),
{
    if ids.len() > 0 {
        let id = ids.first();
        let rest = ids.drop_first();
        let left = without_pending(pending, id);
        law_answers_find_their_request(pending, id, request);
        lemma_without_pending_wf(pending, id);
        law_given_up_requests_are_gone(without_frame(frames, id), left, rest, request);
        let told = expiry(frames, pending, ids).proxies;
        let later = expiry(without_frame(frames, id), left, rest).proxies;
        if ids.contains(request.request_id) {
            let k = choose|k: int| 0 <= k < ids.len() && ids[k] == request.request_id;
            if k > 0 {
                assert(rest[k - 1] == request.request_id);
            }
        }
        if rest.contains(request.request_id) {
            let k = choose|k: int| 0 <= k < rest.len() && rest[k] == request.request_id;
            assert(ids[k + 1] == request.request_id);
        }
        if pending.contains(request) && request.request_id == id {
            let j = choose|j: int| 0 <= j < pending.len() && pending[j] == request;
            assert(pending_at(pending, id, j));
            let at = choose|i: int| pending_at(pending, id, i);
            if j < at {
                assert(pending[j].request_id != pending[at].request_id);
            } else if at < j {
                assert(pending[at].request_id != pending[j].request_id);
            }
            assert(told == seq![request.proxy_id] + later);
            assert(told[0] == request.proxy_id);
            assert(ids[0] == id);
        } else if later.contains(request.proxy_id) {
            let k = choose|k: int| 0 <= k < later.len() && later[k] == request.proxy_id;
            assert(told[told.len() - later.len() + k] == request.proxy_id);
        }
    }
}

proof fn lemma_without_pending_wf(pending: Seq<PendingRequest>, request_id: u32)
    requires
        pending_wf(pending),
    ensures
        pending_wf(without_pending(pending, request_id)),
{
    if exists|i: int| pending_at(pending, request_id, i) {
        let at = choose|i: int| pending_at(pending, request_id, i);
        let rest = pending.remove(at);
        assert forall|i: int, j: int| 0 <= i < j < rest.len() implies (
        #[trigger] rest[i]).request_id != (#[trigger] rest[j]).request_id && rest[i].proxy_id
            != rest[j].proxy_id by {
            let a = if i < at {
                i
            } else {
                i + 1
            };
            let b = if j < at {
                j
            } else {
                j + 1
            };
            assert(rest[i] == pending[a] && rest[j] == pending[b]);
        }
    }
}

/// The bytes that are still to be sent, frame after frame.
pub open spec fn outbound(frames: Seq<OutboundFrame>) -> Seq<u8>
    decreases frames.len(),
{
    if frames.len() == 0 {
        Seq::empty()
    } else {
        frames[0].bytes@.skip(frames[0].offset as int) + outbound(frames.drop_first())
    }
}

/// The host gets every byte of every frame once and in order: what is sent next are the first
/// bytes that are left, with the first frame's descriptor, and sending so many leaves exactly
/// those behind them.
pub proof fn law_frames_are_sent_byte_by_byte(handle: ControlHandle, budget: usize, count: usize)
    requires
        handle.wf(),
        handle.frames@.len() > 0,
        budget > 0,
    ensures
        handle.next_send_spec(budget) matches SendStep::Send { from, len, fd } && {
            &&& 0 < len <= budget
            &&& from + len <= handle.frames@[0].bytes@.len()
            &&& len == budget || from + len == handle.frames@[0].bytes@.len()
            &&& fd == handle.frames@[0].fd
            &&& handle.frames@[0].bytes@.subrange(from as int, from + len) == outbound(
                handle.frames@,
            ).take(len as int)
            &&& 0 < count <= len ==> outbound(frames_sent(handle.frames@, count)) == outbound(
                handle.frames@,
            ).skip(count as int)
        },
{
    let frames = handle.frames@;
    let frame = frames[0];
    let bytes = frame.bytes@;
    let left = bytes.skip(frame.offset as int);
    let rest = outbound(frames.drop_first());
    assert(frame.bytes.len() <= usize::MAX);
    assert(frame.offset < bytes.len());
    let len: int = if bytes.len() - frame.offset < budget {
        bytes.len() - frame.offset
    } else {
        budget as int
    };
    assert(outbound(frames) == left + rest);
    assert(bytes.subrange(frame.offset as int, frame.offset + len) =~= (left + rest).take(len));
    if 0 < count <= len {
        let after = frames_sent(frames, count);
        if frame.offset + count == bytes.len() {
            assert(after =~= frames.drop_first());
            assert((left + rest).skip(count as int) =~= rest);
        } else {
            assert(after.drop_first() =~= frames.drop_first());
            assert(bytes.skip(frame.offset + count) =~= left.skip(count as int));
            assert((left + rest).skip(count as int) =~= left.skip(count as int) + rest);
        }
    }
}

/// Descriptors are taken exactly if each is one that could be told and is none of the protected
/// sockets.
pub proof fn law_only_unprotected_descriptors_are_taken(
    received: Seq<ReceivedFd>,
    protected: Seq<UnixSocketIdentity>,
    from: int,
)
    requires
        0 <= from <= received.len(),
    ensures
        received_spec(received, protected, from) is None <==> forall|i: int|
            from <= i < received.len() ==> ((#[trigger] received[i]).identity is Ok
                && !protected.contains(received[i].identity->Ok_0)),
    decreases received.len() - from,
{
    if from < received.len() {
        law_only_unprotected_descriptors_are_taken(received, protected, from + 1);
        if received[from].identity is Ok && !protected.contains(received[from].identity->Ok_0) {
            assert forall|i: int|
                from <= i < received.len() && (forall|j: int|
                    from + 1 <= j < received.len() ==> ((#[trigger] received[j]).identity is Ok
                        && !protected.contains(received[j].identity->Ok_0))) implies (
            #[trigger] received[i]).identity is Ok && !protected.contains(
                received[i].identity->Ok_0,
            ) by {
            }
        } else {
            assert(!(received[from].identity is Ok) || protected.contains(
                received[from].identity->Ok_0,
            ));
        }
    }
}

/// The host's two bits for data and descriptors that were cut off.
pub proof fn law_truncation_is_two_bits()
    ensures
        truncation_bits(HostPlatform::Linux) == 0x20 | 0x08,
        truncation_bits(HostPlatform::Windows) == 0x20 | 0x08,
        truncation_bits(HostPlatform::Macos) == 0x10 | 0x20,
{
    assert(0x20i32 | 0x08 == 0x28 && 0x10i32 | 0x20 == 0x30) by (bit_vector);
}

/// A line is collected byte by byte up to its end. A byte that is no part of a line, a line that
/// is too long and a descriptor out of place end the channel, each for its own reason; the
/// descriptor of a line is the one that came with its first byte.
pub proof fn law_lines_are_collected_byte_by_byte(
    proxy: ControlProxy,
    now: u64,
    byte: u8,
    fds: Seq<i32>,
)
    requires
        proxy.wf(),
        now + 5_000_000_000 <= u64::MAX,
    ensures
        ({
            let outcome = proxy.byte_spec(now, byte, fds);
            let first = proxy.line@.len() == 0;
            let misplaced = fds.len() > 1 || (fds.len() > 0 && !first);
            let spoilt = byte >= 128 || proxy.line@.len() >= 64;
            let fd = if first && fds.len() == 1 {
                Some(fds[0])
            } else {
                proxy.line_fd
            };
            &&& misplaced <==> outcome.result == Err::<Option<Incoming>, ControlError>(
                ControlError::AncillaryMisplaced,
            )
            &&& !misplaced && spoilt ==> outcome.result == Err::<Option<Incoming>, ControlError>(
                ControlError::FrameInvalidByte,
            )
            &&& !misplaced && !spoilt && byte != 10 ==> {
                &&& outcome.result == Ok::<Option<Incoming>, ControlError>(None)
                &&& outcome.line == proxy.line@.push(byte)
                &&& outcome.line_fd == fd
                &&& outcome.line_deadline == if first {
                    Some((now + 5_000_000_000) as u64)
                } else {
                    proxy.line_deadline
                }
            }
            &&& !misplaced && !spoilt && byte == 10 ==> {
                &&& outcome.line.len() == 0
                &&& outcome.line_fd is None
                &&& outcome.line_deadline is None
                &&& outcome.result is Ok ==> outcome.result->Ok_0 is Some && parse_line_spec(
                    proxy.line@.push(10),
                    fd,
                ) == Ok::<Incoming, ControlError>(outcome.result->Ok_0->0)
                &&& outcome.result is Err ==> parse_line_spec(proxy.line@.push(10), fd) is Err
            }
        }),
{
    lemma_parse_errors(proxy.line@.push(byte));
}

proof fn lemma_parse_errors(line: Seq<u8>)
    ensures
        forall|fd: Option<i32>|
            (#[trigger] parse_line_spec(line, fd)) != Err::<Incoming, ControlError>(
                ControlError::AncillaryMisplaced,
            ),
{
}

/// The words of the protocol, letter by letter, and the frames that are made of them: a request
/// says its number, the host's port and the guest's port, in this order, and ends its line.
pub proof fn law_frames_say_what_they_mean(request_id: u32, host_port: u32, guest_port: u32)
    ensures
        word_connect() == seq!['C' as u8, 'O' as u8, 'N' as u8, 'N' as u8, 'E' as u8, 'C' as u8,
            'T' as u8],
        word_ok() == seq!['O' as u8, 'K' as u8],
        word_reject() == seq!['R' as u8, 'E' as u8, 'J' as u8, 'E' as u8, 'C' as u8, 'T' as u8],
        ({
            let line = connect_frame_spec(request_id, host_port, guest_port);
            let a = decimal(request_id as nat).len() as int;
            let b = decimal(host_port as nat).len() as int;
            let c = decimal(guest_port as nat).len() as int;
            &&& line.len() == a + b + c + 11
            &&& line.take(7) == word_connect()
            &&& line[7] == 32 && line[8 + a] == 32 && line[9 + a + b] == 32 && line[10 + a + b + c]
                == 10
            &&& value_of(line.subrange(8, 8 + a)) == request_id
            &&& value_of(line.subrange(9 + a, 9 + a + b)) == host_port
            &&& value_of(line.subrange(10 + a + b, 10 + a + b + c)) == guest_port
        }),
        ({
            let line = ok_line_spec(host_port);
            let b = decimal(host_port as nat).len() as int;
            &&& line.len() == b + 4
            &&& line.take(2) == word_ok()
            &&& line[2] == 32 && line[3 + b] == 10
            &&& value_of(line.subrange(3, 3 + b)) == host_port
        }),
{
    let line = connect_frame_spec(request_id, host_port, guest_port);
    let first = decimal(request_id as nat);
    let second = decimal(host_port as nat);
    let third = decimal(guest_port as nat);
    let a = first.len() as int;
    let b = second.len() as int;
    let c = third.len() as int;
    law_decimal_is_canonical(request_id as nat);
    law_decimal_is_canonical(host_port as nat);
    law_decimal_is_canonical(guest_port as nat);
    assert(line.take(7) =~= word_connect());
    assert(line.subrange(8, 8 + a) =~= first);
    assert(line.subrange(9 + a, 9 + a + b) =~= second);
    assert(line.subrange(10 + a + b, 10 + a + b + c) =~= third);
    let ok = ok_line_spec(host_port);
    assert(ok.take(2) =~= word_ok());
    assert(ok.subrange(3, 3 + b) =~= second);
}

/// A request is taken exactly if the channel is in use, the connection does not wait already, and
/// there is room: for 1024 requests, 2048 frames, 1024 descriptors and 128 kibibytes.
pub proof fn law_requests_are_taken_while_there_is_room(
    handle: ControlHandle,
    line: nat,
    proxy_id: u64,
    at: int,
)
    ensures
        !handle.active ==> handle.refuses(line, proxy_id),
        handle.pending@.len() >= 1024 || handle.frames@.len() >= 2048 || handle.queued_fds >= 1024
            || handle.queued_bytes + line > 0x2_0000 ==> handle.refuses(line, proxy_id),
        0 <= at < handle.pending@.len() && handle.pending@[at].proxy_id == proxy_id
            ==> handle.refuses(line, proxy_id),
        handle.active && handle.pending@.len() < 1024 && handle.frames@.len() < 2048
            && handle.queued_fds < 1024 && handle.queued_bytes + line <= 0x2_0000 && (forall|i: int|
            0 <= i < handle.pending@.len() ==> (#[trigger] handle.pending@[i]).proxy_id != proxy_id)
            ==> !handle.refuses(line, proxy_id),
{
    if 0 <= at < handle.pending@.len() && handle.pending@[at].proxy_id == proxy_id {
        assert(waits(handle.pending@, proxy_id, at));
    }
}

/// A frame counts as sent in part exactly if some of its bytes are sent and it still stands in
/// the queue. Without it the other frames stay, in order.
pub proof fn law_started_frames_are_known(
    frames: Seq<OutboundFrame>,
    request_id: u32,
    at: int,
    other: int,
)
    requires
        frames_wf(frames),
        0 <= at < frames.len(),
        frames[at].request_id == request_id,
    ensures
        partly_sent(frames, request_id) <==> frames[at].offset > 0,
        without_frame(frames, request_id).len() == frames.len() - 1,
        0 <= other < at ==> without_frame(frames, request_id)[other] == frames[other],
        at < other < frames.len() ==> without_frame(frames, request_id)[other - 1] == frames[other],
{
    assert(frame_at(frames, request_id, at));
    let found = choose|i: int| frame_at(frames, request_id, i);
    assert(frame_at(frames, request_id, found));
    if found < at {
        assert(frames[found].request_id != frames[at].request_id);
    } else if at < found {
        assert(frames[at].request_id != frames[found].request_id);
    }
}

/// Of a request that has no frame in the queue nothing is sent in part, and the queue stays.
pub proof fn law_absent_frames_change_nothing(frames: Seq<OutboundFrame>, request_id: u32)
    requires
        forall|i: int| 0 <= i < frames.len() ==> (#[trigger] frames[i]).request_id != request_id,
    ensures
        !partly_sent(frames, request_id),
        without_frame(frames, request_id) == frames,
{
}

/// While no frame is sent in part, requests whose time is over are given up without harm to the
/// channel. The channel fails over the first of them whose frame is.
pub proof fn law_unsent_requests_are_given_up_safely(
    frames: Seq<OutboundFrame>,
    pending: Seq<PendingRequest>,
    ids: Seq<u32>,
)
    ensures
        (forall|i: int| 0 <= i < frames.len() ==> (#[trigger] frames[i]).offset == 0) ==> !expiry(
            frames,
            pending,
            ids,
        ).failed,
        ids.len() > 0 && partly_sent(frames, ids[0]) ==> expiry(frames, pending, ids).failed,
        ids.len() == 0 ==> expiry(frames, pending, ids).frames == frames && expiry(
            frames,
            pending,
            ids,
        ).pending == pending,
    decreases ids.len(),
{
    let untouched = forall|i: int| 0 <= i < frames.len() ==> (#[trigger] frames[i]).offset == 0;
    if ids.len() > 0 && untouched {
        let id = ids.first();
        if exists|at: int| frame_at(frames, id, at) {
            let at = choose|at: int| frame_at(frames, id, at);
            assert(frame_at(frames, id, at));
            assert(frames[at].offset == 0);
        }
        let rest = without_frame(frames, id);
        assert forall|i: int| 0 <= i < rest.len() implies (#[trigger] rest[i]).offset == 0 by {
            assert(rest[i] == frames[i] || rest[i] == frames[i + 1]);
        }
        law_unsent_requests_are_given_up_safely(
            rest,
            without_pending(pending, id),
            ids.drop_first(),
        );
    }
}

/// One turn of reading takes in fewer than 2048 bytes and 32 messages before it goes on.
pub proof fn law_turns_of_reading_are_bounded(turn: ReadTurn)
    ensures
        turn.open_spec() <==> turn.bytes_read < 2048 && turn.messages@.len() < 32,
{
}

/// Nothing is sent exactly where no frame waits. Where one waits and nothing may be sent the
/// channel pauses; otherwise the first frame goes on where it stopped, as far as is allowed.
pub proof fn law_sending_goes_on_while_allowed(handle: ControlHandle, budget: usize)
    requires
        frames_wf(handle.frames@),
    ensures
        handle.next_send_spec(budget) == SendStep::Idle <==> handle.frames@.len() == 0,
        handle.next_send_spec(budget) == SendStep::Paused <==> handle.frames@.len() > 0 && budget
            == 0,
        handle.frames@.len() > 0 && budget > 0 ==> {
            &&& handle.next_send_spec(budget) matches SendStep::Send { from, len, fd }
            &&& from == handle.frames@[0].offset && fd == handle.frames@[0].fd
            &&& from + len <= handle.frames@[0].bytes@.len() && len <= budget
            &&& from + len == handle.frames@[0].bytes@.len() || len == budget
        },
{
}

} // verus!
