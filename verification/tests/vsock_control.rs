use vmm_core::events::EventSet;
use vmm_core::platform::HostPlatform;
use vmm_core::vsock::control::{
    validate_received_fds, ControlHandle, ControlProxy, ReadReply, ReadTurn, ReceivedFd,
    SendReply, SendStep, UnixSocketIdentity, MAX_LINE_BYTES, MAX_PENDING, RECEIVE_BYTE_BUDGET,
    RECEIVE_FRAME_BUDGET, REQUEST_TIMEOUT,
};
use vmm_core::vsock::frame::{connect_frame, ok_line, parse_line, ControlError, Incoming};
use vmm_core::vsock::muxer_thread::{
    begin_turn, event_source, service_control, turn_timeout, update_control_polling, wait_timeout,
    woken, ControlWork, EventSource, CONTROL_EVENT, CONTROL_WAKE_EVENT,
};

const SECOND: u64 = 1_000_000_000;

const OWN: UnixSocketIdentity = UnixSocketIdentity {
    device: 1,
    inode: 1,
};

fn control() -> ControlProxy {
    ControlProxy::new(3, OWN, vec![])
}

fn read_at(
    control: &mut ControlProxy,
    now: u64,
    bytes: &[u8],
    fds: &[i32],
) -> Result<Vec<Incoming>, ControlError> {
    let mut turn = ReadTurn::new();
    for (place, byte) in bytes.iter().enumerate() {
        if !turn.wants_byte() {
            break;
        }
        let fds = if place == 0 { fds.to_vec() } else { vec![] };
        turn.take(control, now, ReadReply::Byte { byte: *byte, fds })?;
    }
    if turn.wants_byte() {
        assert_eq!(turn.take(control, now, ReadReply::WouldBlock), Ok(false));
    }
    Ok(turn.messages)
}

/// Sends up to so many bytes, and says whether everything was sent.
fn flush_limited(
    handle: &mut ControlHandle,
    limit: usize,
    sent: &mut Vec<(Vec<u8>, Option<i32>)>,
) -> Result<bool, ControlError> {
    let mut budget = limit;
    loop {
        match handle.next_send(budget)? {
            SendStep::Idle => return Ok(true),
            SendStep::Paused => return Ok(false),
            SendStep::Send { from, len, fd } => {
                sent.push((handle.frames[0].bytes[from..from + len].to_vec(), fd));
                handle.sent(budget, SendReply::Written(len))?;
                budget -= len;
            }
        }
    }
}

#[test]
fn parser_requires_canonical_frames_and_rights() {
    assert!(parse_line(&b"OK 0\n".to_vec(), None).is_ok());
    assert!(parse_line(&b"OK 01\n".to_vec(), None).is_err());
    assert!(parse_line(&b"CONNECT 4\n".to_vec(), None).is_err());
    assert!(matches!(
        parse_line(&b"CONNECT 4\n".to_vec(), Some(5)),
        Ok(Incoming::Connect { port: 4, .. })
    ));
}

#[test]
fn lines_are_refused_for_what_is_wrong_with_them() {
    for (line, fd, error) in [
        (&b"OK 1"[..], None, ControlError::Unterminated),
        (&b"OK 01\n"[..], None, ControlError::NotCanonical),
        (&b"OK \n"[..], None, ControlError::NotCanonical),
        (&b"OK x\n"[..], None, ControlError::NotCanonical),
        (&b"OK 4294967296\n"[..], None, ControlError::OutOfRange),
        (&b"CONNECT 4\n"[..], None, ControlError::MissingFd),
        (&b"NOPE 4\n"[..], None, ControlError::InvalidFrame),
        (&b"OK 4\n"[..], Some(3), ControlError::InvalidFrame),
    ] {
        assert_eq!(parse_line(&line.to_vec(), fd), Err(error));
    }
    assert_eq!(
        parse_line(&b"REJECT 4294967295\n".to_vec(), None),
        Ok(Incoming::Reject(u32::MAX))
    );
    assert_eq!(connect_frame(1, 9, 7), b"CONNECT 1 9 7\n");
    assert_eq!(ok_line(70), b"OK 70\n");
    assert_eq!(parse_line(&ok_line(70), None), Ok(Incoming::Admit(70)));
}

#[test]
fn fragmented_real_socket_frame_keeps_first_byte_fd() {
    let mut control = control();
    assert!(read_at(&mut control, 0, b"C", &[9]).unwrap().is_empty());
    let messages = read_at(&mut control, 0, b"ONNECT 42\n", &[]).unwrap();
    assert_eq!(messages, vec![Incoming::Connect { port: 42, fd: 9 }]);
    assert_eq!(control.line_fd, None);
}

#[test]
fn split_frame_progress_transfers_rights_once_and_preserves_alignment() {
    let mut handle = ControlHandle::new();
    handle.enqueue_connect(9, 7, 1, 5, 0).unwrap();
    assert_eq!(handle.held_fds(), vec![5]);
    let mut sent = Vec::new();
    assert!(!flush_limited(&mut handle, 1, &mut sent).unwrap());
    assert_eq!(sent, vec![(b"C".to_vec(), Some(5))]);
    assert_eq!(handle.held_fds(), vec![]);

    sent.clear();
    assert!(flush_limited(&mut handle, 4096, &mut sent).unwrap());
    assert_eq!(sent, vec![(b"ONNECT 1 9 7\n".to_vec(), None)]);
}

#[test]
fn protected_socket_alias_is_rejected_and_received_copy_is_closed() {
    let protected = UnixSocketIdentity {
        device: 4,
        inode: 2,
    };
    let control = ControlProxy::new(3, OWN, vec![protected]);
    for identity in [protected, OWN] {
        assert_eq!(
            validate_received_fds(
                HostPlatform::Linux,
                0,
                false,
                &vec![ReceivedFd {
                    identity: Ok(identity)
                }],
                &control.protected_identities
            ),
            Err(ControlError::ProtectedEndpoint)
        );
    }
    assert_eq!(control.line_fd, None);
}

#[test]
fn truncated_ancillary_rejects_and_drops_every_exposed_right() {
    let received = vec![ReceivedFd {
        identity: Ok(UnixSocketIdentity {
            device: 4,
            inode: 2,
        }),
    }];
    for (platform, flag) in [
        (HostPlatform::Linux, 0x8),
        (HostPlatform::Linux, 0x20),
        (HostPlatform::Macos, 0x10),
        (HostPlatform::Macos, 0x20),
    ] {
        assert_eq!(
            validate_received_fds(platform, flag, false, &received, &vec![]),
            Err(ControlError::AncillaryTruncated)
        );
    }
    assert_eq!(
        validate_received_fds(HostPlatform::Linux, 0, true, &received, &vec![]),
        Err(ControlError::AncillaryTruncated)
    );
    assert_eq!(
        validate_received_fds(HostPlatform::Linux, 0, false, &received, &vec![]),
        Ok(())
    );
    assert_eq!(
        validate_received_fds(
            HostPlatform::Linux,
            0,
            false,
            &vec![ReceivedFd { identity: Err(88) }],
            &vec![]
        ),
        Err(ControlError::DescriptorRejected(88))
    );
}

#[test]
fn adjacent_frames_assign_rights_to_the_correct_first_byte() {
    let mut control = control();
    let messages = read_at(&mut control, 0, b"CONNECT 8\nOK 19\n", &[6]).unwrap();
    assert!(matches!(messages[0], Incoming::Connect { port: 8, .. }));
    assert!(matches!(messages[1], Incoming::Admit(19)));
}

#[test]
fn missing_and_excess_rights_are_fatal() {
    let mut first = control();
    assert_eq!(
        read_at(&mut first, 0, b"CONNECT 8\n", &[]),
        Err(ControlError::MissingFd)
    );

    let mut second = control();
    assert_eq!(
        read_at(&mut second, 0, b"CONNECT 8\n", &[6, 7]),
        Err(ControlError::AncillaryMisplaced)
    );
    assert_eq!(second.line_fd, None);

    let mut late = control();
    assert!(read_at(&mut late, 0, b"CON", &[]).unwrap().is_empty());
    assert_eq!(
        read_at(&mut late, 0, b"N", &[6]),
        Err(ControlError::AncillaryMisplaced)
    );
}

#[test]
fn cancelled_and_partial_expired_frames_have_distinct_outcomes() {
    let mut handle = ControlHandle::new();
    let request_id = handle.enqueue_connect(9, 7, 44, 5, 0).unwrap();
    assert_eq!(handle.pending[0].request_id, request_id);
    handle.pending[0].deadline = SECOND;
    handle.frames[0].deadline = SECOND;
    assert_eq!(handle.expire(SECOND), (vec![44], false));
    assert_eq!(handle.held_fds(), vec![]);

    handle.enqueue_connect(9, 7, 45, 6, SECOND).unwrap();
    handle.pending[0].deadline = SECOND;
    handle.frames[0].deadline = SECOND;
    handle.frames[0].offset = 1;
    assert_eq!(handle.expire(SECOND), (Vec::new(), true));
}

#[test]
fn cancellation_drops_unsent_frame_and_fences_partial_frame() {
    let mut handle = ControlHandle::new();
    handle.enqueue_connect(9, 7, 66, 5, 0).unwrap();
    handle.cancel_proxy(66);
    assert!(!handle.wants_write());
    assert!(handle.is_active());
    assert_eq!(handle.held_fds(), vec![]);

    handle.enqueue_connect(9, 7, 67, 6, 0).unwrap();
    handle.frames[0].offset = 1;
    handle.cancel_proxy(67);
    assert!(!handle.is_active());
}

#[test]
fn duplicate_pending_proxy_preserves_original_endpoint_and_request_id() {
    let mut handle = ControlHandle::new();
    assert_eq!(handle.enqueue_connect(9, 7, 88, 5, 0).unwrap(), 1);
    let duplicate = handle.enqueue_connect(9, 7, 88, 6, 0).unwrap_err();
    assert_eq!(duplicate, 6);
    assert_eq!(handle.enqueue_connect(10, 8, 89, 7, 0).unwrap(), 2);
    assert_eq!(handle.take_pending(1), Some(88));
    assert_eq!(handle.held_fds(), vec![5, 7]);
}

#[test]
fn duplicate_reply_is_late_and_control_half_close_is_failure() {
    let mut control = control();
    let mut handle = ControlHandle::new();
    let request_id = handle.enqueue_connect(9, 7, 55, 5, 0).unwrap();
    assert_eq!(handle.take_pending(request_id), Some(55));
    assert_eq!(handle.take_pending(request_id), None);
    let mut turn = ReadTurn::new();
    assert_eq!(
        turn.take(&mut control, 0, ReadReply::EndOfFile),
        Err(ControlError::EndOfFile)
    );
    assert_eq!(
        turn.take(&mut control, 0, ReadReply::Failed(104)),
        Err(ControlError::ReceiveFailed(104))
    );
}

#[test]
fn stopped_reader_does_not_block_outbound_progress() {
    let mut handle = ControlHandle::new();
    for proxy_id in 0..MAX_PENDING as u64 {
        handle.enqueue_connect(9, 7, proxy_id, 5, 0).unwrap();
    }
    assert!(handle
        .enqueue_connect(9, 7, MAX_PENDING as u64, 6, 0)
        .is_err());
    assert_eq!(handle.sent(64, SendReply::WouldBlock), Ok(false));
    assert!(handle.wants_write());
}

#[test]
fn queue_waker_and_deadline_drive_real_readiness_waits() {
    let mut handle = ControlHandle::new();
    assert!(!handle.wake);
    assert_eq!(handle.next_timeout_ms(0), -1);
    handle.enqueue_connect(9, 7, 90, 5, 0).unwrap();
    assert!(handle.wake);
    handle.drain_wake();
    assert!(!handle.wake);

    let deadline = 20_000_000;
    handle.pending[0].deadline = deadline;
    handle.frames[0].deadline = deadline;
    assert_eq!(handle.next_timeout_ms(0), 20);
    assert_eq!(handle.expire(deadline - 1), (vec![], false));
    assert_eq!(handle.expire(deadline), (vec![90], false));
}

#[test]
fn partial_frame_deadline_starts_with_first_byte_and_does_not_renew() {
    let mut control = control();
    let mut handle = ControlHandle::new();
    let started = 7 * SECOND;
    assert!(read_at(&mut control, started, b"C", &[9])
        .unwrap()
        .is_empty());
    assert!(read_at(&mut control, started + 4 * SECOND, b"ON", &[])
        .unwrap()
        .is_empty());
    assert!(!control.partial_expired(started + REQUEST_TIMEOUT - 1));
    assert!(control.partial_expired(started + REQUEST_TIMEOUT));
    assert_eq!(
        control.partial_timeout_ms(started + 4 * SECOND),
        Some(1000)
    );
    control.close(&mut handle);
    assert_eq!(control.line_fd, None);
}

#[test]
fn receive_flood_is_bounded_and_leaves_readiness_for_outbound_progress() {
    let mut control = control();
    let mut handle = ControlHandle::new();
    let flood = b"OK 1\n".repeat(RECEIVE_FRAME_BUDGET * 2);
    handle.enqueue_connect(9, 7, 91, 5, 0).unwrap();

    let messages = read_at(&mut control, 0, &flood, &[]).unwrap();
    assert_eq!(messages.len(), RECEIVE_FRAME_BUDGET);
    let mut sent = Vec::new();
    assert!(flush_limited(&mut handle, 4096, &mut sent).unwrap());
    assert_eq!(sent, vec![(b"CONNECT 1 9 7\n".to_vec(), Some(5))]);
    let rest = &flood[RECEIVE_FRAME_BUDGET * 5..];
    assert_eq!(
        read_at(&mut control, 0, rest, &[]).unwrap().len(),
        RECEIVE_FRAME_BUDGET
    );
}

#[test]
fn mutex_poison_fences_wakes_and_drops_queued_rights() {
    let mut handle = ControlHandle::new();
    handle.enqueue_connect(9, 7, 92, 5, 0).unwrap();
    handle.drain_wake();
    handle.fence();
    assert!(!handle.is_active());
    assert!(handle.wake);
    assert_eq!(handle.held_fds(), vec![]);
    assert_eq!(handle.next_send(64), Err(ControlError::Fenced));
    assert_eq!(handle.enqueue_connect(9, 7, 93, 6, 0), Err(6));
}

#[test]
fn closing_control_cancels_queued_fds_and_pending_requests() {
    let mut control = control();
    let mut handle = ControlHandle::new();
    handle.enqueue_connect(9, 7, 77, 5, 0).unwrap();
    assert_eq!(control.close(&mut handle), vec![77]);
    assert_eq!(handle.held_fds(), vec![]);
    assert_eq!(control.fd, None);
}

#[test]
fn used_up_request_numbers_end_the_channel() {
    let mut handle = ControlHandle::new();
    handle.next_request_id = u32::MAX;
    assert_eq!(handle.enqueue_connect(9, 7, 1, 5, 0), Ok(u32::MAX));
    assert_eq!(
        woken(&mut handle),
        Some(ControlWork {
            read: false,
            flush: true,
        })
    );
    assert!(!handle.wake);
    assert_eq!(handle.enqueue_connect(9, 7, 2, 6, 0), Err(6));
    assert_eq!(woken(&mut handle), None);
    assert!(!handle.is_active());
}

#[test]
fn sending_without_progress_fails() {
    let mut handle = ControlHandle::new();
    handle.enqueue_connect(9, 7, 1, 5, 0).unwrap();
    assert_eq!(
        handle.sent(64, SendReply::Written(0)),
        Err(ControlError::NoProgress)
    );
    assert_eq!(
        handle.sent(64, SendReply::Failed(32)),
        Err(ControlError::SendFailed(32))
    );
    assert_eq!(handle.held_fds(), vec![5]);
}

#[test]
fn lines_are_bounded_and_plain() {
    let mut long = control();
    assert_eq!(
        read_at(&mut long, 0, &[b'1'; MAX_LINE_BYTES + 1], &[]),
        Err(ControlError::FrameInvalidByte)
    );
    let mut wide = control();
    assert_eq!(
        read_at(&mut wide, 0, &[0x80], &[]),
        Err(ControlError::FrameInvalidByte)
    );
    assert!(RECEIVE_BYTE_BUDGET >= MAX_LINE_BYTES * RECEIVE_FRAME_BUDGET);
}

#[test]
fn turns_start_with_the_deadlines() {
    let mut late = control();
    let mut handle = ControlHandle::new();
    handle.enqueue_connect(9, 7, 11, 5, 0).unwrap();
    read_at(&mut late, 0, b"O", &[]).unwrap();
    assert_eq!(turn_timeout(&late, &handle, 0), 5000);
    let start = begin_turn(&mut late, &mut handle, REQUEST_TIMEOUT);
    assert!(start.failed);
    assert_eq!(start.ended, vec![11]);

    let mut control = control();
    let mut handle = ControlHandle::new();
    handle.enqueue_connect(9, 7, 12, 5, 0).unwrap();
    let start = begin_turn(&mut control, &mut handle, REQUEST_TIMEOUT);
    assert!(!start.failed);
    assert_eq!(start.expired, vec![12]);
    assert_eq!(control.fd, Some(3));
}

#[test]
fn events_are_told_apart() {
    assert_eq!(event_source(true, CONTROL_EVENT), EventSource::Control);
    assert_eq!(
        event_source(true, CONTROL_WAKE_EVENT),
        EventSource::ControlWake
    );
    assert_eq!(
        event_source(false, CONTROL_EVENT),
        EventSource::Proxy(CONTROL_EVENT)
    );
    assert_eq!(event_source(true, 7), EventSource::Proxy(7));
    let work = service_control(EventSet::writable());
    assert!(!work.read && work.flush);
    assert!(service_control(EventSet::readable()).read);
    assert!(update_control_polling(true).output);
    assert!(!update_control_polling(false).output);
    assert_eq!(wait_timeout(-1, 7), 7);
    assert_eq!(wait_timeout(7, -1), 7);
    assert_eq!(wait_timeout(9, 7), 7);
    assert_eq!(wait_timeout(-1, -1), -1);
}
