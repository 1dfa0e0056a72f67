use paperd::messages::{handle_message, Reply, Request, ServerErrorMessage};
use paperd::messaging::{receive_decision, request_frame, send_outcome, FrameReader, ReadStep, ReceiveDecision};
use paperd::protocol::{check_protocol_version, jar_protocol_matches, PROTOCOL_VERSION};
use paperd::session::{ClientSession, Command, ReplyKind, SessionAction, SessionEvent, Stage};
use paperd::transfer::{IoFailure, Transfer, TransferEvent, TransferStep, TIMEOUT_MILLIS};
use paperd::util::{exit_code, int_text, ExitValue, Failure};
use paperd::wire::{read_i64, read_meta, send_meta, write_i64, Message, MessageHeader};

#[test]
fn header_bytes_are_big_endian() {
    let h = MessageHeader { message_type: 3, message_length: 258 };
    assert_eq!(send_meta(&h), vec![0, 0, 0, 0, 0, 0, 0, 3, 0, 0, 0, 0, 0, 0, 1, 2]);
    assert_eq!(read_meta(&send_meta(&h)), h);
}

#[test]
fn negative_integers_round_trip() {
    let mut b = Vec::new();
    write_i64(&mut b, -2);
    assert_eq!(b, vec![255, 255, 255, 255, 255, 255, 255, 254]);
    assert_eq!(read_i64(&b, 0), -2);
    let mut c = Vec::new();
    write_i64(&mut c, i64::MIN);
    assert_eq!(read_i64(&c, 0), i64::MIN);
}

#[test]
fn frame_round_trip() {
    for (t, s) in [(3i64, ""), (9, "héllo wörld §c"), (0, "{}"), (-5, "x")] {
        let m = Message::new(t, s.to_string());
        assert_eq!(m.header.message_length as usize, s.len());
        let bytes = m.encode();
        assert_eq!(bytes.len(), 16 + s.len());
        let back = Message::decode(&bytes).unwrap();
        assert_eq!(back.header.message_type, t);
        assert_eq!(back.message_text, s);
    }
}

#[test]
fn decode_rejects_bad_frames() {
    let mut bytes = Message::new(1, "abc".to_string()).encode();
    bytes.push(b'd');
    assert!(Message::decode(&bytes).is_none());
    let mut bad = Vec::new();
    write_i64(&mut bad, 1);
    write_i64(&mut bad, 2);
    bad.push(0xff);
    bad.push(0xfe);
    assert!(Message::decode(&bad).is_none());
    assert!(Message::decode(&vec![0u8; 10]).is_none());
}

#[test]
fn request_frames_carry_type_ids() {
    let m = request_frame(&Request::Status, "{}".to_string());
    assert_eq!(m.header.message_type, 3);
    assert_eq!(Request::ProtocolVersion.type_id(), 0);
    assert_eq!(Request::TabComplete("a".to_string()).type_id(), 9);
    assert_eq!(Request::EndLogs(1).type_id(), 7);
    assert!(Request::Timings.expects_reply());
    assert!(!Request::SendCommand("x".to_string()).expects_reply());
    assert!(!Request::Stop.expects_reply());
}

#[test]
fn writes_in_one_byte_chunks_complete() {
    let mut t = Transfer::new(5, false, 0);
    for i in 0..4u64 {
        assert_eq!(t.on_event(TransferEvent::Moved { count: 1, now_ms: i * 400 }), TransferStep::Continue);
    }
    assert_eq!(t.on_event(TransferEvent::Moved { count: 1, now_ms: 1600 }), TransferStep::Complete);
    assert_eq!(t.done, 5);
}

#[test]
fn silence_without_data_times_out() {
    let mut t = Transfer::new(16, false, 1000);
    assert_eq!(t.on_event(TransferEvent::WouldBlock { now_ms: 1000 + TIMEOUT_MILLIS }), TransferStep::Continue);
    assert_eq!(t.on_event(TransferEvent::WouldBlock { now_ms: 1000 + TIMEOUT_MILLIS + 1 }), TransferStep::TimedOut);
}

#[test]
fn silence_after_one_byte_is_a_stall() {
    let mut t = Transfer::new(16, false, 0);
    assert_eq!(t.on_event(TransferEvent::Moved { count: 1, now_ms: 10 }), TransferStep::Continue);
    assert_eq!(t.on_event(TransferEvent::WouldBlock { now_ms: 600 }), TransferStep::Stalled);
}

#[test]
fn payload_silence_is_a_stall() {
    let mut t = Transfer::new(4, true, 0);
    assert_eq!(t.on_event(TransferEvent::WouldBlock { now_ms: 501 }), TransferStep::Stalled);
}

#[test]
fn progress_restarts_the_window() {
    let mut t = Transfer::new(3, false, 0);
    assert_eq!(t.on_event(TransferEvent::Moved { count: 1, now_ms: 450 }), TransferStep::Continue);
    assert_eq!(t.on_event(TransferEvent::WouldBlock { now_ms: 900 }), TransferStep::Continue);
    assert_eq!(t.on_event(TransferEvent::Moved { count: 1, now_ms: 940 }), TransferStep::Continue);
    assert_eq!(t.on_event(TransferEvent::Moved { count: 1, now_ms: 1400 }), TransferStep::Complete);
}

#[test]
fn empty_receive_means_peer_closed() {
    let mut t = Transfer::new(3, false, 0);
    assert_eq!(t.on_event(TransferEvent::Moved { count: 0, now_ms: 1 }), TransferStep::PeerClosed);
    let mut u = Transfer::new(3, false, 0);
    assert_eq!(u.on_event(TransferEvent::Failed(IoFailure::Other)), TransferStep::Failed(IoFailure::Other));
}

#[test]
fn frame_reader_assembles_small_chunks() {
    let bytes = Message::new(5, "timings ✓".to_string()).encode();
    let mut r = FrameReader::new(0);
    let mut result = None;
    let mut at = 0;
    let mut clock = 0u64;
    while result.is_none() {
        let n = std::cmp::min(3, r.wanted());
        assert!(n >= 1);
        match r.on_received(&bytes[at..at + n], clock) {
            ReadStep::Continue => {}
            ReadStep::Done(m) => result = Some(m),
            other => panic!("unexpected {:?}", other),
        }
        at += n;
        clock += 100;
    }
    assert_eq!(at, bytes.len());
    let m = result.unwrap();
    assert_eq!(m.header.message_type, 5);
    assert_eq!(m.message_text, "timings ✓");
}

#[test]
fn frame_reader_handles_empty_payload_and_errors() {
    let bytes = Message::new(8, String::new()).encode();
    let mut r = FrameReader::new(0);
    match r.on_received(&bytes, 1) {
        ReadStep::Done(m) => assert_eq!(m.header.message_type, 8),
        other => panic!("unexpected {:?}", other),
    }
    let mut neg = Vec::new();
    write_i64(&mut neg, 1);
    write_i64(&mut neg, -1);
    let mut r2 = FrameReader::new(0);
    assert!(matches!(r2.on_received(&neg, 1), ReadStep::Malformed));
    let mut r3 = FrameReader::new(0);
    assert!(matches!(r3.on_received(&bytes[..4], 1), ReadStep::Continue));
    assert_eq!(r3.on_would_block(700), TransferStep::Stalled);
    let mut r4 = FrameReader::new(0);
    assert_eq!(r4.on_would_block(501), TransferStep::TimedOut);
}

#[test]
fn frame_reader_ends_on_an_empty_receive() {
    let mut r = FrameReader::new(0);
    assert_eq!(r.on_received(&[], 1), ReadStep::Ended(TransferStep::PeerClosed));
    let bytes = Message::new(2, "ab".to_string()).encode();
    let mut r2 = FrameReader::new(0);
    assert_eq!(r2.on_received(&bytes[..16], 1), ReadStep::Continue);
    assert_eq!(r2.on_received(&[], 2), ReadStep::Ended(TransferStep::PeerClosed));
}

#[test]
fn slow_but_steady_peer_is_read_completely() {
    let bytes = Message::new(3, "{\"numPlayers\":2}".to_string()).encode();
    let mut r = FrameReader::new(0);
    let mut clock = 0u64;
    let mut result = None;
    for (i, b) in bytes.iter().enumerate() {
        clock += 450;
        match r.on_received(&[*b], clock) {
            ReadStep::Continue => assert!(i + 1 < bytes.len()),
            ReadStep::Done(m) => result = Some(m),
            other => panic!("unexpected {:?}", other),
        }
    }
    let m = result.unwrap();
    assert_eq!(m.header.message_type, 3);
    assert_eq!(m.message_text, "{\"numPlayers\":2}");
}

#[test]
fn broken_pipe_on_send_is_a_clean_shutdown() {
    let r = send_outcome(TransferStep::Failed(IoFailure::BrokenPipe));
    let f = r.unwrap_err();
    assert_eq!(f.exit, ExitValue::Shutdown);
    assert_eq!(exit_code(&Err(f.exit)), 0);
    assert_eq!(send_outcome(TransferStep::Stalled).unwrap_err().exit, ExitValue::Code(1));
    assert!(send_outcome(TransferStep::Complete).is_ok());
}

#[test]
fn receive_decisions() {
    assert!(matches!(receive_decision(TransferStep::TimedOut, true), ReceiveDecision::Retry));
    match receive_decision(TransferStep::TimedOut, false) {
        ReceiveDecision::Fail(f) => assert_eq!(f.exit, ExitValue::Code(1)),
        _ => panic!(),
    }
    match receive_decision(TransferStep::Stalled, true) {
        ReceiveDecision::Fail(f) => {
            assert_eq!(f.exit, ExitValue::Code(1));
            assert_eq!(f.message.unwrap(), "Timeout occurred during the transfer of a message");
        }
        _ => panic!(),
    }
    match receive_decision(TransferStep::PeerClosed, true) {
        ReceiveDecision::Fail(f) => assert_eq!(f.exit, ExitValue::Shutdown),
        _ => panic!(),
    }
    assert!(matches!(receive_decision(TransferStep::Complete, false), ReceiveDecision::Proceed));
}

#[test]
fn reply_envelopes() {
    assert_eq!(handle_message(Some(7), None).unwrap(), 7);
    let shut = ServerErrorMessage { error: None, is_shutdown: true };
    assert_eq!(handle_message::<i32>(None, Some(shut)).unwrap_err().exit, ExitValue::Shutdown);
    let err = ServerErrorMessage { error: Some("no such world".to_string()), is_shutdown: false };
    let f = handle_message::<i32>(None, Some(err)).unwrap_err();
    assert_eq!(f.exit, ExitValue::Code(1));
    assert_eq!(f.message.unwrap(), "no such world");
    let g = handle_message::<i32>(None, None).unwrap_err();
    assert_eq!(g.exit, ExitValue::Code(1));
    assert!(g.message.is_some());
}

#[test]
fn version_check() {
    assert!(check_protocol_version(PROTOCOL_VERSION).is_ok());
    let f = check_protocol_version(99).unwrap_err();
    assert_eq!(f.exit, ExitValue::Code(1));
    let m = f.message.unwrap();
    assert!(m.contains("paperd protocol version: 1;"));
    assert!(m.contains("server protocol version: 99."));
    assert!(jar_protocol_matches(1));
    assert!(!jar_protocol_matches(2));
}

#[test]
fn decimal_text() {
    assert_eq!(int_text(-42), "-42");
    assert_eq!(int_text(0), "0");
    assert_eq!(int_text(1234), "1234");
}

#[test]
fn status_round_trip_session() {
    let (mut s, a) = ClientSession::new(Command::Status);
    assert!(matches!(a, SessionAction::Send(Request::ProtocolVersion)));
    assert_eq!(s.stage, Stage::SendingVersion);
    let a = s.on_event(SessionEvent::Sent(Ok(())));
    assert!(matches!(a, SessionAction::Receive(ReplyKind::ProtocolVersion, None)));
    assert_eq!(s.stage, Stage::AwaitingVersion);
    let a = s.on_event(SessionEvent::Replied(Ok(Reply::ProtocolVersion(1))));
    assert!(matches!(a, SessionAction::Send(Request::Status)));
    assert_eq!(s.stage, Stage::SendingCommand);
    let a = s.on_event(SessionEvent::Sent(Ok(())));
    assert!(matches!(a, SessionAction::Receive(ReplyKind::Status, None)));
    assert_eq!(s.stage, Stage::AwaitingReply);
    let a = s.on_event(SessionEvent::Replied(Ok(Reply::Status)));
    match a {
        SessionAction::Finish(r, msg) => {
            assert!(msg.is_none());
            assert_eq!(exit_code(&r), 0);
        }
        _ => panic!(),
    }
    assert_eq!(s.stage, Stage::Finished);
}

#[test]
fn version_mismatch_session() {
    let (mut s, _) = ClientSession::new(Command::Send("say hi".to_string()));
    s.on_event(SessionEvent::Sent(Ok(())));
    let a = s.on_event(SessionEvent::Replied(Ok(Reply::ProtocolVersion(99))));
    match a {
        SessionAction::Finish(r, Some(msg)) => {
            assert_eq!(exit_code(&r), 1);
            assert!(msg.contains("1") && msg.contains("99"));
        }
        _ => panic!("expected the command to end"),
    }
    assert_eq!(s.stage, Stage::Finished);
}

#[test]
fn peer_closed_during_send_command_session() {
    let (mut s, _) = ClientSession::new(Command::Send("stop".to_string()));
    s.on_event(SessionEvent::Sent(Ok(())));
    let a = s.on_event(SessionEvent::Replied(Ok(Reply::ProtocolVersion(1))));
    assert!(matches!(a, SessionAction::Send(Request::SendCommand(ref c)) if c == "stop"));
    let sent = send_outcome(TransferStep::Failed(IoFailure::BrokenPipe)).map(|_| ());
    let a = s.on_event(SessionEvent::Sent(sent));
    match a {
        SessionAction::Finish(r, _) => {
            assert_eq!(r, Err(ExitValue::Shutdown));
            assert_eq!(exit_code(&r), 0);
        }
        _ => panic!(),
    }
}

#[test]
fn timings_session_prints_until_done() {
    let (mut s, _) = ClientSession::new(Command::Timings);
    s.on_event(SessionEvent::Sent(Ok(())));
    s.on_event(SessionEvent::Replied(Ok(Reply::ProtocolVersion(1))));
    s.on_event(SessionEvent::Sent(Ok(())));
    let a = s.on_event(SessionEvent::Replied(Ok(Reply::Timings { message: Some("§aok".to_string()), done: false })));
    match a {
        SessionAction::Receive(ReplyKind::Timings, Some(t)) => assert_eq!(t, "\u{1b}[0;32;1mok\u{1b}[m"),
        _ => panic!(),
    }
    assert_eq!(s.stage, Stage::AwaitingReply);
    let a = s.on_event(SessionEvent::Replied(Ok(Reply::Timings { message: None, done: false })));
    assert!(matches!(a, SessionAction::Receive(ReplyKind::Timings, None)));
    let a = s.on_event(SessionEvent::Replied(Ok(Reply::Timings { message: None, done: true })));
    assert!(matches!(a, SessionAction::Finish(Ok(()), None)));
}

#[test]
fn failures_end_sessions() {
    let (mut s, _) = ClientSession::new(Command::Stop);
    let a = s.on_event(SessionEvent::Sent(Err(Failure { exit: ExitValue::Code(1), message: Some("boom".to_string()) })));
    assert!(matches!(a, SessionAction::Finish(Err(ExitValue::Code(1)), Some(_))));
    let (mut t, _) = ClientSession::new(Command::Stop);
    t.on_event(SessionEvent::Sent(Ok(())));
    t.on_event(SessionEvent::Replied(Ok(Reply::ProtocolVersion(1))));
    let a = t.on_event(SessionEvent::Sent(Ok(())));
    assert!(matches!(a, SessionAction::Finish(Ok(()), None)));
}
