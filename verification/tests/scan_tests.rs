use dap::client::{Delivery, Outgoing};
use dap::framing::{decode_frame, encode_frame, scan_frame, FrameScan, TransportError};
use dap::session::{
    Action, Command, EventKind, Message, ProtocolError, Session, SessionError, SessionState,
};
use dap::wire::{decode_message, DecodeError};

#[test]
fn whole_frame_scans_complete() {
    let frame = encode_frame(b"{\"a\":1}");
    assert_eq!(scan_frame(&frame), FrameScan::Complete { start: 21, end: 28 });
    assert_eq!(&frame[21..28], b"{\"a\":1}");
}

#[test]
fn every_proper_prefix_scans_incomplete() {
    let frame = encode_frame(b"0123456789abcdef");
    for k in 0..frame.len() {
        assert_eq!(scan_frame(&frame[..k]), FrameScan::Incomplete);
    }
    assert_eq!(
        scan_frame(&frame),
        FrameScan::Complete { start: frame.len() - 16, end: frame.len() }
    );
}

#[test]
fn bytes_after_the_frame_do_not_matter() {
    let mut buf = encode_frame(b"abc");
    let end = buf.len();
    buf.extend_from_slice(b"Content-Le");
    assert_eq!(scan_frame(&buf), FrameScan::Complete { start: end - 3, end });
}

#[test]
fn departures_from_the_grammar_scan_corrupt() {
    assert_eq!(scan_frame(b"X"), FrameScan::Corrupt);
    assert_eq!(scan_frame(b"Content-Type: 3"), FrameScan::Corrupt);
    assert_eq!(scan_frame(b"Content-Length: x"), FrameScan::Corrupt);
    assert_eq!(scan_frame(b"Content-Length: \r"), FrameScan::Corrupt);
    assert_eq!(scan_frame(b"Content-Length: 12\n"), FrameScan::Corrupt);
    assert_eq!(scan_frame(b"Content-Length: 12\r\r"), FrameScan::Corrupt);
    assert_eq!(scan_frame(b"Content-Length: 12\r\n\r\r"), FrameScan::Corrupt);
    assert_eq!(
        scan_frame(b"Content-Length: 340282366920938463463374607431768211456\r\n\r\n"),
        FrameScan::Corrupt
    );
}

#[test]
fn scan_and_decode_agree() {
    let frame = encode_frame(b"hello");
    assert_eq!(decode_frame(&frame), Ok((b"hello".to_vec(), frame.len())));
    assert_eq!(decode_frame(&frame[..frame.len() - 1]), Err(TransportError::FrameCorrupt));
    assert_eq!(scan_frame(&frame[..frame.len() - 1]), FrameScan::Incomplete);
}

#[test]
fn accepted_request_is_framed_for_writing() {
    let mut s = Session::new();
    let out = s.prepare_request(Command::Initialize, br#"{"adapterID":"lldb"}"#).unwrap();
    let document =
        br#"{"seq":1,"type":"request","command":"initialize","arguments":{"adapterID":"lldb"}}"#;
    assert_eq!(out, Outgoing { seq: 1, frame: encode_frame(document) });
    assert!(s.is_pending(1));
    assert_eq!(s.state(), SessionState::Initializing);
    let (body, _) = decode_frame(&out.frame).unwrap();
    assert_eq!(
        decode_message(&body),
        Ok(Message::Request {
            seq: 1,
            command: Command::Initialize,
            arguments: br#"{"adapterID":"lldb"}"#.to_vec(),
        })
    );
}

#[test]
fn refused_request_produces_no_bytes() {
    let mut s = Session::new();
    assert_eq!(
        s.prepare_request(Command::Launch, b"{}"),
        Err(SessionError::IllegalState {
            attempted: Command::Launch,
            current: SessionState::Uninitialized,
        })
    );
    assert_eq!(s.next_seq(), 1);
    assert_eq!(s.pending_count(), 0);
}

#[test]
fn dispatch_resolves_the_waiter_of_a_response() {
    let mut s = Session::new();
    let out = s.prepare_request(Command::Initialize, b"").unwrap();
    let document = br#"{"seq":1,"type":"response","request_seq":1,"success":true,"body":{"supportsConfigurationDoneRequest":true}}"#;
    let delivery = s.dispatch(document);
    assert_eq!(
        delivery,
        Delivery {
            action: Action::Resolve { seq: out.seq, command: Command::Initialize, success: true },
            message: Some(Message::Response {
                seq: 1,
                request_seq: 1,
                success: true,
                body: br#"{"supportsConfigurationDoneRequest":true}"#.to_vec(),
                error: None,
            }),
        }
    );
    assert_eq!(s.pending_count(), 0);
}

#[test]
fn dispatch_broadcasts_events_and_moves_the_state() {
    let mut s = Session::new();
    s.prepare_request(Command::Initialize, b"").unwrap();
    let observer = s.subscribe().unwrap();
    let delivery = s.dispatch(br#"{"seq":2,"type":"event","event":"initialized"}"#);
    assert_eq!(
        delivery.action,
        Action::Broadcast { event: EventKind::Initialized, observers: vec![observer] }
    );
    assert_eq!(s.state(), SessionState::Initialized);
}

#[test]
fn corrupt_document_tears_the_session_down() {
    let mut s = Session::new();
    let out = s.prepare_request(Command::Initialize, b"").unwrap();
    let delivery = s.dispatch(b"{\"seq\":");
    assert_eq!(
        delivery,
        Delivery {
            action: Action::Teardown { observers: vec![], failed: vec![out.seq] },
            message: None,
        }
    );
    assert_eq!(s.state(), SessionState::Terminated);
    assert_eq!(s.dispatch(b"{\"seq\":").action, Action::Ignored);
}

#[test]
fn unknown_kind_is_dropped_and_the_session_goes_on() {
    let mut s = Session::new();
    let out = s.prepare_request(Command::Initialize, b"").unwrap();
    let delivery = s.dispatch(br#"{"seq":1,"type":"telemetry"}"#);
    assert_eq!(delivery.action, Action::Dropped(ProtocolError::UnexpectedMessageType));
    assert_eq!(delivery.message, None);
    assert!(s.is_pending(out.seq));
    assert_eq!(s.state(), SessionState::Initializing);
}

#[test]
fn deliver_maps_each_outcome() {
    let mut s = Session::new();
    s.issue_request(Command::Initialize).unwrap();
    assert_eq!(
        s.deliver(Err(DecodeError::Protocol(ProtocolError::UnknownSeq))).action,
        Action::Dropped(ProtocolError::UnknownSeq)
    );
    assert_eq!(
        s.deliver(Err(DecodeError::Transport(TransportError::Disconnected))).action,
        Action::Teardown { observers: vec![], failed: vec![1] }
    );
    assert_eq!(
        s.deliver(Err(DecodeError::Protocol(ProtocolError::UnknownSeq))).action,
        Action::Ignored
    );
}
