use dap::config::DebugRequestType;
use dap::framing::TransportError;
use dap::handles::HandleError;
use dap::session::{
    permits, Action, AdapterReportedError, Command, EventKind, HandleKind, Message,
    ProtocolError, Session, SessionError, SessionState,
};

fn response(request_seq: u64, success: bool) -> Message {
    Message::Response {
        seq: 0,
        request_seq,
        success,
        body: Vec::new(),
        error: if success {
            None
        } else {
            Some(AdapterReportedError { code: 1, message: "failed".to_string() })
        },
    }
}

fn event(event: EventKind) -> Message {
    Message::Event { seq: 0, event, name: event.name().to_string(), body: Vec::new() }
}

fn stopped_session() -> Session {
    let mut s = Session::new();
    assert_eq!(s.issue_request(Command::Initialize), Ok(1));
    s.handle_message(&response(1, true));
    s.handle_message(&event(EventKind::Initialized));
    assert_eq!(s.issue_request(Command::Launch), Ok(2));
    s.handle_message(&response(2, true));
    s.handle_message(&event(EventKind::Stopped));
    assert_eq!(s.state(), SessionState::Stopped);
    s
}

#[test]
fn new_session_is_uninitialized() {
    let s = Session::new();
    assert_eq!(s.state(), SessionState::Uninitialized);
    assert_eq!(s.next_seq(), 1);
    assert_eq!(s.pending_count(), 0);
    assert_eq!(s.observer_count(), 0);
}

#[test]
fn launch_while_uninitialized_is_illegal_and_sends_nothing() {
    let mut s = Session::new();
    assert_eq!(
        s.issue_request(Command::Launch),
        Err(SessionError::IllegalState {
            attempted: Command::Launch,
            current: SessionState::Uninitialized,
        })
    );
    assert_eq!(s.state(), SessionState::Uninitialized);
    assert_eq!(s.next_seq(), 1);
    assert_eq!(s.pending_count(), 0);
}

#[test]
fn lifecycle_walks_through_every_state() {
    let mut s = Session::new();
    assert_eq!(s.issue_request(Command::Initialize), Ok(1));
    assert_eq!(s.state(), SessionState::Initializing);
    assert_eq!(
        s.handle_message(&response(1, true)),
        Action::Resolve { seq: 1, command: Command::Initialize, success: true }
    );
    assert_eq!(s.state(), SessionState::Initializing);
    assert_eq!(
        s.handle_message(&event(EventKind::Initialized)),
        Action::Broadcast { event: EventKind::Initialized, observers: vec![] }
    );
    assert_eq!(s.state(), SessionState::Initialized);
    assert_eq!(s.issue_request(Command::Attach), Ok(2));
    assert_eq!(s.state(), SessionState::Starting(DebugRequestType::Attach));
    s.handle_message(&response(2, true));
    assert_eq!(s.state(), SessionState::Running);
    s.handle_message(&event(EventKind::Stopped));
    assert_eq!(s.state(), SessionState::Stopped);
    assert_eq!(s.issue_request(Command::Next), Ok(3));
    assert_eq!(s.state(), SessionState::Running);
    s.handle_message(&event(EventKind::Stopped));
    assert_eq!(s.state(), SessionState::Stopped);
    s.handle_message(&event(EventKind::Continued));
    assert_eq!(s.state(), SessionState::Running);
    s.handle_message(&event(EventKind::Exited));
    assert_eq!(s.state(), SessionState::Terminated);
}

#[test]
fn failed_launch_returns_to_initialized() {
    let mut s = Session::new();
    s.issue_request(Command::Initialize).unwrap();
    s.handle_message(&event(EventKind::Initialized));
    let seq = s.issue_request(Command::Launch).unwrap();
    assert_eq!(s.state(), SessionState::Starting(DebugRequestType::Launch));
    assert_eq!(
        s.handle_message(&response(seq, false)),
        Action::Resolve { seq, command: Command::Launch, success: false }
    );
    assert_eq!(s.state(), SessionState::Initialized);
}

#[test]
fn failed_initialize_returns_to_uninitialized() {
    let mut s = Session::new();
    let seq = s.issue_request(Command::Initialize).unwrap();
    s.handle_message(&response(seq, false));
    assert_eq!(s.state(), SessionState::Uninitialized);
    assert_eq!(s.issue_request(Command::Initialize), Ok(2));
}

#[test]
fn stepping_is_only_legal_while_stopped() {
    for state in [
        SessionState::Uninitialized,
        SessionState::Initializing,
        SessionState::Initialized,
        SessionState::Starting(DebugRequestType::Launch),
        SessionState::Running,
        SessionState::Terminated,
    ] {
        for command in [Command::Continue, Command::Next, Command::StepIn, Command::StepOut] {
            assert!(!permits(state, command));
        }
    }
    for command in [Command::Continue, Command::Next, Command::StepIn, Command::StepOut] {
        assert!(permits(SessionState::Stopped, command));
    }
}

#[test]
fn launch_and_attach_are_only_legal_when_initialized() {
    for state in [
        SessionState::Uninitialized,
        SessionState::Initializing,
        SessionState::Starting(DebugRequestType::Attach),
        SessionState::Running,
        SessionState::Stopped,
        SessionState::Terminated,
    ] {
        assert!(!permits(state, Command::Launch));
        assert!(!permits(state, Command::Attach));
    }
    assert!(permits(SessionState::Initialized, Command::Launch));
    assert!(permits(SessionState::Initialized, Command::Attach));
    assert!(permits(SessionState::Uninitialized, Command::Initialize));
    assert!(!permits(SessionState::Initialized, Command::Initialize));
}

#[test]
fn reordered_responses_reach_their_own_callers() {
    let mut s = stopped_session();
    let a = s.issue_request(Command::Threads).unwrap();
    let b = s.issue_request(Command::StackTrace).unwrap();
    let c = s.issue_request(Command::Scopes).unwrap();
    let d = s.issue_request(Command::Variables).unwrap();
    assert_eq!((a, b, c, d), (3, 4, 5, 6));
    assert_eq!(
        s.handle_message(&response(c, true)),
        Action::Resolve { seq: c, command: Command::Scopes, success: true }
    );
    assert_eq!(
        s.handle_message(&response(a, false)),
        Action::Resolve { seq: a, command: Command::Threads, success: false }
    );
    assert!(s.is_pending(b));
    assert!(s.is_pending(d));
    assert!(!s.is_pending(a));
    assert_eq!(
        s.handle_message(&response(d, true)),
        Action::Resolve { seq: d, command: Command::Variables, success: true }
    );
    assert_eq!(
        s.handle_message(&response(b, true)),
        Action::Resolve { seq: b, command: Command::StackTrace, success: true }
    );
    assert_eq!(s.pending_count(), 0);
}

#[test]
fn a_response_is_delivered_only_once() {
    let mut s = stopped_session();
    let seq = s.issue_request(Command::Threads).unwrap();
    assert_eq!(
        s.handle_message(&response(seq, true)),
        Action::Resolve { seq, command: Command::Threads, success: true }
    );
    assert_eq!(
        s.handle_message(&response(seq, true)),
        Action::Dropped(ProtocolError::UnknownSeq)
    );
}

#[test]
fn unknown_seq_is_dropped_and_the_session_goes_on() {
    let mut s = stopped_session();
    let seq = s.issue_request(Command::Threads).unwrap();
    assert_eq!(
        s.handle_message(&response(999, true)),
        Action::Dropped(ProtocolError::UnknownSeq)
    );
    assert_eq!(s.state(), SessionState::Stopped);
    assert!(s.is_pending(seq));
}

#[test]
fn a_request_from_the_adapter_is_unexpected() {
    let mut s = stopped_session();
    let msg = Message::Request { seq: 5, command: Command::Threads, arguments: Vec::new() };
    assert_eq!(
        s.handle_message(&msg),
        Action::Dropped(ProtocolError::UnexpectedMessageType)
    );
    assert_eq!(s.state(), SessionState::Stopped);
}

#[test]
fn sequence_numbers_increase_across_refused_requests() {
    let mut s = Session::new();
    let mut issued = Vec::new();
    issued.push(s.issue_request(Command::Initialize).unwrap());
    assert!(s.issue_request(Command::Launch).is_err());
    assert!(s.issue_request(Command::Initialize).is_err());
    s.handle_message(&event(EventKind::Initialized));
    issued.push(s.issue_request(Command::SetBreakpoints).unwrap());
    assert!(s.issue_request(Command::Continue).is_err());
    issued.push(s.issue_request(Command::Launch).unwrap());
    s.handle_message(&response(issued[2], true));
    issued.push(s.issue_request(Command::Pause).unwrap());
    assert_eq!(issued, vec![1, 2, 3, 4]);
    assert_eq!(s.next_seq(), 5);
}

#[test]
fn terminated_event_fails_every_pending_waiter() {
    let mut s = stopped_session();
    let observer = s.subscribe().unwrap();
    let a = s.issue_request(Command::Threads).unwrap();
    let b = s.issue_request(Command::Evaluate).unwrap();
    assert_eq!(
        s.handle_message(&event(EventKind::Terminated)),
        Action::Teardown { observers: vec![observer], failed: vec![a, b] }
    );
    assert_eq!(s.state(), SessionState::Terminated);
    assert_eq!(s.pending_count(), 0);
    assert_eq!(s.observer_count(), 0);
    assert_eq!(s.issue_request(Command::Threads), Err(SessionError::Terminated));
    assert_eq!(s.issue_request(Command::Initialize), Err(SessionError::Terminated));
    assert_eq!(s.subscribe(), Err(SessionError::Terminated));
    assert_eq!(s.next_seq(), b + 1);
}

#[test]
fn transport_failure_tears_the_session_down() {
    for error in [
        TransportError::Disconnected,
        TransportError::FrameCorrupt,
        TransportError::ConnectFailed,
        TransportError::ProcessSpawnFailed,
    ] {
        let mut s = Session::new();
        let seq = s.issue_request(Command::Initialize).unwrap();
        assert_eq!(
            s.transport_failed(error),
            Action::Teardown { observers: vec![], failed: vec![seq] }
        );
        assert_eq!(s.state(), SessionState::Terminated);
        assert_eq!(s.failure(), Some(error));
        assert_eq!(s.issue_request(Command::Disconnect), Err(SessionError::Terminated));
        assert_eq!(s.transport_failed(TransportError::Disconnected), Action::Ignored);
        assert_eq!(s.failure(), Some(error));
    }
}

#[test]
fn terminated_session_ignores_everything() {
    let mut s = stopped_session();
    s.handle_message(&event(EventKind::Exited));
    assert_eq!(s.failure(), None);
    assert_eq!(s.handle_message(&event(EventKind::Stopped)), Action::Ignored);
    assert_eq!(s.handle_message(&response(1, true)), Action::Ignored);
    assert_eq!(s.transport_failed(TransportError::Disconnected), Action::Ignored);
    assert_eq!(s.state(), SessionState::Terminated);
}

#[test]
fn events_reach_the_observers_registered_at_dispatch_time() {
    let mut s = stopped_session();
    let first = s.subscribe().unwrap();
    assert_eq!(
        s.handle_message(&event(EventKind::Output)),
        Action::Broadcast { event: EventKind::Output, observers: vec![first] }
    );
    let second = s.subscribe().unwrap();
    assert_ne!(first, second);
    assert_eq!(
        s.handle_message(&event(EventKind::Other)),
        Action::Broadcast { event: EventKind::Other, observers: vec![first, second] }
    );
    assert!(s.unsubscribe(first));
    assert!(!s.unsubscribe(first));
    assert_eq!(
        s.handle_message(&event(EventKind::Output)),
        Action::Broadcast { event: EventKind::Output, observers: vec![second] }
    );
}

#[test]
fn handle_from_an_earlier_stop_is_stale() {
    let mut s = stopped_session();
    let scope = s.handle_for(HandleKind::Scope, 1).unwrap();
    let variable = s.handle_for(HandleKind::Variable, 1).unwrap();
    assert_eq!(s.lookup(HandleKind::Scope, scope), Ok(1));
    assert_eq!(s.lookup(HandleKind::Variable, variable), Ok(1));
    s.issue_request(Command::Continue).unwrap();
    assert_eq!(s.state(), SessionState::Running);
    assert_eq!(s.lookup(HandleKind::Scope, scope), Err(HandleError::StaleHandle));
    s.handle_message(&event(EventKind::Stopped));
    let fresh = s.handle_for(HandleKind::Scope, 1).unwrap();
    assert_ne!(fresh, scope);
    assert_eq!(s.lookup(HandleKind::Scope, scope), Err(HandleError::StaleHandle));
    assert_eq!(s.lookup(HandleKind::Variable, variable), Err(HandleError::StaleHandle));
    assert_eq!(s.lookup(HandleKind::Scope, fresh), Ok(1));
}

#[test]
fn handles_cannot_be_minted_while_running() {
    let mut s = Session::new();
    assert_eq!(s.handle_for(HandleKind::StackFrame, 3), Err(HandleError::StaleHandle));
    let mut s = stopped_session();
    let frame = s.handle_for(HandleKind::StackFrame, 3).unwrap();
    assert_eq!(s.lookup(HandleKind::StackFrame, frame), Ok(3));
    s.handle_message(&event(EventKind::Continued));
    assert_eq!(s.handle_for(HandleKind::StackFrame, 3), Err(HandleError::StaleHandle));
}

#[test]
fn handles_of_different_kinds_are_independent() {
    let mut s = stopped_session();
    let scope = s.handle_for(HandleKind::Scope, 10).unwrap();
    let frame = s.handle_for(HandleKind::StackFrame, 20).unwrap();
    assert_eq!(s.lookup(HandleKind::Scope, scope), Ok(10));
    assert_eq!(s.lookup(HandleKind::StackFrame, frame), Ok(20));
    assert_eq!(s.lookup(HandleKind::Variable, scope), Err(HandleError::StaleHandle));
}

#[test]
fn sessions_side_by_side_keep_their_handles_apart() {
    let mut a = Session::with_handles_within(0, 1 << 32);
    let mut b = Session::with_handles_within(1 << 32, 1 << 33);
    for s in [&mut a, &mut b] {
        s.issue_request(Command::Initialize).unwrap();
        s.handle_message(&event(EventKind::Initialized));
        s.issue_request(Command::Launch).unwrap();
        s.handle_message(&event(EventKind::Stopped));
        assert_eq!(s.state(), SessionState::Stopped);
    }
    let in_a = a.handle_for(HandleKind::Variable, 1).unwrap();
    let in_b = b.handle_for(HandleKind::Variable, 1).unwrap();
    assert_eq!(in_a, 0);
    assert_eq!(in_b, 1 << 32);
    assert_eq!(a.lookup(HandleKind::Variable, in_b), Err(HandleError::StaleHandle));
    assert_eq!(b.lookup(HandleKind::Variable, in_a), Err(HandleError::StaleHandle));
}
