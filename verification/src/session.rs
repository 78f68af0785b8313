//! The session engine: sequence numbers, the pending-request table, event
//! observers and the lifecycle state machine.
//!
//! A [`Session`] never touches a transport.  Its owner hands it what
//! happened (a caller wants to send a command, a message arrived, the
//! transport failed) and the session answers with what to do: the sequence
//! number to stamp on the request, or an [`Action`] that names the waiter to
//! resolve, the observers to notify, or the waiters to fail.
use crate::config::DebugRequestType;
use crate::framing::TransportError;
use crate::handles::{HandleError, HandleTable, HandleTableModel};
use vstd::prelude::*;

verus! {

/// The requests a client can issue.
#[derive(Clone, Copy, Debug, PartialEq, Eq, Structural)]
pub enum Command {
    Initialize,
    Launch,
    Attach,
    ConfigurationDone,
    SetBreakpoints,
    Threads,
    StackTrace,
    Scopes,
    Variables,
    Evaluate,
    Continue,
    Next,
    StepIn,
    StepOut,
    Pause,
    Disconnect,
    Terminate,
}

/// The events an adapter can send.
#[derive(Clone, Copy, Debug, PartialEq, Eq, Structural)]
pub enum EventKind {
    /// The adapter is ready to accept configuration.
    Initialized,
    /// The debuggee stopped.
    Stopped,
    /// The debuggee resumed.
    Continued,
    /// Debugging ended.
    Terminated,
    /// The debuggee exited.
    Exited,
    /// The debuggee or the adapter produced output.
    Output,
    /// Any other event.
    Other,
}

/// Where a session stands in its lifecycle.
#[derive(Clone, Copy, Debug, PartialEq, Eq, Structural)]
pub enum SessionState {
    Uninitialized,
    Initializing,
    Initialized,
    Starting(DebugRequestType),
    Running,
    Stopped,
    Terminated,
}

/// Anomalies in what the adapter sent; the session goes on.
#[derive(Clone, Copy, Debug, PartialEq, Eq, Structural)]
pub enum ProtocolError {
    /// The adapter sent a request, which this client does not serve.
    UnexpectedMessageType,
    /// A response names a sequence number that is not pending.
    UnknownSeq,
}

/// Why a request was refused before any wire traffic.
#[derive(Clone, Copy, Debug, PartialEq, Eq, Structural)]
pub enum SessionError {
    /// The command is not legal in the current state.
    IllegalState { attempted: Command, current: SessionState },
    /// The session has terminated.
    Terminated,
    /// Every 64-bit sequence number or observer identifier is used up.
    Exhausted,
}

/// A failure that the adapter reported for one request.
#[derive(Clone, Debug, PartialEq, Eq)]
pub struct AdapterReportedError {
    pub code: i64,
    pub message: String,
}

/// One protocol message.  Bodies and arguments are JSON values, kept as
/// the bytes they travel in.  A response carries a body where it reports
/// success and an error where it reports failure.
#[derive(Clone, Debug, PartialEq, Eq)]
pub enum Message {
    Request { seq: u64, command: Command, arguments: Vec<u8> },
    Response {
        seq: u64,
        request_seq: u64,
        success: bool,
        body: Vec<u8>,
        error: Option<AdapterReportedError>,
    },
    /// An event: `name` is the name it goes by on the wire and `event` is
    /// what the client takes it for.
    Event { seq: u64, event: EventKind, name: String, body: Vec<u8> },
}

/// The mathematical content of a [`Message`].
pub enum MessageModel {
    Request { seq: u64, command: Command, arguments: Seq<u8> },
    Response {
        seq: u64,
        request_seq: u64,
        success: bool,
        body: Seq<u8>,
        error: Option<(i64, Seq<char>)>,
    },
    Event { seq: u64, event: EventKind, name: Seq<char>, body: Seq<u8> },
}

impl View for Message {
    type V = MessageModel;

    open spec fn view(&self) -> MessageModel {
        match *self {
            Message::Request { seq, command, arguments } => MessageModel::Request {
                seq,
                command,
                arguments: arguments@,
            },
            Message::Response { seq, request_seq, success, body, error } => {
                MessageModel::Response {
                    seq,
                    request_seq,
                    success,
                    body: body@,
                    error: match error {
                        Some(e) => Some((e.code, e.message@)),
                        None => None,
                    },
                }
            },
            Message::Event { seq, event, name, body } => MessageModel::Event {
                seq,
                event,
                name: name@,
                body: body@,
            },
        }
    }
}

/// A request that was issued and not yet answered.
#[derive(Clone, Copy, Debug, PartialEq, Eq, Structural)]
pub struct Pending {
    pub seq: u64,
    pub command: Command,
}

/// Which kind of adapter identifier a handle stands for.
#[derive(Clone, Copy, Debug, PartialEq, Eq, Structural)]
pub enum HandleKind {
    Scope,
    Variable,
    StackFrame,
}

/// What the owner of the session must do after a message or a failure.
#[derive(Clone, Debug, PartialEq, Eq)]
pub enum Action {
    /// Hand the response to the waiter registered under `seq`.
    Resolve { seq: u64, command: Command, success: bool },
    /// Deliver the event to these observers and to nobody else.
    Broadcast { event: EventKind, observers: Vec<u64> },
    /// The session ended: deliver the last notice to these observers, close
    /// them, and fail the waiters of `failed` with the termination error.
    Teardown { observers: Vec<u64>, failed: Vec<u64> },
    /// Log the anomaly and go on.
    Dropped(ProtocolError),
    /// The session had already terminated; the message is discarded.
    Ignored,
}

/// The mathematical content of an [`Action`].
pub enum ActionModel {
    Resolve { seq: u64, command: Command, success: bool },
    Broadcast { event: EventKind, observers: Seq<u64> },
    Teardown { observers: Seq<u64>, failed: Seq<u64> },
    Dropped(ProtocolError),
    Ignored,
}

impl View for Action {
    type V = ActionModel;

    open spec fn view(&self) -> ActionModel {
        match *self {
            Action::Resolve { seq, command, success } => ActionModel::Resolve {
                seq,
                command,
                success,
            },
            Action::Broadcast { event, observers } => ActionModel::Broadcast {
                event,
                observers: observers@,
            },
            Action::Teardown { observers, failed } => ActionModel::Teardown {
                observers: observers@,
                failed: failed@,
            },
            Action::Dropped(e) => ActionModel::Dropped(e),
            Action::Ignored => ActionModel::Ignored,
        }
    }
}

/// Whether `command` resumes a stopped debuggee.
pub open spec fn resumes(command: Command) -> bool {
    command is Continue || command is Next || command is StepIn || command is StepOut
}

/// Whether `command` may be issued in `state`.
pub open spec fn legal(state: SessionState, command: Command) -> bool {
    match state {
        SessionState::Uninitialized => command is Initialize,
        SessionState::Initializing => command is Disconnect,
        SessionState::Initialized => command is Launch || command is Attach
            || command is SetBreakpoints || command is ConfigurationDone
            || command is Disconnect,
        SessionState::Starting(_) => command is SetBreakpoints || command is ConfigurationDone
            || command is Threads || command is Disconnect || command is Terminate,
        SessionState::Running => command is Pause || command is SetBreakpoints
            || command is Threads || command is Evaluate || command is Disconnect
            || command is Terminate,
        SessionState::Stopped => resumes(command) || command is StackTrace || command is Scopes
            || command is Variables || command is Evaluate || command is Threads
            || command is SetBreakpoints || command is Disconnect || command is Terminate,
        SessionState::Terminated => false,
    }
}

/// The state after `command` was issued in `state`, where it is legal.
pub open spec fn after_issue(state: SessionState, command: Command) -> SessionState {
    match command {
        Command::Initialize => SessionState::Initializing,
        Command::Launch => SessionState::Starting(DebugRequestType::Launch),
        Command::Attach => SessionState::Starting(DebugRequestType::Attach),
        _ => if resumes(command) {
            SessionState::Running
        } else {
            state
        },
    }
}

/// The state after the response to `command` arrived in `state`.
pub open spec fn after_response(state: SessionState, command: Command, success: bool)
    -> SessionState {
    match state {
        SessionState::Starting(_) => if command is Launch || command is Attach {
            if success {
                SessionState::Running
            } else {
                SessionState::Initialized
            }
        } else {
            state
        },
        SessionState::Initializing => if command is Initialize && !success {
            SessionState::Uninitialized
        } else {
            state
        },
        _ => state,
    }
}

/// The state after a non-terminal `event` arrived in `state`.
pub open spec fn after_event(state: SessionState, event: EventKind) -> SessionState {
    match (state, event) {
        (SessionState::Initializing, EventKind::Initialized) => SessionState::Initialized,
        (SessionState::Starting(_), EventKind::Stopped) => SessionState::Stopped,
        (SessionState::Running, EventKind::Stopped) => SessionState::Stopped,
        (SessionState::Stopped, EventKind::Continued) => SessionState::Running,
        _ => state,
    }
}

/// The sequence numbers of `pending`, in order.
pub open spec fn seqs_of(pending: Seq<Pending>) -> Seq<u64> {
    pending.map_values(|p: Pending| p.seq)
}

/// The mathematical content of a [`Session`].
pub struct SessionModel {
    /// The sequence number the next request gets.
    pub next_seq: nat,
    /// The requests in flight, oldest first.
    pub pending: Seq<Pending>,
    /// The lifecycle state.
    pub state: SessionState,
    /// The registered event observers, oldest first.
    pub observers: Seq<u64>,
    /// The identifier the next observer gets.
    pub next_observer: nat,
    /// The handles for scopes.
    pub scopes: HandleTableModel,
    /// The handles for variables.
    pub variables: HandleTableModel,
    /// The handles for stack frames.
    pub frames: HandleTableModel,
    /// The transport failure that ended the session, if one did.
    pub failure: Option<TransportError>,
}

impl SessionModel {
    /// The session's invariant: pending sequence numbers are below the
    /// counter and strictly increasing, so is the observer list below its
    /// counter; a terminated session has no waiter and no observer; handles
    /// live exactly while the debuggee is stopped.
    pub open spec fn wf(self) -> bool {
        &&& 1 <= self.next_seq <= u64::MAX
        &&& self.next_observer <= u64::MAX
        &&& forall|i: int| 0 <= i < self.pending.len() ==> (#[trigger] self.pending[i]).seq
            < self.next_seq
        &&& forall|i: int, j: int|
            0 <= i < j < self.pending.len() ==> (#[trigger] self.pending[i]).seq < (
            #[trigger] self.pending[j]).seq
        &&& forall|i: int| 0 <= i < self.observers.len() ==> (#[trigger] self.observers[i])
            < self.next_observer
        &&& forall|i: int, j: int|
            0 <= i < j < self.observers.len() ==> (#[trigger] self.observers[i]) < (
            #[trigger] self.observers[j])
        &&& (self.state is Terminated ==> self.pending.len() == 0 && self.observers.len() == 0)
        &&& self.scopes.wf() && self.variables.wf() && self.frames.wf()
        &&& self.scopes.live == (self.state is Stopped)
        &&& self.variables.live == (self.state is Stopped)
        &&& self.frames.live == (self.state is Stopped)
        &&& (self.failure is Some ==> self.state is Terminated)
    }

    /// A fresh session: nothing sent, nothing pending, nobody observing.
    pub open spec fn initial() -> Self {
        SessionModel {
            next_seq: 1,
            pending: Seq::empty(),
            state: SessionState::Uninitialized,
            observers: Seq::empty(),
            next_observer: 0,
            scopes: HandleTableModel::initial(),
            variables: HandleTableModel::initial(),
            frames: HandleTableModel::initial(),
            failure: None,
        }
    }

    /// A fresh session whose handles of every kind come from `first` up to
    /// but not including `limit`.
    pub open spec fn initial_within(first: u64, limit: u64) -> Self {
        SessionModel {
            scopes: HandleTableModel::within(first, limit),
            variables: HandleTableModel::within(first, limit),
            frames: HandleTableModel::within(first, limit),
            ..Self::initial()
        }
    }

    /// Whether a request with sequence number `seq` is in flight.
    pub open spec fn is_pending(self, seq: u64) -> bool {
        exists|i: int| 0 <= i < self.pending.len() && (#[trigger] self.pending[i]).seq == seq
    }

    /// The position of the pending request with sequence number `seq`.
    pub open spec fn position(self, seq: u64) -> int {
        choose|i: int| 0 <= i < self.pending.len() && (#[trigger] self.pending[i]).seq == seq
    }

    /// The session with the state set to `state` and the handle tables
    /// opened or closed to match it.
    pub open spec fn moved_to(self, state: SessionState) -> Self {
        if (state is Stopped) == (self.state is Stopped) {
            SessionModel { state, ..self }
        } else if state is Stopped {
            SessionModel {
                state,
                scopes: self.scopes.begin(),
                variables: self.variables.begin(),
                frames: self.frames.begin(),
                ..self
            }
        } else {
            SessionModel {
                state,
                scopes: self.scopes.end(),
                variables: self.variables.end(),
                frames: self.frames.end(),
                ..self
            }
        }
    }

    /// The session after teardown.
    pub open spec fn torn_down(self) -> Self {
        SessionModel {
            pending: Seq::empty(),
            observers: Seq::empty(),
            ..self.moved_to(SessionState::Terminated)
        }
    }

    /// Issuing `command`: the session afterwards, and the sequence number
    /// for the request or the reason it is refused.  A refused request
    /// changes nothing; an accepted one takes the counter's value, advances
    /// the counter and is registered as pending.
    pub open spec fn issue(self, command: Command) -> (Self, Result<u64, SessionError>) {
        if self.state is Terminated {
            (self, Err(SessionError::Terminated))
        } else if !legal(self.state, command) {
            (self, Err(SessionError::IllegalState { attempted: command, current: self.state }))
        } else if self.next_seq >= u64::MAX {
            (self, Err(SessionError::Exhausted))
        } else {
            (
                SessionModel {
                    next_seq: self.next_seq + 1,
                    pending: self.pending.push(Pending { seq: self.next_seq as u64, command }),
                    ..self.moved_to(after_issue(self.state, command))
                },
                Ok(self.next_seq as u64),
            )
        }
    }

    /// Receiving `message`: the session afterwards and what to do.
    pub open spec fn receive(self, message: MessageModel) -> (Self, ActionModel) {
        if self.state is Terminated {
            (self, ActionModel::Ignored)
        } else {
            match message {
                MessageModel::Request { .. } => (
                    self,
                    ActionModel::Dropped(ProtocolError::UnexpectedMessageType),
                ),
                MessageModel::Response { request_seq, success, .. } => {
                    if self.is_pending(request_seq) {
                        let i = self.position(request_seq);
                        let command = self.pending[i].command;
                        (
                            SessionModel {
                                pending: self.pending.remove(i),
                                ..self.moved_to(
                                    after_response(self.state, command, success),
                                )
                            },
                            ActionModel::Resolve {
                                seq: request_seq,
                                command,
                                success,
                            },
                        )
                    } else {
                        (self, ActionModel::Dropped(ProtocolError::UnknownSeq))
                    }
                },
                MessageModel::Event { event, .. } => {
                    if event is Terminated || event is Exited {
                        (
                            self.torn_down(),
                            ActionModel::Teardown {
                                observers: self.observers,
                                failed: seqs_of(self.pending),
                            },
                        )
                    } else {
                        (
                            self.moved_to(after_event(self.state, event)),
                            ActionModel::Broadcast { event, observers: self.observers },
                        )
                    }
                },
            }
        }
    }

    /// A fatal transport failure: the session afterwards, which remembers
    /// the failure, and what to do.
    pub open spec fn fail(self, error: TransportError) -> (Self, ActionModel) {
        if self.state is Terminated {
            (self, ActionModel::Ignored)
        } else {
            (
                SessionModel { failure: Some(error), ..self.torn_down() },
                ActionModel::Teardown {
                    observers: self.observers,
                    failed: seqs_of(self.pending),
                },
            )
        }
    }

    /// Registering an observer: the session afterwards and the observer's
    /// identifier, or the reason it is refused.
    pub open spec fn subscribe(self) -> (Self, Result<u64, SessionError>) {
        if self.state is Terminated {
            (self, Err(SessionError::Terminated))
        } else if self.next_observer >= u64::MAX {
            (self, Err(SessionError::Exhausted))
        } else {
            (
                SessionModel {
                    observers: self.observers.push(self.next_observer as u64),
                    next_observer: self.next_observer + 1,
                    ..self
                },
                Ok(self.next_observer as u64),
            )
        }
    }

    /// Removing the observer `observer`: the session afterwards, and
    /// whether it was registered.
    pub open spec fn unsubscribe(self, observer: u64) -> (Self, bool) {
        if self.observers.contains(observer) {
            (
                SessionModel {
                    observers: self.observers.remove(self.observers.index_of(observer)),
                    ..self
                },
                true,
            )
        } else {
            (self, false)
        }
    }

    /// Minting or finding the handle for `adapter_id`: the session
    /// afterwards and the handle.
    pub open spec fn handle_for(self, kind: HandleKind, adapter_id: u64) -> (
        Self,
        Result<u64, HandleError>,
    ) {
        let (table, handle) = self.table(kind).intern(adapter_id);
        (self.with_table(kind, table), handle)
    }

    /// The adapter identifier behind `handle`.
    pub open spec fn lookup(self, kind: HandleKind, handle: u64) -> Result<u64, HandleError> {
        self.table(kind).resolve(handle)
    }

    /// The handle table for `kind`.
    pub open spec fn table(self, kind: HandleKind) -> HandleTableModel {
        match kind {
            HandleKind::Scope => self.scopes,
            HandleKind::Variable => self.variables,
            HandleKind::StackFrame => self.frames,
        }
    }

    /// The session with the table for `kind` replaced by `table`.
    pub open spec fn with_table(self, kind: HandleKind, table: HandleTableModel) -> Self {
        match kind {
            HandleKind::Scope => SessionModel { scopes: table, ..self },
            HandleKind::Variable => SessionModel { variables: table, ..self },
            HandleKind::StackFrame => SessionModel { frames: table, ..self },
        }
    }
}

/// Decides [`legal`].
pub fn permits(state: SessionState, command: Command) -> (r: bool)
    ensures
        r == legal(state, command),
{
    match state {
        SessionState::Uninitialized => match command {
            Command::Initialize => true,
            _ => false,
        },
        SessionState::Initializing => match command {
            Command::Disconnect => true,
            _ => false,
        },
        SessionState::Initialized => match command {
            Command::Launch
            | Command::Attach
            | Command::SetBreakpoints
            | Command::ConfigurationDone
            | Command::Disconnect => true,
            _ => false,
        },
        SessionState::Starting(_) => match command {
            Command::SetBreakpoints
            | Command::ConfigurationDone
            | Command::Threads
            | Command::Disconnect
            | Command::Terminate => true,
            _ => false,
        },
        SessionState::Running => match command {
            Command::Pause
            | Command::SetBreakpoints
            | Command::Threads
            | Command::Evaluate
            | Command::Disconnect
            | Command::Terminate => true,
            _ => false,
        },
        SessionState::Stopped => match command {
            Command::Continue
            | Command::Next
            | Command::StepIn
            | Command::StepOut
            | Command::StackTrace
            | Command::Scopes
            | Command::Variables
            | Command::Evaluate
            | Command::Threads
            | Command::SetBreakpoints
            | Command::Disconnect
            | Command::Terminate => true,
            _ => false,
        },
        SessionState::Terminated => false,
    }
}

fn state_after_issue(state: SessionState, command: Command) -> (r: SessionState)
    ensures
        r == after_issue(state, command),
{
    match command {
        Command::Initialize => SessionState::Initializing,
        Command::Launch => SessionState::Starting(DebugRequestType::Launch),
        Command::Attach => SessionState::Starting(DebugRequestType::Attach),
        Command::Continue | Command::Next | Command::StepIn | Command::StepOut => {
            SessionState::Running
        },
        _ => state,
    }
}

fn state_after_response(state: SessionState, command: Command, success: bool) -> (r:
    SessionState)
    ensures
        r == after_response(state, command, success),
{
    match state {
        SessionState::Starting(_) => match command {
            Command::Launch | Command::Attach => if success {
                SessionState::Running
            } else {
                SessionState::Initialized
            },
            _ => state,
        },
        SessionState::Initializing => match command {
            Command::Initialize => if success {
                state
            } else {
                SessionState::Uninitialized
            },
            _ => state,
        },
        _ => state,
    }
}

fn state_after_event(state: SessionState, event: EventKind) -> (r: SessionState)
    ensures
        r == after_event(state, event),
{
    match (state, event) {
        (SessionState::Initializing, EventKind::Initialized) => SessionState::Initialized,
        (SessionState::Starting(_), EventKind::Stopped) => SessionState::Stopped,
        (SessionState::Running, EventKind::Stopped) => SessionState::Stopped,
        (SessionState::Stopped, EventKind::Continued) => SessionState::Running,
        _ => state,
    }
}

fn copy_ids(ids: &Vec<u64>) -> (r: Vec<u64>)
    ensures
        r@ == ids@,
{
    let mut out: Vec<u64> = Vec::new();
    let mut i: usize = 0;
    while i < ids.len()
        invariant
            i <= ids.len(),
            out@ == ids@.take(i as int),
        decreases ids.len() - i,
    {
        out.push(ids[i]);
        proof {
            assert(ids@.take(i + 1) == ids@.take(i as int).push(ids@[i as int]));
        }
        i = i + 1;
    }
    proof {
        assert(ids@.take(i as int) == ids@);
    }
    out
}

fn copy_seqs(pending: &Vec<Pending>) -> (r: Vec<u64>)
    ensures
        r@ == seqs_of(pending@),
{
    let mut out: Vec<u64> = Vec::new();
    let mut i: usize = 0;
    while i < pending.len()
        invariant
            i <= pending.len(),
            out@ == seqs_of(pending@.take(i as int)),
        decreases pending.len() - i,
    {
        out.push(pending[i].seq);
        proof {
            assert(seqs_of(pending@.take(i + 1)) == seqs_of(pending@.take(i as int)).push(
                pending@[i as int].seq,
            ));
        }
        i = i + 1;
    }
    proof {
        assert(pending@.take(i as int) == pending@);
    }
    out
}

/// One debug session: its counters, its pending requests, its observers,
/// its lifecycle state and its handle tables.
#[derive(Debug)]
pub struct Session {
    next_seq: u64,
    pending: Vec<Pending>,
    state: SessionState,
    observers: Vec<u64>,
    next_observer: u64,
    scopes: HandleTable,
    variables: HandleTable,
    frames: HandleTable,
    failure: Option<TransportError>,
}

impl View for Session {
    type V = SessionModel;

    closed spec fn view(&self) -> SessionModel {
        SessionModel {
            next_seq: self.next_seq as nat,
            pending: self.pending@,
            state: self.state,
            observers: self.observers@,
            next_observer: self.next_observer as nat,
            scopes: self.scopes@,
            variables: self.variables@,
            frames: self.frames@,
            failure: self.failure,
        }
    }
}

impl Session {
    /// The session's invariant.
    pub open spec fn wf(&self) -> bool {
        self@.wf()
    }

    /// A fresh session in state `Uninitialized`; its first request gets the
    /// sequence number 1.
    pub fn new() -> (r: Self)
        ensures
            r.wf(),
            r@ == SessionModel::initial(),
    {
        Session {
            next_seq: 1,
            pending: Vec::new(),
            state: SessionState::Uninitialized,
            observers: Vec::new(),
            next_observer: 0,
            scopes: HandleTable::new(),
            variables: HandleTable::new(),
            frames: HandleTable::new(),
            failure: None,
        }
    }

    /// A fresh session like [`Self::new`], whose handles of every kind come
    /// from `first` up to but not including `limit`.  Sessions that run
    /// side by side get ranges that do not overlap, and so never give out
    /// the same handle.
    pub fn with_handles_within(first: u64, limit: u64) -> (r: Self)
        ensures
            r.wf(),
            r@ == SessionModel::initial_within(first, limit),
    {
        Session {
            next_seq: 1,
            pending: Vec::new(),
            state: SessionState::Uninitialized,
            observers: Vec::new(),
            next_observer: 0,
            scopes: HandleTable::within(first, limit),
            variables: HandleTable::within(first, limit),
            frames: HandleTable::within(first, limit),
            failure: None,
        }
    }

    /// The current lifecycle state.
    pub fn state(&self) -> (r: SessionState)
        ensures
            r == self@.state,
    {
        self.state
    }

    /// The transport failure that ended the session; `None` while the
    /// session lives and after it ended on the adapter's own notice.
    pub fn failure(&self) -> (r: Option<TransportError>)
        ensures
            r == self@.failure,
    {
        self.failure
    }

    /// The sequence number the next accepted request will get.
    pub fn next_seq(&self) -> (r: u64)
        ensures
            r == self@.next_seq,
    {
        self.next_seq
    }

    /// The number of requests in flight.
    pub fn pending_count(&self) -> (r: usize)
        ensures
            r == self@.pending.len(),
    {
        self.pending.len()
    }

    /// The number of registered observers.
    pub fn observer_count(&self) -> (r: usize)
        ensures
            r == self@.observers.len(),
    {
        self.observers.len()
    }

    fn find_pending(&self, seq: u64) -> (r: Option<usize>)
        ensures
            match r {
                Some(i) => i < self@.pending.len() && self@.pending[i as int].seq == seq,
                None => !self@.is_pending(seq),
            },
    {
        let mut i: usize = 0;
        while i < self.pending.len()
            invariant
                i <= self.pending.len(),
                forall|j: int| 0 <= j < i ==> (#[trigger] self.pending@[j]).seq != seq,
            decreases self.pending.len() - i,
        {
            if self.pending[i].seq == seq {
                return Some(i);
            }
            i = i + 1;
        }
        None
    }

    /// Whether a request with sequence number `seq` is in flight.
    pub fn is_pending(&self, seq: u64) -> (r: bool)
        ensures
            r == self@.is_pending(seq),
    {
        self.find_pending(seq).is_some()
    }

    fn move_to(&mut self, state: SessionState)
        requires
            old(self)@.scopes.wf(),
            old(self)@.variables.wf(),
            old(self)@.frames.wf(),
        ensures
            final(self)@ == old(self)@.moved_to(state),
            final(self)@.scopes.wf(),
            final(self)@.variables.wf(),
            final(self)@.frames.wf(),
    {
        let was_stopped = match self.state {
            SessionState::Stopped => true,
            _ => false,
        };
        let now_stopped = match state {
            SessionState::Stopped => true,
            _ => false,
        };
        if was_stopped != now_stopped {
            if now_stopped {
                self.scopes.begin_generation();
                self.variables.begin_generation();
                self.frames.begin_generation();
            } else {
                self.scopes.end_generation();
                self.variables.end_generation();
                self.frames.end_generation();
            }
        }
        self.state = state;
    }

    fn tear_down(&mut self) -> (r: Action)
        requires
            old(self).wf(),
        ensures
            final(self).wf(),
            final(self)@ == old(self)@.torn_down(),
            r@ == (ActionModel::Teardown {
                observers: old(self)@.observers,
                failed: seqs_of(old(self)@.pending),
            }),
    {
        let failed = copy_seqs(&self.pending);
        let observers = copy_ids(&self.observers);
        self.move_to(SessionState::Terminated);
        self.pending.clear();
        self.observers.clear();
        Action::Teardown { observers, failed }
    }

    /// Stamps a request: checks that `command` is legal in the current
    /// state, takes the next sequence number and registers the request as
    /// pending, all before anything is written to the transport.  A refused
    /// command leaves the session untouched and must not be sent.
    pub fn issue_request(&mut self, command: Command) -> (r: Result<u64, SessionError>)
        requires
            old(self).wf(),
        ensures
            final(self).wf(),
            final(self)@ == old(self)@.issue(command).0,
            r == old(self)@.issue(command).1,
    {
        if let SessionState::Terminated = self.state {
            return Err(SessionError::Terminated);
        }
        if !permits(self.state, command) {
            return Err(SessionError::IllegalState { attempted: command, current: self.state });
        }
        if self.next_seq == u64::MAX {
            return Err(SessionError::Exhausted);
        }
        let seq = self.next_seq;
        self.move_to(state_after_issue(self.state, command));
        self.next_seq = seq + 1;
        self.pending.push(Pending { seq, command });
        Ok(seq)
    }

    /// Dispatches one incoming message.  A response resolves exactly the
    /// waiter registered under its `request_seq` and removes it from the
    /// table; a response nobody waits for and a request from the adapter are
    /// dropped; a `Terminated` or `Exited` event tears the session down; any
    /// other event goes to the observers registered right now.
    pub fn handle_message(&mut self, message: &Message) -> (r: Action)
        requires
            old(self).wf(),
        ensures
            final(self).wf(),
            final(self)@ == old(self)@.receive(message@).0,
            r@ == old(self)@.receive(message@).1,
    {
        if let SessionState::Terminated = self.state {
            return Action::Ignored;
        }
        match message {
            Message::Request { .. } => Action::Dropped(ProtocolError::UnexpectedMessageType),
            Message::Response { request_seq, success, .. } => {
                match self.find_pending(*request_seq) {
                    Some(i) => {
                        proof {
                            let k = self@.position(*request_seq);
                            assert(self@.pending[i as int].seq == *request_seq);
                            assert(k == i as int);
                        }
                        let entry = self.pending.remove(i);
                        self.move_to(state_after_response(self.state, entry.command, *success));
                        Action::Resolve {
                            seq: *request_seq,
                            command: entry.command,
                            success: *success,
                        }
                    },
                    None => Action::Dropped(ProtocolError::UnknownSeq),
                }
            },
            Message::Event { event, .. } => {
                match event {
                    EventKind::Terminated | EventKind::Exited => self.tear_down(),
                    _ => {
                        let observers = copy_ids(&self.observers);
                        self.move_to(state_after_event(self.state, *event));
                        Action::Broadcast { event: *event, observers }
                    },
                }
            },
        }
    }

    /// Reports a fatal transport failure.  Whatever the failure, a session
    /// that has not yet terminated is torn down: every pending waiter is to
    /// be failed and every observer closed, and the session remembers what
    /// ended it.
    pub fn transport_failed(&mut self, error: TransportError) -> (r: Action)
        requires
            old(self).wf(),
        ensures
            final(self).wf(),
            final(self)@ == old(self)@.fail(error).0,
            r@ == old(self)@.fail(error).1,
    {
        if let SessionState::Terminated = self.state {
            return Action::Ignored;
        }
        let action = self.tear_down();
        self.failure = Some(error);
        action
    }

    /// Registers an event observer and returns its identifier.  A
    /// terminated session accepts no observer.
    pub fn subscribe(&mut self) -> (r: Result<u64, SessionError>)
        requires
            old(self).wf(),
        ensures
            final(self).wf(),
            final(self)@ == old(self)@.subscribe().0,
            r == old(self)@.subscribe().1,
    {
        if let SessionState::Terminated = self.state {
            return Err(SessionError::Terminated);
        }
        if self.next_observer == u64::MAX {
            return Err(SessionError::Exhausted);
        }
        let id = self.next_observer;
        self.next_observer = id + 1;
        self.observers.push(id);
        Ok(id)
    }

    /// Removes an observer; events dispatched from now on no longer reach
    /// it.  Returns whether it was registered.
    pub fn unsubscribe(&mut self, observer: u64) -> (r: bool)
        requires
            old(self).wf(),
        ensures
            final(self).wf(),
            final(self)@ == old(self)@.unsubscribe(observer).0,
            r == old(self)@.unsubscribe(observer).1,
    {
        let mut i: usize = 0;
        while i < self.observers.len()
            invariant
                i <= self.observers.len(),
                *self == *old(self),
                self.wf(),
                forall|j: int| 0 <= j < i ==> self.observers@[j] != observer,
            decreases self.observers.len() - i,
        {
            if self.observers[i] == observer {
                proof {
                    assert(self.observers@.contains(observer));
                    let k = self.observers@.index_of(observer);
                    assert(self@.observers[k] == observer);
                    assert(self@.observers[i as int] == observer);
                    assert(k == i as int);
                }
                self.observers.remove(i);
                return true;
            }
            i = i + 1;
        }
        assert(!self.observers@.contains(observer));
        false
    }

    /// The handle that stands for the adapter identifier `adapter_id` of
    /// kind `kind` during the current stop.  Fails with `StaleHandle` while
    /// the debuggee is not stopped.
    pub fn handle_for(&mut self, kind: HandleKind, adapter_id: u64) -> (r: Result<
        u64,
        HandleError,
    >)
        requires
            old(self).wf(),
        ensures
            final(self).wf(),
            final(self)@ == old(self)@.handle_for(kind, adapter_id).0,
            r == old(self)@.handle_for(kind, adapter_id).1,
    {
        match kind {
            HandleKind::Scope => self.scopes.intern(adapter_id),
            HandleKind::Variable => self.variables.intern(adapter_id),
            HandleKind::StackFrame => self.frames.intern(adapter_id),
        }
    }

    /// The adapter identifier behind `handle`, or `StaleHandle` when the
    /// handle was not minted during the current stop.
    pub fn lookup(&self, kind: HandleKind, handle: u64) -> (r: Result<u64, HandleError>)
        requires
            self.wf(),
        ensures
            r == self@.lookup(kind, handle),
    {
        match kind {
            HandleKind::Scope => self.scopes.resolve(handle),
            HandleKind::Variable => self.variables.resolve(handle),
            HandleKind::StackFrame => self.frames.resolve(handle),
        }
    }
}

} // verus!
