//! Protocol messages as JSON documents: the names that commands and events
//! go by on the wire, the reading of a received document into a
//! [`Message`], and the writing of a message as the members of a document.
use crate::framing::{decimal, push_decimal, TransportError};
use crate::session::{
    AdapterReportedError, Command, EventKind, Message, MessageModel, ProtocolError,
};
use vstd::prelude::*;
use vstd::string::StringSliceAdditionalSpecFns;

verus! {

/// Whether two strings hold the same characters.
pub fn str_eq(a: &str, b: &str) -> (r: bool)
    ensures
        r == (a@ == b@),
{
    let n = a.unicode_len();
    if n != b.unicode_len() {
        return false;
    }
    let mut i: usize = 0;
    while i < n
        invariant
            n == a@.len(),
            n == b@.len(),
            i <= n,
            forall|j: int| 0 <= j < i ==> a@[j] == b@[j],
        decreases n - i,
    {
        if a.get_char(i) != b.get_char(i) {
            return false;
        }
        i = i + 1;
    }
    assert(a@ =~= b@);
    true
}

impl Command {
    /// The name the command goes by on the wire.
    pub open spec fn spec_name(self) -> &'static str {
        match self {
            Command::Initialize => "initialize",
            Command::Launch => "launch",
            Command::Attach => "attach",
            Command::ConfigurationDone => "configurationDone",
            Command::SetBreakpoints => "setBreakpoints",
            Command::Threads => "threads",
            Command::StackTrace => "stackTrace",
            Command::Scopes => "scopes",
            Command::Variables => "variables",
            Command::Evaluate => "evaluate",
            Command::Continue => "continue",
            Command::Next => "next",
            Command::StepIn => "stepIn",
            Command::StepOut => "stepOut",
            Command::Pause => "pause",
            Command::Disconnect => "disconnect",
            Command::Terminate => "terminate",
        }
    }

    /// The command that goes by `name`, if any.
    pub open spec fn spec_from_name(name: Seq<char>) -> Option<Command> {
        if name == "initialize"@ {
            Some(Command::Initialize)
        } else if name == "launch"@ {
            Some(Command::Launch)
        } else if name == "attach"@ {
            Some(Command::Attach)
        } else if name == "configurationDone"@ {
            Some(Command::ConfigurationDone)
        } else if name == "setBreakpoints"@ {
            Some(Command::SetBreakpoints)
        } else if name == "threads"@ {
            Some(Command::Threads)
        } else if name == "stackTrace"@ {
            Some(Command::StackTrace)
        } else if name == "scopes"@ {
            Some(Command::Scopes)
        } else if name == "variables"@ {
            Some(Command::Variables)
        } else if name == "evaluate"@ {
            Some(Command::Evaluate)
        } else if name == "continue"@ {
            Some(Command::Continue)
        } else if name == "next"@ {
            Some(Command::Next)
        } else if name == "stepIn"@ {
            Some(Command::StepIn)
        } else if name == "stepOut"@ {
            Some(Command::StepOut)
        } else if name == "pause"@ {
            Some(Command::Pause)
        } else if name == "disconnect"@ {
            Some(Command::Disconnect)
        } else if name == "terminate"@ {
            Some(Command::Terminate)
        } else {
            None
        }
    }

    /// Computes [`Self::spec_name`].
    pub fn name(&self) -> (r: &'static str)
        ensures
            r == self.spec_name(),
    {
        match self {
            Command::Initialize => "initialize",
            Command::Launch => "launch",
            Command::Attach => "attach",
            Command::ConfigurationDone => "configurationDone",
            Command::SetBreakpoints => "setBreakpoints",
            Command::Threads => "threads",
            Command::StackTrace => "stackTrace",
            Command::Scopes => "scopes",
            Command::Variables => "variables",
            Command::Evaluate => "evaluate",
            Command::Continue => "continue",
            Command::Next => "next",
            Command::StepIn => "stepIn",
            Command::StepOut => "stepOut",
            Command::Pause => "pause",
            Command::Disconnect => "disconnect",
            Command::Terminate => "terminate",
        }
    }

    /// Computes [`Self::spec_from_name`].
    pub fn from_name(name: &str) -> (r: Option<Command>)
        ensures
            r == Self::spec_from_name(name@),
    {
        if str_eq(name, "initialize") {
            Some(Command::Initialize)
        } else if str_eq(name, "launch") {
            Some(Command::Launch)
        } else if str_eq(name, "attach") {
            Some(Command::Attach)
        } else if str_eq(name, "configurationDone") {
            Some(Command::ConfigurationDone)
        } else if str_eq(name, "setBreakpoints") {
            Some(Command::SetBreakpoints)
        } else if str_eq(name, "threads") {
            Some(Command::Threads)
        } else if str_eq(name, "stackTrace") {
            Some(Command::StackTrace)
        } else if str_eq(name, "scopes") {
            Some(Command::Scopes)
        } else if str_eq(name, "variables") {
            Some(Command::Variables)
        } else if str_eq(name, "evaluate") {
            Some(Command::Evaluate)
        } else if str_eq(name, "continue") {
            Some(Command::Continue)
        } else if str_eq(name, "next") {
            Some(Command::Next)
        } else if str_eq(name, "stepIn") {
            Some(Command::StepIn)
        } else if str_eq(name, "stepOut") {
            Some(Command::StepOut)
        } else if str_eq(name, "pause") {
            Some(Command::Pause)
        } else if str_eq(name, "disconnect") {
            Some(Command::Disconnect)
        } else if str_eq(name, "terminate") {
            Some(Command::Terminate)
        } else {
            None
        }
    }
}

impl EventKind {
    /// The name the event goes by on the wire; `other` stands for every
    /// event this client has no variant for.
    pub open spec fn spec_name(self) -> &'static str {
        match self {
            EventKind::Initialized => "initialized",
            EventKind::Stopped => "stopped",
            EventKind::Continued => "continued",
            EventKind::Terminated => "terminated",
            EventKind::Exited => "exited",
            EventKind::Output => "output",
            EventKind::Other => "other",
        }
    }

    /// The event that goes by `name`; an unknown name is `Other`.
    pub open spec fn spec_from_name(name: Seq<char>) -> EventKind {
        if name == "initialized"@ {
            EventKind::Initialized
        } else if name == "stopped"@ {
            EventKind::Stopped
        } else if name == "continued"@ {
            EventKind::Continued
        } else if name == "terminated"@ {
            EventKind::Terminated
        } else if name == "exited"@ {
            EventKind::Exited
        } else if name == "output"@ {
            EventKind::Output
        } else {
            EventKind::Other
        }
    }

    /// Computes [`Self::spec_name`].
    pub fn name(&self) -> (r: &'static str)
        ensures
            r == self.spec_name(),
    {
        match self {
            EventKind::Initialized => "initialized",
            EventKind::Stopped => "stopped",
            EventKind::Continued => "continued",
            EventKind::Terminated => "terminated",
            EventKind::Exited => "exited",
            EventKind::Output => "output",
            EventKind::Other => "other",
        }
    }

    /// Computes [`Self::spec_from_name`].
    pub fn from_name(name: &str) -> (r: EventKind)
        ensures
            r == Self::spec_from_name(name@),
    {
        if str_eq(name, "initialized") {
            EventKind::Initialized
        } else if str_eq(name, "stopped") {
            EventKind::Stopped
        } else if str_eq(name, "continued") {
            EventKind::Continued
        } else if str_eq(name, "terminated") {
            EventKind::Terminated
        } else if str_eq(name, "exited") {
            EventKind::Exited
        } else if str_eq(name, "output") {
            EventKind::Output
        } else {
            EventKind::Other
        }
    }
}

/// Why a document is not a message this client handles.
#[derive(Clone, Copy, Debug, PartialEq, Eq, Structural)]
pub enum DecodeError {
    /// The document is not JSON or lacks a field its kind requires: the
    /// stream is corrupt and the transport is to be given up.
    Transport(TransportError),
    /// The document is well formed but of a kind or command this client
    /// does not know: it is to be logged and dropped.
    Protocol(ProtocolError),
}

/// The unsigned integer at `pointer` in the JSON document `document`, as
/// `serde_json` reads it; `None` where the document is not JSON, nothing
/// stands at the pointer, or what stands there is not such an integer.
pub uninterp spec fn json_u64_at(document: Seq<u8>, pointer: Seq<char>) -> Option<u64>;

/// The signed integer at `pointer` in `document`, likewise.
pub uninterp spec fn json_i64_at(document: Seq<u8>, pointer: Seq<char>) -> Option<i64>;

/// The boolean at `pointer` in `document`, likewise.
pub uninterp spec fn json_bool_at(document: Seq<u8>, pointer: Seq<char>) -> Option<bool>;

/// The string at `pointer` in `document`, likewise.
pub uninterp spec fn json_str_at(document: Seq<u8>, pointer: Seq<char>) -> Option<Seq<char>>;

/// The value at `pointer` in `document`, written out again as compact JSON;
/// `None` where the document is not JSON or nothing stands at the pointer.
pub uninterp spec fn json_raw_at(document: Seq<u8>, pointer: Seq<char>) -> Option<Seq<u8>>;

/// The characters of an optional string.
pub open spec fn text_of(value: Option<String>) -> Option<Seq<char>> {
    match value {
        Some(s) => Some(s@),
        None => None,
    }
}

/// The bytes of an optional byte vector.
pub open spec fn bytes_of(value: Option<Vec<u8>>) -> Option<Seq<u8>> {
    match value {
        Some(b) => Some(b@),
        None => None,
    }
}

/// Parses `document` with `serde_json::from_slice`, looks `pointer` up with
/// `Value::pointer` and reads the value there with `Value::as_u64`.  Not
/// proved: the result is a function of the two arguments, named
/// [`json_u64_at`].
#[verifier::external_body]
fn read_u64(document: &[u8], pointer: &str) -> (r: Option<u64>)
    ensures
        r == json_u64_at(document@, pointer@),
{
    let value: serde_json::Value = serde_json::from_slice(document).ok()?;
    value.pointer(pointer)?.as_u64()
}

/// Parses `document` with `serde_json::from_slice`, looks `pointer` up with
/// `Value::pointer` and reads the value there with `Value::as_i64`.  Not
/// proved: the result is a function of the two arguments, named
/// [`json_i64_at`].
#[verifier::external_body]
fn read_i64(document: &[u8], pointer: &str) -> (r: Option<i64>)
    ensures
        r == json_i64_at(document@, pointer@),
{
    let value: serde_json::Value = serde_json::from_slice(document).ok()?;
    value.pointer(pointer)?.as_i64()
}

/// Parses `document` with `serde_json::from_slice`, looks `pointer` up with
/// `Value::pointer` and reads the value there with `Value::as_bool`.  Not
/// proved: the result is a function of the two arguments, named
/// [`json_bool_at`].
#[verifier::external_body]
fn read_bool(document: &[u8], pointer: &str) -> (r: Option<bool>)
    ensures
        r == json_bool_at(document@, pointer@),
{
    let value: serde_json::Value = serde_json::from_slice(document).ok()?;
    value.pointer(pointer)?.as_bool()
}

/// Parses `document` with `serde_json::from_slice`, looks `pointer` up with
/// `Value::pointer` and reads the value there with `Value::as_str`.  Not
/// proved: the result is a function of the two arguments, named
/// [`json_str_at`].
#[verifier::external_body]
fn read_str(document: &[u8], pointer: &str) -> (r: Option<String>)
    ensures
        text_of(r) == json_str_at(document@, pointer@),
{
    let value: serde_json::Value = serde_json::from_slice(document).ok()?;
    Some(value.pointer(pointer)?.as_str()?.to_string())
}

/// Parses `document` with `serde_json::from_slice`, looks `pointer` up with
/// `Value::pointer` and writes the value there with `serde_json::to_vec`.
/// Not proved: the result is a function of the two arguments, named
/// [`json_raw_at`].
#[verifier::external_body]
fn read_raw(document: &[u8], pointer: &str) -> (r: Option<Vec<u8>>)
    ensures
        bytes_of(r) == json_raw_at(document@, pointer@),
{
    let value: serde_json::Value = serde_json::from_slice(document).ok()?;
    serde_json::to_vec(value.pointer(pointer)?).ok()
}

/// Whether the JSON value `value` is written the way `serde_json` writes
/// it: compact, the members of every object in the order of their names.
/// A raw value that travels in a document (`arguments`, `body`) is handed
/// back by [`decode_message`] in this form, so it comes back byte for byte
/// exactly where it is canonical.
pub open spec fn canonical(value: Seq<u8>) -> bool {
    json_raw_at(value, ""@) == Some(value)
}

/// The canonical form of the JSON value `value`; `None` where it is not
/// JSON.
pub fn canonical_form(value: &[u8]) -> (r: Option<Vec<u8>>)
    ensures
        bytes_of(r) == json_raw_at(value@, ""@),
{
    read_raw(value, "")
}

/// Whether two byte strings are equal.
pub fn bytes_eq(a: &[u8], b: &[u8]) -> (r: bool)
    ensures
        r == (a@ == b@),
{
    if a.len() != b.len() {
        return false;
    }
    let mut i: usize = 0;
    while i < a.len()
        invariant
            a@.len() == b@.len(),
            i <= a.len(),
            forall|j: int| 0 <= j < i ==> a@[j] == b@[j],
        decreases a.len() - i,
    {
        if a[i] != b[i] {
            return false;
        }
        i = i + 1;
    }
    assert(a@ =~= b@);
    true
}

/// Decides [`canonical`].
pub fn is_canonical(value: &[u8]) -> (r: bool)
    ensures
        r == canonical(value@),
{
    match canonical_form(value) {
        Some(form) => bytes_eq(form.as_slice(), value),
        None => false,
    }
}

/// The fields of a message as they were read from its document, each
/// absent where the document does not hold it in the expected form.
#[derive(Clone, Debug, PartialEq, Eq, Default)]
pub struct Fields {
    /// `type`
    pub kind: Option<String>,
    /// `seq`
    pub seq: Option<u64>,
    /// `command`
    pub command: Option<String>,
    /// `arguments`, as compact JSON
    pub arguments: Option<Vec<u8>>,
    /// `request_seq`
    pub request_seq: Option<u64>,
    /// `success`
    pub success: Option<bool>,
    /// `body`, as compact JSON
    pub body: Option<Vec<u8>>,
    /// `message`
    pub message: Option<String>,
    /// `body.error.id`
    pub error_code: Option<i64>,
    /// `event`
    pub event: Option<String>,
}

/// The mathematical content of [`Fields`].
pub struct FieldsModel {
    pub kind: Option<Seq<char>>,
    pub seq: Option<u64>,
    pub command: Option<Seq<char>>,
    pub arguments: Option<Seq<u8>>,
    pub request_seq: Option<u64>,
    pub success: Option<bool>,
    pub body: Option<Seq<u8>>,
    pub message: Option<Seq<char>>,
    pub error_code: Option<i64>,
    pub event: Option<Seq<char>>,
}

impl View for Fields {
    type V = FieldsModel;

    open spec fn view(&self) -> FieldsModel {
        FieldsModel {
            kind: text_of(self.kind),
            seq: self.seq,
            command: text_of(self.command),
            arguments: bytes_of(self.arguments),
            request_seq: self.request_seq,
            success: self.success,
            body: bytes_of(self.body),
            message: text_of(self.message),
            error_code: self.error_code,
            event: text_of(self.event),
        }
    }
}

/// The fields of the message in `document`.
pub open spec fn fields_of(document: Seq<u8>) -> FieldsModel {
    FieldsModel {
        kind: json_str_at(document, "/type"@),
        seq: json_u64_at(document, "/seq"@),
        command: json_str_at(document, "/command"@),
        arguments: json_raw_at(document, "/arguments"@),
        request_seq: json_u64_at(document, "/request_seq"@),
        success: json_bool_at(document, "/success"@),
        body: json_raw_at(document, "/body"@),
        message: json_str_at(document, "/message"@),
        error_code: json_i64_at(document, "/body/error/id"@),
        event: json_str_at(document, "/event"@),
    }
}

/// The bytes of `value`, or none where it is absent.
pub open spec fn bytes_or_empty(value: Option<Seq<u8>>) -> Seq<u8> {
    match value {
        Some(b) => b,
        None => Seq::empty(),
    }
}

/// The characters of `value`, or none where it is absent.
pub open spec fn text_or_empty(value: Option<Seq<char>>) -> Seq<char> {
    match value {
        Some(s) => s,
        None => Seq::empty(),
    }
}

/// The message that the fields `f` make up.  Every message needs `type`
/// and `seq`; a request needs a known `command`; a response needs
/// `request_seq` and `success`; where it reports success it carries its
/// `body`, and where it reports failure it carries, in place of a body, the
/// adapter's error with `body.error.id` as its code (zero where absent) and
/// `message` as its text (empty where absent); an event needs `event` and
/// keeps it as its name.  Absent `arguments` and `body` are empty.
pub open spec fn spec_assemble(f: FieldsModel) -> Result<MessageModel, DecodeError> {
    let corrupt = Err::<MessageModel, DecodeError>(
        DecodeError::Transport(TransportError::FrameCorrupt),
    );
    let unexpected = Err::<MessageModel, DecodeError>(
        DecodeError::Protocol(ProtocolError::UnexpectedMessageType),
    );
    if f.kind is None || f.seq is None {
        corrupt
    } else if f.kind->Some_0 == "request"@ {
        if f.command is None {
            corrupt
        } else {
            match Command::spec_from_name(f.command->Some_0) {
                Some(command) => Ok(
                    MessageModel::Request {
                        seq: f.seq->Some_0,
                        command,
                        arguments: bytes_or_empty(f.arguments),
                    },
                ),
                None => unexpected,
            }
        }
    } else if f.kind->Some_0 == "response"@ {
        if f.request_seq is None || f.success is None {
            corrupt
        } else {
            Ok(
                MessageModel::Response {
                    seq: f.seq->Some_0,
                    request_seq: f.request_seq->Some_0,
                    success: f.success->Some_0,
                    body: if f.success->Some_0 {
                        bytes_or_empty(f.body)
                    } else {
                        Seq::<u8>::empty()
                    },
                    error: if f.success->Some_0 {
                        None
                    } else {
                        Some(
                            (
                                match f.error_code {
                                    Some(code) => code,
                                    None => 0i64,
                                },
                                text_or_empty(f.message),
                            ),
                        )
                    },
                },
            )
        }
    } else if f.kind->Some_0 == "event"@ {
        if f.event is None {
            corrupt
        } else {
            Ok(
                MessageModel::Event {
                    seq: f.seq->Some_0,
                    event: EventKind::spec_from_name(f.event->Some_0),
                    name: f.event->Some_0,
                    body: bytes_or_empty(f.body),
                },
            )
        }
    } else {
        unexpected
    }
}

/// Whether `r` is the outcome `expected`, message by content.
pub open spec fn decoded_as(
    r: Result<Message, DecodeError>,
    expected: Result<MessageModel, DecodeError>,
) -> bool {
    match expected {
        Ok(m) => r is Ok && r->Ok_0@ == m,
        Err(e) => r == Err::<Message, DecodeError>(e),
    }
}

fn take_bytes(value: Option<Vec<u8>>) -> (r: Vec<u8>)
    ensures
        r@ == bytes_or_empty(bytes_of(value)),
{
    match value {
        Some(b) => b,
        None => Vec::new(),
    }
}

fn take_text(value: Option<String>) -> (r: String)
    ensures
        r@ == text_or_empty(text_of(value)),
{
    match value {
        Some(s) => s,
        None => String::new(),
    }
}

/// Builds the message that `fields` make up; see [`spec_assemble`].
pub fn assemble(fields: Fields) -> (r: Result<Message, DecodeError>)
    ensures
        decoded_as(r, spec_assemble(fields@)),
{
    let Fields {
        kind,
        seq,
        command,
        arguments,
        request_seq,
        success,
        body,
        message,
        error_code,
        event,
    } = fields;
    let (kind, seq) = match (kind, seq) {
        (Some(kind), Some(seq)) => (kind, seq),
        _ => {
            return Err(DecodeError::Transport(TransportError::FrameCorrupt));
        },
    };
    if str_eq(kind.as_str(), "request") {
        match command {
            Some(name) => match Command::from_name(name.as_str()) {
                Some(command) => Ok(
                    Message::Request { seq, command, arguments: take_bytes(arguments) },
                ),
                None => Err(DecodeError::Protocol(ProtocolError::UnexpectedMessageType)),
            },
            None => Err(DecodeError::Transport(TransportError::FrameCorrupt)),
        }
    } else if str_eq(kind.as_str(), "response") {
        match (request_seq, success) {
            (Some(request_seq), Some(success)) => {
                let body = if success {
                    take_bytes(body)
                } else {
                    Vec::new()
                };
                let error = if success {
                    None
                } else {
                    let code: i64 = match error_code {
                        Some(code) => code,
                        None => 0,
                    };
                    Some(AdapterReportedError { code, message: take_text(message) })
                };
                Ok(
                    Message::Response {
                        seq,
                        request_seq,
                        success,
                        body,
                        error,
                    },
                )
            },
            _ => Err(DecodeError::Transport(TransportError::FrameCorrupt)),
        }
    } else if str_eq(kind.as_str(), "event") {
        match event {
            Some(name) => {
                let event = EventKind::from_name(name.as_str());
                Ok(Message::Event { seq, event, name, body: take_bytes(body) })
            },
            None => Err(DecodeError::Transport(TransportError::FrameCorrupt)),
        }
    } else {
        Err(DecodeError::Protocol(ProtocolError::UnexpectedMessageType))
    }
}

/// Reads the message that the JSON document `document` holds: the fields
/// are looked up in the document and assembled as [`spec_assemble`] says.
pub fn decode_message(document: &[u8]) -> (r: Result<Message, DecodeError>)
    ensures
        decoded_as(r, spec_assemble(fields_of(document@))),
{
    let kind = read_str(document, "/type");
    let seq = read_u64(document, "/seq");
    let mut fields = Fields {
        kind,
        seq,
        command: None,
        arguments: None,
        request_seq: None,
        success: None,
        body: None,
        message: None,
        error_code: None,
        event: None,
    };
    let as_request = match &fields.kind {
        Some(kind) => str_eq(kind.as_str(), "request"),
        None => false,
    };
    let as_response = match &fields.kind {
        Some(kind) => str_eq(kind.as_str(), "response"),
        None => false,
    };
    let as_event = match &fields.kind {
        Some(kind) => str_eq(kind.as_str(), "event"),
        None => false,
    };
    if as_request {
        fields.command = read_str(document, "/command");
        fields.arguments = read_raw(document, "/arguments");
    } else if as_response {
        fields.request_seq = read_u64(document, "/request_seq");
        fields.success = read_bool(document, "/success");
        match fields.success {
            Some(true) => {
                fields.body = read_raw(document, "/body");
            },
            Some(false) => {
                fields.message = read_str(document, "/message");
                fields.error_code = read_i64(document, "/body/error/id");
            },
            None => {},
        }
    } else if as_event {
        fields.event = read_str(document, "/event");
        fields.body = read_raw(document, "/body");
    }
    assemble(fields)
}

impl MessageModel {
    /// Whether the message is one that travels unchanged: a response
    /// carries an error exactly when it reports failure, and then no body;
    /// an event is taken for what its name says.
    pub open spec fn well_formed(self) -> bool {
        match self {
            MessageModel::Request { .. } => true,
            MessageModel::Response { success, body, error, .. } => if success {
                error is None
            } else {
                error is Some && body.len() == 0
            },
            MessageModel::Event { event, name, .. } => event == EventKind::spec_from_name(name),
        }
    }
}

impl Message {
    /// Decides [`MessageModel::well_formed`].
    pub fn is_well_formed(&self) -> (r: bool)
        ensures
            r == self@.well_formed(),
    {
        match self {
            Message::Request { .. } => true,
            Message::Response { success, body, error, .. } => if *success {
                error.is_none()
            } else {
                error.is_some() && body.len() == 0
            },
            Message::Event { event, name, .. } => {
                let named = EventKind::from_name(name.as_str());
                match (named, *event) {
                    (EventKind::Initialized, EventKind::Initialized) => true,
                    (EventKind::Stopped, EventKind::Stopped) => true,
                    (EventKind::Continued, EventKind::Continued) => true,
                    (EventKind::Terminated, EventKind::Terminated) => true,
                    (EventKind::Exited, EventKind::Exited) => true,
                    (EventKind::Output, EventKind::Output) => true,
                    (EventKind::Other, EventKind::Other) => true,
                    _ => false,
                }
            },
        }
    }
}

/// The members a message document can have.
#[derive(Clone, Copy, Debug, PartialEq, Eq, Structural)]
pub enum Key {
    Sequence,
    Type,
    Command,
    Arguments,
    RequestSeq,
    Success,
    Message,
    Event,
    Body,
}

impl Key {
    /// The member's name in the document.
    pub open spec fn spec_text(self) -> &'static str {
        match self {
            Key::Sequence => "seq",
            Key::Type => "type",
            Key::Command => "command",
            Key::Arguments => "arguments",
            Key::RequestSeq => "request_seq",
            Key::Success => "success",
            Key::Message => "message",
            Key::Event => "event",
            Key::Body => "body",
        }
    }

    /// Computes [`Self::spec_text`].
    pub fn text(&self) -> (r: &'static str)
        ensures
            r == self.spec_text(),
    {
        match self {
            Key::Sequence => "seq",
            Key::Type => "type",
            Key::Command => "command",
            Key::Arguments => "arguments",
            Key::RequestSeq => "request_seq",
            Key::Success => "success",
            Key::Message => "message",
            Key::Event => "event",
            Key::Body => "body",
        }
    }
}

/// What a member of a document holds.
pub enum ValueModel {
    /// An unsigned integer.
    Number(u64),
    /// `true` or `false`.
    Flag(bool),
    /// One of the protocol's own words, which needs no escaping.
    Word(&'static str),
    /// Any text.
    Text(Seq<char>),
    /// A JSON value, carried as the bytes it was given in.
    Raw(Seq<u8>),
    /// The body of a failed response: an object whose `error` member holds
    /// the error's text as `format` and its code as `id`.
    Failure { code: i64, text: Seq<char> },
}

/// One member of a document.
pub struct MemberModel {
    pub key: Key,
    pub value: ValueModel,
}

/// The JSON string that spells `text`, as `serde_json` writes it.
pub uninterp spec fn json_quoted(text: Seq<char>) -> Seq<u8>;

/// Writes `text` as a JSON string with `serde_json::to_vec`.  Not proved:
/// the result is a function of the text, named [`json_quoted`].
#[verifier::external_body]
fn quote(text: &str) -> (r: Vec<u8>)
    ensures
        r@ == json_quoted(text@),
{
    serde_json::to_vec(text).unwrap_or_default()
}

/// The decimal digits of `i`, behind a minus sign where it is negative.
pub open spec fn signed_decimal(i: int) -> Seq<u8> {
    if i < 0 {
        seq![45u8] + decimal((-i) as nat)
    } else {
        decimal(i as nat)
    }
}

/// How a value stands in a document.
pub open spec fn rendered_value(value: ValueModel) -> Seq<u8> {
    match value {
        ValueModel::Number(n) => decimal(n as nat),
        ValueModel::Flag(b) => if b {
            "true".spec_bytes()
        } else {
            "false".spec_bytes()
        },
        ValueModel::Word(w) => "\"".spec_bytes() + w.spec_bytes() + "\"".spec_bytes(),
        ValueModel::Text(t) => json_quoted(t),
        ValueModel::Raw(b) => b,
        ValueModel::Failure { code, text } => "{\"error\":{\"format\":".spec_bytes()
            + json_quoted(text) + ",\"id\":".spec_bytes() + signed_decimal(code as int)
            + "}}".spec_bytes(),
    }
}

/// How a member stands in a document: its name in quotes, a colon, its
/// value.
pub open spec fn rendered_member(member: MemberModel) -> Seq<u8> {
    "\"".spec_bytes() + member.key.spec_text().spec_bytes() + "\":".spec_bytes()
        + rendered_value(member.value)
}

/// The members in order, with commas between them.
pub open spec fn rendered_members(members: Seq<MemberModel>) -> Seq<u8>
    decreases members.len(),
{
    if members.len() == 0 {
        Seq::<u8>::empty()
    } else if members.len() == 1 {
        rendered_member(members[0])
    } else {
        rendered_members(members.drop_last()) + ",".spec_bytes() + rendered_member(
            members.last(),
        )
    }
}

/// The JSON object with the members `members`.
pub open spec fn document(members: Seq<MemberModel>) -> Seq<u8> {
    "{".spec_bytes() + rendered_members(members) + "}".spec_bytes()
}

/// The member that carries the raw value `value` under `key`; none where
/// the value is empty.
pub open spec fn raw_member(key: Key, value: Seq<u8>) -> Seq<MemberModel> {
    if value.len() == 0 {
        Seq::<MemberModel>::empty()
    } else {
        seq![MemberModel { key, value: ValueModel::Raw(value) }]
    }
}

/// The members of a request: `seq`, `type`, `command` and, unless empty,
/// `arguments`.
pub open spec fn request_members(seq: u64, command: Command, arguments: Seq<u8>) -> Seq<
    MemberModel,
> {
    seq![
        MemberModel { key: Key::Sequence, value: ValueModel::Number(seq) },
        MemberModel { key: Key::Type, value: ValueModel::Word("request") },
        MemberModel { key: Key::Command, value: ValueModel::Word(command.spec_name()) },
    ] + raw_member(Key::Arguments, arguments)
}

/// The members of a message.  A request is as [`request_members`] says.
/// A response has `seq`, `type`, `request_seq` and `success`; where it
/// reports success, its `body` unless empty; where it reports failure, the
/// error's text as `message` and the error as `body`, with code zero and no
/// text where the message holds no error.  An event has `seq`, `type`, its
/// name as `event` and, unless empty, `body`.
pub open spec fn message_members(message: MessageModel) -> Seq<MemberModel> {
    match message {
        MessageModel::Request { seq, command, arguments } => request_members(
            seq,
            command,
            arguments,
        ),
        MessageModel::Response { seq, request_seq, success, body, error } => seq![
            MemberModel { key: Key::Sequence, value: ValueModel::Number(seq) },
            MemberModel { key: Key::Type, value: ValueModel::Word("response") },
            MemberModel { key: Key::RequestSeq, value: ValueModel::Number(request_seq) },
            MemberModel { key: Key::Success, value: ValueModel::Flag(success) },
        ] + (if success {
            raw_member(Key::Body, body)
        } else {
            let (code, text) = match error {
                Some(e) => e,
                None => (0i64, Seq::<char>::empty()),
            };
            seq![
                MemberModel { key: Key::Message, value: ValueModel::Text(text) },
                MemberModel { key: Key::Body, value: ValueModel::Failure { code, text } },
            ]
        }),
        MessageModel::Event { seq, name, body, .. } => seq![
            MemberModel { key: Key::Sequence, value: ValueModel::Number(seq) },
            MemberModel { key: Key::Type, value: ValueModel::Word("event") },
            MemberModel { key: Key::Event, value: ValueModel::Text(name) },
        ] + raw_member(Key::Body, body),
    }
}

/// The JSON document of a request.
pub open spec fn request_document(seq: u64, command: Command, arguments: Seq<u8>) -> Seq<u8> {
    document(request_members(seq, command, arguments))
}

/// The JSON document of a message.
pub open spec fn message_document(message: MessageModel) -> Seq<u8> {
    document(message_members(message))
}

/// The value of a member, as the encoder holds it.
#[derive(Clone, Copy, Debug)]
pub enum Value<'a> {
    Number(u64),
    Flag(bool),
    Word(&'static str),
    Text(&'a str),
    Raw(&'a [u8]),
    Failure { code: i64, text: &'a str },
}

impl<'a> View for Value<'a> {
    type V = ValueModel;

    open spec fn view(&self) -> ValueModel {
        match *self {
            Value::Number(n) => ValueModel::Number(n),
            Value::Flag(b) => ValueModel::Flag(b),
            Value::Word(w) => ValueModel::Word(w),
            Value::Text(t) => ValueModel::Text(t@),
            Value::Raw(b) => ValueModel::Raw(b@),
            Value::Failure { code, text } => ValueModel::Failure { code, text: text@ },
        }
    }
}

/// A member, as the encoder holds it.
#[derive(Clone, Copy, Debug)]
pub struct Member<'a> {
    pub key: Key,
    pub value: Value<'a>,
}

impl<'a> View for Member<'a> {
    type V = MemberModel;

    open spec fn view(&self) -> MemberModel {
        MemberModel { key: self.key, value: self.value@ }
    }
}

/// The content of a list of members.
pub open spec fn members_view<'a>(members: Seq<Member<'a>>) -> Seq<MemberModel> {
    members.map_values(|m: Member<'a>| m@)
}

fn push_bytes(out: &mut Vec<u8>, bytes: &[u8])
    ensures
        final(out)@ == old(out)@ + bytes@,
{
    let mut i: usize = 0;
    while i < bytes.len()
        invariant
            i <= bytes.len(),
            out@ == old(out)@ + bytes@.take(i as int),
        decreases bytes.len() - i,
    {
        out.push(bytes[i]);
        proof {
            assert(old(out)@ + bytes@.take(i + 1) =~= (old(out)@ + bytes@.take(i as int)).push(
                bytes@[i as int],
            ));
        }
        i = i + 1;
    }
    proof {
        assert(bytes@.take(i as int) =~= bytes@);
    }
}

fn push_signed(out: &mut Vec<u8>, i: i64)
    ensures
        final(out)@ == old(out)@ + signed_decimal(i as int),
{
    if i < 0 {
        out.push(45u8);
        let magnitude: u64 = ((-(i + 1)) as u64) + 1;
        push_decimal(out, magnitude);
        proof {
            assert(final(out)@ =~= old(out)@ + (seq![45u8] + decimal((-i) as nat)));
        }
    } else {
        push_decimal(out, i as u64);
    }
}

fn render_value(value: &Value) -> (r: Vec<u8>)
    ensures
        r@ == rendered_value(value@),
{
    let mut out: Vec<u8> = Vec::new();
    match value {
        Value::Number(n) => {
            push_decimal(&mut out, *n);
            assert(out@ =~= decimal(*n as nat));
        },
        Value::Flag(b) => {
            if *b {
                push_bytes(&mut out, "true".as_bytes());
                assert(out@ =~= "true".spec_bytes());
            } else {
                push_bytes(&mut out, "false".as_bytes());
                assert(out@ =~= "false".spec_bytes());
            }
        },
        Value::Word(w) => {
            push_bytes(&mut out, "\"".as_bytes());
            assert(out@ =~= "\"".spec_bytes());
            push_bytes(&mut out, w.as_bytes());
            push_bytes(&mut out, "\"".as_bytes());
        },
        Value::Text(t) => {
            let quoted = quote(t);
            push_bytes(&mut out, quoted.as_slice());
            assert(out@ =~= json_quoted(t@));
        },
        Value::Raw(b) => {
            push_bytes(&mut out, b);
            assert(out@ =~= b@);
        },
        Value::Failure { code, text } => {
            push_bytes(&mut out, "{\"error\":{\"format\":".as_bytes());
            assert(out@ =~= "{\"error\":{\"format\":".spec_bytes());
            let quoted = quote(text);
            push_bytes(&mut out, quoted.as_slice());
            push_bytes(&mut out, ",\"id\":".as_bytes());
            push_signed(&mut out, *code);
            push_bytes(&mut out, "}}".as_bytes());
        },
    }
    out
}

fn render_member(member: &Member) -> (r: Vec<u8>)
    ensures
        r@ == rendered_member(member@),
{
    let mut out: Vec<u8> = Vec::new();
    push_bytes(&mut out, "\"".as_bytes());
    assert(out@ =~= "\"".spec_bytes());
    push_bytes(&mut out, member.key.text().as_bytes());
    push_bytes(&mut out, "\":".as_bytes());
    let value = render_value(&member.value);
    push_bytes(&mut out, value.as_slice());
    out
}

/// Writes the JSON object with the members `members`; see [`document`].
pub fn render_document(members: &Vec<Member>) -> (r: Vec<u8>)
    ensures
        r@ == document(members_view(members@)),
{
    let ghost all = members_view(members@);
    let mut out: Vec<u8> = Vec::new();
    push_bytes(&mut out, "{".as_bytes());
    let mut i: usize = 0;
    while i < members.len()
        invariant
            i <= members.len(),
            all == members_view(members@),
            out@ == "{".spec_bytes() + rendered_members(all.take(i as int)),
        decreases members.len() - i,
    {
        let ghost before = out@;
        if i > 0 {
            push_bytes(&mut out, ",".as_bytes());
        }
        let member = render_member(&members[i]);
        push_bytes(&mut out, member.as_slice());
        proof {
            assert(all.take(i + 1).drop_last() =~= all.take(i as int));
            assert(all.take(i + 1).last() == members@[i as int]@);
            if i == 0 {
                assert(all.take(1)[0] == members@[0]@);
                assert(rendered_members(all.take(0)) =~= Seq::<u8>::empty());
                assert(out@ =~= "{".spec_bytes() + rendered_member(members@[0]@));
            } else {
                assert(out@ =~= "{".spec_bytes() + (rendered_members(all.take(i as int))
                    + ",".spec_bytes() + rendered_member(members@[i as int]@)));
            }
        }
        i = i + 1;
    }
    proof {
        assert(all.take(i as int) =~= all);
    }
    push_bytes(&mut out, "}".as_bytes());
    out
}

fn push_raw_member<'a>(members: &mut Vec<Member<'a>>, key: Key, value: &'a [u8])
    ensures
        members_view(final(members)@) == members_view(old(members)@) + raw_member(key, value@),
{
    if value.len() > 0 {
        members.push(Member { key, value: Value::Raw(value) });
    }
    proof {
        assert(members_view(final(members)@) =~= members_view(old(members)@) + raw_member(
            key,
            value@,
        ));
    }
}

/// Writes the JSON document of the request `command` with sequence number
/// `seq`; see [`request_members`].  The arguments are taken to be a JSON
/// value and written as given; a reader hands them back in canonical form
/// (see [`canonical`]).
pub fn encode_request(seq: u64, command: Command, arguments: &[u8]) -> (r: Vec<u8>)
    ensures
        r@ == request_document(seq, command, arguments@),
{
    let mut members: Vec<Member> = Vec::new();
    members.push(Member { key: Key::Sequence, value: Value::Number(seq) });
    members.push(Member { key: Key::Type, value: Value::Word("request") });
    members.push(Member { key: Key::Command, value: Value::Word(command.name()) });
    proof {
        assert(members_view(members@) =~= seq![
            MemberModel { key: Key::Sequence, value: ValueModel::Number(seq) },
            MemberModel { key: Key::Type, value: ValueModel::Word("request") },
            MemberModel { key: Key::Command, value: ValueModel::Word(command.spec_name()) },
        ]);
    }
    push_raw_member(&mut members, Key::Arguments, arguments);
    render_document(&members)
}

/// Writes the JSON document of `message`; see [`message_members`].
/// Arguments and bodies are taken to be JSON values and written as given;
/// a reader hands them back in canonical form (see [`canonical`]).  A
/// message that is not well formed (see [`MessageModel::well_formed`]) is
/// written by what `success` and the event's name say.
pub fn encode_message(message: &Message) -> (r: Vec<u8>)
    ensures
        r@ == message_document(message@),
{
    match message {
        Message::Request { seq, command, arguments } => encode_request(
            *seq,
            *command,
            arguments.as_slice(),
        ),
        Message::Event { seq, name, body, .. } => {
            let mut members: Vec<Member> = Vec::new();
            members.push(Member { key: Key::Sequence, value: Value::Number(*seq) });
            members.push(Member { key: Key::Type, value: Value::Word("event") });
            members.push(Member { key: Key::Event, value: Value::Text(name.as_str()) });
            proof {
                assert(members_view(members@) =~= seq![
                    MemberModel { key: Key::Sequence, value: ValueModel::Number(*seq) },
                    MemberModel { key: Key::Type, value: ValueModel::Word("event") },
                    MemberModel { key: Key::Event, value: ValueModel::Text(name@) },
                ]);
            }
            push_raw_member(&mut members, Key::Body, body.as_slice());
            render_document(&members)
        },
        Message::Response { seq, request_seq, success, body, error } => {
            let mut members: Vec<Member> = Vec::new();
            members.push(Member { key: Key::Sequence, value: Value::Number(*seq) });
            members.push(Member { key: Key::Type, value: Value::Word("response") });
            members.push(Member { key: Key::RequestSeq, value: Value::Number(*request_seq) });
            members.push(Member { key: Key::Success, value: Value::Flag(*success) });
            let ghost head = seq![
                MemberModel { key: Key::Sequence, value: ValueModel::Number(*seq) },
                MemberModel { key: Key::Type, value: ValueModel::Word("response") },
                MemberModel { key: Key::RequestSeq, value: ValueModel::Number(*request_seq) },
                MemberModel { key: Key::Success, value: ValueModel::Flag(*success) },
            ];
            proof {
                assert(members_view(members@) =~= head);
            }
            if *success {
                push_raw_member(&mut members, Key::Body, body.as_slice());
            } else {
                let (code, text): (i64, &str) = match error {
                    Some(e) => (e.code, e.message.as_str()),
                    None => (0, ""),
                };
                proof {
                    reveal_strlit("");
                    assert(""@ =~= Seq::<char>::empty());
                }
                members.push(Member { key: Key::Message, value: Value::Text(text) });
                members.push(Member { key: Key::Body, value: Value::Failure { code, text } });
                proof {
                    assert(members_view(members@) =~= head + seq![
                        MemberModel { key: Key::Message, value: ValueModel::Text(text@) },
                        MemberModel {
                            key: Key::Body,
                            value: ValueModel::Failure { code, text: text@ },
                        },
                    ]);
                }
            }
            render_document(&members)
        },
    }
}

/// Every command is found again under its own name.
pub proof fn lemma_command_name_round_trip(command: Command)
    ensures
        Command::spec_from_name(command.spec_name()@) == Some(command),
{
    reveal_strlit("initialize");
    reveal_strlit("launch");
    reveal_strlit("attach");
    reveal_strlit("configurationDone");
    reveal_strlit("setBreakpoints");
    reveal_strlit("threads");
    reveal_strlit("stackTrace");
    reveal_strlit("scopes");
    reveal_strlit("variables");
    reveal_strlit("evaluate");
    reveal_strlit("continue");
    reveal_strlit("next");
    reveal_strlit("stepIn");
    reveal_strlit("stepOut");
    reveal_strlit("pause");
    reveal_strlit("disconnect");
    reveal_strlit("terminate");
    let name = command.spec_name()@;
    assert(name.len() >= 4);
    let (first, third, fourth) = (name[0], name[2], name[3]);
}

/// Every event is found again under its own name.
pub proof fn lemma_event_name_round_trip(event: EventKind)
    ensures
        EventKind::spec_from_name(event.spec_name()@) == event,
{
    reveal_strlit("initialized");
    reveal_strlit("stopped");
    reveal_strlit("continued");
    reveal_strlit("terminated");
    reveal_strlit("exited");
    reveal_strlit("output");
    reveal_strlit("other");
    let name = event.spec_name()@;
    assert(name.len() >= 5);
    let first = name[0];
}

/// The value that `members` hold under `key`, if any.
pub open spec fn member_at(members: Seq<MemberModel>, key: Key) -> Option<ValueModel> {
    if exists|i: int| 0 <= i < members.len() && (#[trigger] members[i]).key == key {
        Some(
            members[choose|i: int| 0 <= i < members.len() && (#[trigger] members[i]).key
                == key].value,
        )
    } else {
        None
    }
}

/// The unsigned integer that a member holds.
pub open spec fn number_in(value: Option<ValueModel>) -> Option<u64> {
    match value {
        Some(ValueModel::Number(n)) => Some(n),
        _ => None,
    }
}

/// The boolean that a member holds.
pub open spec fn flag_in(value: Option<ValueModel>) -> Option<bool> {
    match value {
        Some(ValueModel::Flag(b)) => Some(b),
        _ => None,
    }
}

/// The string that a member holds.
pub open spec fn text_in(value: Option<ValueModel>) -> Option<Seq<char>> {
    match value {
        Some(ValueModel::Word(w)) => Some(w@),
        Some(ValueModel::Text(t)) => Some(t),
        _ => None,
    }
}

/// The JSON value that a member holds, as the bytes it is written in;
/// none for a number, a boolean or a string.
pub open spec fn raw_in(value: Option<ValueModel>) -> Option<Seq<u8>> {
    match value {
        Some(ValueModel::Raw(b)) => Some(b),
        Some(ValueModel::Failure { code, text }) => Some(
            rendered_value(ValueModel::Failure { code, text }),
        ),
        _ => None,
    }
}

/// The error code that a member holds: that of a failure; what lies
/// inside a raw value is not looked into.
pub open spec fn code_in(value: Option<ValueModel>) -> Option<i64> {
    match value {
        Some(ValueModel::Failure { code, .. }) => Some(code),
        _ => None,
    }
}

/// The fields that the members of a document hold, member by member.
pub open spec fn fields_written(members: Seq<MemberModel>) -> FieldsModel {
    FieldsModel {
        kind: text_in(member_at(members, Key::Type)),
        seq: number_in(member_at(members, Key::Sequence)),
        command: text_in(member_at(members, Key::Command)),
        arguments: raw_in(member_at(members, Key::Arguments)),
        request_seq: number_in(member_at(members, Key::RequestSeq)),
        success: flag_in(member_at(members, Key::Success)),
        body: raw_in(member_at(members, Key::Body)),
        message: text_in(member_at(members, Key::Message)),
        error_code: code_in(member_at(members, Key::Body)),
        event: text_in(member_at(members, Key::Event)),
    }
}

/// In a list whose keys all differ, the member under a key is the one at
/// the position where the key stands.
pub proof fn lemma_member_at(members: Seq<MemberModel>, i: int)
    requires
        0 <= i < members.len(),
        forall|a: int, b: int|
            0 <= a < b < members.len() ==> (#[trigger] members[a]).key != (
            #[trigger] members[b]).key,
    ensures
        member_at(members, members[i].key) == Some(members[i].value),
{
    let key = members[i].key;
    let j = choose|j: int| 0 <= j < members.len() && (#[trigger] members[j]).key == key;
    assert(members[j].key == key);
    assert(j == i);
}

/// What is written is what is read: the members that the encoder writes
/// for a well-formed message hold exactly the fields from which the
/// message is assembled again, every field of a request, a response and an
/// event, with the pairing of `seq` and `request_seq` and with the error's
/// code and text.  The statement is about the members of the document that
/// [`message_document`] renders; that a JSON reader finds these members in
/// the rendered bytes is not part of it.
pub proof fn lemma_written_members_assemble(message: MessageModel)
    requires
        message.well_formed(),
    ensures
        spec_assemble(fields_written(message_members(message))) == Ok::<
            MessageModel,
            DecodeError,
        >(message),
{
    reveal_strlit("request");
    reveal_strlit("response");
    reveal_strlit("event");
    assert("request"@.len() == 7 && "response"@.len() == 8 && "event"@.len() == 5);
    let members = message_members(message);
    let fields = fields_written(members);
    assert forall|k: Key| (forall|i: int| 0 <= i < members.len() ==> (#[trigger] members[i]).key
        != k) implies member_at(members, k) is None by {}
    match message {
        MessageModel::Request { seq, command, arguments } => {
            lemma_command_name_round_trip(command);
            lemma_member_at(members, 0);
            lemma_member_at(members, 1);
            lemma_member_at(members, 2);
            if arguments.len() > 0 {
                lemma_member_at(members, 3);
            }
            assert(fields.arguments == if arguments.len() > 0 {
                Some(arguments)
            } else {
                None::<Seq<u8>>
            });
            assert(bytes_or_empty(fields.arguments) =~= arguments);
        },
        MessageModel::Response { seq, request_seq, success, body, error } => {
            lemma_member_at(members, 0);
            lemma_member_at(members, 1);
            lemma_member_at(members, 2);
            lemma_member_at(members, 3);
            if success {
                if body.len() > 0 {
                    lemma_member_at(members, 4);
                }
                assert(bytes_or_empty(fields.body) =~= body);
            } else {
                lemma_member_at(members, 4);
                lemma_member_at(members, 5);
                let e = error->Some_0;
                assert((e.0, e.1) == e);
                assert(body =~= Seq::<u8>::empty());
            }
        },
        MessageModel::Event { seq, event, name, body } => {
            lemma_member_at(members, 0);
            lemma_member_at(members, 1);
            lemma_member_at(members, 2);
            if body.len() > 0 {
                lemma_member_at(members, 3);
            }
            assert(bytes_or_empty(fields.body) =~= body);
        },
    }
}

} // verus!
