//! The two halves of a client's traffic: turning a command into the bytes
//! to write, and turning a received document into the action to take.
use crate::framing::{encode_frame, frame};
use crate::session::{
    Action, ActionModel, Command, Message, MessageModel, Session, SessionError, SessionModel,
};
use crate::wire::{
    decode_message, encode_request, fields_of, request_document, spec_assemble, DecodeError,
};
use vstd::prelude::*;

verus! {

/// A request that is ready to be written to the transport.
#[derive(Clone, Debug, PartialEq, Eq)]
pub struct Outgoing {
    /// The sequence number under which the caller waits for the response.
    pub seq: u64,
    /// The framed request, to be written in one piece.
    pub frame: Vec<u8>,
}

/// What became of a received document.
#[derive(Clone, Debug, PartialEq, Eq)]
pub struct Delivery {
    /// What the owner of the session must do.
    pub action: Action,
    /// The message that was read, for the waiter or the observers to get.
    pub message: Option<Message>,
}

/// The content of an optional message.
pub open spec fn model_of(message: Option<Message>) -> Option<MessageModel> {
    match message {
        Some(m) => Some(m@),
        None => None,
    }
}

impl SessionModel {
    /// Delivering the outcome of reading a document: a message is
    /// received, a corrupt document is a fatal transport failure, and a
    /// document of an unknown kind is dropped; a terminated session ignores
    /// all of them.
    pub open spec fn deliver(self, decoded: Result<MessageModel, DecodeError>) -> (
        Self,
        ActionModel,
    ) {
        match decoded {
            Ok(message) => self.receive(message),
            Err(DecodeError::Transport(error)) => self.fail(error),
            Err(DecodeError::Protocol(e)) => if self.state is Terminated {
                (self, ActionModel::Ignored)
            } else {
                (self, ActionModel::Dropped(e))
            },
        }
    }
}

impl Session {
    /// Stamps and encodes a request.  Where the command is accepted, the
    /// request is registered as pending and its frame is returned for
    /// writing; where it is refused, the session is untouched and there is
    /// nothing to write.
    pub fn prepare_request(&mut self, command: Command, arguments: &[u8]) -> (r: Result<
        Outgoing,
        SessionError,
    >)
        requires
            old(self).wf(),
        ensures
            final(self).wf(),
            final(self)@ == old(self)@.issue(command).0,
            match old(self)@.issue(command).1 {
                Ok(seq) => r is Ok && r->Ok_0.seq == seq && r->Ok_0.frame@ == frame(
                    request_document(seq, command, arguments@),
                ),
                Err(e) => r == Err::<Outgoing, SessionError>(e),
            },
    {
        match self.issue_request(command) {
            Ok(seq) => {
                let document = encode_request(seq, command, arguments);
                Ok(Outgoing { seq, frame: encode_frame(document.as_slice()) })
            },
            Err(e) => Err(e),
        }
    }

    /// Delivers the outcome of reading one document to the session; see
    /// [`SessionModel::deliver`].  The message, where there is one, is
    /// handed back beside the action.
    pub fn deliver(&mut self, decoded: Result<Message, DecodeError>) -> (r: Delivery)
        requires
            old(self).wf(),
        ensures
            final(self).wf(),
            match decoded {
                Ok(message) => {
                    &&& final(self)@ == old(self)@.receive(message@).0
                    &&& r.action@ == old(self)@.receive(message@).1
                    &&& r.message == Some(message)
                },
                Err(e) => {
                    &&& final(self)@ == old(self)@.deliver(Err(e)).0
                    &&& r.action@ == old(self)@.deliver(Err(e)).1
                    &&& r.message is None
                },
            },
    {
        match decoded {
            Ok(message) => {
                let action = self.handle_message(&message);
                Delivery { action, message: Some(message) }
            },
            Err(DecodeError::Transport(error)) => {
                let action = self.transport_failed(error);
                Delivery { action, message: None }
            },
            Err(DecodeError::Protocol(error)) => {
                let action = match self.state() {
                    crate::session::SessionState::Terminated => Action::Ignored,
                    _ => Action::Dropped(error),
                };
                Delivery { action, message: None }
            },
        }
    }

    /// Reads the JSON document of one frame and delivers it.
    pub fn dispatch(&mut self, document: &[u8]) -> (r: Delivery)
        requires
            old(self).wf(),
        ensures
            final(self).wf(),
            final(self)@ == old(self)@.deliver(spec_assemble(fields_of(document@))).0,
            r.action@ == old(self)@.deliver(spec_assemble(fields_of(document@))).1,
            model_of(r.message) == match spec_assemble(fields_of(document@)) {
                Ok(message) => Some(message),
                Err(_) => None,
            },
    {
        self.deliver(decode_message(document))
    }
}

} // verus!
