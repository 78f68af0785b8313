//! What holds of every session, proved over the session's model.
use crate::framing::TransportError;
use crate::handles::{lemma_intern_then_resolve, HandleError};
use crate::session::{
    legal, resumes, seqs_of, ActionModel, Command, HandleKind, MessageModel, SessionError, SessionModel,
    SessionState,
};
use vstd::prelude::*;

verus! {

/// One thing that can happen to a session.
pub enum Step {
    /// A caller issues a command.
    Issue(Command),
    /// A message arrives.
    Receive(MessageModel),
    /// The transport fails.
    TransportFailed(TransportError),
    /// An observer registers.
    Subscribe,
    /// An observer leaves.
    Unsubscribe(u64),
    /// A handle is requested for an adapter identifier.
    HandleFor(HandleKind, u64),
}

/// The session after one step.
pub open spec fn step(m: SessionModel, s: Step) -> SessionModel {
    match s {
        Step::Issue(command) => m.issue(command).0,
        Step::Receive(message) => m.receive(message).0,
        Step::TransportFailed(error) => m.fail(error).0,
        Step::Subscribe => m.subscribe().0,
        Step::Unsubscribe(observer) => m.unsubscribe(observer).0,
        Step::HandleFor(kind, adapter_id) => m.handle_for(kind, adapter_id).0,
    }
}

/// The session after a sequence of steps.
pub open spec fn after_steps(m: SessionModel, steps: Seq<Step>) -> SessionModel
    decreases steps.len(),
{
    if steps.len() == 0 {
        m
    } else {
        step(after_steps(m, steps.drop_last()), steps.last())
    }
}

/// In a well-formed session a pending sequence number sits at exactly one
/// position.
pub proof fn lemma_position_unique(m: SessionModel, seq: u64, i: int)
    requires
        m.wf(),
        0 <= i < m.pending.len(),
        m.pending[i].seq == seq,
    ensures
        m.is_pending(seq),
        m.position(seq) == i,
{
    let k = m.position(seq);
    assert(m.pending[k].seq == seq);
}

/// Every step keeps the session well formed and never lowers the sequence
/// counter; only an accepted request raises it, by exactly one.
pub proof fn lemma_step_preserves_wf(m: SessionModel, s: Step)
    requires
        m.wf(),
    ensures
        step(m, s).wf(),
        step(m, s).next_seq >= m.next_seq,
        step(m, s).next_seq == m.next_seq || (s matches Step::Issue(c) && m.issue(c).1 is Ok
            && step(m, s).next_seq == m.next_seq + 1),
        m.state is Terminated ==> step(m, s).state is Terminated,
{
    match s {
        Step::Issue(command) => {},
        Step::Receive(message) => {
            match message {
                MessageModel::Response { request_seq, success, .. } => {
                    if !(m.state is Terminated) && m.is_pending(request_seq) {
                        let i = m.position(request_seq);
                        assert(m.pending[i].seq == request_seq);
                        let after = m.receive(message).0;
                        assert forall|j: int| 0 <= j < after.pending.len() implies (
                        #[trigger] after.pending[j]).seq < after.next_seq by {
                            if j < i {
                                assert(after.pending[j] == m.pending[j]);
                            } else {
                                assert(after.pending[j] == m.pending[j + 1]);
                            }
                        }
                        assert forall|j: int, k: int|
                            0 <= j < k < after.pending.len() implies (
                        #[trigger] after.pending[j]).seq < (#[trigger] after.pending[k]).seq by {
                            let jj = if j < i { j } else { j + 1 };
                            let kk = if k < i { k } else { k + 1 };
                            assert(after.pending[j] == m.pending[jj]);
                            assert(after.pending[k] == m.pending[kk]);
                        }
                    }
                },
                _ => {},
            }
        },
        Step::TransportFailed(error) => {},
        Step::Subscribe => {},
        Step::Unsubscribe(observer) => {
            if m.observers.contains(observer) {
                let i = m.observers.index_of(observer);
                let after = m.unsubscribe(observer).0;
                assert forall|j: int| 0 <= j < after.observers.len() implies (
                #[trigger] after.observers[j]) < after.next_observer by {
                    if j < i {
                        assert(after.observers[j] == m.observers[j]);
                    } else {
                        assert(after.observers[j] == m.observers[j + 1]);
                    }
                }
                assert forall|j: int, k: int|
                    0 <= j < k < after.observers.len() implies (#[trigger] after.observers[j])
                    < (#[trigger] after.observers[k]) by {
                    let jj = if j < i { j } else { j + 1 };
                    let kk = if k < i { k } else { k + 1 };
                    assert(after.observers[j] == m.observers[jj]);
                    assert(after.observers[k] == m.observers[kk]);
                }
            }
        },
        Step::HandleFor(kind, adapter_id) => {
            lemma_intern_then_resolve(m.table(kind), adapter_id, 0);
        },
    }
}

/// Any sequence of steps keeps the session well formed and never lowers the
/// sequence counter.
pub proof fn lemma_run_preserves_wf(m: SessionModel, steps: Seq<Step>)
    requires
        m.wf(),
    ensures
        after_steps(m, steps).wf(),
        after_steps(m, steps).next_seq >= m.next_seq,
        m.state is Terminated ==> after_steps(m, steps).state is Terminated,
    decreases steps.len(),
{
    if steps.len() > 0 {
        lemma_run_preserves_wf(m, steps.drop_last());
        lemma_step_preserves_wf(after_steps(m, steps.drop_last()), steps.last());
    }
}

/// Sequence numbers strictly increase and are never reused: a request
/// accepted later, whatever happened in between (refused requests,
/// responses, events, transport failures), gets a larger number than one
/// accepted earlier.
pub proof fn lemma_sequence_numbers_strictly_increase(
    m: SessionModel,
    first: Command,
    between: Seq<Step>,
    second: Command,
)
    requires
        m.wf(),
        m.issue(first).1 is Ok,
        after_steps(m.issue(first).0, between).issue(second).1 is Ok,
    ensures
        m.issue(first).1->Ok_0 < after_steps(m.issue(first).0, between).issue(second).1->Ok_0,
{
    lemma_step_preserves_wf(m, Step::Issue(first));
    lemma_run_preserves_wf(m.issue(first).0, between);
}

/// A request that was accepted is pending under the number it was given,
/// with the command it was issued for, and that number was not pending
/// before.
pub proof fn lemma_issued_request_is_pending(m: SessionModel, command: Command)
    requires
        m.wf(),
        m.issue(command).1 is Ok,
    ensures
        !m.is_pending(m.issue(command).1->Ok_0),
        m.issue(command).0.is_pending(m.issue(command).1->Ok_0),
        m.issue(command).0.pending[m.issue(command).0.position(m.issue(command).1->Ok_0)].command
            == command,
{
    let after = m.issue(command).0;
    let seq = m.issue(command).1->Ok_0;
    lemma_step_preserves_wf(m, Step::Issue(command));
    assert(after.pending[m.pending.len() as int].seq == seq);
    lemma_position_unique(after, seq, m.pending.len() as int);
}

/// A response resolves the waiter registered under its `request_seq` and no
/// other: the action names that number and the command issued under it, the
/// entry leaves the table, and every other entry stays.
pub proof fn lemma_response_resolves_its_own_request(
    m: SessionModel,
    message: MessageModel,
    other: u64,
)
    requires
        m.wf(),
        !(m.state is Terminated),
        message is Response,
        m.is_pending(message->Response_request_seq),
    ensures
        m.receive(message).1 == (ActionModel::Resolve {
            seq: message->Response_request_seq,
            command: m.pending[m.position(message->Response_request_seq)].command,
            success: message->Response_success,
        }),
        !m.receive(message).0.is_pending(message->Response_request_seq),
        other != message->Response_request_seq ==> (m.receive(message).0.is_pending(other)
            == m.is_pending(other)),
{
    let seq = message->Response_request_seq;
    let i = m.position(seq);
    let after = m.receive(message).0;
    assert(m.pending[i].seq == seq);
    lemma_step_preserves_wf(m, Step::Receive(message));
    assert forall|j: int| 0 <= j < after.pending.len() implies (#[trigger] after.pending[j]).seq
        != seq by {
        if j < i {
            assert(after.pending[j] == m.pending[j]);
        } else {
            assert(after.pending[j] == m.pending[j + 1]);
        }
    }
    if other != seq {
        if m.is_pending(other) {
            let k = m.position(other);
            assert(m.pending[k].seq == other);
            let kk = if k < i { k } else { k - 1 };
            assert(after.pending[kk] == m.pending[k]);
        }
        if after.is_pending(other) {
            let k = after.position(other);
            assert(after.pending[k].seq == other);
            let kk = if k < i { k } else { k + 1 };
            assert(after.pending[k] == m.pending[kk]);
        }
    }
}

/// The command of the request pending under `seq`.
pub open spec fn pending_command(m: SessionModel, seq: u64) -> Command {
    m.pending[m.position(seq)].command
}

/// Whether the step is the arrival of the response to the request `seq`.
pub open spec fn answers(s: Step, seq: u64) -> bool {
    s matches Step::Receive(MessageModel::Response { request_seq, .. }) && request_seq == seq
}

/// A pending request is untouched by a step that neither answers it nor
/// ends the session.
pub proof fn lemma_pending_survives_step(m: SessionModel, seq: u64, s: Step)
    requires
        m.wf(),
        m.is_pending(seq),
        !answers(s, seq),
        !(step(m, s).state is Terminated),
    ensures
        step(m, s).is_pending(seq),
        pending_command(step(m, s), seq) == pending_command(m, seq),
{
    let i = m.position(seq);
    let after = step(m, s);
    assert(m.pending[i].seq == seq);
    lemma_step_preserves_wf(m, s);
    match s {
        Step::Receive(MessageModel::Response { request_seq, .. }) => {
            if m.is_pending(request_seq) {
                let j = m.position(request_seq);
                assert(m.pending[j].seq == request_seq);
                let k = if i < j { i } else { i - 1 };
                assert(after.pending[k] == m.pending[i]);
                lemma_position_unique(after, seq, k);
            } else {
                lemma_position_unique(after, seq, i);
            }
        },
        _ => {
            assert(after.pending[i] == m.pending[i]);
            lemma_position_unique(after, seq, i);
        },
    }
}

/// Each caller gets the answer to its own request, whatever the order of
/// arrival: while the session lives, a pending request stays pending under
/// its number and with its command through any steps that do not answer
/// it, be they other requests, responses to other requests in any order,
/// or events; when its response then arrives, it resolves exactly that
/// number.
pub proof fn lemma_pending_until_answered(
    m: SessionModel,
    seq: u64,
    steps: Seq<Step>,
    response: MessageModel,
)
    requires
        m.wf(),
        m.is_pending(seq),
        forall|k: int| 0 <= k < steps.len() ==> !answers(#[trigger] steps[k], seq),
        !(after_steps(m, steps).state is Terminated),
        response is Response,
        response->Response_request_seq == seq,
    ensures
        after_steps(m, steps).is_pending(seq),
        pending_command(after_steps(m, steps), seq) == pending_command(m, seq),
        after_steps(m, steps).receive(response).1 == (ActionModel::Resolve {
            seq,
            command: pending_command(m, seq),
            success: response->Response_success,
        }),
    decreases steps.len(),
{
    lemma_run_preserves_wf(m, steps);
    if steps.len() > 0 {
        let before = after_steps(m, steps.drop_last());
        lemma_run_preserves_wf(m, steps.drop_last());
        lemma_step_preserves_wf(before, steps.last());
        assert forall|k: int| 0 <= k < steps.drop_last().len() implies !answers(
            #[trigger] steps.drop_last()[k],
            seq,
        ) by {
            assert(steps.drop_last()[k] == steps[k]);
        }
        lemma_pending_until_answered(m, seq, steps.drop_last(), response);
        lemma_pending_survives_step(before, seq, steps.last());
    }
    lemma_response_resolves_its_own_request(after_steps(m, steps), response, 0);
}

/// The order in which two responses arrive does not matter: each resolves
/// the same waiter with the same outcome in either order, and the table of
/// pending requests ends up the same.
pub proof fn lemma_responses_commute(m: SessionModel, a: MessageModel, b: MessageModel)
    requires
        m.wf(),
        !(m.state is Terminated),
        a is Response,
        b is Response,
        a->Response_request_seq != b->Response_request_seq,
        m.is_pending(a->Response_request_seq),
        m.is_pending(b->Response_request_seq),
    ensures
        m.receive(a).0.receive(b).1 == m.receive(b).1,
        m.receive(b).0.receive(a).1 == m.receive(a).1,
        m.receive(a).0.receive(b).0.pending == m.receive(b).0.receive(a).0.pending,
{
    let sa = a->Response_request_seq;
    let sb = b->Response_request_seq;
    let ia = m.position(sa);
    let ib = m.position(sb);
    assert(m.pending[ia].seq == sa);
    assert(m.pending[ib].seq == sb);
    let ma = m.receive(a).0;
    let mb = m.receive(b).0;
    lemma_step_preserves_wf(m, Step::Receive(a));
    lemma_step_preserves_wf(m, Step::Receive(b));
    let ib2 = if ib < ia { ib } else { ib - 1 };
    let ia2 = if ia < ib { ia } else { ia - 1 };
    assert(ma.pending[ib2] == m.pending[ib]);
    assert(mb.pending[ia2] == m.pending[ia]);
    lemma_position_unique(ma, sb, ib2);
    lemma_position_unique(mb, sa, ia2);
    assert(m.pending.remove(ia).remove(ib2) =~= m.pending.remove(ib).remove(ia2));
}

/// Teardown fails every waiter: when a `Terminated` or `Exited` event
/// arrives, or the transport fails, the action lists every pending sequence
/// number, the table is empty afterwards, no observer stays registered and
/// the session is `Terminated`.
pub proof fn lemma_teardown_fails_every_waiter(m: SessionModel, s: Step, seq: u64)
    requires
        m.wf(),
        !(m.state is Terminated),
        s is TransportFailed || (s matches Step::Receive(MessageModel::Event { event, .. })
            && (event is Terminated || event is Exited)),
    ensures
        step(m, s).state is Terminated,
        step(m, s).pending.len() == 0,
        step(m, s).observers.len() == 0,
        (match s {
            Step::Receive(message) => m.receive(message).1,
            Step::TransportFailed(error) => m.fail(error).1,
            _ => ActionModel::Ignored,
        }) == (ActionModel::Teardown { observers: m.observers, failed: seqs_of(m.pending) }),
        m.is_pending(seq) <==> seqs_of(m.pending).contains(seq),
{
    if m.is_pending(seq) {
        let i = m.position(seq);
        assert(seqs_of(m.pending)[i] == seq);
    }
    if seqs_of(m.pending).contains(seq) {
        let i = seqs_of(m.pending).index_of(seq);
        assert(m.pending[i].seq == seq);
    }
}

/// `Terminated` is absorbing: whatever happens afterwards, the session
/// stays terminated with nothing pending, every request fails at once with
/// the termination error, no observer can register, and every message is
/// ignored.
pub proof fn lemma_terminated_is_absorbing(
    m: SessionModel,
    later: Seq<Step>,
    command: Command,
    message: MessageModel,
)
    requires
        m.wf(),
        m.state is Terminated,
    ensures
        after_steps(m, later).state is Terminated,
        after_steps(m, later).pending.len() == 0,
        after_steps(m, later).issue(command) == (after_steps(m, later), Err::<u64, SessionError>(
            SessionError::Terminated,
        )),
        after_steps(m, later).subscribe().1 == Err::<u64, SessionError>(SessionError::Terminated),
        after_steps(m, later).receive(message) == (after_steps(m, later), ActionModel::Ignored),
{
    lemma_run_preserves_wf(m, later);
}

/// The corner stones of the lifecycle: `initialize` is legal only before
/// anything else, `launch` and `attach` only once the adapter has announced
/// that it is initialized, stepping and continuing only while the debuggee
/// is stopped, and nothing at all once the session has terminated.
pub proof fn lemma_lifecycle_order(state: SessionState, command: Command)
    ensures
        command is Initialize ==> (legal(state, command) <==> state is Uninitialized),
        command is Launch || command is Attach ==> (legal(state, command)
            <==> state is Initialized),
        resumes(command) ==> (legal(state, command) <==> state is Stopped),
        state is Terminated ==> !legal(state, command),
        state is Uninitialized ==> (legal(state, command) <==> command is Initialize),
{
}

/// A command that is not legal in the current state is refused with
/// `IllegalState`, naming the command and the state, and the session is
/// left exactly as it was: no sequence number is spent and nothing is
/// registered, so there is nothing to send.
pub proof fn lemma_illegal_request_changes_nothing(m: SessionModel, command: Command)
    requires
        !(m.state is Terminated),
        !legal(m.state, command),
    ensures
        m.issue(command) == (m, Err::<u64, SessionError>(
            SessionError::IllegalState { attempted: command, current: m.state },
        )),
{
}

/// No step lowers the base of a handle table or the frontier up to which
/// handles have been given out.
pub proof fn lemma_step_handles_monotone(m: SessionModel, s: Step, kind: HandleKind)
    requires
        m.wf(),
    ensures
        step(m, s).table(kind).base >= m.table(kind).base,
        step(m, s).table(kind).base + step(m, s).table(kind).ids.len() >= m.table(kind).base
            + m.table(kind).ids.len(),
        step(m, s).table(kind).floor == m.table(kind).floor,
        step(m, s).table(kind).limit == m.table(kind).limit,
{
}

/// No sequence of steps lowers the base of a handle table or the frontier
/// up to which handles have been given out.
pub proof fn lemma_run_handles_monotone(m: SessionModel, steps: Seq<Step>, kind: HandleKind)
    requires
        m.wf(),
    ensures
        after_steps(m, steps).wf(),
        after_steps(m, steps).table(kind).base >= m.table(kind).base,
        after_steps(m, steps).table(kind).base + after_steps(m, steps).table(kind).ids.len() >= m.table(
            kind,
        ).base + m.table(kind).ids.len(),
        after_steps(m, steps).table(kind).floor == m.table(kind).floor,
        after_steps(m, steps).table(kind).limit == m.table(kind).limit,
    decreases steps.len(),
{
    lemma_run_preserves_wf(m, steps);
    if steps.len() > 0 {
        lemma_run_handles_monotone(m, steps.drop_last(), kind);
        lemma_run_preserves_wf(m, steps.drop_last());
        lemma_step_handles_monotone(after_steps(m, steps.drop_last()), steps.last(), kind);
    }
}

/// Handles of one stop are stale ever after: once the session has left the
/// stop in which a handle was valid, looking the handle up fails with
/// `StaleHandle`, in the next stop as in any later state, whatever
/// identifiers were interned meanwhile.
pub proof fn lemma_handle_stale_after_resume(
    m: SessionModel,
    kind: HandleKind,
    handle: u64,
    first: Seq<Step>,
    rest: Seq<Step>,
)
    requires
        m.wf(),
        m.table(kind).valid(handle),
        !(after_steps(m, first).state is Stopped),
    ensures
        after_steps(after_steps(m, first), rest).lookup(kind, handle) == Err::<u64, HandleError>(
            HandleError::StaleHandle,
        ),
{
    lemma_run_handles_monotone(m, first, kind);
    lemma_run_handles_monotone(after_steps(m, first), rest, kind);
}

/// Sessions whose handle ranges do not overlap never give out the same
/// handle, whatever happens in either of them.
pub proof fn lemma_sessions_share_no_handle(
    a: SessionModel,
    in_a: Seq<Step>,
    b: SessionModel,
    in_b: Seq<Step>,
    kind: HandleKind,
    handle: u64,
)
    requires
        a.wf(),
        b.wf(),
        a.table(kind).limit <= b.table(kind).floor,
    ensures
        !(after_steps(a, in_a).table(kind).valid(handle) && after_steps(b, in_b).table(kind).valid(handle)),
{
    lemma_run_handles_monotone(a, in_a, kind);
    lemma_run_handles_monotone(b, in_b, kind);
}

} // verus!
