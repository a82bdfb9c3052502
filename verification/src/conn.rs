//! Connection (vat) state machine and the capability invocation facade.
//!
//! A `Connection` owns one capability table and one answer tracker and
//! dispatches decoded messages to pure actions: frames to send back,
//! local objects to invoke, exports to dispose, the transport to close.
//! All I/O stays with the caller, which feeds events in and performs
//! the actions.
//!
//! Any protocol violation — a reused or unknown call id, a release of
//! more references than are held, a pipeline on an unknown answer — is
//! fatal: the connection aborts, every outstanding question fails, and
//! an `Abort` is owed to the peer.  A transport loss fails every
//! outstanding question with `ConnectionLost`.

use crate::answers::{
    dv_calls, spec_cap_at, AnswerEntryV, AnswerStateV, PendingCall, PendingCallV, Tracker,
};
use crate::captable::{CapTable, ExportEntry, ImportEntry};
use crate::codec::{
    clone_outcome, clone_payload, clone_plain, CapDesc, CapDescV, Message, MessageV, Outcome,
    OutcomeV, Payload, PayloadV, Target, TargetV,
};
use vstd::prelude::*;

verus! {

/// Connection lifecycle states.
#[derive(Clone, Copy, PartialEq, Eq, Structural, Debug)]
pub enum ConnState {
    Connecting,
    Active,
    Closing,
    Closed,
    Aborted,
}

/// The distinguishable ways a question can fail.
#[derive(Clone, PartialEq, Eq, Debug)]
pub enum RpcError {
    /// The transport closed or failed under the connection.
    ConnectionLost,
    /// The peer sent `Abort`.
    PeerAborted,
    /// This side detected a protocol violation and aborted.
    ProtocolViolation,
    /// The remote method failed; the reason travelled in the `Return`.
    Application { reason: Vec<u8> },
    /// A capability reference did not name a live entry.
    BadCapability,
}

/// Mathematical view of `RpcError`.
pub enum RpcErrorV {
    ConnectionLost,
    PeerAborted,
    ProtocolViolation,
    Application { reason: Seq<u8> },
    BadCapability,
}

impl DeepView for RpcError {
    type V = RpcErrorV;

    open spec fn deep_view(&self) -> RpcErrorV {
        match self {
            RpcError::ConnectionLost => RpcErrorV::ConnectionLost,
            RpcError::PeerAborted => RpcErrorV::PeerAborted,
            RpcError::ProtocolViolation => RpcErrorV::ProtocolViolation,
            RpcError::Application { reason } => RpcErrorV::Application { reason: reason@ },
            RpcError::BadCapability => RpcErrorV::BadCapability,
        }
    }
}

/// Copy an error, preserving its view.
pub fn clone_rpc_error(e: &RpcError) -> (r: RpcError)
    ensures
        r.deep_view() == e.deep_view(),
{
    match e {
        RpcError::ConnectionLost => RpcError::ConnectionLost,
        RpcError::PeerAborted => RpcError::PeerAborted,
        RpcError::ProtocolViolation => RpcError::ProtocolViolation,
        RpcError::Application { reason } => RpcError::Application { reason: clone_plain(reason) },
        RpcError::BadCapability => RpcError::BadCapability,
    }
}

/// What a locally issued call has come to.
#[derive(Debug)]
pub enum QuestionState {
    /// No `Return` yet.
    Waiting,
    /// Returned: the payload, or why it failed.
    Done { result: Result<Payload, RpcError> },
    /// All local interest was dropped; a late `Return` is discarded.
    Canceled,
}

/// Mathematical view of `QuestionState`.
pub enum QuestionStateV {
    Waiting,
    Done { result: Result<PayloadV, RpcErrorV> },
    Canceled,
}

impl DeepView for QuestionState {
    type V = QuestionStateV;

    open spec fn deep_view(&self) -> QuestionStateV {
        match self {
            QuestionState::Waiting => QuestionStateV::Waiting,
            QuestionState::Done { result } => QuestionStateV::Done {
                result: match result {
                    Ok(p) => Ok(p.deep_view()),
                    Err(e) => Err(e.deep_view()),
                },
            },
            QuestionState::Canceled => QuestionStateV::Canceled,
        }
    }
}

/// Elementwise view of the question list.
pub open spec fn dv_questions(s: Seq<QuestionState>) -> Seq<QuestionStateV> {
    Seq::new(s.len(), |i: int| s[i].deep_view())
}

/// How application code names a call target: the invocation facade is
/// the same whether the capability is local, imported or pipelined.
#[derive(Debug)]
pub enum CapRef {
    /// An object hosted in this process.
    Local { handle: u64 },
    /// The peer's export, held through the import table.
    Imported { id: u32 },
    /// A capability inside the not-yet-returned answer of an earlier
    /// question.
    Pipelined { question_id: u32, path: Vec<u32> },
}

/// One thing the caller must do on the connection's behalf.
#[derive(Debug)]
pub enum Action {
    /// Frame and send this message to the peer.
    Send { msg: Message },
    /// Invoke a local object for the peer; report the outcome through
    /// `local_answer_completed(answer_id, ..)`.
    Invoke { handle: u64, method_id: u32, params: Payload, answer_id: u32 },
    /// Invoke a local object for a local caller; report the outcome
    /// through `local_question_completed(question_id, ..)`.
    InvokeLocal { handle: u64, method_id: u32, params: Payload, question_id: u32 },
    /// The peer released its last reference: the object may be freed.
    DisposeExport { handle: u64 },
    /// Close the transport.
    CloseTransport,
}

/// Mathematical view of `Action`.
pub enum ActionV {
    Send { msg: MessageV },
    Invoke { handle: u64, method_id: u32, params: PayloadV, answer_id: u32 },
    InvokeLocal { handle: u64, method_id: u32, params: PayloadV, question_id: u32 },
    DisposeExport { handle: u64 },
    CloseTransport,
}

impl DeepView for Action {
    type V = ActionV;

    open spec fn deep_view(&self) -> ActionV {
        match self {
            Action::Send { msg } => ActionV::Send { msg: msg.deep_view() },
            Action::Invoke { handle, method_id, params, answer_id } => ActionV::Invoke {
                handle: *handle,
                method_id: *method_id,
                params: params.deep_view(),
                answer_id: *answer_id,
            },
            Action::InvokeLocal { handle, method_id, params, question_id } => ActionV::InvokeLocal {
                handle: *handle,
                method_id: *method_id,
                params: params.deep_view(),
                question_id: *question_id,
            },
            Action::DisposeExport { handle } => ActionV::DisposeExport { handle: *handle },
            Action::CloseTransport => ActionV::CloseTransport,
        }
    }
}

/// Elementwise view of an action list.
pub open spec fn dv_actions(s: Seq<Action>) -> Seq<ActionV> {
    Seq::new(s.len(), |i: int| s[i].deep_view())
}

// ---------------------------------------------------------------------
// Specification of dispatch.
// ---------------------------------------------------------------------

/// A failure `Return` for `call_id`.
pub open spec fn spec_fail_return(call_id: u32, reason: Seq<u8>) -> ActionV {
    ActionV::Send {
        msg: MessageV::Return { call_id, outcome: OutcomeV::Failure { reason } },
    }
}

/// How a call at a known export id dispatches: invoke the exported
/// object, or answer with a failure when the id is not live.
pub open spec fn spec_call_action(
    ex: Seq<Option<ExportEntry>>,
    eid: u32,
    call_id: u32,
    method_id: u32,
    params: PayloadV,
) -> ActionV {
    if CapTable::live_export(ex, eid as int) {
        ActionV::Invoke {
            handle: CapTable::export_handle(ex, eid as int),
            method_id,
            params,
            answer_id: call_id,
        }
    } else {
        spec_fail_return(call_id, Seq::empty())
    }
}

/// How a call queued against an answer dispatches once that answer has
/// resolved: an error fans out to the dependent unchanged; a result is
/// followed through the field path to an exported capability.
pub open spec fn spec_waiter_action(
    ex: Seq<Option<ExportEntry>>,
    o: OutcomeV,
    w: PendingCallV,
) -> ActionV {
    match o {
        OutcomeV::Failure { reason } => spec_fail_return(w.call_id, reason),
        OutcomeV::Results { payload } => match spec_cap_at(payload, w.path) {
            Some(CapDescV::SenderHosted { id }) => spec_call_action(
                ex,
                id,
                w.call_id,
                w.method_id,
                w.params,
            ),
            _ => spec_fail_return(w.call_id, Seq::empty()),
        },
    }
}

/// The question state a `Return` outcome settles into.
pub open spec fn spec_returned(o: OutcomeV) -> QuestionStateV {
    match o {
        OutcomeV::Results { payload } => QuestionStateV::Done { result: Ok(payload) },
        OutcomeV::Failure { reason } => QuestionStateV::Done {
            result: Err(RpcErrorV::Application { reason }),
        },
    }
}

/// Every waiting question failed with `e`; settled ones keep their
/// result.
pub open spec fn spec_fail_all(qs: Seq<QuestionStateV>, e: RpcErrorV) -> Seq<QuestionStateV> {
    Seq::new(
        qs.len(),
        |i: int|
            if qs[i] is Waiting {
                QuestionStateV::Done { result: Err(e) }
            } else {
                qs[i]
            },
    )
}

/// The actions of a local protocol-violation abort.
pub open spec fn spec_abort_actions() -> Seq<ActionV> {
    seq![
        ActionV::Send { msg: MessageV::Abort { reason: Seq::empty() } },
        ActionV::CloseTransport,
    ]
}

/// The connection aborted on a protocol violation: every waiting
/// question fails, the tables and tracker stand as they were, and the
/// peer is owed an `Abort` before the transport closes.
pub open spec fn spec_aborted(pre: Connection, post: Connection, acts: Seq<ActionV>) -> bool {
    &&& post.state == ConnState::Aborted
    &&& post.ex() == pre.ex()
    &&& post.im() == pre.im()
    &&& post.av() == pre.av()
    &&& post.bootstrap_handle == pre.bootstrap_handle
    &&& post.qv() == spec_fail_all(pre.qv(), RpcErrorV::ProtocolViolation)
    &&& acts == spec_abort_actions()
}

// ---------------------------------------------------------------------
// Laws of pipelining.
// ---------------------------------------------------------------------

/// Law (pipelining correctness): once an answer has resolved to a
/// result whose field path names a hosted capability, a call that was
/// queued against the answer dispatches exactly as the same call issued
/// directly at that capability after the return arrived.
pub proof fn lemma_pipeline_equiv(
    ex: Seq<Option<ExportEntry>>,
    p: PayloadV,
    w: PendingCallV,
    id: u32,
)
    requires
        spec_cap_at(p, w.path) == Some(CapDescV::SenderHosted { id }),
    ensures
        spec_waiter_action(ex, OutcomeV::Results { payload: p }, w) == spec_call_action(
            ex,
            id,
            w.call_id,
            w.method_id,
            w.params,
        ),
{
}

/// Law (error fan-out): a call queued against an answer that resolved
/// with an error always dispatches as an error return carrying that
/// same reason to the dependent call — never as an invocation.
pub proof fn lemma_error_fanout(ex: Seq<Option<ExportEntry>>, reason: Seq<u8>, w: PendingCallV)
    ensures
        spec_waiter_action(ex, OutcomeV::Failure { reason }, w) == spec_fail_return(
            w.call_id,
            reason,
        ),
        !(spec_waiter_action(ex, OutcomeV::Failure { reason }, w) is Invoke),
{
}

// ---------------------------------------------------------------------
// The connection.
// ---------------------------------------------------------------------

/// One endpoint of a two-party RPC session.
pub struct Connection {
    pub state: ConnState,
    pub caps: CapTable,
    pub answers: Tracker,
    pub questions: Vec<QuestionState>,
    pub bootstrap_handle: Option<u64>,
}

impl Connection {
    pub open spec fn wf(self) -> bool {
        &&& self.caps.wf()
        &&& self.answers.wf()
        &&& self.questions@.len() <= u32::MAX as int
    }

    pub open spec fn qv(self) -> Seq<QuestionStateV> {
        dv_questions(self.questions@)
    }

    pub open spec fn av(self) -> Seq<Option<AnswerEntryV>> {
        self.answers.view_of()
    }

    pub open spec fn ex(self) -> Seq<Option<ExportEntry>> {
        self.caps.exports@
    }

    pub open spec fn im(self) -> Seq<Option<ImportEntry>> {
        self.caps.imports@
    }

    /// Everything but the lifecycle state is as it was.
    pub open spec fn same_but_state(pre: Connection, post: Connection) -> bool {
        &&& post.ex() == pre.ex()
        &&& post.im() == pre.im()
        &&& post.av() == pre.av()
        &&& post.qv() == pre.qv()
        &&& post.bootstrap_handle == pre.bootstrap_handle
    }

    pub fn new(bootstrap_handle: Option<u64>) -> (r: Connection)
        ensures
            r.wf(),
            r.state == ConnState::Connecting,
            r.ex() == Seq::<Option<ExportEntry>>::empty(),
            r.im() == Seq::<Option<ImportEntry>>::empty(),
            r.av() == Seq::<Option<AnswerEntryV>>::empty(),
            r.qv() == Seq::<QuestionStateV>::empty(),
            r.bootstrap_handle == bootstrap_handle,
    {
        let r = Connection {
            state: ConnState::Connecting,
            caps: CapTable::new(),
            answers: Tracker::new(),
            questions: Vec::new(),
            bootstrap_handle,
        };
        proof {
            assert(r.qv() =~= Seq::<QuestionStateV>::empty());
        }
        r
    }

    /// The transport is up: the connection becomes active.
    pub fn on_connected(&mut self)
        requires
            old(self).wf(),
            old(self).state == ConnState::Connecting,
        ensures
            final(self).wf(),
            final(self).state == ConnState::Active,
            Self::same_but_state(*old(self), *final(self)),
    {
        self.state = ConnState::Active;
    }

    /// Begin a local, orderly shutdown: no further messages are sent or
    /// accepted; the caller closes the transport.  Closing is terminal.
    pub fn begin_close(&mut self) -> (r: Vec<Action>)
        requires
            old(self).wf(),
        ensures
            final(self).wf(),
            final(self).state == (if old(self).state == ConnState::Active
                || old(self).state == ConnState::Connecting {
                ConnState::Closing
            } else {
                old(self).state
            }),
            Self::same_but_state(*old(self), *final(self)),
            dv_actions(r@) == (if old(self).state == ConnState::Active || old(self).state
                == ConnState::Connecting {
                seq![ActionV::CloseTransport]
            } else {
                Seq::<ActionV>::empty()
            }),
    {
        let mut r: Vec<Action> = Vec::new();
        match self.state {
            ConnState::Active | ConnState::Connecting => {
                self.state = ConnState::Closing;
                r.push(Action::CloseTransport);
                proof {
                    assert(dv_actions(r@) =~= seq![ActionV::CloseTransport]);
                }
            },
            _ => {
                proof {
                    assert(dv_actions(r@) =~= Seq::<ActionV>::empty());
                }
            },
        }
        r
    }

    /// The transport is gone.  Unless the connection already ended, it
    /// is now closed and every outstanding question fails with
    /// `ConnectionLost`.
    pub fn on_transport_closed(&mut self)
        requires
            old(self).wf(),
        ensures
            final(self).wf(),
            final(self).ex() == old(self).ex(),
            final(self).im() == old(self).im(),
            final(self).av() == old(self).av(),
            final(self).bootstrap_handle == old(self).bootstrap_handle,
            if old(self).state == ConnState::Closed || old(self).state == ConnState::Aborted {
                &&& final(self).state == old(self).state
                &&& final(self).qv() == old(self).qv()
            } else {
                &&& final(self).state == ConnState::Closed
                &&& final(self).qv() == spec_fail_all(old(self).qv(), RpcErrorV::ConnectionLost)
            },
    {
        match self.state {
            ConnState::Closed | ConnState::Aborted => {},
            _ => {
                self.state = ConnState::Closed;
                fail_waiting(&mut self.questions, &RpcError::ConnectionLost);
            },
        }
    }
}

impl Connection {
    /// A protocol violation: abort, fail every outstanding question,
    /// owe the peer an `Abort` and close the transport.
    fn abort_violation(&mut self) -> (r: Vec<Action>)
        requires
            old(self).wf(),
        ensures
            final(self).wf(),
            spec_aborted(*old(self), *final(self), dv_actions(r@)),
    {
        self.state = ConnState::Aborted;
        fail_waiting(&mut self.questions, &RpcError::ProtocolViolation);
        let mut r: Vec<Action> = Vec::new();
        r.push(Action::Send { msg: Message::Abort { reason: Vec::new() } });
        r.push(Action::CloseTransport);
        proof {
            assert(dv_actions(r@) =~= spec_abort_actions());
        }
        r
    }

    /// The bytes at the front of the stream were not a valid frame: a
    /// protocol violation, fatal to the connection.
    pub fn on_malformed_frame(&mut self) -> (r: Vec<Action>)
        requires
            old(self).wf(),
        ensures
            final(self).wf(),
            if old(self).state == ConnState::Active {
                spec_aborted(*old(self), *final(self), dv_actions(r@))
            } else {
                &&& final(self).state == old(self).state
                &&& Self::same_but_state(*old(self), *final(self))
                &&& dv_actions(r@) == Seq::<ActionV>::empty()
            },
    {
        match self.state {
            ConnState::Active => self.abort_violation(),
            _ => {
                let r: Vec<Action> = Vec::new();
                proof {
                    assert(dv_actions(r@) =~= Seq::<ActionV>::empty());
                }
                r
            },
        }
    }

    /// Issue a `Bootstrap` question for the peer's root capability.
    pub fn bootstrap_request(&mut self) -> (r: (u32, Vec<Action>))
        requires
            old(self).wf(),
            old(self).state == ConnState::Active,
            old(self).questions@.len() < u32::MAX as int,
        ensures
            final(self).wf(),
            final(self).state == ConnState::Active,
            final(self).ex() == old(self).ex(),
            final(self).im() == old(self).im(),
            final(self).av() == old(self).av(),
            final(self).bootstrap_handle == old(self).bootstrap_handle,
            r.0 as int == old(self).qv().len(),
            final(self).qv() == old(self).qv().push(QuestionStateV::Waiting),
            dv_actions(r.1@) == seq![
                ActionV::Send { msg: MessageV::Bootstrap { call_id: r.0 } },
            ],
    {
        let qid = self.questions.len() as u32;
        self.questions.push(QuestionState::Waiting);
        let mut acts: Vec<Action> = Vec::new();
        acts.push(Action::Send { msg: Message::Bootstrap { call_id: qid } });
        proof {
            assert(final (self).qv() =~= old(self).qv().push(QuestionStateV::Waiting));
            assert(dv_actions(acts@) =~= seq![
                ActionV::Send { msg: MessageV::Bootstrap { call_id: qid } },
            ]);
        }
        (qid, acts)
    }

    /// The invocation facade: call `method_id` with `params` on any
    /// capability — local, imported or pipelined — and get a question
    /// id to watch.  The contract is the same for every kind of target;
    /// only the produced action differs.
    pub fn start_call(&mut self, target: &CapRef, method_id: u32, params: Payload) -> (r: Result<
        (u32, Vec<Action>),
        RpcError,
    >)
        requires
            old(self).wf(),
            old(self).state == ConnState::Active,
            old(self).questions@.len() < u32::MAX as int,
        ensures
            final(self).wf(),
            final(self).state == ConnState::Active,
            final(self).ex() == old(self).ex(),
            final(self).im() == old(self).im(),
            final(self).av() == old(self).av(),
            final(self).bootstrap_handle == old(self).bootstrap_handle,
            ({
                let q0 = old(self).qv();
                let qid = q0.len() as u32;
                match r {
                    Ok((id, acts)) => {
                        &&& id == qid
                        &&& final(self).qv() == q0.push(QuestionStateV::Waiting)
                        &&& match target {
                            CapRef::Local { handle } => dv_actions(acts@) == seq![
                                ActionV::InvokeLocal {
                                    handle: *handle,
                                    method_id,
                                    params: params.deep_view(),
                                    question_id: qid,
                                },
                            ],
                            CapRef::Imported { id: iid } => {
                                &&& CapTable::live_import(old(self).im(), *iid as int)
                                &&& dv_actions(acts@) == seq![
                                    ActionV::Send {
                                        msg: MessageV::Call {
                                            call_id: qid,
                                            target: TargetV::Export { id: *iid },
                                            method_id,
                                            params: params.deep_view(),
                                        },
                                    },
                                ]
                            },
                            CapRef::Pipelined { question_id, path } => {
                                &&& (*question_id as int) < q0.len()
                                &&& dv_actions(acts@) == seq![
                                    ActionV::Send {
                                        msg: MessageV::Call {
                                            call_id: qid,
                                            target: TargetV::PromisedAnswer {
                                                answer_id: *question_id,
                                                path: path@,
                                            },
                                            method_id,
                                            params: params.deep_view(),
                                        },
                                    },
                                ]
                            },
                        }
                    },
                    Err(e) => {
                        &&& e.deep_view() == RpcErrorV::BadCapability
                        &&& final(self).qv() == q0
                        &&& match target {
                            CapRef::Local { .. } => false,
                            CapRef::Imported { id: iid } => !CapTable::live_import(
                                old(self).im(),
                                *iid as int,
                            ),
                            CapRef::Pipelined { question_id, .. } => (*question_id as int)
                                >= q0.len(),
                        }
                    },
                }
            }),
    {
        let qid = self.questions.len() as u32;
        let acts_msg: Action = match target {
            CapRef::Local { handle } => Action::InvokeLocal {
                handle: *handle,
                method_id,
                params,
                question_id: qid,
            },
            CapRef::Imported { id } => {
                let live = {
                    if (*id as usize) < self.caps.imports.len() {
                        let cur: Option<ImportEntry> = self.caps.imports[*id as usize];
                        match cur {
                            Some(_) => true,
                            None => false,
                        }
                    } else {
                        false
                    }
                };
                if !live {
                    return Err(RpcError::BadCapability);
                }
                Action::Send {
                    msg: Message::Call {
                        call_id: qid,
                        target: Target::Export { id: *id },
                        method_id,
                        params,
                    },
                }
            },
            CapRef::Pipelined { question_id, path } => {
                if (*question_id as usize) >= self.questions.len() {
                    return Err(RpcError::BadCapability);
                }
                Action::Send {
                    msg: Message::Call {
                        call_id: qid,
                        target: Target::PromisedAnswer {
                            answer_id: *question_id,
                            path: clone_plain(path),
                        },
                        method_id,
                        params,
                    },
                }
            },
        };
        self.questions.push(QuestionState::Waiting);
        let mut acts: Vec<Action> = Vec::new();
        acts.push(acts_msg);
        proof {
            assert(final (self).qv() =~= old(self).qv().push(QuestionStateV::Waiting));
            assert(dv_actions(acts@) =~= seq![acts@[0].deep_view()]);
        }
        Ok((qid, acts))
    }

    /// Read a question's settled result, if it has one.
    pub fn question_result(&self, question_id: u32) -> (r: Option<Result<Payload, RpcError>>)
        ensures
            match r {
                Some(res) => (question_id as int) < self.qv().len() && self.qv()[
                    question_id as int
                ] == (QuestionStateV::Done {
                    result: match res {
                        Ok(p) => Ok(p.deep_view()),
                        Err(e) => Err(e.deep_view()),
                    },
                }),
                None => (question_id as int) >= self.qv().len() || !(self.qv()[
                    question_id as int
                ] is Done),
            },
    {
        if (question_id as usize) >= self.questions.len() {
            return None;
        }
        match &self.questions[question_id as usize] {
            QuestionState::Done { result } => match result {
                Ok(p) => Some(Ok(clone_payload(p))),
                Err(e) => Some(Err(clone_rpc_error(e))),
            },
            _ => None,
        }
    }

    /// Drop local interest in a question: a late `Return` for it is
    /// discarded rather than an error.
    pub fn cancel_question(&mut self, question_id: u32)
        requires
            old(self).wf(),
        ensures
            final(self).wf(),
            final(self).state == old(self).state,
            final(self).ex() == old(self).ex(),
            final(self).im() == old(self).im(),
            final(self).av() == old(self).av(),
            final(self).bootstrap_handle == old(self).bootstrap_handle,
            final(self).qv() == (if (question_id as int) < old(self).qv().len() && old(self).qv()[
                question_id as int
            ] is Waiting {
                old(self).qv().update(question_id as int, QuestionStateV::Canceled)
            } else {
                old(self).qv()
            }),
    {
        if (question_id as usize) < self.questions.len() {
            let waiting = match &self.questions[question_id as usize] {
                QuestionState::Waiting => true,
                _ => false,
            };
            if waiting {
                self.questions[question_id as usize] = QuestionState::Canceled;
                proof {
                    assert(final (self).qv() =~= old(self).qv().update(
                        question_id as int,
                        QuestionStateV::Canceled,
                    ));
                }
            }
        }
    }

    /// Turn a capability descriptor received in a payload into a
    /// callable reference, counting the reference in the import table
    /// where the capability is hosted by the peer.
    pub fn adopt_cap(&mut self, c: &CapDesc) -> (r: Result<CapRef, RpcError>)
        requires
            old(self).wf(),
        ensures
            final(self).wf(),
            final(self).state == old(self).state,
            final(self).ex() == old(self).ex(),
            final(self).av() == old(self).av(),
            final(self).qv() == old(self).qv(),
            final(self).bootstrap_handle == old(self).bootstrap_handle,
            ({
                let im0 = old(self).im();
                let im1 = final(self).im();
                match c.deep_view() {
                    CapDescV::SenderHosted { id } => match r {
                        Ok(cr) => {
                            &&& (cr matches CapRef::Imported { id: rid } && rid == id)
                            &&& CapTable::live_import(im1, id as int)
                            &&& if CapTable::live_import(im0, id as int) {
                                im1 == im0.update(
                                    id as int,
                                    Some(
                                        ImportEntry {
                                            refcount: (CapTable::import_rc(im0, id as int)
                                                + 1) as u64,
                                            granted: (CapTable::import_granted(im0, id as int)
                                                + 1) as u64,
                                        },
                                    ),
                                )
                            } else {
                                &&& CapTable::import_rc(im1, id as int) == 1
                                &&& forall|k: int|
                                    0 <= k < im0.len() && k != id as int ==> im1[k] == #[trigger] im0[k]
                            }
                        },
                        Err(e) => {
                            &&& e.deep_view() == RpcErrorV::BadCapability
                            &&& im1 == im0
                            &&& (id == u32::MAX || (CapTable::live_import(im0, id as int)
                                && CapTable::import_granted(im0, id as int) == u32::MAX as u64))
                        },
                    },
                    CapDescV::ReceiverHosted { id } => {
                        &&& im1 == im0
                        &&& if CapTable::live_export(old(self).ex(), id as int) {
                            r matches Ok(CapRef::Local { handle }) && handle
                                == CapTable::export_handle(old(self).ex(), id as int)
                        } else {
                            r matches Err(e) && e.deep_view() == RpcErrorV::BadCapability
                        }
                    },
                    CapDescV::PromisedAnswer { answer_id, path } => {
                        &&& im1 == im0
                        &&& (r matches Ok(CapRef::Pipelined { question_id, path: p }) && question_id
                            == answer_id && p@ == path)
                    },
                }
            }),
    {
        match c {
            CapDesc::SenderHosted { id } => match self.caps.import_remote(*id) {
                Ok(_) => Ok(CapRef::Imported { id: *id }),
                Err(_) => Err(RpcError::BadCapability),
            },
            CapDesc::ReceiverHosted { id } => {
                if (*id as usize) < self.caps.exports.len() {
                    let cur: Option<ExportEntry> = self.caps.exports[*id as usize];
                    match cur {
                        Some(e) => Ok(CapRef::Local { handle: e.handle }),
                        None => Err(RpcError::BadCapability),
                    }
                } else {
                    Err(RpcError::BadCapability)
                }
            },
            CapDesc::PromisedAnswer { answer_id, path } => Ok(
                CapRef::Pipelined { question_id: *answer_id, path: clone_plain(path) },
            ),
        }
    }

    /// Drop one local reference to import `id`; when the last goes, the
    /// slot is freed and a `Release` for every granted reference is
    /// owed to the peer.
    pub fn release_import(&mut self, id: u32) -> (r: Result<Vec<Action>, RpcError>)
        requires
            old(self).wf(),
        ensures
            final(self).wf(),
            final(self).state == old(self).state,
            final(self).ex() == old(self).ex(),
            final(self).av() == old(self).av(),
            final(self).qv() == old(self).qv(),
            final(self).bootstrap_handle == old(self).bootstrap_handle,
            ({
                let im0 = old(self).im();
                let im1 = final(self).im();
                &&& (r is Ok <==> CapTable::live_import(im0, id as int))
                &&& match r {
                    Ok(acts) => {
                        let rem = CapTable::import_rc(im0, id as int) - 1;
                        let granted = CapTable::import_granted(im0, id as int);
                        &&& if rem == 0 {
                            &&& im1 == im0.update(id as int, Option::<ImportEntry>::None)
                            &&& dv_actions(acts@) == seq![
                                ActionV::Send {
                                    msg: MessageV::Release {
                                        export_id: id,
                                        delta: granted as u32,
                                    },
                                },
                            ]
                        } else {
                            &&& im1 == im0.update(
                                id as int,
                                Some(ImportEntry { refcount: rem as u64, granted }),
                            )
                            &&& dv_actions(acts@) == Seq::<ActionV>::empty()
                        }
                    },
                    Err(e) => e.deep_view() == RpcErrorV::BadCapability && im1 == im0,
                }
            }),
    {
        match self.caps.drop_import(id) {
            Err(_) => Err(RpcError::BadCapability),
            Ok((rem, granted)) => {
                let mut acts: Vec<Action> = Vec::new();
                if rem == 0 {
                    acts.push(
                        Action::Send {
                            msg: Message::Release { export_id: id, delta: granted as u32 },
                        },
                    );
                    proof {
                        assert(dv_actions(acts@) =~= seq![acts@[0].deep_view()]);
                    }
                } else {
                    proof {
                        assert(dv_actions(acts@) =~= Seq::<ActionV>::empty());
                    }
                }
                Ok(acts)
            },
        }
    }
}

/// Dispatch a call whose target export id is known: invoke the object,
/// or answer with a failure when the id is not live.
fn dispatch_export(caps: &CapTable, eid: u32, call_id: u32, method_id: u32, params: Payload) -> (a:
    Action)
    ensures
        a.deep_view() == spec_call_action(caps.exports@, eid, call_id, method_id, params.deep_view()),
{
    if (eid as usize) < caps.exports.len() {
        let cur: Option<ExportEntry> = caps.exports[eid as usize];
        match cur {
            Some(e) => {
                return Action::Invoke { handle: e.handle, method_id, params, answer_id: call_id };
            },
            None => {},
        }
    }
    Action::Send {
        msg: Message::Return { call_id, outcome: Outcome::Failure { reason: Vec::new() } },
    }
}

/// Dispatch a queued call once the answer it waited on has an outcome.
fn dispatch_waiter(caps: &CapTable, o: &Outcome, w: PendingCall) -> (a: Action)
    ensures
        a.deep_view() == spec_waiter_action(caps.exports@, o.deep_view(), w.deep_view()),
{
    match o {
        Outcome::Failure { reason } => Action::Send {
            msg: Message::Return {
                call_id: w.call_id,
                outcome: Outcome::Failure { reason: clone_plain(reason) },
            },
        },
        Outcome::Results { payload } => {
            let found = crate::answers::cap_at(payload, &w.path);
            match found {
                Some(CapDesc::SenderHosted { id }) => dispatch_export(
                    &caps,
                    id,
                    w.call_id,
                    w.method_id,
                    w.params,
                ),
                _ => Action::Send {
                    msg: Message::Return {
                        call_id: w.call_id,
                        outcome: Outcome::Failure { reason: Vec::new() },
                    },
                },
            }
        },
    }
}

impl Connection {
    /// Dispatch one decoded message from the peer.  In any state but
    /// `Active` the message is ignored.  Protocol violations abort the
    /// connection.
    pub fn handle_message(&mut self, m: Message) -> (r: Vec<Action>)
        requires
            old(self).wf(),
        ensures
            final(self).wf(),
            ({
                let pre = *old(self);
                let post = *final(self);
                let acts = dv_actions(r@);
                if pre.state != ConnState::Active {
                    &&& post.state == pre.state
                    &&& Self::same_but_state(pre, post)
                    &&& acts == Seq::<ActionV>::empty()
                } else {
                    match m.deep_view() {
                        MessageV::Bootstrap { call_id } => if call_id == u32::MAX
                            || Tracker::live(pre.av(), call_id as int) {
                            spec_aborted(pre, post, acts)
                        } else {
                            &&& post.state == ConnState::Active
                            &&& post.qv() == pre.qv()
                            &&& post.im() == pre.im()
                            &&& post.bootstrap_handle == pre.bootstrap_handle
                            &&& forall|k: int|
                                0 <= k < pre.av().len() && k != call_id as int ==> post.av()[k]
                                    == #[trigger] pre.av()[k]
                            &&& acts.len() == 1
                            &&& (acts[0] matches ActionV::Send {
                                msg: MessageV::Return { call_id: rcid, outcome: o },
                            } && {
                                &&& rcid == call_id
                                &&& Tracker::live(post.av(), call_id as int)
                                &&& Tracker::state_of(post.av(), call_id as int)
                                    == (AnswerStateV::Done { outcome: o })
                                &&& Tracker::waiters_of(post.av(), call_id as int).len() == 0
                                &&& match pre.bootstrap_handle {
                                    None => o == (OutcomeV::Failure {
                                        reason: Seq::<u8>::empty(),
                                    }) && post.ex() == pre.ex(),
                                    Some(h) => if CapTable::can_export(pre.ex(), h) {
                                        &&& (o matches OutcomeV::Results { payload } && {
                                            &&& payload.data == Seq::<u8>::empty()
                                            &&& payload.caps.len() == 1
                                            &&& (payload.caps[0] matches CapDescV::SenderHosted {
                                                id: eid,
                                            } && {
                                                &&& CapTable::live_export(post.ex(), eid as int)
                                                &&& CapTable::export_handle(post.ex(), eid as int)
                                                    == h
                                                &&& if CapTable::has_export_of(pre.ex(), h) {
                                                    &&& CapTable::live_export(pre.ex(), eid as int)
                                                    &&& CapTable::export_handle(
                                                        pre.ex(),
                                                        eid as int,
                                                    ) == h
                                                    &&& post.ex() == pre.ex().update(
                                                        eid as int,
                                                        Some(
                                                            ExportEntry {
                                                                handle: h,
                                                                refcount: (CapTable::export_rc(
                                                                    pre.ex(),
                                                                    eid as int,
                                                                ) + 1) as u64,
                                                            },
                                                        ),
                                                    )
                                                } else {
                                                    &&& CapTable::export_rc(post.ex(), eid as int)
                                                        == 1
                                                    &&& (((eid as int) < pre.ex().len() && pre.ex()[
                                                        eid as int
                                                    ] is None && post.ex() == pre.ex().update(
                                                        eid as int,
                                                        Some(ExportEntry { handle: h, refcount: 1 }),
                                                    )) || (eid as int == pre.ex().len() && post.ex()
                                                        == pre.ex().push(
                                                        Some(ExportEntry { handle: h, refcount: 1 }),
                                                    )))
                                                }
                                            })
                                        })
                                    } else {
                                        o == (OutcomeV::Failure { reason: Seq::<u8>::empty() })
                                            && post.ex() == pre.ex()
                                    },
                                }
                            })
                        },
                        MessageV::Call { call_id, target, method_id, params } => {
                            let pipelined_bad = match target {
                                TargetV::PromisedAnswer { answer_id, .. } => answer_id == call_id
                                    || !Tracker::live(pre.av(), answer_id as int),
                                TargetV::Export { .. } => false,
                            };
                            if call_id == u32::MAX || Tracker::live(pre.av(), call_id as int)
                                || pipelined_bad {
                                spec_aborted(pre, post, acts)
                            } else {
                                &&& post.state == ConnState::Active
                                &&& post.qv() == pre.qv()
                                &&& post.im() == pre.im()
                                &&& post.ex() == pre.ex()
                                &&& post.bootstrap_handle == pre.bootstrap_handle
                                &&& Tracker::live(post.av(), call_id as int)
                                &&& forall|k: int|
                                    0 <= k < pre.av().len() && k != call_id as int && !(
                                    target matches TargetV::PromisedAnswer { answer_id, .. }
                                        && k == answer_id as int) ==> post.av()[k]
                                        == #[trigger] pre.av()[k]
                                &&& match target {
                                    TargetV::Export { id } => {
                                        &&& acts == seq![
                                            spec_call_action(
                                                pre.ex(),
                                                id,
                                                call_id,
                                                method_id,
                                                params,
                                            ),
                                        ]
                                        &&& Tracker::state_of(post.av(), call_id as int)
                                            is Pending
                                        &&& Tracker::waiters_of(post.av(), call_id as int).len()
                                            == 0
                                    },
                                    TargetV::PromisedAnswer { answer_id, path } => {
                                        let w = PendingCallV {
                                            call_id,
                                            method_id,
                                            params,
                                            path,
                                        };
                                        &&& Tracker::state_of(post.av(), call_id as int)
                                            is Pending
                                        &&& if Tracker::state_of(pre.av(), answer_id as int)
                                            is Pending {
                                            &&& acts == Seq::<ActionV>::empty()
                                            &&& Tracker::live(post.av(), answer_id as int)
                                            &&& Tracker::waiters_of(post.av(), answer_id as int)
                                                == Tracker::waiters_of(
                                                pre.av(),
                                                answer_id as int,
                                            ).push(w)
                                        } else {
                                            &&& acts == seq![
                                                spec_waiter_action(
                                                    pre.ex(),
                                                    Tracker::state_of(
                                                        pre.av(),
                                                        answer_id as int,
                                                    )->Done_outcome,
                                                    w,
                                                ),
                                            ]
                                            &&& post.av()[answer_id as int] == pre.av()[
                                                answer_id as int
                                            ]
                                        }
                                    },
                                }
                            }
                        },
                        MessageV::Return { call_id, outcome } => if call_id as int
                            >= pre.qv().len() || pre.qv()[call_id as int] is Done {
                            spec_aborted(pre, post, acts)
                        } else if pre.qv()[call_id as int] is Canceled {
                            &&& post.state == pre.state
                            &&& Self::same_but_state(pre, post)
                            &&& acts == Seq::<ActionV>::empty()
                        } else {
                            &&& post.state == ConnState::Active
                            &&& post.ex() == pre.ex()
                            &&& post.im() == pre.im()
                            &&& post.av() == pre.av()
                            &&& post.bootstrap_handle == pre.bootstrap_handle
                            &&& post.qv() == pre.qv().update(
                                call_id as int,
                                spec_returned(outcome),
                            )
                            &&& acts == Seq::<ActionV>::empty()
                        },
                        MessageV::Release { export_id, delta } => if CapTable::live_export(
                            pre.ex(),
                            export_id as int,
                        ) && delta as u64 <= CapTable::export_rc(pre.ex(), export_id as int) {
                            let rem = CapTable::export_rc(pre.ex(), export_id as int) - delta;
                            &&& post.state == ConnState::Active
                            &&& post.qv() == pre.qv()
                            &&& post.im() == pre.im()
                            &&& post.av() == pre.av()
                            &&& post.bootstrap_handle == pre.bootstrap_handle
                            &&& if rem == 0 {
                                &&& post.ex() == pre.ex().update(
                                    export_id as int,
                                    Option::<ExportEntry>::None,
                                )
                                &&& acts == seq![
                                    ActionV::DisposeExport {
                                        handle: CapTable::export_handle(
                                            pre.ex(),
                                            export_id as int,
                                        ),
                                    },
                                ]
                            } else {
                                &&& post.ex() == pre.ex().update(
                                    export_id as int,
                                    Some(
                                        ExportEntry {
                                            handle: CapTable::export_handle(
                                                pre.ex(),
                                                export_id as int,
                                            ),
                                            refcount: rem as u64,
                                        },
                                    ),
                                )
                                &&& acts == Seq::<ActionV>::empty()
                            }
                        } else {
                            spec_aborted(pre, post, acts)
                        },
                        MessageV::Abort { .. } => {
                            &&& post.state == ConnState::Aborted
                            &&& post.ex() == pre.ex()
                            &&& post.im() == pre.im()
                            &&& post.av() == pre.av()
                            &&& post.bootstrap_handle == pre.bootstrap_handle
                            &&& post.qv() == spec_fail_all(pre.qv(), RpcErrorV::PeerAborted)
                            &&& acts == seq![ActionV::CloseTransport]
                        },
                    }
                }
            }),
    {
        match self.state {
            ConnState::Active => {},
            _ => {
                let r: Vec<Action> = Vec::new();
                proof {
                    assert(dv_actions(r@) =~= Seq::<ActionV>::empty());
                }
                return r;
            },
        }
        match m {
            Message::Bootstrap { call_id } => {
                if call_id == u32::MAX || self.answers.is_live(call_id) {
                    return self.abort_violation();
                }
                match self.answers.register(call_id) {
                    Err(_) => {
                        return self.abort_violation();
                    },
                    Ok(()) => {},
                }
                let ghost a0 = old(self).av();
                let ghost a_reg = self.answers.view_of();
                proof {
                    assert forall|k: int| 0 <= k < a0.len() && k != call_id as int implies a_reg[k]
                        == a0[k] by {}
                }
                let outcome: Outcome = match self.bootstrap_handle {
                    None => Outcome::Failure { reason: Vec::new() },
                    Some(h) => match self.caps.export_local(h) {
                        Ok(eid) => {
                            let mut caps: Vec<CapDesc> = Vec::new();
                            caps.push(CapDesc::SenderHosted { id: eid });
                            Outcome::Results { payload: Payload { data: Vec::new(), caps } }
                        },
                        Err(_) => Outcome::Failure { reason: Vec::new() },
                    },
                };
                let stored = clone_outcome(&outcome);
                match self.answers.resolve(call_id, stored) {
                    Err(_) => {
                        return self.abort_violation();
                    },
                    Ok(_emptied) => {},
                }
                let mut r: Vec<Action> = Vec::new();
                r.push(Action::Send { msg: Message::Return { call_id, outcome } });
                proof {
                    let o = r@[0].deep_view()->Send_msg->Return_outcome;
                    assert(dv_actions(r@) =~= seq![
                        ActionV::Send { msg: MessageV::Return { call_id, outcome: o } },
                    ]);
                    if old(self).bootstrap_handle is Some && CapTable::can_export(
                        old(self).ex(),
                        old(self).bootstrap_handle->0,
                    ) {
                        assert(o->Results_payload.caps =~= seq![
                            CapDescV::SenderHosted {
                                id: r@[0]->Send_msg->Return_outcome->Results_payload.caps@[0]->SenderHosted_id,
                            },
                        ]);
                        assert(o->Results_payload.data =~= Seq::<u8>::empty());
                    } else {
                        assert(o =~= OutcomeV::Failure { reason: Seq::<u8>::empty() });
                    }
                }
                r
            },
            Message::Call { call_id, target, method_id, params } => {
                let pipelined_bad = match &target {
                    Target::PromisedAnswer { answer_id, .. } => *answer_id == call_id
                        || !self.answers.is_live(*answer_id),
                    Target::Export { .. } => false,
                };
                if call_id == u32::MAX || self.answers.is_live(call_id) || pipelined_bad {
                    return self.abort_violation();
                }
                match self.answers.register(call_id) {
                    Err(_) => {
                        return self.abort_violation();
                    },
                    Ok(()) => {},
                }
                let ghost a0 = old(self).av();
                let ghost a_reg = self.answers.view_of();
                proof {
                    assert forall|k: int| 0 <= k < a0.len() && k != call_id as int implies a_reg[k]
                        == a0[k] by {}
                }
                match target {
                    Target::Export { id } => {
                        let a = dispatch_export(&self.caps, id, call_id, method_id, params);
                        let mut r: Vec<Action> = Vec::new();
                        r.push(a);
                        proof {
                            assert(dv_actions(r@) =~= seq![
                                spec_call_action(
                                    old(self).ex(),
                                    id,
                                    call_id,
                                    method_id,
                                    params.deep_view(),
                                ),
                            ]);
                        }
                        r
                    },
                    Target::PromisedAnswer { answer_id, path } => {
                        proof {
                            assert(a_reg[answer_id as int] == a0[answer_id as int]);
                        }
                        let done = self.answers.done_outcome(answer_id);
                        let w = PendingCall { call_id, method_id, params, path };
                        match done {
                            Some(o) => {
                                let a = dispatch_waiter(&self.caps, &o, w);
                                let mut r: Vec<Action> = Vec::new();
                                r.push(a);
                                proof {
                                    assert(dv_actions(r@) =~= seq![r@[0].deep_view()]);
                                    assert(Tracker::state_of(a0, answer_id as int)->Done_outcome
                                        == o.deep_view());
                                }
                                r
                            },
                            None => {
                                match self.answers.add_waiter(answer_id, w) {
                                    Err(_) => self.abort_violation(),
                                    Ok(Some(_)) => self.abort_violation(),
                                    Ok(None) => {
                                        let r: Vec<Action> = Vec::new();
                                        proof {
                                            let a1 = self.answers.view_of();
                                            assert(dv_actions(r@) =~= Seq::<ActionV>::empty());
                                            assert forall|k: int|
                                                0 <= k < a0.len() && k != call_id as int && k
                                                    != answer_id as int implies a1[k] == a0[
                                                k
                                            ] by {
                                                assert(a1[k] == a_reg[k]);
                                            }
                                            assert(a1[call_id as int] == a_reg[call_id as int]);
                                            assert(Tracker::waiters_of(a1, answer_id as int)
                                                == Tracker::waiters_of(a0, answer_id as int).push(
                                                w.deep_view(),
                                            ));
                                        }
                                        r
                                    },
                                }
                            },
                        }
                    },
                }
            },
            Message::Return { call_id, outcome } => {
                if (call_id as usize) >= self.questions.len() {
                    return self.abort_violation();
                }
                let disposition: u8 = match &self.questions[call_id as usize] {
                    QuestionState::Waiting => 0,
                    QuestionState::Canceled => 1,
                    QuestionState::Done { .. } => 2,
                };
                if disposition == 2 {
                    return self.abort_violation();
                }
                let r: Vec<Action> = Vec::new();
                if disposition == 0 {
                    let result: Result<Payload, RpcError> = match outcome {
                        Outcome::Results { payload } => Ok(payload),
                        Outcome::Failure { reason } => Err(RpcError::Application { reason }),
                    };
                    self.questions[call_id as usize] = QuestionState::Done { result };
                    proof {
                        assert(final (self).qv() =~= old(self).qv().update(
                            call_id as int,
                            spec_returned(m.deep_view()->Return_outcome),
                        ));
                    }
                }
                proof {
                    assert(dv_actions(r@) =~= Seq::<ActionV>::empty());
                }
                r
            },
            Message::Release { export_id, delta } => {
                let handle: u64 = {
                    if (export_id as usize) < self.caps.exports.len() {
                        let cur: Option<ExportEntry> = self.caps.exports[export_id as usize];
                        match cur {
                            Some(e) => e.handle,
                            None => 0,
                        }
                    } else {
                        0
                    }
                };
                match self.caps.release_export(export_id, delta as u64) {
                    Err(_) => self.abort_violation(),
                    Ok(rem) => {
                        let mut r: Vec<Action> = Vec::new();
                        if rem == 0 {
                            r.push(Action::DisposeExport { handle });
                            proof {
                                assert(dv_actions(r@) =~= seq![
                                    ActionV::DisposeExport { handle },
                                ]);
                            }
                        } else {
                            proof {
                                assert(dv_actions(r@) =~= Seq::<ActionV>::empty());
                            }
                        }
                        r
                    },
                }
            },
            Message::Abort { .. } => {
                self.state = ConnState::Aborted;
                fail_waiting(&mut self.questions, &RpcError::PeerAborted);
                let mut r: Vec<Action> = Vec::new();
                r.push(Action::CloseTransport);
                proof {
                    assert(dv_actions(r@) =~= seq![ActionV::CloseTransport]);
                }
                r
            },
        }
    }

    /// A local invocation made for the peer finished: remember the
    /// outcome, send the `Return`, and wake every pipelined call that
    /// waited on this answer — an erroneous outcome fans out to each of
    /// them as an error.
    pub fn local_answer_completed(&mut self, answer_id: u32, outcome: Outcome) -> (r: Vec<Action>)
        requires
            old(self).wf(),
        ensures
            final(self).wf(),
            ({
                let pre = *old(self);
                let post = *final(self);
                let acts = dv_actions(r@);
                if pre.state != ConnState::Active || !(Tracker::live(pre.av(), answer_id as int)
                    && Tracker::state_of(pre.av(), answer_id as int) is Pending) {
                    &&& post.state == pre.state
                    &&& Self::same_but_state(pre, post)
                    &&& acts == Seq::<ActionV>::empty()
                } else {
                    let ws = Tracker::waiters_of(pre.av(), answer_id as int);
                    &&& post.state == ConnState::Active
                    &&& post.ex() == pre.ex()
                    &&& post.im() == pre.im()
                    &&& post.qv() == pre.qv()
                    &&& post.bootstrap_handle == pre.bootstrap_handle
                    &&& post.av() == pre.av().update(
                        answer_id as int,
                        Some(
                            AnswerEntryV {
                                state: AnswerStateV::Done { outcome: outcome.deep_view() },
                                waiters: Seq::<PendingCallV>::empty(),
                            },
                        ),
                    )
                    &&& acts.len() == 1 + ws.len()
                    &&& acts[0] == (ActionV::Send {
                        msg: MessageV::Return { call_id: answer_id, outcome: outcome.deep_view() },
                    })
                    &&& forall|i: int|
                        0 <= i < ws.len() ==> acts[1 + i] == spec_waiter_action(
                            pre.ex(),
                            outcome.deep_view(),
                            #[trigger] ws[i],
                        )
                }
            }),
    {
        match self.state {
            ConnState::Active => {},
            _ => {
                let r: Vec<Action> = Vec::new();
                proof {
                    assert(dv_actions(r@) =~= Seq::<ActionV>::empty());
                }
                return r;
            },
        }
        if !self.answers.is_pending(answer_id) {
            let r: Vec<Action> = Vec::new();
            proof {
                assert(dv_actions(r@) =~= Seq::<ActionV>::empty());
            }
            return r;
        }
        let stored = clone_outcome(&outcome);
        let waiters = match self.answers.resolve(answer_id, stored) {
            Err(_) => Vec::new(),
            Ok(ws) => ws,
        };
        let send_outcome = clone_outcome(&outcome);
        let mut r: Vec<Action> = Vec::new();
        r.push(
            Action::Send { msg: Message::Return { call_id: answer_id, outcome: send_outcome } },
        );
        let ghost ws = dv_calls(waiters@);
        let n = waiters.len();
        let mut i: usize = 0;
        while i < n
            invariant
                n == waiters@.len(),
                i <= n,
                ws == dv_calls(waiters@),
                ws == Tracker::waiters_of(old(self).av(), answer_id as int),
                r@.len() == 1 + i,
                self.state == ConnState::Active,
                self.wf(),
                self.ex() == old(self).ex(),
                self.im() == old(self).im(),
                self.qv() == old(self).qv(),
                self.bootstrap_handle == old(self).bootstrap_handle,
                self.av() == old(self).av().update(
                    answer_id as int,
                    Some(
                        AnswerEntryV {
                            state: AnswerStateV::Done { outcome: outcome.deep_view() },
                            waiters: Seq::<PendingCallV>::empty(),
                        },
                    ),
                ),
                dv_actions(r@)[0] == (ActionV::Send {
                    msg: MessageV::Return {
                        call_id: answer_id,
                        outcome: outcome.deep_view(),
                    },
                }),
                forall|k: int|
                    0 <= k < i ==> dv_actions(r@)[1 + k] == spec_waiter_action(
                        self.ex(),
                        outcome.deep_view(),
                        #[trigger] ws[k],
                    ),
            decreases n - i,
        {
            let w = crate::answers::clone_call(&waiters[i]);
            let a = dispatch_waiter(&self.caps, &outcome, w);
            r.push(a);
            proof {
                assert(ws[i as int] == waiters@[i as int].deep_view());
            }
            i = i + 1;
        }
        r
    }

    /// A local invocation made for a local caller finished: settle the
    /// question.  Anything but a waiting question is left alone.
    pub fn local_question_completed(&mut self, question_id: u32, outcome: Outcome)
        requires
            old(self).wf(),
        ensures
            final(self).wf(),
            final(self).state == old(self).state,
            final(self).ex() == old(self).ex(),
            final(self).im() == old(self).im(),
            final(self).av() == old(self).av(),
            final(self).bootstrap_handle == old(self).bootstrap_handle,
            final(self).qv() == (if old(self).state == ConnState::Active && (question_id as int)
                < old(self).qv().len() && old(self).qv()[question_id as int] is Waiting {
                old(self).qv().update(question_id as int, spec_returned(outcome.deep_view()))
            } else {
                old(self).qv()
            }),
    {
        match self.state {
            ConnState::Active => {},
            _ => {
                return ;
            },
        }
        if (question_id as usize) >= self.questions.len() {
            return ;
        }
        let waiting = match &self.questions[question_id as usize] {
            QuestionState::Waiting => true,
            _ => false,
        };
        if !waiting {
            return ;
        }
        let result: Result<Payload, RpcError> = match outcome {
            Outcome::Results { payload } => Ok(payload),
            Outcome::Failure { reason } => Err(RpcError::Application { reason }),
        };
        self.questions[question_id as usize] = QuestionState::Done { result };
        proof {
            assert(final (self).qv() =~= old(self).qv().update(
                question_id as int,
                spec_returned(outcome.deep_view()),
            ));
        }
    }
}

/// Fail every waiting question with `err`; settled questions keep
/// their result.
fn fail_waiting(questions: &mut Vec<QuestionState>, err: &RpcError)
    ensures
        final(questions)@.len() == old(questions)@.len(),
        dv_questions(final (questions)@) == spec_fail_all(
            dv_questions(old(questions)@),
            err.deep_view(),
        ),
{
    let ghost q0 = dv_questions(old(questions)@);
    let n = questions.len();
    let mut i: usize = 0;
    while i < n
        invariant
            n == questions@.len(),
            i <= n,
            q0 == dv_questions(old(questions)@),
            q0.len() == n,
            forall|k: int| 0 <= k < i ==> dv_questions(questions@)[k] == spec_fail_all(
                q0,
                err.deep_view(),
            )[k],
            forall|k: int| i <= k < n ==> questions@[k] == old(questions)@[k],
        decreases n - i,
    {
        let waiting = match &questions[i] {
            QuestionState::Waiting => true,
            _ => false,
        };
        if waiting {
            questions[i] = QuestionState::Done { result: Err(clone_rpc_error(err)) };
        }
        proof {
            assert(dv_questions(questions@)[i as int] == spec_fail_all(q0, err.deep_view())[
                i as int
            ]);
        }
        i = i + 1;
    }
    proof {
        assert(dv_questions(questions@) =~= spec_fail_all(q0, err.deep_view()));
    }
}

} // verus!
