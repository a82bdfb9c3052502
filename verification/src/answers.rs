//! Promise/answer tracker: one slot per outstanding incoming call,
//! holding either the still-pending answer and the pipelined calls
//! queued against it, or the resolved outcome.
//!
//! A pipelined call names a capability by a field path into an answer
//! that has not returned yet.  While the answer is pending the call
//! waits in the slot; when the answer resolves, every waiter is handed
//! out exactly once for dispatch, and the slot remembers the outcome so
//! that later pipelined calls resolve immediately.

use crate::codec::{
    clone_outcome, clone_payload, clone_plain, CapDesc, CapDescV, Outcome, OutcomeV, Payload,
    PayloadV,
};
use vstd::prelude::*;

verus! {

/// A call queued against an unresolved answer.
#[derive(Debug)]
pub struct PendingCall {
    pub call_id: u32,
    pub method_id: u32,
    pub params: Payload,
    pub path: Vec<u32>,
}

/// Mathematical view of `PendingCall`.
pub struct PendingCallV {
    pub call_id: u32,
    pub method_id: u32,
    pub params: PayloadV,
    pub path: Seq<u32>,
}

impl DeepView for PendingCall {
    type V = PendingCallV;

    open spec fn deep_view(&self) -> PendingCallV {
        PendingCallV {
            call_id: self.call_id,
            method_id: self.method_id,
            params: self.params.deep_view(),
            path: self.path@,
        }
    }
}

#[derive(Debug)]
pub enum AnswerState {
    Pending,
    Done { outcome: Outcome },
}

pub enum AnswerStateV {
    Pending,
    Done { outcome: OutcomeV },
}

impl DeepView for AnswerState {
    type V = AnswerStateV;

    open spec fn deep_view(&self) -> AnswerStateV {
        match self {
            AnswerState::Pending => AnswerStateV::Pending,
            AnswerState::Done { outcome } => AnswerStateV::Done { outcome: outcome.deep_view() },
        }
    }
}

/// One answer slot: its state and the calls waiting on it.
#[derive(Debug)]
pub struct AnswerEntry {
    pub state: AnswerState,
    pub waiters: Vec<PendingCall>,
}

pub struct AnswerEntryV {
    pub state: AnswerStateV,
    pub waiters: Seq<PendingCallV>,
}

impl DeepView for AnswerEntry {
    type V = AnswerEntryV;

    open spec fn deep_view(&self) -> AnswerEntryV {
        AnswerEntryV { state: self.state.deep_view(), waiters: dv_calls(self.waiters@) }
    }
}

/// Elementwise view of a waiter list.
pub open spec fn dv_calls(s: Seq<PendingCall>) -> Seq<PendingCallV> {
    Seq::new(s.len(), |i: int| s[i].deep_view())
}

/// Elementwise view of the answer slots.
pub open spec fn dv_answers(s: Seq<Option<AnswerEntry>>) -> Seq<Option<AnswerEntryV>> {
    Seq::new(
        s.len(),
        |i: int|
            match s[i] {
                Some(e) => Some(e.deep_view()),
                None => None,
            },
    )
}

#[derive(Clone, Copy, PartialEq, Eq, Structural, Debug)]
pub enum TrackError {
    /// Every usable answer id is in use.
    NoSpace,
    /// The peer reused a live call id, returned to an unknown or
    /// already-resolved call, or pipelined on an unknown answer.
    ProtocolViolation,
}

/// The capability a field path names inside a result payload: a
/// one-element path selects that entry of the payload's capability
/// list; any other path names nothing.
pub open spec fn spec_cap_at(p: PayloadV, path: Seq<u32>) -> Option<CapDescV> {
    if path.len() == 1 && (path[0] as int) < p.caps.len() {
        Some(p.caps[path[0] as int])
    } else {
        None
    }
}

/// Select the capability a field path names inside a payload.
pub fn cap_at(p: &Payload, path: &Vec<u32>) -> (r: Option<CapDesc>)
    ensures
        match r {
            Some(c) => spec_cap_at(p.deep_view(), path@) == Some(c.deep_view()),
            None => spec_cap_at(p.deep_view(), path@) is None,
        },
{
    if path.len() == 1 {
        let ix = path[0];
        if (ix as usize) < p.caps.len() {
            let c = crate::codec::clone_cap(&p.caps[ix as usize]);
            proof {
                assert(p.deep_view().caps[path@[0] as int] == p.caps@[ix as int].deep_view());
            }
            return Some(c);
        }
    }
    None
}

/// Answer slots of one connection, keyed by the peer-assigned call id.
pub struct Tracker {
    pub answers: Vec<Option<AnswerEntry>>,
}

impl Tracker {
    pub open spec fn view_of(self) -> Seq<Option<AnswerEntryV>> {
        dv_answers(self.answers@)
    }

    pub open spec fn wf(self) -> bool {
        &&& self.answers@.len() <= u32::MAX as int
        &&& forall|i: int|
            0 <= i < self.answers@.len() && (#[trigger] self.answers@[i]) is Some
                && self.answers@[i]->Some_0.state is Done ==> self.answers@[
                i
            ]->Some_0.waiters@.len() == 0
    }

    pub open spec fn live(s: Seq<Option<AnswerEntryV>>, id: int) -> bool {
        0 <= id < s.len() && s[id] is Some
    }

    pub open spec fn state_of(s: Seq<Option<AnswerEntryV>>, id: int) -> AnswerStateV {
        s[id]->Some_0.state
    }

    pub open spec fn waiters_of(s: Seq<Option<AnswerEntryV>>, id: int) -> Seq<PendingCallV> {
        s[id]->Some_0.waiters
    }

    pub fn new() -> (r: Tracker)
        ensures
            r.wf(),
            r.view_of() == Seq::<Option<AnswerEntryV>>::empty(),
    {
        let t = Tracker { answers: Vec::new() };
        proof {
            assert(t.view_of() =~= Seq::<Option<AnswerEntryV>>::empty());
        }
        t
    }

    /// Whether answer slot `id` is live.
    pub fn is_live(&self, id: u32) -> (b: bool)
        ensures
            b == Self::live(self.view_of(), id as int),
    {
        if (id as usize) < self.answers.len() {
            match &self.answers[id as usize] {
                Some(_) => true,
                None => false,
            }
        } else {
            false
        }
    }

    /// Whether answer slot `id` is live and still pending.
    pub fn is_pending(&self, id: u32) -> (b: bool)
        ensures
            b == (Self::live(self.view_of(), id as int) && Self::state_of(
                self.view_of(),
                id as int,
            ) is Pending),
    {
        if (id as usize) < self.answers.len() {
            match &self.answers[id as usize] {
                Some(e) => match &e.state {
                    AnswerState::Pending => true,
                    AnswerState::Done { .. } => false,
                },
                None => false,
            }
        } else {
            false
        }
    }

    /// The outcome a live answer has resolved to, if it has.
    pub fn done_outcome(&self, id: u32) -> (r: Option<Outcome>)
        ensures
            match r {
                Some(o) => Self::live(self.view_of(), id as int) && Self::state_of(
                    self.view_of(),
                    id as int,
                ) == (AnswerStateV::Done { outcome: o.deep_view() }),
                None => !Self::live(self.view_of(), id as int) || Self::state_of(
                    self.view_of(),
                    id as int,
                ) is Pending,
            },
    {
        if (id as usize) < self.answers.len() {
            match &self.answers[id as usize] {
                Some(e) => match &e.state {
                    AnswerState::Pending => None,
                    AnswerState::Done { outcome } => Some(clone_outcome(outcome)),
                },
                None => None,
            }
        } else {
            None
        }
    }

    /// Open a pending answer slot for a newly arrived call id.  A call
    /// id that is already live is a protocol violation.
    pub fn register(&mut self, id: u32) -> (r: Result<(), TrackError>)
        requires
            old(self).wf(),
        ensures
            final(self).wf(),
            ({
                let s0 = old(self).view_of();
                let s1 = final(self).view_of();
                match r {
                    Ok(()) => {
                        &&& !Self::live(s0, id as int)
                        &&& s0.len() <= s1.len()
                        &&& Self::live(s1, id as int)
                        &&& Self::state_of(s1, id as int) is Pending
                        &&& Self::waiters_of(s1, id as int).len() == 0
                        &&& forall|k: int|
                            0 <= k < s0.len() && k != id as int ==> s1[k] == #[trigger] s0[k]
                        &&& forall|k: int|
                            s0.len() <= k < s1.len() && k != id as int ==> (#[trigger] s1[k])
                                is None
                    },
                    Err(e) => {
                        &&& s1 == s0
                        &&& (e == TrackError::NoSpace || e == TrackError::ProtocolViolation)
                        &&& e == TrackError::ProtocolViolation ==> Self::live(s0, id as int)
                        &&& e == TrackError::NoSpace ==> id == u32::MAX
                    },
                }
            }),
    {
        if id == u32::MAX {
            return Err(TrackError::NoSpace);
        }
        if (id as usize) < self.answers.len() {
            let occupied = match &self.answers[id as usize] {
                Some(_) => true,
                None => false,
            };
            if occupied {
                return Err(TrackError::ProtocolViolation);
            }
            self.answers[id as usize] = Some(
                AnswerEntry { state: AnswerState::Pending, waiters: Vec::new() },
            );
            proof {
                let s0 = old(self).view_of();
                let s1 = self.view_of();
                assert forall|k: int| 0 <= k < s0.len() && k != id as int implies s1[k]
                    == #[trigger] s0[k] by {
                    assert(self.answers@[k] == old(self).answers@[k]);
                }
                assert(Self::waiters_of(s1, id as int) =~= Seq::<PendingCallV>::empty());
            }
            return Ok(());
        }
        while self.answers.len() < id as usize
            invariant
                old(self).wf(),
                self.answers@.len() <= id as int,
                id < u32::MAX,
                old(self).answers@.len() <= self.answers@.len(),
                forall|k: int|
                    0 <= k < old(self).answers@.len() ==> self.answers@[k] == #[trigger] old(
                        self,
                    ).answers@[k],
                forall|k: int|
                    old(self).answers@.len() <= k < self.answers@.len() ==> (
                    #[trigger] self.answers@[k]) is None,
            decreases id as int - self.answers@.len(),
        {
            self.answers.push(None);
        }
        self.answers.push(Some(AnswerEntry { state: AnswerState::Pending, waiters: Vec::new() }));
        proof {
            let s0 = old(self).view_of();
            let s1 = self.view_of();
            assert forall|k: int| 0 <= k < s0.len() && k != id as int implies s1[k]
                == #[trigger] s0[k] by {
                assert(self.answers@[k] == old(self).answers@[k]);
            }
            assert forall|k: int|
                0 <= k < self.answers@.len() && (#[trigger] self.answers@[k]) is Some
                    && self.answers@[k]->Some_0.state is Done implies self.answers@[
                k
            ]->Some_0.waiters@.len() == 0 by {
                if k < old(self).answers@.len() {
                    assert(self.answers@[k] == old(self).answers@[k]);
                }
            }
            assert(Self::waiters_of(s1, id as int) =~= Seq::<PendingCallV>::empty());
        }
        Ok(())
    }

    /// What became of a pipelined call aimed at answer `id`.
    pub fn add_waiter(&mut self, id: u32, w: PendingCall) -> (r: Result<
        Option<Outcome>,
        TrackError,
    >)
        requires
            old(self).wf(),
        ensures
            final(self).wf(),
            ({
                let s0 = old(self).view_of();
                let s1 = final(self).view_of();
                match r {
                    Ok(found) => {
                        &&& Self::live(s0, id as int)
                        &&& match found {
                            // Queued: the answer was pending; the call
                            // now waits on it.
                            None => {
                                &&& Self::state_of(s0, id as int) is Pending
                                &&& s1 == s0.update(
                                    id as int,
                                    Some(
                                        AnswerEntryV {
                                            state: AnswerStateV::Pending,
                                            waiters: Self::waiters_of(s0, id as int).push(
                                                w.deep_view(),
                                            ),
                                        },
                                    ),
                                )
                            },
                            // The answer had already resolved: nothing
                            // queued, its outcome handed back.
                            Some(o) => {
                                &&& Self::state_of(s0, id as int) == (AnswerStateV::Done {
                                    outcome: o.deep_view(),
                                })
                                &&& s1 == s0
                            },
                        }
                    },
                    Err(e) => {
                        &&& s1 == s0
                        &&& e == TrackError::ProtocolViolation
                        &&& !Self::live(s0, id as int)
                    },
                }
            }),
    {
        if (id as usize) >= self.answers.len() {
            return Err(TrackError::ProtocolViolation);
        }
        let done_outcome: Option<Outcome> = match &self.answers[id as usize] {
            None => {
                return Err(TrackError::ProtocolViolation);
            },
            Some(e) => match &e.state {
                AnswerState::Pending => None,
                AnswerState::Done { outcome } => Some(clone_outcome(outcome)),
            },
        };
        match done_outcome {
            Some(o) => Ok(Some(o)),
            None => {
                let mut ws: Vec<PendingCall> = match &self.answers[id as usize] {
                    Some(e) => clone_calls(&e.waiters),
                    None => Vec::new(),
                };
                let ghost w0 = dv_calls(ws@);
                ws.push(w);
                proof {
                    assert(dv_calls(ws@) =~= w0.push(w.deep_view()));
                }
                self.answers[id as usize] = Some(
                    AnswerEntry { state: AnswerState::Pending, waiters: ws },
                );
                proof {
                    let s0 = old(self).view_of();
                    let s1 = self.view_of();
                    assert forall|k: int| 0 <= k < s1.len() && k != id as int implies s1[k]
                        == s0[k] by {
                        assert(self.answers@[k] == old(self).answers@[k]);
                    }
                    assert(s1 =~= s0.update(
                        id as int,
                        Some(
                            AnswerEntryV {
                                state: AnswerStateV::Pending,
                                waiters: Self::waiters_of(s0, id as int).push(w.deep_view()),
                            },
                        ),
                    ));
                }
                Ok(None)
            },
        }
    }

    /// Resolve the pending answer `id`, remembering the outcome and
    /// handing back every queued pipelined call exactly once.
    /// Resolving an answer that is not live, or resolving one twice,
    /// is a protocol violation and changes nothing.
    pub fn resolve(&mut self, id: u32, outcome: Outcome) -> (r: Result<
        Vec<PendingCall>,
        TrackError,
    >)
        requires
            old(self).wf(),
        ensures
            final(self).wf(),
            ({
                let s0 = old(self).view_of();
                let s1 = final(self).view_of();
                &&& (r is Ok <==> Self::live(s0, id as int) && Self::state_of(s0, id as int)
                    is Pending)
                &&& match r {
                    Ok(ws) => {
                        &&& dv_calls(ws@) == Self::waiters_of(s0, id as int)
                        &&& s1 == s0.update(
                            id as int,
                            Some(
                                AnswerEntryV {
                                    state: AnswerStateV::Done { outcome: outcome.deep_view() },
                                    waiters: Seq::<PendingCallV>::empty(),
                                },
                            ),
                        )
                    },
                    Err(e) => e == TrackError::ProtocolViolation && s1 == s0,
                }
            }),
    {
        if (id as usize) >= self.answers.len() {
            return Err(TrackError::ProtocolViolation);
        }
        match &self.answers[id as usize] {
            None => {
                return Err(TrackError::ProtocolViolation);
            },
            Some(e) => match &e.state {
                AnswerState::Done { .. } => {
                    return Err(TrackError::ProtocolViolation);
                },
                AnswerState::Pending => {},
            },
        };
        let ws: Vec<PendingCall> = match &self.answers[id as usize] {
            Some(e) => clone_calls(&e.waiters),
            None => Vec::new(),
        };
        self.answers[id as usize] = Some(
            AnswerEntry { state: AnswerState::Done { outcome }, waiters: Vec::new() },
        );
        proof {
            let s0 = old(self).view_of();
            let s1 = self.view_of();
            assert forall|k: int| 0 <= k < s1.len() && k != id as int implies s1[k] == s0[k] by {
                assert(self.answers@[k] == old(self).answers@[k]);
            }
            assert(dv_calls(self.answers@[id as int]->Some_0.waiters@) =~= Seq::<
                PendingCallV,
            >::empty());
            assert(s1 =~= s0.update(
                id as int,
                Some(
                    AnswerEntryV {
                        state: AnswerStateV::Done { outcome: outcome.deep_view() },
                        waiters: Seq::<PendingCallV>::empty(),
                    },
                ),
            ));
        }
        Ok(ws)
    }
}

/// Copy one queued call, preserving its view.
pub fn clone_call(w: &PendingCall) -> (r: PendingCall)
    ensures
        r.deep_view() == w.deep_view(),
{
    PendingCall {
        call_id: w.call_id,
        method_id: w.method_id,
        params: clone_payload(&w.params),
        path: clone_plain(&w.path),
    }
}

/// Copy a waiter list, preserving its view.
pub fn clone_calls(v: &Vec<PendingCall>) -> (r: Vec<PendingCall>)
    ensures
        dv_calls(r@) == dv_calls(v@),
{
    let mut r: Vec<PendingCall> = Vec::new();
    let mut i: usize = 0;
    while i < v.len()
        invariant
            i <= v@.len(),
            dv_calls(r@) == dv_calls(v@).take(i as int),
        decreases v@.len() - i,
    {
        let c = clone_call(&v[i]);
        let ghost prev = r@;
        r.push(c);
        proof {
            assert(dv_calls(prev.push(c)) =~= dv_calls(prev).push(c.deep_view()));
            assert(dv_calls(v@).take(i as int).push(dv_calls(v@)[i as int]) =~= dv_calls(v@).take(
                i + 1,
            ));
            assert(dv_calls(v@)[i as int] == v@[i as int].deep_view());
        }
        i = i + 1;
    }
    proof {
        assert(dv_calls(v@).take(v@.len() as int) =~= dv_calls(v@));
    }
    r
}

} // verus!
