//! The callee's side of one RPC session: the calls that the peer has made,
//! and pipelined calls held until the call whose result they name returns.
use vstd::prelude::*;
use std::collections::HashMap;
use crate::session::{CallFrame, CallOutcome, FailureKind, Target};

verus! {

broadcast use vstd::std_specs::hash::group_hash_axioms;

/// A locally hosted capability that a call is dispatched to.
#[derive(Clone, Copy, Debug, PartialEq, Eq, Structural)]
pub enum LocalCap {
    /// The capability exposed at the root of the connection.
    Bootstrap,
    /// An exported capability, by its id.
    Export(u32),
}

/// What to do with a call received from the peer. Once a dispatched call's
/// handler finishes, or at once for a failed call, its outcome goes back to
/// the table through `on_return`.
#[derive(Debug)]
pub enum Action {
    /// Run the handler of `cap` on the call.
    Dispatch { frame: CallFrame, cap: LocalCap },
    /// Answer the call with a failure of this kind.
    Fail { call_id: u64, kind: FailureKind },
    /// The call waits for the call whose result it names.
    Hold,
}

/// A protocol error: the peer broke the session's rules, and the session
/// ends.
#[derive(Clone, Copy, Debug, PartialEq, Eq, Structural)]
pub enum ProtocolError {
    /// A call reuses the id of a call that is still known.
    DuplicateCallId(u64),
    /// A pipelined call names a call that is not known.
    UnknownPromise(u64),
    /// An outcome for a call that is not running.
    NotRunning(u64),
}

/// A pipelined call that waits for call `dependency` to return.
#[derive(Debug)]
pub struct HeldCall {
    pub dependency: u64,
    pub frame: CallFrame,
}

/// The state of an answer table, as its contracts speak of it.
pub struct AnswerState {
    /// Each known call: `None` while it runs, then its outcome.
    pub answers: Map<u64, Option<CallOutcome>>,
    /// The held pipelined calls, in the order they came.
    pub held: Seq<HeldCall>,
}

/// Every held call waits for a call that is still running, and names it as
/// its target.
pub open spec fn wf_answers(s: AnswerState) -> bool {
    forall|i: int| 0 <= i < s.held.len() ==> held_ok(s.answers, #[trigger] s.held[i])
}

pub open spec fn held_ok(answers: Map<u64, Option<CallOutcome>>, h: HeldCall) -> bool {
    &&& answers.contains_key(h.dependency)
    &&& answers[h.dependency] is None
    &&& match h.frame.target {
        Target::PromisedAnswer(q, _) => q == h.dependency,
        _ => false,
    }
}

/// The action for a call that is not pipelined.
pub open spec fn direct_action(f: CallFrame) -> Action {
    match f.target {
        Target::Imported(c) => Action::Dispatch { frame: f, cap: LocalCap::Export(c) },
        _ => Action::Dispatch { frame: f, cap: LocalCap::Bootstrap },
    }
}

/// The action for a pipelined call once the call it names has the outcome
/// `o`: dispatch to the capability at the named index of the result, fail
/// when the result has no capability there, and fail as the call it names
/// failed.
pub open spec fn pipelined_action(f: CallFrame, o: CallOutcome) -> Action {
    match f.target {
        Target::PromisedAnswer(_, idx) => match o {
            CallOutcome::Success { caps, .. } => if (idx as int) < caps@.len() {
                Action::Dispatch { frame: f, cap: LocalCap::Export(caps@[idx as int]) }
            } else {
                Action::Fail { call_id: f.call_id, kind: FailureKind::Failed }
            },
            CallOutcome::Failure { kind, .. } => Action::Fail { call_id: f.call_id, kind },
        },
        _ => direct_action(f),
    }
}

/// Whether call `f` is held in state `s`: it is pipelined on a call that
/// still runs.
pub open spec fn is_held(s: AnswerState, f: CallFrame) -> bool {
    match f.target {
        Target::PromisedAnswer(q, _) => s.answers.contains_key(q) && s.answers[q] is None,
        _ => false,
    }
}

/// What receiving call `f` in state `s` gives.
pub open spec fn on_call_result(s: AnswerState, f: CallFrame) -> Result<Action, ProtocolError> {
    if s.answers.contains_key(f.call_id) {
        Err(ProtocolError::DuplicateCallId(f.call_id))
    } else {
        match f.target {
            Target::PromisedAnswer(q, _) => if !s.answers.contains_key(q) {
                Err(ProtocolError::UnknownPromise(q))
            } else {
                match s.answers[q] {
                    None => Ok(Action::Hold),
                    Some(o) => Ok(pipelined_action(f, o)),
                }
            },
            _ => Ok(direct_action(f)),
        }
    }
}

/// The state after receiving call `f` in state `s`.
pub open spec fn on_call_state(s: AnswerState, f: CallFrame) -> AnswerState {
    if on_call_result(s, f) is Err {
        s
    } else {
        AnswerState {
            answers: s.answers.insert(f.call_id, None),
            held: if is_held(s, f) {
                s.held.push(HeldCall { dependency: f.promised_call(), frame: f })
            } else {
                s.held
            },
        }
    }
}

impl CallFrame {
    /// The call that a pipelined call names.
    pub open spec fn promised_call(self) -> u64 {
        match self.target {
            Target::PromisedAnswer(q, _) => q,
            _ => 0,
        }
    }
}

/// Whether an outcome for call `id` is taken in state `s`: the call runs.
pub open spec fn return_ok(s: AnswerState, id: u64) -> bool {
    s.answers.contains_key(id) && s.answers[id] is None
}

/// The held calls that stay held, and the actions for those released, when
/// call `id` returns `o`; both in the order the calls came.
pub open spec fn release(held: Seq<HeldCall>, id: u64, o: CallOutcome) -> (Seq<HeldCall>, Seq<Action>)
    decreases held.len(),
{
    if held.len() == 0 {
        (Seq::empty(), Seq::empty())
    } else {
        let (kept, out) = release(held.drop_last(), id, o);
        if held.last().dependency == id {
            (kept, out.push(pipelined_action(held.last().frame, o)))
        } else {
            (kept.push(held.last()), out)
        }
    }
}

/// The held calls that stay are held calls that do not wait for `id`.
proof fn lemma_release_kept(held: Seq<HeldCall>, id: u64, o: CallOutcome)
    ensures
        forall|j: int| 0 <= j < release(held, id, o).0.len() ==> exists|i: int|
            0 <= i < held.len() && held[i] == #[trigger] release(held, id, o).0[j] && held[i].dependency != id,
    decreases held.len(),
{
    if held.len() > 0 {
        lemma_release_kept(held.drop_last(), id, o);
        let kept = release(held.drop_last(), id, o).0;
        assert forall|j: int| 0 <= j < release(held, id, o).0.len() implies exists|i: int|
            0 <= i < held.len() && held[i] == #[trigger] release(held, id, o).0[j] && held[i].dependency != id by {
            if j < kept.len() {
                let i = choose|i: int| 0 <= i < held.drop_last().len() && held.drop_last()[i] == kept[j] && held.drop_last()[i].dependency != id;
                assert(held[i] == held.drop_last()[i]);
            } else {
                assert(held[held.len() - 1] == held.last());
            }
        }
    }
}

/// The answer table of one RPC session.
pub struct AnswerTable {
    answers: HashMap<u64, Option<CallOutcome>>,
    held: Vec<HeldCall>,
}

impl View for AnswerTable {
    type V = AnswerState;

    closed spec fn view(&self) -> AnswerState {
        AnswerState { answers: self.answers@, held: self.held@ }
    }
}

/// The action for a held call, once the call it names has returned.
fn resolve_pipelined(frame: CallFrame, dep: &CallOutcome) -> (r: Action)
    ensures
        r == pipelined_action(frame, *dep),
{
    match frame.target {
        Target::PromisedAnswer(_, idx) => match dep {
            CallOutcome::Success { caps, .. } => {
                if (idx as usize) < caps.len() {
                    let cap = LocalCap::Export(caps[idx as usize]);
                    Action::Dispatch { frame, cap }
                } else {
                    Action::Fail { call_id: frame.call_id, kind: FailureKind::Failed }
                }
            },
            CallOutcome::Failure { kind, .. } => Action::Fail { call_id: frame.call_id, kind: *kind },
        },
        Target::Imported(c) => Action::Dispatch { frame, cap: LocalCap::Export(c) },
        Target::Bootstrap => Action::Dispatch { frame, cap: LocalCap::Bootstrap },
    }
}

impl AnswerTable {
    pub open spec fn wf(&self) -> bool {
        wf_answers(self@)
    }

    /// A table that knows no call.
    pub fn new() -> (r: AnswerTable)
        ensures
            r.wf(),
            r@.answers == Map::<u64, Option<CallOutcome>>::empty(),
            r@.held.len() == 0,
    {
        AnswerTable { answers: HashMap::new(), held: Vec::new() }
    }

    /// How many pipelined calls are held.
    pub fn held_count(&self) -> (r: usize)
        ensures
            r == self@.held.len(),
    {
        self.held.len()
    }

    /// Whether call `call_id` is known and still runs.
    pub fn is_running(&self, call_id: u64) -> (r: bool)
        ensures
            r == return_ok(self@, call_id),
    {
        match self.answers.get(&call_id) {
            Some(a) => a.is_none(),
            None => false,
        }
    }

    /// Receives a call from the peer. A call that reuses a known id, or is
    /// pipelined on an unknown call, is a protocol error and changes nothing.
    /// Otherwise the call is known from now on as running, and it is
    /// dispatched, held until the call it names returns, or failed as that
    /// call's result tells.
    pub fn on_call(&mut self, frame: CallFrame) -> (r: Result<Action, ProtocolError>)
        requires
            old(self).wf(),
        ensures
            final(self).wf(),
            r == on_call_result(old(self)@, frame),
            final(self)@ == on_call_state(old(self)@, frame),
    {
        if self.answers.contains_key(&frame.call_id) {
            return Err(ProtocolError::DuplicateCallId(frame.call_id));
        }
        let call_id = frame.call_id;
        match frame.target {
            Target::PromisedAnswer(q, _) => {
                match self.answers.get(&q) {
                    None => {
                        return Err(ProtocolError::UnknownPromise(q));
                    },
                    Some(None) => {
                        self.answers.insert(call_id, None);
                        let ghost a = self.answers@;
                        self.held.push(HeldCall { dependency: q, frame });
                        proof {
                            assert forall|i: int| 0 <= i < self@.held.len() implies held_ok(a, #[trigger] self@.held[i]) by {
                                if i < old(self)@.held.len() {
                                    assert(self@.held[i] == old(self)@.held[i]);
                                    assert(held_ok(old(self)@.answers, old(self)@.held[i]));
                                }
                            }
                        }
                        Ok(Action::Hold)
                    },
                    Some(Some(o)) => {
                        let action = resolve_pipelined(frame, o);
                        self.answers.insert(call_id, None);
                        proof {
                            assert forall|i: int| 0 <= i < self@.held.len() implies held_ok(self@.answers, #[trigger] self@.held[i]) by {
                                assert(held_ok(old(self)@.answers, old(self)@.held[i]));
                            }
                        }
                        Ok(action)
                    },
                }
            },
            Target::Imported(c) => {
                self.answers.insert(call_id, None);
                proof {
                    assert forall|i: int| 0 <= i < self@.held.len() implies held_ok(self@.answers, #[trigger] self@.held[i]) by {
                        assert(held_ok(old(self)@.answers, old(self)@.held[i]));
                    }
                }
                Ok(Action::Dispatch { frame, cap: LocalCap::Export(c) })
            },
            Target::Bootstrap => {
                self.answers.insert(call_id, None);
                proof {
                    assert forall|i: int| 0 <= i < self@.held.len() implies held_ok(self@.answers, #[trigger] self@.held[i]) by {
                        assert(held_ok(old(self)@.answers, old(self)@.held[i]));
                    }
                }
                Ok(Action::Dispatch { frame, cap: LocalCap::Bootstrap })
            },
        }
    }

    /// Takes the outcome of call `call_id`, which must be running: the call
    /// is known as returned from now on, and every call held on it is
    /// released, in the order they came, as `pipelined_action` says. An
    /// outcome for a call that is not running is a protocol error and
    /// changes nothing.
    pub fn on_return(&mut self, call_id: u64, outcome: CallOutcome) -> (r: Result<Vec<Action>, ProtocolError>)
        requires
            old(self).wf(),
        ensures
            final(self).wf(),
            return_ok(old(self)@, call_id) ==> {
                &&& r matches Ok(v) && v@ == release(old(self)@.held, call_id, outcome).1
                &&& final(self)@ == (AnswerState {
                    answers: old(self)@.answers.insert(call_id, Some(outcome)),
                    held: release(old(self)@.held, call_id, outcome).0,
                })
            },
            !return_ok(old(self)@, call_id) ==> r == Err::<Vec<Action>, ProtocolError>(ProtocolError::NotRunning(call_id)) && final(self)@ == old(self)@,
    {
        if !self.is_running(call_id) {
            return Err(ProtocolError::NotRunning(call_id));
        }
        let mut rest: Vec<HeldCall> = Vec::new();
        std::mem::swap(&mut rest, &mut self.held);
        let ghost orig = rest@;
        let mut kept: Vec<HeldCall> = Vec::new();
        let mut out: Vec<Action> = Vec::new();
        let mut i: usize = 0;
        assert(orig.skip(0) =~= orig);
        assert(orig.take(0) =~= Seq::<HeldCall>::empty());
        assert(orig.len() == rest.len());
        while rest.len() > 0
            invariant
                i + rest@.len() == orig.len(),
                orig.len() <= usize::MAX,
                rest@ == orig.skip(i as int),
                (kept@, out@) == release(orig.take(i as int), call_id, outcome),
            decreases rest@.len(),
        {
            let h = rest.remove(0);
            proof {
                assert(h == orig[i as int]);
                assert(rest@ =~= orig.skip(i + 1));
                assert(orig.take(i + 1).drop_last() =~= orig.take(i as int));
                assert(orig.take(i + 1).last() == h);
            }
            if h.dependency == call_id {
                out.push(resolve_pipelined(h.frame, &outcome));
            } else {
                kept.push(h);
            }
            i = i + 1;
        }
        proof {
            assert(orig.take(i as int) =~= orig);
            lemma_release_kept(orig, call_id, outcome);
        }
        self.held = kept;
        self.answers.insert(call_id, Some(outcome));
        proof {
            assert forall|j: int| 0 <= j < self@.held.len() implies held_ok(self@.answers, #[trigger] self@.held[j]) by {
                let k = choose|k: int| 0 <= k < orig.len() && orig[k] == release(orig, call_id, outcome).0[j] && orig[k].dependency != call_id;
                assert(held_ok(old(self)@.answers, orig[k]));
            }
        }
        Ok(out)
    }

    /// Forgets call `call_id` once the peer no longer needs its result: only
    /// a call that has returned is forgotten. Says whether it was.
    pub fn finish(&mut self, call_id: u64) -> (r: bool)
        requires
            old(self).wf(),
        ensures
            final(self).wf(),
            r == (old(self)@.answers.contains_key(call_id) && old(self)@.answers[call_id] is Some),
            r ==> final(self)@ == (AnswerState { answers: old(self)@.answers.remove(call_id), held: old(self)@.held }),
            !r ==> final(self)@ == old(self)@,
    {
        let returned = match self.answers.get(&call_id) {
            Some(a) => a.is_some(),
            None => false,
        };
        if returned {
            self.answers.remove(&call_id);
            proof {
                assert forall|j: int| 0 <= j < self@.held.len() implies held_ok(self@.answers, #[trigger] self@.held[j]) by {
                    assert(held_ok(old(self)@.answers, old(self)@.held[j]));
                }
            }
        }
        returned
    }
}

/// A pipelined call completes once the call it names resolves, without the
/// caller waiting for that call first: in a table where call `q` runs, a call
/// `f` on the result of `q` is held, and when `q` returns `o` it is released
/// as the last of the released actions, resolved against `o`; on success with
/// a capability at the named index, it is dispatched to that capability.
pub proof fn pipelined_call_completes(s: AnswerState, f: CallFrame, q: u64, idx: u32, o: CallOutcome)
    requires
        wf_answers(s),
        return_ok(s, q),
        !s.answers.contains_key(f.call_id),
        f.target == Target::PromisedAnswer(q, idx),
    ensures
        on_call_result(s, f) matches Ok(Action::Hold),
        return_ok(on_call_state(s, f), q),
        return_ok(on_call_state(s, f), f.call_id),
        release(on_call_state(s, f).held, q, o).1.last() == pipelined_action(f, o),
        match o {
            CallOutcome::Success { caps, .. } => (idx as int) < caps@.len() ==> pipelined_action(f, o) == (Action::Dispatch { frame: f, cap: LocalCap::Export(caps@[idx as int]) }),
            CallOutcome::Failure { kind, .. } => pipelined_action(f, o) == (Action::Fail { call_id: f.call_id, kind }),
        },
{
    let t = on_call_state(s, f);
    assert(t.held.drop_last() =~= s.held);
}

} // verus!
