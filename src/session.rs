//! The caller's side of one RPC session: it allocates call ids, keeps the
//! calls in flight, matches each response to its call and fails what is left
//! when the session disconnects.
use vstd::prelude::*;

verus! {

/// What a call is addressed to.
#[derive(Clone, Copy, Debug, PartialEq, Eq, Structural)]
pub enum Target {
    /// The capability that the peer exposes at its root.
    Bootstrap,
    /// A capability of the peer, by its id in the peer's export table.
    Imported(u32),
    /// The capability at an index of the result table of an earlier call that
    /// may not have returned yet (a pipelined call).
    PromisedAnswer(u64, u32),
}

/// One call as it goes on the wire.
#[derive(Debug)]
pub struct CallFrame {
    pub call_id: u64,
    pub target: Target,
    pub method_id: u16,
    /// The encoded parameters.
    pub params: Vec<u8>,
    /// The capabilities that the parameters refer to.
    pub cap_table: Vec<u32>,
}

/// The kind of a failed call.
#[derive(Clone, Copy, Debug, PartialEq, Eq, Structural)]
pub enum FailureKind {
    /// The handler failed.
    Failed,
    /// The capability has no such method.
    Unimplemented,
    /// The session closed before the call returned.
    Disconnected,
}

/// What a call produced.
#[derive(Debug)]
pub enum CallOutcome {
    /// The encoded result and the capabilities that it refers to.
    Success { content: Vec<u8>, caps: Vec<u32> },
    Failure { kind: FailureKind, message: String },
}

/// A response handed to the caller that is waiting for it.
#[derive(Debug)]
pub struct Completion {
    pub call_id: u64,
    pub outcome: CallOutcome,
}

/// Why a call could not be sent.
#[derive(Clone, Copy, Debug, PartialEq, Eq, Structural)]
pub enum SendError {
    /// The session has disconnected.
    Closed,
    /// A pipelined call names a call that is not in flight.
    UnknownPromise(u64),
    /// Every call id has been used.
    IdsExhausted,
}

/// The state of a session, as its contracts speak of it.
pub struct SessionState {
    /// The id that the next call gets.
    pub next_call_id: u64,
    /// The ids of the calls in flight, in the order they were sent.
    pub pending: Seq<u64>,
    pub open: bool,
}

/// The calls in flight are in the order they were sent, so no id stands twice,
/// and every id was allocated before; a closed session has none in flight.
pub open spec fn wf_state(s: SessionState) -> bool {
    &&& forall|i: int, j: int| 0 <= i < j < s.pending.len() ==> s.pending[i] < s.pending[j]
    &&& forall|i: int| 0 <= i < s.pending.len() ==> s.pending[i] < s.next_call_id
    &&& !s.open ==> s.pending.len() == 0
}

/// Whether a target may be called in state `s`: a pipelined call needs the
/// call whose result it names to be in flight.
pub open spec fn target_known(s: SessionState, t: Target) -> bool {
    match t {
        Target::PromisedAnswer(q, _) => s.pending.contains(q),
        _ => true,
    }
}

/// Whether a call to `t` is sent in state `s`.
pub open spec fn send_ok(s: SessionState, t: Target) -> bool {
    s.open && target_known(s, t) && s.next_call_id < u64::MAX
}

/// Why a call to `t` is refused in state `s`, where it is.
pub open spec fn send_error(s: SessionState, t: Target) -> SendError {
    if !s.open {
        SendError::Closed
    } else if !target_known(s, t) {
        match t {
            Target::PromisedAnswer(q, _) => SendError::UnknownPromise(q),
            _ => SendError::IdsExhausted,
        }
    } else {
        SendError::IdsExhausted
    }
}

/// The state after a call is sent.
pub open spec fn after_send(s: SessionState) -> SessionState {
    SessionState { next_call_id: (s.next_call_id + 1) as u64, pending: s.pending.push(s.next_call_id), open: s.open }
}

/// Where call `id` stands among the calls in flight.
pub open spec fn pending_index(p: Seq<u64>, id: u64) -> int {
    choose|i: int| 0 <= i < p.len() && p[i] == id
}

/// The state after call `id` has left the calls in flight (its response came,
/// or it was cancelled); unchanged when it was not in flight.
pub open spec fn after_return(s: SessionState, id: u64) -> SessionState {
    if s.pending.contains(id) {
        SessionState { next_call_id: s.next_call_id, pending: s.pending.remove(pending_index(s.pending, id)), open: s.open }
    } else {
        s
    }
}

/// The state after a disconnect.
pub open spec fn after_disconnect(s: SessionState) -> SessionState {
    SessionState { next_call_id: s.next_call_id, pending: Seq::empty(), open: false }
}

/// The calls that a disconnect fails: those in flight.
pub open spec fn disconnect_failed(s: SessionState) -> Seq<u64> {
    s.pending
}

/// Whether `c` is the failure that a disconnect hands to call `id`.
pub open spec fn is_closed_failure(c: Completion, id: u64) -> bool {
    &&& c.call_id == id
    &&& c.outcome matches CallOutcome::Failure { kind, message }
    &&& kind == FailureKind::Disconnected
    &&& message@ == "connection closed"@
}

/// The caller's side of one RPC session.
pub struct RpcSession {
    next_call_id: u64,
    pending: Vec<u64>,
    open: bool,
}

impl View for RpcSession {
    type V = SessionState;

    closed spec fn view(&self) -> SessionState {
        SessionState { next_call_id: self.next_call_id, pending: self.pending@, open: self.open }
    }
}

impl RpcSession {
    pub open spec fn wf(&self) -> bool {
        wf_state(self@)
    }

    /// A session that is open and has sent nothing.
    pub fn new() -> (r: RpcSession)
        ensures
            r.wf(),
            r@.open,
            r@.next_call_id == 0,
            r@.pending.len() == 0,
    {
        RpcSession { next_call_id: 0, pending: Vec::new(), open: true }
    }

    /// Whether the session still sends calls.
    pub fn is_open(&self) -> (r: bool)
        ensures
            r == self@.open,
    {
        self.open
    }

    /// How many calls are in flight.
    pub fn pending_count(&self) -> (r: usize)
        ensures
            r == self@.pending.len(),
    {
        self.pending.len()
    }

    /// Whether call `call_id` is in flight.
    pub fn is_pending(&self, call_id: u64) -> (r: bool)
        ensures
            r == self@.pending.contains(call_id),
    {
        self.find(call_id).is_some()
    }

    /// Where call `call_id` stands among the calls in flight.
    fn find(&self, call_id: u64) -> (r: Option<usize>)
        ensures
            r matches Some(i) ==> i < self@.pending.len() && self@.pending[i as int] == call_id,
            r is None ==> !self@.pending.contains(call_id),
    {
        let mut i: usize = 0;
        while i < self.pending.len()
            invariant
                0 <= i <= self.pending@.len(),
                forall|k: int| 0 <= k < i ==> self.pending@[k] != call_id,
            decreases self.pending.len() - i,
        {
            if self.pending[i] == call_id {
                return Some(i);
            }
            i = i + 1;
        }
        None
    }

    /// Takes call `call_id` out of the calls in flight; says whether it was
    /// there.
    fn take_pending(&mut self, call_id: u64) -> (r: bool)
        requires
            old(self).wf(),
        ensures
            final(self).wf(),
            r == old(self)@.pending.contains(call_id),
            final(self)@ == after_return(old(self)@, call_id),
    {
        match self.find(call_id) {
            Some(i) => {
                let ghost p = self.pending@;
                proof {
                    let j = pending_index(p, call_id);
                    assert(0 <= j < p.len() && p[j] == call_id);
                    if j < i {
                        assert(p[j] < p[i as int]);
                    } else if j > i {
                        assert(p[i as int] < p[j]);
                    }
                    assert(j == i);
                }
                self.pending.remove(i);
                proof {
                    let q = self.pending@;
                    assert(q =~= p.remove(i as int));
                    assert forall|a: int, b: int| 0 <= a < b < q.len() implies q[a] < q[b] by {
                        let ia = if a < i { a } else { a + 1 };
                        let ib = if b < i { b } else { b + 1 };
                        assert(q[a] == p[ia] && q[b] == p[ib]);
                    }
                    assert forall|a: int| 0 <= a < q.len() implies q[a] < self.next_call_id by {
                        let ia = if a < i { a } else { a + 1 };
                        assert(q[a] == p[ia]);
                    }
                }
                true
            },
            None => false,
        }
    }

    /// Sends a call: allocates a fresh call id, registers the call as in
    /// flight and returns the frame to write. Refused when the session is
    /// closed, when a pipelined target names a call that is not in flight,
    /// and when the ids are used up; the session is then unchanged.
    pub fn send_call(&mut self, target: Target, method_id: u16, params: Vec<u8>, cap_table: Vec<u32>) -> (r: Result<CallFrame, SendError>)
        requires
            old(self).wf(),
        ensures
            final(self).wf(),
            r is Ok <==> send_ok(old(self)@, target),
            r matches Ok(f) ==> {
                &&& f.call_id == old(self)@.next_call_id
                &&& f.target == target
                &&& f.method_id == method_id
                &&& f.params@ == params@
                &&& f.cap_table@ == cap_table@
                &&& final(self)@ == after_send(old(self)@)
            },
            r matches Err(e) ==> e == send_error(old(self)@, target) && final(self)@ == old(self)@,
    {
        if !self.open {
            return Err(SendError::Closed);
        }
        match target {
            Target::PromisedAnswer(q, _) => {
                if !self.is_pending(q) {
                    return Err(SendError::UnknownPromise(q));
                }
            },
            _ => {},
        }
        if self.next_call_id == u64::MAX {
            return Err(SendError::IdsExhausted);
        }
        let call_id = self.next_call_id;
        self.pending.push(call_id);
        self.next_call_id = self.next_call_id + 1;
        proof {
            assert(self@ == after_send(old(self)@));
        }
        Ok(CallFrame { call_id, target, method_id, params, cap_table })
    }

    /// Hands a response to the call that it answers. A response for a call
    /// that is not in flight (cancelled, or already answered) is discarded:
    /// `None`, and the session is unchanged.
    pub fn receive_return(&mut self, call_id: u64, outcome: CallOutcome) -> (r: Option<Completion>)
        requires
            old(self).wf(),
        ensures
            final(self).wf(),
            final(self)@ == after_return(old(self)@, call_id),
            r is Some <==> old(self)@.pending.contains(call_id),
            r matches Some(c) ==> c.call_id == call_id && c.outcome == outcome,
    {
        if self.take_pending(call_id) {
            Some(Completion { call_id, outcome })
        } else {
            None
        }
    }

    /// Cancels a call in flight: its response, if one comes, is discarded.
    /// Says whether the call was in flight.
    pub fn cancel(&mut self, call_id: u64) -> (r: bool)
        requires
            old(self).wf(),
        ensures
            final(self).wf(),
            final(self)@ == after_return(old(self)@, call_id),
            r == old(self)@.pending.contains(call_id),
    {
        self.take_pending(call_id)
    }

    /// Closes the session: no call is sent after it, and every call in flight
    /// fails with a "connection closed" failure, in the order they were sent.
    /// On a closed session it does nothing and returns no failure.
    pub fn disconnect(&mut self) -> (r: Vec<Completion>)
        requires
            old(self).wf(),
        ensures
            final(self).wf(),
            final(self)@ == after_disconnect(old(self)@),
            r@.len() == disconnect_failed(old(self)@).len(),
            forall|i: int| 0 <= i < r@.len() ==> is_closed_failure(#[trigger] r@[i], disconnect_failed(old(self)@)[i]),
    {
        let mut failed: Vec<Completion> = Vec::new();
        let mut i: usize = 0;
        while i < self.pending.len()
            invariant
                0 <= i <= self.pending@.len(),
                self@ == old(self)@,
                failed@.len() == i,
                forall|k: int| 0 <= k < i ==> is_closed_failure(#[trigger] failed@[k], self.pending@[k]),
            decreases self.pending.len() - i,
        {
            let message = String::from_str("connection closed");
            proof {
                reveal_strlit("connection closed");
            }
            failed.push(Completion { call_id: self.pending[i], outcome: CallOutcome::Failure { kind: FailureKind::Disconnected, message } });
            i = i + 1;
        }
        self.pending = Vec::new();
        self.open = false;
        proof {
            assert(self@.pending =~= Seq::<u64>::empty());
        }
        failed
    }
}

/// A call id that is allocated is never that of a call still in flight, and a
/// session that sends stays well formed: no call id is reused while its call
/// is outstanding.
pub proof fn fresh_id_not_outstanding(s: SessionState, t: Target)
    requires
        wf_state(s),
    ensures
        !s.pending.contains(s.next_call_id),
        send_ok(s, t) ==> wf_state(after_send(s)),
{
    if s.pending.contains(s.next_call_id) {
        let i = choose|i: int| 0 <= i < s.pending.len() && s.pending[i] == s.next_call_id;
        assert(s.pending[i] < s.next_call_id);
    }
    if send_ok(s, t) {
        let n = after_send(s);
        assert forall|i: int| 0 <= i < n.pending.len() implies n.pending[i] < n.next_call_id by {
            if i < s.pending.len() {
                assert(n.pending[i] == s.pending[i]);
            }
        }
    }
}

/// Responses are never cross-wired: the response to call `id` takes exactly
/// that call out of flight, every other call stays in flight, and a second
/// response to the same call finds nothing to deliver to.
pub proof fn response_delivered_once(s: SessionState, id: u64)
    requires
        wf_state(s),
        s.pending.contains(id),
    ensures
        !after_return(s, id).pending.contains(id),
        forall|x: u64| x != id ==> (after_return(s, id).pending.contains(x) <==> s.pending.contains(x)),
        after_return(after_return(s, id), id) == after_return(s, id),
{
    let i = pending_index(s.pending, id);
    let q = s.pending.remove(i);
    assert(0 <= i < s.pending.len() && s.pending[i] == id);
    assert forall|k: int| 0 <= k < q.len() implies q[k] != id by {
        let ik = if k < i { k } else { k + 1 };
        assert(q[k] == s.pending[ik]);
        if ik < i {
            assert(s.pending[ik] < s.pending[i]);
        } else {
            assert(s.pending[i] < s.pending[ik]);
        }
    }
    assert forall|x: u64| x != id implies (q.contains(x) <==> s.pending.contains(x)) by {
        if s.pending.contains(x) {
            let j = choose|j: int| 0 <= j < s.pending.len() && s.pending[j] == x;
            if j < i {
                assert(q[j] == x);
            } else {
                assert(j != i);
                assert(q[j - 1] == x);
            }
        }
        if q.contains(x) {
            let k = choose|k: int| 0 <= k < q.len() && q[k] == x;
            let ik = if k < i { k } else { k + 1 };
            assert(s.pending[ik] == x);
        }
    }
}

/// Disconnecting twice is disconnecting once: the second disconnect leaves the
/// state as the first left it and fails no call.
pub proof fn disconnect_idempotent(s: SessionState)
    requires
        wf_state(s),
    ensures
        after_disconnect(after_disconnect(s)) == after_disconnect(s),
        disconnect_failed(after_disconnect(s)).len() == 0,
        wf_state(after_disconnect(s)),
{
}

} // verus!
