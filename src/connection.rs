//! One connection after its handshake: the policy on the peer's identity, and
//! the per-connection state built from it.
use vstd::prelude::*;
use crate::identity::{descriptor_identity, extract, Identity, SessionDescriptor};
use crate::dispatch::Echo;
use crate::session::{after_disconnect, disconnect_failed, is_closed_failure, CallFrame, CallOutcome, Completion, RpcSession, SessionState};
use crate::answers::{on_call_result, on_call_state, release, return_ok, Action, AnswerState, AnswerTable, ProtocolError};

verus! {

/// Which end of a connection this is.
#[derive(Clone, Copy, Debug, PartialEq, Eq, Structural)]
pub enum Role {
    /// It opened the connection.
    Initiator,
    /// It accepted the connection.
    Acceptor,
}

/// The trust configuration shared by every handshake of a listener or dialer.
pub struct TrustConfig {
    /// The trusted root certificates, DER-encoded.
    pub trusted_roots: Vec<Vec<u8>>,
    /// The local certificate chain (leaf first) and private key, if any.
    pub local_chain: Vec<Vec<u8>>,
    pub local_key: Option<Vec<u8>>,
    /// Whether an accepted peer must present a trusted certificate.
    pub require_peer_identity: bool,
}

/// Why a handshake failed; each ends the connection attempt.
#[derive(Clone, Copy, Debug, PartialEq, Eq, Structural)]
pub enum HandshakeError {
    UntrustedPeer,
    ProtocolMismatch,
    Io,
    Timeout,
}

/// Whether a finished handshake in role `role` is admitted under `config`: an
/// acceptor that requires the peer's identity admits only a peer that
/// presented a certificate and was authenticated by it.
pub open spec fn admitted(config: TrustConfig, role: Role, d: SessionDescriptor) -> bool {
    role == Role::Acceptor && config.require_peer_identity ==> d.mutually_authenticated && d.peer_chain@.len() > 0
}

/// The state of one connection: its peer's identity, bound into the
/// capability it hosts, and its RPC session's two sides.
pub struct Connection {
    pub identity: Identity,
    pub echo: Echo,
    pub session: RpcSession,
    pub answers: AnswerTable,
}

/// A session ended by a protocol error: the error, and the failures handed
/// to the calls that were in flight.
pub struct Teardown {
    pub error: ProtocolError,
    pub failed: Vec<Completion>,
}

/// Whether `t` reports `error` and fails, in order, the calls that were in
/// flight in session state `s`.
pub open spec fn is_teardown(t: Teardown, error: ProtocolError, s: SessionState) -> bool {
    &&& t.error == error
    &&& t.failed@.len() == disconnect_failed(s).len()
    &&& forall|i: int| 0 <= i < t.failed@.len() ==> is_closed_failure(#[trigger] t.failed@[i], disconnect_failed(s)[i])
}

impl Connection {
    pub open spec fn wf(&self) -> bool {
        self.session.wf() && self.answers.wf()
    }

    /// Disconnects the session when `error` has broken it.
    fn tear_down(&mut self, error: ProtocolError) -> (r: Teardown)
        requires
            old(self).wf(),
        ensures
            final(self).wf(),
            final(self).session@ == after_disconnect(old(self).session@),
            final(self).answers@ == old(self).answers@,
            final(self).identity == old(self).identity,
            final(self).echo == old(self).echo,
            is_teardown(r, error, old(self).session@),
    {
        let failed = self.session.disconnect();
        Teardown { error, failed }
    }

    /// Receives a call from the peer, as the answer table says. A protocol
    /// error ends the session: it disconnects, failing every call in flight.
    pub fn receive_call(&mut self, frame: CallFrame) -> (r: Result<Action, Teardown>)
        requires
            old(self).wf(),
        ensures
            final(self).wf(),
            final(self).identity == old(self).identity,
            final(self).echo == old(self).echo,
            match on_call_result(old(self).answers@, frame) {
                Ok(a) => r matches Ok(b) && b == a && final(self).answers@ == on_call_state(old(self).answers@, frame)
                    && final(self).session@ == old(self).session@,
                Err(e) => r matches Err(t) && is_teardown(t, e, old(self).session@)
                    && final(self).answers@ == old(self).answers@
                    && final(self).session@ == after_disconnect(old(self).session@),
            },
    {
        match self.answers.on_call(frame) {
            Ok(a) => Ok(a),
            Err(e) => Err(self.tear_down(e)),
        }
    }

    /// Takes the outcome of a call that the peer made, as the answer table
    /// says, and returns the pipelined calls it releases. A protocol error
    /// ends the session: it disconnects, failing every call in flight.
    pub fn return_outcome(&mut self, call_id: u64, outcome: CallOutcome) -> (r: Result<Vec<Action>, Teardown>)
        requires
            old(self).wf(),
        ensures
            final(self).wf(),
            final(self).identity == old(self).identity,
            final(self).echo == old(self).echo,
            return_ok(old(self).answers@, call_id) ==> {
                &&& r matches Ok(v) && v@ == release(old(self).answers@.held, call_id, outcome).1
                &&& final(self).answers@ == (AnswerState {
                    answers: old(self).answers@.answers.insert(call_id, Some(outcome)),
                    held: release(old(self).answers@.held, call_id, outcome).0,
                })
                &&& final(self).session@ == old(self).session@
            },
            !return_ok(old(self).answers@, call_id) ==> {
                &&& r matches Err(t) && is_teardown(t, ProtocolError::NotRunning(call_id), old(self).session@)
                &&& final(self).answers@ == old(self).answers@
                &&& final(self).session@ == after_disconnect(old(self).session@)
            },
    {
        match self.answers.on_return(call_id, outcome) {
            Ok(v) => Ok(v),
            Err(e) => Err(self.tear_down(e)),
        }
    }
}

/// Builds the state of a connection whose handshake finished with `d`: the
/// identity is extracted once, here, and bound into the capability before any
/// call is dispatched. A peer that the policy does not admit is an untrusted
/// peer.
pub fn open_connection(config: &TrustConfig, role: Role, d: &SessionDescriptor) -> (r: Result<Connection, HandshakeError>)
    ensures
        r is Ok <==> admitted(*config, role, *d),
        r matches Err(e) ==> e == HandshakeError::UntrustedPeer,
        r matches Ok(c) ==> {
            &&& c.wf()
            &&& c.identity@ == descriptor_identity(*d)
            &&& c.echo.identity@ == descriptor_identity(*d)
            &&& c.session@.open
            &&& c.session@.next_call_id == 0
            &&& c.session@.pending.len() == 0
            &&& c.answers@.answers == Map::<u64, Option<CallOutcome>>::empty()
            &&& c.answers@.held.len() == 0
        },
{
    if role == Role::Acceptor && config.require_peer_identity && !(d.mutually_authenticated && d.peer_chain.len() > 0) {
        return Err(HandshakeError::UntrustedPeer);
    }
    let identity = extract(d);
    let echo = Echo::new(identity.duplicate());
    Ok(Connection { identity, echo, session: RpcSession::new(), answers: AnswerTable::new() })
}

} // verus!
