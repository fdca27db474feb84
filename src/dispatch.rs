//! The capability that a connection hosts, with the connection's identity
//! bound in when it is built.
use vstd::prelude::*;
use crate::identity::Identity;

verus! {

/// The method number of `echo` in the echo interface.
pub const ECHO_METHOD: u16 = 0;

/// Why a dispatched call did not produce a result.
#[derive(Clone, Copy, Debug, PartialEq, Eq)]
pub enum DispatchError {
    /// The capability has no method with this number.
    UnimplementedMethod(u16),
}

/// What `echo` answers to `input` for a caller with identity `id`: the
/// caller's e-mail name, a colon and the input; the input alone for an
/// anonymous caller.
pub open spec fn echo_output(id: Option<Seq<char>>, input: Seq<char>) -> Seq<char> {
    match id {
        Some(e) => e + seq![':'] + input,
        None => input,
    }
}

/// The echo capability of one connection.
pub struct Echo {
    pub identity: Identity,
}

impl Echo {
    /// The capability for a connection whose peer has identity `identity`.
    pub fn new(identity: Identity) -> (r: Echo)
        ensures
            r.identity@ == identity@,
    {
        Echo { identity }
    }

    /// The capability for a connection that does not take its caller's
    /// identity into account.
    pub fn anonymous() -> (r: Echo)
        ensures
            r.identity@ == None::<Seq<char>>,
    {
        Echo { identity: Identity::Anonymous }
    }

    /// Answers the `echo` method.
    pub fn echo(&self, input: &str) -> (r: String)
        ensures
            r@ == echo_output(self.identity@, input@),
    {
        match &self.identity {
            Identity::Identified(e) => {
                let mut out = e.clone();
                out.append(":");
                proof {
                    reveal_strlit(":");
                }
                out.append(input);
                out
            },
            Identity::Anonymous => input.to_string(),
        }
    }

    /// Dispatches one decoded call: the method number and its text parameter.
    /// An unknown method is an error, never a panic.
    pub fn dispatch(&self, method_id: u16, input: &str) -> (r: Result<String, DispatchError>)
        ensures
            method_id == ECHO_METHOD ==> (r matches Ok(s) && s@ == echo_output(self.identity@, input@)),
            method_id != ECHO_METHOD ==> r == Err::<String, DispatchError>(DispatchError::UnimplementedMethod(method_id)),
    {
        if method_id == ECHO_METHOD {
            Ok(self.echo(input))
        } else {
            Err(DispatchError::UnimplementedMethod(method_id))
        }
    }
}

} // verus!
