//! Mutually authenticated RPC sessions: the identity that a connection's peer
//! certificate asserts, the dispatch of calls to a locally hosted capability
//! with that identity bound in, and the bookkeeping of one RPC session (calls in
//! flight, their responses, pipelined calls and disconnection).
pub mod identity;
pub mod dispatch;
pub mod session;
pub mod answers;
pub mod connection;
