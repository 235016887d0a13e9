//! What the pool learns of: the events that it decides on.

use crate::error::PoolConnectError;
use crate::ids::{ConnId, EndpointId};
use vstd::prelude::*;

verus! {

/// A request for a reference to a connection.
#[derive(Debug)]
pub struct RequestRef<W> {
    /// The peer to connect to.
    pub id: EndpointId,
    /// What takes the answer.
    pub waiter: W,
}

/// What the users of a pool can ask of it.
#[derive(Debug)]
pub enum ActorMessage<W> {
    /// Someone wants a reference to a connection.
    RequestRef(RequestRef<W>),
    /// The connection to a peer is to be closed.
    ConnectionShutdown { id: EndpointId },
}

/// Something that the pool has to react to.
#[derive(Debug)]
pub enum Event<C, W> {
    /// The last reference to a connection is gone.
    Unused { conn_id: ConnId },
    /// An attempt to connect has ended.
    ConnectResult { conn_id: ConnId, result: Result<C, PoolConnectError> },
    /// A connection has ended.
    ConnClosed { conn_id: ConnId },
    /// A connection may have been unused for the idle timeout.
    IdleTimer,
    /// A user of the pool asks for something.
    Message(ActorMessage<W>),
}

} // verus!
