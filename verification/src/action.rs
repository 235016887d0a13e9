//! What the pool asks for: the work that its decisions lead to.

use crate::counter::ConnectionRef;
use crate::error::PoolConnectError;
use crate::ids::ConnId;
use vstd::prelude::*;

verus! {

/// The error code that connections are closed with.
pub const CLOSE_CODE: u32 = 0;

/// Why the pool closes a connection.
#[derive(Debug, Clone, Copy, PartialEq, Eq, Structural)]
pub enum CloseReason {
    /// Nothing uses the connection.
    Unused,
    /// The pool gives up a connection that is in use.
    Drop,
    /// The attempt that made the connection is no longer wanted.
    Discarded,
    /// The pool was full when the connection was made.
    TooManyConnections,
    /// The callback for new connections failed or ran out of time.
    OnConnectedFailed,
}

impl CloseReason {
    /// The reason as the peer gets to see it.
    pub open spec fn spec_text(self) -> Seq<char> {
        match self {
            CloseReason::Unused => "unused"@,
            CloseReason::Drop => "drop"@,
            CloseReason::Discarded => "discarded"@,
            CloseReason::TooManyConnections => "too many connections"@,
            CloseReason::OnConnectedFailed => "on_connected failed"@,
        }
    }

    /// Returns the reason as the peer gets to see it.
    pub fn text(&self) -> (text: &'static str)
        ensures
            text@ == self.spec_text(),
            match *self {
                CloseReason::Unused => text@ == "unused"@,
                CloseReason::Drop => text@ == "drop"@,
                CloseReason::Discarded => text@ == "discarded"@,
                CloseReason::TooManyConnections => text@ == "too many connections"@,
                CloseReason::OnConnectedFailed => text@ == "on_connected failed"@,
            },
    {
        match self {
            CloseReason::Unused => "unused",
            CloseReason::Drop => "drop",
            CloseReason::Discarded => "discarded",
            CloseReason::TooManyConnections => "too many connections",
            CloseReason::OnConnectedFailed => "on_connected failed",
        }
    }
}

/// Work for whoever runs the pool.
///
/// `C` is a handle to a connection, of which clones refer to the same
/// connection. `W` is what takes the answer for someone who waits for one.
#[derive(Debug)]
pub enum Action<C, W> {
    /// Start the attempt to connect to `conn_id.peer`.
    Connect { conn_id: ConnId },
    /// Report when the connection closes.
    Watch { conn_id: ConnId, connection: C },
    /// Answer a request.
    Reply { waiter: W, result: Result<ConnectionRef<C>, PoolConnectError> },
    /// Close a connection.
    Close { connection: C, reason: CloseReason },
}

/// What an action amounts to, with the pool's own handle to a connection where
/// the action holds a clone of it.
#[verifier::ext_equal]
pub enum Effect<C, W> {
    /// An attempt to connect is started.
    Connect { conn_id: ConnId },
    /// The connection is watched for its end.
    Watch { conn_id: ConnId, connection: C },
    /// A waiter gets a reference to the connection.
    Grant { waiter: W, conn_id: ConnId, connection: C },
    /// A waiter gets an error.
    Refuse { waiter: W, error: PoolConnectError },
    /// A connection is closed.
    Close { connection: C, reason: CloseReason },
}

impl<C: Clone, W> Action<C, W> {
    /// Whether the action has the effect.
    pub open spec fn has(self, effect: Effect<C, W>) -> bool {
        match effect {
            Effect::Connect { conn_id } => self == (Action::<C, W>::Connect { conn_id }),
            Effect::Watch { conn_id, connection } => {
                &&& self matches Action::Watch { conn_id: watched, connection: handle }
                &&& watched == conn_id
                &&& cloned(connection, handle)
            },
            Effect::Grant { waiter, conn_id, connection } => {
                &&& self matches Action::Reply { waiter: answered, result: Ok(reference) }
                &&& answered == waiter
                &&& reference.conn_id() == conn_id
                &&& cloned(connection, reference.connection())
            },
            Effect::Refuse { waiter, error } => self == (Action::<C, W>::Reply {
                waiter,
                result: Err(error),
            }),
            Effect::Close { connection, reason } => self == (Action::<C, W>::Close {
                connection,
                reason,
            }),
        }
    }
}

/// Whether the actions have the effects, one for one and in order.
pub open spec fn have<C: Clone, W>(
    actions: Seq<Action<C, W>>,
    effects: Seq<Effect<C, W>>,
) -> bool {
    &&& actions.len() == effects.len()
    &&& forall|i: int| 0 <= i < actions.len() ==> (#[trigger] actions[i]).has(effects[i])
}

} // verus!
