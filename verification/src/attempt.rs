//! The steps of one attempt to connect.

use crate::action::{Action, CloseReason};
use crate::error::PoolConnectError;
use crate::event::Event;
use crate::ids::ConnId;
use std::sync::Arc;
use vstd::prelude::*;

verus! {

/// One attempt to connect to a peer.
///
/// An attempt dials the peer, and has a callback look at the connection if there
/// is one. It can run out of time at any point.
pub struct Attempt<C> {
    conn_id: ConnId,
    connected: Option<C>,
}

/// What an attempt does next.
#[derive(Debug)]
pub enum NextStep<C> {
    /// Run the callback on the connection.
    CallBack { connection: C },
    /// Nothing: the attempt has come to this.
    Done { result: Result<C, PoolConnectError> },
}

impl<C: Clone> Attempt<C> {
    /// Which attempt this is.
    pub closed spec fn conn_id(self) -> ConnId {
        self.conn_id
    }

    /// The connection that was made, which is there from the time that dialing
    /// succeeded.
    pub closed spec fn connected(self) -> Option<C> {
        self.connected
    }

    /// Returns an attempt that has not dialed yet.
    pub fn new(conn_id: ConnId) -> (attempt: Self)
        ensures
            attempt.conn_id() == conn_id,
            attempt.connected() is None,
    {
        Attempt { conn_id, connected: None }
    }

    /// Goes on after dialing. `has_callback` says whether there is a callback to
    /// look at the connection.
    pub fn dialed(
        &mut self,
        dialed: Result<C, iroh::endpoint::ConnectError>,
        has_callback: bool,
    ) -> (next: NextStep<C>)
        ensures
            final(self).conn_id() == old(self).conn_id(),
            match dialed {
                Ok(connection) => {
                    &&& final(self).connected() matches Some(kept)
                    &&& cloned(connection, kept)
                    &&& next == if has_callback {
                        NextStep::CallBack { connection }
                    } else {
                        NextStep::Done { result: Ok(connection) }
                    }
                },
                Err(e) => {
                    &&& final(self).connected() == old(self).connected()
                    &&& next == (NextStep::<C>::Done {
                        result: Err(PoolConnectError::ConnectError { source: Arc::new(e) }),
                    })
                },
            },
    {
        match dialed {
            Ok(connection) => {
                self.connected = Some(connection.clone());
                if has_callback {
                    NextStep::CallBack { connection }
                } else {
                    NextStep::Done { result: Ok(connection) }
                }
            },
            Err(e) => NextStep::Done { result: Err(PoolConnectError::from(e)) },
        }
    }

    /// Goes on after the callback: returns what the attempt has come to.
    pub fn called_back(connection: C, outcome: Result<(), std::io::Error>) -> (result: Result<
        C,
        PoolConnectError,
    >)
        ensures
            result == match outcome {
                Ok(()) => Ok(connection),
                Err(e) => Err(PoolConnectError::OnConnectError { source: Arc::new(e) }),
            },
    {
        match outcome {
            Ok(()) => Ok(connection),
            Err(e) => Err(PoolConnectError::from(e)),
        }
    }

    /// Ends the attempt. It has come to `result`, or run out of time if there is
    /// none.
    ///
    /// Returns the event for the pool, and what is left to do: a connection that
    /// was made before the attempt failed is closed rather than dropped, as the
    /// callback may have handed it to a task.
    pub fn conclude<W>(self, result: Option<Result<C, PoolConnectError>>) -> (conclusion: (
        Event<C, W>,
        Option<Action<C, W>>,
    ))
        ensures
            ({
                let result = match result {
                    Some(result) => result,
                    None => Err(PoolConnectError::Timeout {  }),
                };
                &&& conclusion.0 == (Event::<C, W>::ConnectResult {
                    conn_id: self.conn_id(),
                    result,
                })
                &&& conclusion.1 == match self.connected() {
                    Some(connection) if result is Err => Some(
                        Action::<C, W>::Close {
                            connection,
                            reason: CloseReason::OnConnectedFailed,
                        },
                    ),
                    _ => None,
                }
            }),
    {
        let result = match result {
            Some(result) => result,
            None => Err(PoolConnectError::Timeout {  }),
        };
        let close = match (&result, self.connected) {
            (Err(_), Some(connection)) => Some(
                Action::Close { connection, reason: CloseReason::OnConnectedFailed },
            ),
            _ => None,
        };
        (Event::ConnectResult { conn_id: self.conn_id, result }, close)
    }
}

} // verus!
