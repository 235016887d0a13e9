//! What can go wrong when asking the pool for a connection.

use std::sync::Arc;
use vstd::prelude::*;
use vstd::std_specs::convert::FromSpecImpl;

verus! {

/// `iroh::endpoint::ConnectError`, why a connection could not be made. The pool
/// only carries it to whoever asked for the connection.
#[verifier::external_type_specification]
#[verifier::external_body]
pub struct ExConnectError(iroh::endpoint::ConnectError);

/// `std::io::Error`, why the callback for new connections gave one up. The pool
/// only carries it to whoever asked for the connection.
#[verifier::external_type_specification]
#[verifier::external_body]
pub struct ExIoError(std::io::Error);

/// Error when a connection can not be acquired
///
/// This includes the normal iroh connection errors as well as pool specific
/// errors such as timeouts and connection limits.
#[allow(inconsistent_fields)]
#[derive(Debug)]
pub enum PoolConnectError {
    /// Connection pool is shut down
    Shutdown {},
    /// Connection was closed
    Closed {},
    /// Timeout during connect
    Timeout {},
    /// Too many connections
    TooManyConnections {},
    /// Error during connect
    ConnectError { source: Arc<iroh::endpoint::ConnectError> },
    /// Error during on_connect callback
    OnConnectError { source: Arc<std::io::Error> },
}

impl PoolConnectError {
    /// The error in words. An error that has a source leaves the words to it.
    pub open spec fn spec_text(self) -> Option<Seq<char>> {
        match self {
            PoolConnectError::Shutdown {  } => Some("Connection pool is shut down"@),
            PoolConnectError::Closed {  } => Some("Connection was closed"@),
            PoolConnectError::Timeout {  } => Some("Timeout during connect"@),
            PoolConnectError::TooManyConnections {  } => Some("Too many connections"@),
            PoolConnectError::ConnectError { .. } => None,
            PoolConnectError::OnConnectError { .. } => None,
        }
    }

    /// Returns the error in words. An error that has a source leaves the words to
    /// it.
    pub fn text(&self) -> (text: Option<&'static str>)
        ensures
            match text {
                Some(text) => self.spec_text() == Some(text@),
                None => self.spec_text() is None,
            },
            match *self {
                PoolConnectError::Shutdown {  } => text is Some && text->0@
                    == "Connection pool is shut down"@,
                PoolConnectError::Closed {  } => text is Some && text->0@
                    == "Connection was closed"@,
                PoolConnectError::Timeout {  } => text is Some && text->0@
                    == "Timeout during connect"@,
                PoolConnectError::TooManyConnections {  } => text is Some && text->0@
                    == "Too many connections"@,
                PoolConnectError::ConnectError { .. } => text is None,
                PoolConnectError::OnConnectError { .. } => text is None,
            },
    {
        match self {
            PoolConnectError::Shutdown {  } => Some("Connection pool is shut down"),
            PoolConnectError::Closed {  } => Some("Connection was closed"),
            PoolConnectError::Timeout {  } => Some("Timeout during connect"),
            PoolConnectError::TooManyConnections {  } => Some("Too many connections"),
            PoolConnectError::ConnectError { .. } => None,
            PoolConnectError::OnConnectError { .. } => None,
        }
    }
}

impl Clone for PoolConnectError {
    /// Returns the same error. A source is shared, not copied.
    fn clone(&self) -> (error: Self)
        ensures
            error == *self,
    {
        match self {
            PoolConnectError::Shutdown {  } => PoolConnectError::Shutdown {  },
            PoolConnectError::Closed {  } => PoolConnectError::Closed {  },
            PoolConnectError::Timeout {  } => PoolConnectError::Timeout {  },
            PoolConnectError::TooManyConnections {  } => PoolConnectError::TooManyConnections {  },
            PoolConnectError::ConnectError { source } => PoolConnectError::ConnectError {
                source: source.clone(),
            },
            PoolConnectError::OnConnectError { source } => PoolConnectError::OnConnectError {
                source: source.clone(),
            },
        }
    }
}

impl From<iroh::endpoint::ConnectError> for PoolConnectError {
    fn from(e: iroh::endpoint::ConnectError) -> (error: Self)
        ensures
            error == (PoolConnectError::ConnectError { source: Arc::new(e) }),
    {
        PoolConnectError::ConnectError { source: Arc::new(e) }
    }
}

impl FromSpecImpl<iroh::endpoint::ConnectError> for PoolConnectError {
    open spec fn obeys_from_spec() -> bool {
        true
    }

    open spec fn from_spec(e: iroh::endpoint::ConnectError) -> Self {
        PoolConnectError::ConnectError { source: Arc::new(e) }
    }
}

impl From<std::io::Error> for PoolConnectError {
    fn from(e: std::io::Error) -> (error: Self)
        ensures
            error == (PoolConnectError::OnConnectError { source: Arc::new(e) }),
    {
        PoolConnectError::OnConnectError { source: Arc::new(e) }
    }
}

impl FromSpecImpl<std::io::Error> for PoolConnectError {
    open spec fn obeys_from_spec() -> bool {
        true
    }

    open spec fn from_spec(e: std::io::Error) -> Self {
        PoolConnectError::OnConnectError { source: Arc::new(e) }
    }
}

/// Error when calling a fn on the connection pool.
///
/// The only thing that can go wrong is that the connection pool is shut down.
#[derive(Debug, Clone, Copy, PartialEq, Eq, Structural)]
pub enum ConnectionPoolError {
    /// The connection pool has been shut down
    Shutdown {},
}

impl ConnectionPoolError {
    /// Returns the error in words.
    pub fn text(&self) -> (text: &'static str)
        ensures
            text@ == "The connection pool has been shut down"@,
    {
        "The connection pool has been shut down"
    }
}

/// Returns what a request for a connection comes to, given the pool's answer.
///
/// There is none if the pool is gone, whether it went before the request reached
/// it or while the request was waiting.
pub fn request_outcome<R>(answer: Option<Result<R, PoolConnectError>>) -> (outcome: Result<
    R,
    PoolConnectError,
>)
    ensures
        outcome == match answer {
            Some(answer) => answer,
            None => Err(PoolConnectError::Shutdown {  }),
        },
{
    match answer {
        Some(answer) => answer,
        None => Err(PoolConnectError::Shutdown {  }),
    }
}

/// Returns what a request to close a connection comes to, given whether it
/// reached the pool.
pub fn close_outcome(delivered: bool) -> (outcome: Result<(), ConnectionPoolError>)
    ensures
        outcome == if delivered {
            Ok::<(), ConnectionPoolError>(())
        } else {
            Err(ConnectionPoolError::Shutdown {  })
        },
{
    if delivered {
        Ok(())
    } else {
        Err(ConnectionPoolError::Shutdown {  })
    }
}

} // verus!
