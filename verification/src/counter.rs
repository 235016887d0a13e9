//! Counting the references to a connection.

use crate::ids::ConnId;
use vstd::prelude::*;

verus! {

/// Counts the references to one connection that are alive.
pub struct ConnectionCounter {
    count: usize,
    /// Which connection this counts, which its unused events name.
    conn_id: ConnId,
}

impl ConnectionCounter {
    /// How many references are alive.
    pub closed spec fn count(self) -> nat {
        self.count as nat
    }

    /// The connection whose references are counted.
    pub closed spec fn conn_id(self) -> ConnId {
        self.conn_id
    }

    /// Returns a counter for a connection that has no references yet.
    pub fn new(conn_id: ConnId) -> (counter: Self)
        ensures
            counter.conn_id() == conn_id,
            counter.count() == 0,
    {
        ConnectionCounter { count: 0, conn_id }
    }

    /// Returns how many references are alive.
    pub fn current(&self) -> (count: usize)
        ensures
            count == self.count(),
    {
        self.count
    }

    /// Returns whether no reference is alive.
    pub fn is_unused(&self) -> (unused: bool)
        ensures
            unused == (self.count() == 0),
    {
        self.current() == 0
    }

    /// Counts one more reference, and returns the permit that stands for it.
    pub fn get_one(&mut self) -> (permit: OneConnection)
        requires
            old(self).count() < usize::MAX,
        ensures
            permit.conn_id() == old(self).conn_id(),
            final(self).conn_id() == old(self).conn_id(),
            final(self).count() == old(self).count() + 1,
    {
        self.count = self.count + 1;
        OneConnection { conn_id: self.conn_id }
    }

    /// Takes back the permit of a reference that is gone.
    ///
    /// Returns the unused event that is due if it was the last one.
    pub fn put_back(&mut self, permit: OneConnection) -> (event: Option<ConnId>)
        requires
            permit.conn_id() == old(self).conn_id(),
            old(self).count() > 0,
        ensures
            final(self).conn_id() == old(self).conn_id(),
            final(self).count() == old(self).count() - 1,
            event == if old(self).count() == 1 {
                Some(old(self).conn_id())
            } else {
                None
            },
    {
        self.count = self.count - 1;
        if self.count == 0 {
            Some(permit.conn_id)
        } else {
            None
        }
    }
}

/// Stands for one counted reference to a connection.
///
/// It cannot be made or copied outside of this module, so there are never more
/// permits than the counters have handed out.
#[derive(Debug)]
pub struct OneConnection {
    conn_id: ConnId,
}

impl OneConnection {
    /// The connection that the reference is to.
    pub closed spec fn conn_id(self) -> ConnId {
        self.conn_id
    }

    /// Returns the connection that the reference is to.
    pub fn id(&self) -> (conn_id: ConnId)
        ensures
            conn_id == self.conn_id(),
    {
        self.conn_id
    }
}

/// A reference to a connection that is owned by a connection pool.
#[derive(Debug)]
pub struct ConnectionRef<C> {
    connection: C,
    permit: OneConnection,
}

impl<C> ConnectionRef<C> {
    /// The connection that is referred to.
    pub closed spec fn connection(self) -> C {
        self.connection
    }

    /// Which connection is referred to.
    pub closed spec fn conn_id(self) -> ConnId {
        self.permit.conn_id()
    }

    /// Returns a reference that holds `permit` while it is alive.
    pub fn new(connection: C, permit: OneConnection) -> (reference: Self)
        ensures
            reference.connection() == connection,
            reference.conn_id() == permit.conn_id(),
    {
        ConnectionRef { connection, permit }
    }

    /// Takes the reference apart: the connection, and the permit that has to go
    /// back to the pool.
    pub fn into_parts(self) -> (parts: (C, OneConnection))
        ensures
            parts.0 == self.connection(),
            parts.1.conn_id() == self.conn_id(),
    {
        (self.connection, self.permit)
    }
}

impl<C> std::ops::Deref for ConnectionRef<C> {
    type Target = C;

    fn deref(&self) -> (connection: &C)
        ensures
            *connection == self.connection(),
    {
        &self.connection
    }
}

} // verus!
