//! The pool as a mathematical object: its state, and what each event does to it.

use crate::action::{CloseReason, Effect};
use crate::error::PoolConnectError;
use crate::event::{ActorMessage, Event};
use crate::ids::{ConnId, EndpointId, Generation};
use crate::unused::{expired, oldest_of};
use vstd::prelude::*;

verus! {

/// What the pool knows of a peer.
#[verifier::ext_equal]
pub enum PeerModel<C, W> {
    /// An attempt to connect is running, and `waiters` wait for what comes of it.
    Connecting { generation: Generation, waiters: Seq<W> },
    /// There is a connection, with `count` references to it.
    Ready { generation: Generation, connection: C, count: nat },
}

impl<C, W> PeerModel<C, W> {
    /// The attempt that is running or that made the connection.
    pub open spec fn generation(self) -> Generation {
        match self {
            PeerModel::Connecting { generation, .. } => generation,
            PeerModel::Ready { generation, .. } => generation,
        }
    }

    /// The references to the connection, if there is one.
    pub open spec fn references(self) -> nat {
        match self {
            PeerModel::Connecting { .. } => 0,
            PeerModel::Ready { count, .. } => count,
        }
    }
}

/// The state of a pool.
#[verifier::ext_equal]
pub struct PoolModel<C, W> {
    /// How many connections the pool may hold.
    pub max_connections: nat,
    /// How long it keeps a connection that nothing uses, in nanoseconds.
    pub idle_timeout: nat,
    /// The peers that the pool has a connection to or is connecting to.
    pub peers: Map<EndpointId, PeerModel<C, W>>,
    /// Since when each of the connections that nothing uses has been unused.
    pub unused: Map<ConnId, nat>,
    /// The references to connections that the pool has given up.
    pub detached: Map<ConnId, nat>,
    /// The generation of the next attempt to connect.
    pub next_generation: Generation,
}

/// The waiters that still want an answer: `closed[i]` says that the `i`-th does
/// not.
pub open spec fn open_waiters<W>(waiters: Seq<W>, closed: Seq<bool>) -> Seq<W>
    decreases waiters.len(),
{
    if waiters.len() == 0 {
        Seq::empty()
    } else {
        let last = waiters.len() - 1;
        let rest = open_waiters(waiters.drop_last(), closed);
        if last < closed.len() && closed[last] {
            rest
        } else {
            rest.push(waiters.last())
        }
    }
}

/// Every waiter gets the error.
pub open spec fn refuse_all<C, W>(waiters: Seq<W>, error: PoolConnectError) -> Seq<Effect<C, W>> {
    waiters.map_values(|waiter: W| Effect::<C, W>::Refuse { waiter, error })
}

/// Every waiter gets a reference to the connection.
pub open spec fn grant_all<C, W>(waiters: Seq<W>, conn_id: ConnId, connection: C) -> Seq<
    Effect<C, W>,
> {
    waiters.map_values(|waiter: W| Effect::<C, W>::Grant { waiter, conn_id, connection })
}

/// Why the pool closes a connection with `count` references.
pub open spec fn close_reason(count: nat) -> CloseReason {
    if count == 0 {
        CloseReason::Unused
    } else {
        CloseReason::Drop
    }
}

impl<C, W> PoolModel<C, W> {
    /// The pool before its first event.
    pub open spec fn init(max_connections: nat, idle_timeout: nat) -> Self {
        PoolModel {
            max_connections,
            idle_timeout,
            peers: Map::empty(),
            unused: Map::empty(),
            detached: Map::empty(),
            next_generation: Generation(0),
        }
    }

    /// Whether the pool has a connection to the peer.
    pub open spec fn is_ready(self, id: EndpointId) -> bool {
        self.peers.contains_key(id) && self.peers[id] is Ready
    }

    /// The peers that the pool has a connection to.
    pub open spec fn ready(self) -> Set<EndpointId> {
        Set::new(|id: EndpointId| self.is_ready(id))
    }

    /// The references to the connection that the pool has to the peer.
    pub open spec fn references(self, id: EndpointId) -> nat {
        if self.peers.contains_key(id) {
            self.peers[id].references()
        } else {
            0
        }
    }

    /// Whether the connection is the one that the pool has to its peer.
    pub open spec fn is_current(self, conn_id: ConnId) -> bool {
        self.is_ready(conn_id.peer) && self.peers[conn_id.peer].generation() == conn_id.generation
    }

    /// Whether the attempt is the one that the pool is making to its peer.
    pub open spec fn is_connecting(self, conn_id: ConnId) -> bool {
        &&& self.peers.contains_key(conn_id.peer)
        &&& self.peers[conn_id.peer] is Connecting
        &&& self.peers[conn_id.peer].generation() == conn_id.generation
    }

    /// What the pool's limits and idle times rest on.
    pub open spec fn tidy(self) -> bool {
        // The pool is no fuller than it may be.
        &&& self.peers.dom().finite()
        &&& self.ready().len() <= self.max_connections
        // What counts as unused is a current connection without references.
        &&& self.unused.dom().finite()
        &&& forall|conn_id: ConnId| #[trigger]
            self.unused.contains_key(conn_id) ==> self.is_current(conn_id) && self.references(
                conn_id.peer,
            ) == 0
    }

    /// What holds of the pool between events.
    pub open spec fn wf(self) -> bool {
        &&& self.tidy()
        // The next attempt gets a generation that no connection has had.
        &&& forall|id: EndpointId| #[trigger]
            self.peers.contains_key(id) ==> self.peers[id].generation().0 < self.next_generation.0
        &&& forall|conn_id: ConnId| #[trigger]
            self.detached.contains_key(conn_id) ==> conn_id.generation.0 < self.next_generation.0
        // A connection that was given up is kept in mind while it has references,
        // and does not come back.
        &&& forall|conn_id: ConnId| #[trigger]
            self.detached.contains_key(conn_id) ==> self.detached[conn_id] > 0
        &&& forall|conn_id: ConnId| #[trigger]
            self.detached.contains_key(conn_id) && self.peers.contains_key(conn_id.peer)
                ==> self.peers[conn_id.peer].generation() != conn_id.generation
    }

    /// The peer is given up. Whoever waits for a connection to it gets the error,
    /// and if there is a connection, it is closed.
    pub open spec fn give_up(self, id: EndpointId, error: PoolConnectError) -> (
        Self,
        Seq<Effect<C, W>>,
    ) {
        if !self.peers.contains_key(id) {
            (self, Seq::empty())
        } else {
            match self.peers[id] {
                PeerModel::Connecting { waiters, .. } => (
                    PoolModel { peers: self.peers.remove(id), ..self },
                    refuse_all(waiters, error),
                ),
                PeerModel::Ready { generation, connection, count } => {
                    let conn_id = ConnId { peer: id, generation };
                    (
                        PoolModel {
                            peers: self.peers.remove(id),
                            unused: self.unused.remove(conn_id),
                            detached: if count > 0 {
                                self.detached.insert(conn_id, count)
                            } else {
                                self.detached
                            },
                            ..self
                        },
                        seq![Effect::Close { connection, reason: close_reason(count) }],
                    )
                },
            }
        }
    }

    /// The peer is given up, as its connection was closed.
    pub open spec fn remove_peer(self, id: EndpointId) -> (Self, Seq<Effect<C, W>>) {
        self.give_up(id, PoolConnectError::Closed {  })
    }

    /// Whether there is room for one more connection, after the connection that
    /// has been unused longest was evicted if the pool was full.
    pub open spec fn make_room(self) -> (bool, Self, Seq<Effect<C, W>>) {
        if self.ready().len() < self.max_connections {
            (true, self, Seq::empty())
        } else {
            match oldest_of(self.unused) {
                Some(conn_id) => {
                    let (pool, effects) = self.remove_peer(conn_id.peer);
                    (true, pool, effects)
                },
                None => (false, self, Seq::empty()),
            }
        }
    }

    /// Someone asks for a connection to the peer. `closed` says that the
    /// connection that the pool has to the peer has ended.
    pub open spec fn request(self, id: EndpointId, waiter: W, closed: bool) -> (
        Self,
        Seq<Effect<C, W>>,
    ) {
        if self.is_ready(id) && closed {
            let (pool, effects) = self.remove_peer(id);
            let (pool, more) = pool.dial(id, waiter);
            (pool, effects + more)
        } else if !self.peers.contains_key(id) {
            self.dial(id, waiter)
        } else {
            match self.peers[id] {
                PeerModel::Connecting { generation, waiters } => (
                    PoolModel {
                        peers: self.peers.insert(
                            id,
                            PeerModel::Connecting { generation, waiters: waiters.push(waiter) },
                        ),
                        ..self
                    },
                    Seq::empty(),
                ),
                PeerModel::Ready { generation, connection, count } => {
                    let conn_id = ConnId { peer: id, generation };
                    (
                        PoolModel {
                            peers: self.peers.insert(
                                id,
                                PeerModel::Ready { generation, connection, count: count + 1 },
                            ),
                            unused: self.unused.remove(conn_id),
                            ..self
                        },
                        seq![Effect::Grant { waiter, conn_id, connection }],
                    )
                },
            }
        }
    }

    /// An attempt to connect to the peer is started, if there is room for one
    /// more connection.
    pub open spec fn dial(self, id: EndpointId, waiter: W) -> (Self, Seq<Effect<C, W>>) {
        let (room, pool, effects) = self.make_room();
        if room {
            let generation = pool.next_generation;
            (
                PoolModel {
                    peers: pool.peers.insert(
                        id,
                        PeerModel::Connecting { generation, waiters: seq![waiter] },
                    ),
                    next_generation: Generation((generation.0 + 1) as u64),
                    ..pool
                },
                effects.push(Effect::Connect { conn_id: ConnId { peer: id, generation } }),
            )
        } else {
            (
                pool,
                effects.push(
                    Effect::Refuse { waiter, error: PoolConnectError::TooManyConnections {  } },
                ),
            )
        }
    }

    /// An attempt to connect has ended. `closed[i]` says that the `i`-th waiter
    /// no longer wants an answer.
    pub open spec fn connect_result(
        self,
        conn_id: ConnId,
        result: Result<C, PoolConnectError>,
        closed: Seq<bool>,
        now: nat,
    ) -> (Self, Seq<Effect<C, W>>) {
        if !self.is_connecting(conn_id) {
            (
                self,
                match result {
                    Ok(connection) => seq![
                        Effect::Close { connection, reason: CloseReason::Discarded },
                    ],
                    Err(_) => Seq::empty(),
                },
            )
        } else {
            let waiters = self.peers[conn_id.peer]->waiters;
            let rest = PoolModel { peers: self.peers.remove(conn_id.peer), ..self };
            match result {
                Ok(connection) => rest.take_in(conn_id, connection, waiters, closed, now),
                Err(error) => (rest, refuse_all(waiters, error)),
            }
        }
    }

    /// A new connection is taken into the pool, if there is room for it.
    pub open spec fn take_in(
        self,
        conn_id: ConnId,
        connection: C,
        waiters: Seq<W>,
        closed: Seq<bool>,
        now: nat,
    ) -> (Self, Seq<Effect<C, W>>) {
        let (room, pool, effects) = self.make_room();
        if room {
            let open = open_waiters(waiters, closed);
            (
                PoolModel {
                    peers: pool.peers.insert(
                        conn_id.peer,
                        PeerModel::Ready {
                            generation: conn_id.generation,
                            connection,
                            count: open.len(),
                        },
                    ),
                    unused: if open.len() == 0 {
                        pool.unused.insert(conn_id, now)
                    } else {
                        pool.unused
                    },
                    ..pool
                },
                (effects + grant_all(open, conn_id, connection)).push(
                    Effect::Watch { conn_id, connection },
                ),
            )
        } else {
            (
                pool,
                effects.push(
                    Effect::Close { connection, reason: CloseReason::TooManyConnections },
                ) + refuse_all(waiters, PoolConnectError::TooManyConnections {  }),
            )
        }
    }

    /// A connection has ended.
    pub open spec fn conn_closed(self, conn_id: ConnId) -> (Self, Seq<Effect<C, W>>) {
        if self.is_current(conn_id) {
            self.remove_peer(conn_id.peer)
        } else {
            (self, Seq::empty())
        }
    }

    /// The last reference to a connection is gone.
    pub open spec fn unused_event(self, conn_id: ConnId, now: nat) -> Self {
        if self.is_current(conn_id) && self.references(conn_id.peer) == 0 {
            PoolModel { unused: self.unused.insert(conn_id, now), ..self }
        } else {
            self
        }
    }

    /// The connections that have been unused for the idle timeout are closed, the
    /// one that has been unused longest first.
    pub open spec fn close_unused(self, now: nat) -> (Self, Seq<Effect<C, W>>)
        decreases self.unused.dom().len(),
        when self.tidy()
    {
        match oldest_of(self.unused) {
            Some(conn_id) if expired(self.unused[conn_id], now, self.idle_timeout) => {
                let (pool, effects) = self.remove_peer(conn_id.peer);
                let (pool, more) = pool.close_unused(now);
                (pool, effects + more)
            },
            _ => (self, Seq::empty()),
        }
    }

    /// A reference to a connection is gone. The event is due if it was the last
    /// one.
    pub open spec fn release(self, conn_id: ConnId) -> (Self, Option<ConnId>) {
        if self.is_current(conn_id) && self.references(conn_id.peer) > 0 {
            let count = self.references(conn_id.peer);
            (
                PoolModel {
                    peers: self.peers.insert(
                        conn_id.peer,
                        PeerModel::Ready {
                            generation: conn_id.generation,
                            connection: self.peers[conn_id.peer]->connection,
                            count: (count - 1) as nat,
                        },
                    ),
                    ..self
                },
                if count == 1 {
                    Some(conn_id)
                } else {
                    None
                },
            )
        } else if self.detached.contains_key(conn_id) {
            let count = self.detached[conn_id];
            if count == 1 {
                (PoolModel { detached: self.detached.remove(conn_id), ..self }, Some(conn_id))
            } else {
                (
                    PoolModel {
                        detached: self.detached.insert(conn_id, (count - 1) as nat),
                        ..self
                    },
                    None,
                )
            }
        } else {
            (self, None)
        }
    }

    /// Whether a request for the peer starts an attempt to connect: there is no
    /// connection or attempt to wait for, and there is room for one more.
    pub open spec fn starts_attempt(self, id: EndpointId, closed: bool) -> bool {
        (self.is_ready(id) && closed) || (!self.peers.contains_key(id) && self.make_room().0)
    }

    /// Whether the counters can hold what a request for the peer leads to: one more
    /// attempt, if it starts one, and one more reference, if it hands one out.
    pub open spec fn can_count(self, id: EndpointId, closed: bool) -> bool {
        &&& self.starts_attempt(id, closed) ==> self.next_generation.0 < u64::MAX
        &&& self.is_ready(id) && !closed ==> self.references(id) < usize::MAX
    }

    /// Whether the counters can hold what the message leads to. `closed` says that
    /// the connection that the pool has to the peer in question has ended.
    pub open spec fn accepts(self, msg: ActorMessage<W>, closed: bool) -> bool {
        match msg {
            ActorMessage::RequestRef(req) => self.can_count(req.id, closed),
            ActorMessage::ConnectionShutdown { .. } => true,
        }
    }

    /// A user of the pool asks for something.
    pub open spec fn message(self, msg: ActorMessage<W>, closed: bool) -> (
        Self,
        Seq<Effect<C, W>>,
    ) {
        match msg {
            ActorMessage::RequestRef(req) => self.request(req.id, req.waiter, closed),
            ActorMessage::ConnectionShutdown { id } => self.remove_peer(id),
        }
    }

    /// What an event does, given that the connection in question has ended if
    /// `closed`, that the waiters in question want no answer where `gone`, and
    /// that the time is `now`.
    pub open spec fn step(self, event: Event<C, W>, closed: bool, gone: Seq<bool>, now: nat) -> (
        Self,
        Seq<Effect<C, W>>,
    ) {
        match event {
            Event::Unused { conn_id } => (self.unused_event(conn_id, now), Seq::empty()),
            Event::ConnectResult { conn_id, result } => self.connect_result(
                conn_id,
                result,
                gone,
                now,
            ),
            Event::ConnClosed { conn_id } => self.conn_closed(conn_id),
            Event::IdleTimer => self.close_unused(now),
            Event::Message(msg) => self.message(msg, closed),
        }
    }

    /// What the pool's end does to these peers, one after the other: whoever
    /// waits for a connection learns that the pool is shut down, and connections
    /// are closed.
    pub open spec fn farewells(self, ids: Seq<EndpointId>) -> Seq<Effect<C, W>>
        decreases ids.len(),
    {
        if ids.len() == 0 {
            Seq::empty()
        } else {
            self.farewells(ids.drop_last()) + self.give_up(
                ids.last(),
                PoolConnectError::Shutdown {  },
            ).1
        }
    }

    /// The pool after its end: it has no peers left, and only keeps the
    /// references in mind that are still alive.
    pub open spec fn ended(self) -> Self {
        PoolModel {
            peers: Map::empty(),
            unused: Map::empty(),
            detached: Map::new(
                |conn_id: ConnId|
                    self.detached.contains_key(conn_id) || (self.is_current(conn_id)
                        && self.references(conn_id.peer) > 0),
                |conn_id: ConnId|
                    if self.is_current(conn_id) {
                        self.references(conn_id.peer)
                    } else {
                        self.detached[conn_id]
                    },
            ),
            ..self
        }
    }
}

} // verus!
