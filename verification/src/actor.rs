//! The pool's state, and what it decides on each event.

use crate::action::{have, Action, CloseReason, Effect};
use crate::clock::Clock;
use crate::counter::{ConnectionCounter, ConnectionRef, OneConnection};
use crate::error::PoolConnectError;
use crate::event::{ActorMessage, Event, RequestRef};
use crate::ids::{ConnId, EndpointId, Generation};
use crate::model::{grant_all, open_waiters, refuse_all, PeerModel, PoolModel};
use crate::options::{Duration, Options};
use crate::unused::{is_oldest, oldest_of, UnusedSet};
use crate::upkeep::{
    conn_closed_keeps_wf, dial_keeps_wf, forget_attempt_keeps_wf, give_up_keeps_wf, init_is_wf,
    make_room_keeps_wf, release_keeps_wf, request_keeps_wf, take_in_keeps_wf,
    unused_event_keeps_wf,
};
use std::collections::BTreeMap;
use vstd::prelude::*;
use vstd::std_specs::iter::IteratorSpec;

verus! {

broadcast use {vstd::std_specs::btree::group_btree_axioms, vstd::laws_cmp::group_laws_cmp};

/// State for a peer in the connection pool
pub enum PeerState<C, W> {
    /// We are currently connecting to this peer.
    Connecting {
        generation: Generation,
        /// Waiters that need to be notified when the connection is established or fails.
        waiters: Vec<W>,
    },
    /// We have a connection to the peer.
    Ready {
        /// The generation of the attempt that made the connection.
        generation: Generation,
        connection: C,
        counter: ConnectionCounter,
    },
}

impl<C, W> View for PeerState<C, W> {
    type V = PeerModel<C, W>;

    open spec fn view(&self) -> PeerModel<C, W> {
        match *self {
            PeerState::Connecting { generation, waiters } => PeerModel::Connecting {
                generation,
                waiters: waiters@,
            },
            PeerState::Ready { generation, connection, counter } => PeerModel::Ready {
                generation,
                connection,
                count: counter.count(),
            },
        }
    }
}

impl<C, W> PeerState<C, W> {
    /// A connection's counter names the connection.
    pub open spec fn names(self, id: EndpointId) -> bool {
        match self {
            PeerState::Connecting { .. } => true,
            PeerState::Ready { generation, counter, .. } => counter.conn_id() == (ConnId {
                peer: id,
                generation,
            }),
        }
    }
}

/// The peers, by id rather than by the numbers that the id is made of.
pub open spec fn peers_by_id<C, W>(peers: Map<(u128, u128), PeerState<C, W>>) -> Map<
    EndpointId,
    PeerModel<C, W>,
> {
    Map::new(
        |id: EndpointId| peers.contains_key(id.spec_key()),
        |id: EndpointId| peers[id.spec_key()]@,
    )
}

/// The state of a connection pool, which decides what to do on each event.
pub struct Actor<C, W> {
    max_connections: usize,
    idle_timeout: Duration,
    clock: Clock,
    peers: BTreeMap<(u128, u128), PeerState<C, W>>,
    /// Generation counter used to distinguish between connection attempts to the same peer.
    next_generation: Generation,
    /// Currently unused connections, in order of when they became unused.
    unused: UnusedSet,
    /// Counters of connections that the pool has given up while they were in use.
    detached: BTreeMap<(u128, u128, u64), ConnectionCounter>,
}

impl<C, W> View for Actor<C, W> {
    type V = PoolModel<C, W>;

    closed spec fn view(&self) -> PoolModel<C, W> {
        PoolModel {
            max_connections: self.max_connections as nat,
            idle_timeout: self.idle_timeout@,
            peers: peers_by_id(self.peers@),
            unused: self.unused@,
            detached: Map::new(
                |conn_id: ConnId| self.detached@.contains_key(conn_id.spec_key()),
                |conn_id: ConnId| self.detached@[conn_id.spec_key()].count(),
            ),
            next_generation: self.next_generation,
        }
    }
}

impl<C, W> Actor<C, W> {
    /// What holds of the pool between events.
    pub closed spec fn wf(self) -> bool {
        &&& self@.wf()
        &&& self.inner_wf()
    }

    /// A pool that is well formed has a well formed state.
    pub proof fn lemma_model_wf(self)
        requires
            self.wf(),
        ensures
            self@.wf(),
    {
    }

    /// The clock that the pool goes by.
    pub closed spec fn clock(self) -> Clock {
        self.clock
    }

    spec fn inner_wf(self) -> bool {
        &&& self.unused.wf()
        &&& forall|id: EndpointId| #[trigger]
            self.peers@.contains_key(id.spec_key()) ==> self.peers@[id.spec_key()].names(id)
        &&& forall|conn_id: ConnId| #[trigger]
            self.detached@.contains_key(conn_id.spec_key())
                ==> self.detached@[conn_id.spec_key()].conn_id() == conn_id
    }
}

/// The peers after one of them got a new state.
proof fn lemma_insert_peer<C, W>(
    peers: Map<(u128, u128), PeerState<C, W>>,
    id: EndpointId,
    state: PeerState<C, W>,
)
    ensures
        peers_by_id(peers.insert(id.spec_key(), state)) == peers_by_id(peers).insert(id, state@),
{
}

/// The peers after one of them was removed.
proof fn lemma_remove_peer<C, W>(peers: Map<(u128, u128), PeerState<C, W>>, id: EndpointId)
    ensures
        peers_by_id(peers.remove(id.spec_key())) == peers_by_id(peers).remove(id),
{
}

/// Returns the answers that refuse all waiters with the error.
fn refuse<C: Clone, W>(waiters: Vec<W>, error: &PoolConnectError) -> (actions: Vec<Action<C, W>>)
    ensures
        have(actions@, refuse_all(waiters@, *error)),
{
    let mut actions: Vec<Action<C, W>> = Vec::new();
    for waiter in it: waiters
        invariant
            it.seq() == waiters@,
            have(actions@, refuse_all(waiters@.take(it.index() as int), *error)),
    {
        actions.push(Action::Reply { waiter, result: Err(error.clone()) });
    }
    actions
}

/// Returns the answers that give a reference to the connection to each of the
/// waiters that still wants one.
fn grant<C: Clone, W>(
    connection: &C,
    counter: &mut ConnectionCounter,
    waiters: Vec<W>,
    closed: &Vec<bool>,
) -> (actions: Vec<Action<C, W>>)
    requires
        old(counter).count() == 0,
    ensures
        final(counter).conn_id() == old(counter).conn_id(),
        final(counter).count() == open_waiters(waiters@, closed@).len(),
        have(
            actions@,
            grant_all(open_waiters(waiters@, closed@), old(counter).conn_id(), *connection),
        ),
{
    let mut actions: Vec<Action<C, W>> = Vec::new();
    let total: usize = waiters.len();
    let mut i: usize = 0;
    for waiter in it: waiters
        invariant
            it.seq() == waiters@,
            i == it.index(),
            total == waiters@.len(),
            counter.conn_id() == old(counter).conn_id(),
            counter.count() == open_waiters(waiters@.take(i as int), closed@).len(),
            counter.count() <= i,
            have(
                actions@,
                grant_all(
                    open_waiters(waiters@.take(i as int), closed@),
                    old(counter).conn_id(),
                    *connection,
                ),
            ),
    {
        proof {
            assert(waiters@.take(i + 1).drop_last() =~= waiters@.take(i as int));
        }
        if !(i < closed.len() && closed[i]) {
            let permit = counter.get_one();
            actions.push(
                Action::Reply { waiter, result: Ok(ConnectionRef::new(connection.clone(), permit)) },
            );
        }
        i = i + 1;
    }
    assert(waiters@.take(waiters@.len() as int) =~= waiters@);
    actions
}

impl<C: Clone, W> Actor<C, W> {
    /// Returns a pool without connections, which goes by the clock.
    pub fn new<F>(options: &Options<F>, clock: Clock) -> (actor: Self)
        ensures
            actor.wf(),
            actor.clock() == clock,
            actor@.max_connections == options.max_connections,
            actor@.idle_timeout == options.idle_timeout.secs * 1_000_000_000
                + options.idle_timeout.nanos,
            actor@.peers == Map::<EndpointId, PeerModel<C, W>>::empty(),
            actor@.unused == Map::<ConnId, nat>::empty(),
            actor@.detached == Map::<ConnId, nat>::empty(),
            actor@.next_generation == Generation(0),
            actor@ == PoolModel::<C, W>::init(
                options.max_connections as nat,
                options.idle_timeout@,
            ),
    {
        let actor = Actor {
            max_connections: options.max_connections,
            idle_timeout: options.idle_timeout,
            clock,
            peers: BTreeMap::new(),
            next_generation: Generation(0),
            unused: UnusedSet::new(),
            detached: BTreeMap::new(),
        };
        proof {
            init_is_wf::<C, W>(options.max_connections as nat, options.idle_timeout@);
            assert(actor@ =~= PoolModel::<C, W>::init(
                options.max_connections as nat,
                options.idle_timeout@,
            ));
        }
        actor
    }

    /// Returns what the pool knows of a peer.
    pub fn peer(&self, id: EndpointId) -> (state: Option<&PeerState<C, W>>)
        ensures
            match state {
                Some(state) => self@.peers.contains_key(id) && state@ == self@.peers[id],
                None => !self@.peers.contains_key(id),
            },
            state matches Some(state) ==> match *state {
                PeerState::Connecting { generation, waiters } => self@.peers[id] == (
                PeerModel::<C, W>::Connecting { generation, waiters: waiters@ }),
                PeerState::Ready { generation, connection, counter } => self@.peers[id] == (
                PeerModel::<C, W>::Ready { generation, connection, count: counter.count() }),
            },
    {
        self.peers.get(&id.key())
    }

    /// Gives up a peer: closes the connection to it, and refuses those who wait
    /// for one with the error.
    fn give_up(&mut self, id: EndpointId, error: PoolConnectError) -> (actions: Vec<Action<C, W>>)
        requires
            old(self).inner_wf(),
        ensures
            final(self).inner_wf(),
            final(self).clock() == old(self).clock(),
            final(self)@ == old(self)@.give_up(id, error).0,
            have(actions@, old(self)@.give_up(id, error).1),
    {
        match self.peers.remove(&id.key()) {
            Some(PeerState::Connecting { waiters, .. }) => refuse(waiters, &error),
            Some(PeerState::Ready { generation, connection, counter }) => {
                let conn_id = ConnId { peer: id, generation };
                let reason = if counter.is_unused() {
                    CloseReason::Unused
                } else {
                    CloseReason::Drop
                };
                self.unused.remove(conn_id);
                if !counter.is_unused() {
                    self.detached.insert(conn_id.key(), counter);
                }
                let mut actions: Vec<Action<C, W>> = Vec::new();
                actions.push(Action::Close { connection, reason });
                actions
            },
            None => Vec::new(),
        }
    }

    /// Gives up a peer, as its connection was closed.
    fn remove_peer(&mut self, id: EndpointId) -> (actions: Vec<Action<C, W>>)
        requires
            old(self).inner_wf(),
        ensures
            final(self).inner_wf(),
            final(self).clock() == old(self).clock(),
            final(self)@ == old(self)@.remove_peer(id).0,
            have(actions@, old(self)@.remove_peer(id).1),
    {
        self.give_up(id, PoolConnectError::Closed {  })
    }

    /// Returns how many connections the pool holds.
    fn ready_count(&self) -> (count: usize)
        ensures
            count == self@.ready().len(),
    {
        let ghost ready = self@.ready();
        let total: usize = self.peers.len();
        let visit = self.peers.keys();
        let ghost keys = visit.remaining();
        let mut count: usize = 0;
        proof {
            assert(keys.take(0) =~= Seq::empty());
            assert(ready_among(ready, Seq::<&(u128, u128)>::empty()) =~= Set::empty());
        }
        for key in it: visit
            invariant
                it.seq() == keys,
                keys.no_duplicates(),
                keys.unref().to_set() == self.peers@.dom(),
                keys.len() == total,
                ready == self@.ready(),
                count <= it.index(),
                count == ready_among(ready, keys.take(it.index() as int)).len(),
                ready_among(ready, keys.take(it.index() as int)).finite(),
        {
            proof {
                lemma_ready_among(ready, keys, it.index() as int);
            }
            if let Some(PeerState::Ready { .. }) = self.peers.get(key) {
                count = count + 1;
            }
        }
        proof {
            assert(keys.take(keys.len() as int) =~= keys);
            assert(ready_among(ready, keys) =~= ready);
        }
        count
    }

    /// Makes room for one more connection if the pool is full.
    ///
    /// Evicts the connection that has been unused the longest, and returns
    /// `false` if there is none.
    fn make_room(&mut self) -> (outcome: (bool, Vec<Action<C, W>>))
        requires
            old(self).wf(),
        ensures
            final(self).wf(),
            final(self).clock() == old(self).clock(),
            outcome.0 == old(self)@.make_room().0,
            final(self)@ == old(self)@.make_room().1,
            have(outcome.1@, old(self)@.make_room().2),
    {
        proof {
            make_room_keeps_wf(self@);
        }
        if self.ready_count() < self.max_connections {
            return (true, Vec::new());
        }
        match self.unused.pop_oldest() {
            Some(conn_id) => {
                let actions = self.remove_peer(conn_id.peer);
                assert(self@ =~= old(self)@.remove_peer(conn_id.peer).0);
                (true, actions)
            },
            None => (false, Vec::new()),
        }
    }

    /// Starts an attempt to connect to a peer, if there is room for one more
    /// connection.
    fn dial(&mut self, id: EndpointId, waiter: W) -> (actions: Vec<Action<C, W>>)
        requires
            old(self).wf(),
            !old(self)@.peers.contains_key(id),
            old(self)@.make_room().0 ==> old(self)@.next_generation.0 < u64::MAX,
        ensures
            final(self).wf(),
            final(self).clock() == old(self).clock(),
            final(self)@ == old(self)@.dial(id, waiter).0,
            have(actions@, old(self)@.dial(id, waiter).1),
    {
        proof {
            dial_keeps_wf(self@, id, waiter);
        }
        let (room, mut actions) = self.make_room();
        if !room {
            actions.push(
                Action::Reply { waiter, result: Err(PoolConnectError::TooManyConnections {  }) },
            );
            return actions;
        }
        let conn_id = ConnId { peer: id, generation: self.next_generation.next() };
        let mut waiters: Vec<W> = Vec::new();
        waiters.push(waiter);
        let state = PeerState::Connecting { generation: conn_id.generation, waiters };
        proof {
            lemma_insert_peer(self.peers@, id, state);
        }
        self.peers.insert(id.key(), state);
        actions.push(Action::Connect { conn_id });
        actions
    }

    /// Handles a request for a reference to a connection. `closed` says that the
    /// connection that the pool has to the peer has ended.
    pub fn handle_request(&mut self, req: RequestRef<W>, closed: bool) -> (actions: Vec<Action<C, W>>)
        requires
            old(self).wf(),
            old(self)@.can_count(req.id, closed),
        ensures
            final(self).wf(),
            final(self).clock() == old(self).clock(),
            final(self)@ == old(self)@.request(req.id, req.waiter, closed).0,
            have(actions@, old(self)@.request(req.id, req.waiter, closed).1),
    {
        let RequestRef { id, waiter } = req;
        proof {
            request_keeps_wf(self@, id, waiter, closed);
            give_up_keeps_wf(self@, id, PoolConnectError::Closed {  });
            lemma_remove_peer(self.peers@, id);
        }
        let ready = match self.peers.get(&id.key()) {
            Some(PeerState::Ready { .. }) => true,
            _ => false,
        };
        if ready && closed {
            let mut actions = self.remove_peer(id);
            let mut more = self.dial(id, waiter);
            actions.append(&mut more);
            return actions;
        }
        match self.peers.remove(&id.key()) {
            None => self.dial(id, waiter),
            Some(PeerState::Connecting { generation, mut waiters }) => {
                waiters.push(waiter);
                let state = PeerState::Connecting { generation, waiters };
                self.peers.insert(id.key(), state);
                assert(self@ =~= old(self)@.request(id, waiter, closed).0);
                Vec::new()
            },
            Some(PeerState::Ready { generation, connection, mut counter }) => {
                self.unused.remove(ConnId { peer: id, generation });
                let permit = counter.get_one();
                let reference = ConnectionRef::new(connection.clone(), permit);
                let state = PeerState::Ready { generation, connection, counter };
                self.peers.insert(id.key(), state);
                let mut actions: Vec<Action<C, W>> = Vec::new();
                actions.push(Action::Reply { waiter, result: Ok(reference) });
                assert(self@ =~= old(self)@.request(id, waiter, closed).0);
                actions
            },
        }
    }

    /// Handles the end of an attempt to connect. `closed[i]` says that the `i`-th
    /// of those who wait for it no longer wants an answer.
    pub fn handle_connect_result(
        &mut self,
        conn_id: ConnId,
        result: Result<C, PoolConnectError>,
        closed: &Vec<bool>,
        now: Duration,
    ) -> (actions: Vec<Action<C, W>>)
        requires
            old(self).wf(),
        ensures
            final(self).wf(),
            final(self).clock() == old(self).clock(),
            final(self)@ == old(self)@.connect_result(conn_id, result, closed@, now@).0,
            have(actions@, old(self)@.connect_result(conn_id, result, closed@, now@).1),
    {
        let id = conn_id.peer;
        proof {
            lemma_remove_peer(self.peers@, id);
        }
        let current = match self.peers.get(&id.key()) {
            Some(PeerState::Connecting { generation, .. }) => *generation == conn_id.generation,
            _ => false,
        };
        if !current {
            // The peer was removed or changed in the meantime, discard the connection.
            let mut actions: Vec<Action<C, W>> = Vec::new();
            if let Ok(connection) = result {
                actions.push(Action::Close { connection, reason: CloseReason::Discarded });
            }
            return actions;
        }
        proof {
            forget_attempt_keeps_wf(self@, id);
        }
        let waiters = match self.peers.remove(&id.key()) {
            Some(PeerState::Connecting { waiters, .. }) => waiters,
            _ => {
                assert(false);
                return Vec::new();
            },
        };
        match result {
            Ok(connection) => self.take_in(conn_id, connection, waiters, closed, now),
            Err(error) => refuse(waiters, &error),
        }
    }

    /// Takes a new connection into the pool, if there is room for it.
    ///
    /// Connections made since its attempt started may have filled the pool.
    fn take_in(
        &mut self,
        conn_id: ConnId,
        connection: C,
        waiters: Vec<W>,
        closed: &Vec<bool>,
        now: Duration,
    ) -> (actions: Vec<Action<C, W>>)
        requires
            old(self).wf(),
            !old(self)@.peers.contains_key(conn_id.peer),
            !old(self)@.detached.contains_key(conn_id),
            conn_id.generation.0 < old(self)@.next_generation.0,
        ensures
            final(self).wf(),
            final(self).clock() == old(self).clock(),
            final(self)@ == old(self)@.take_in(conn_id, connection, waiters@, closed@, now@).0,
            have(
                actions@,
                old(self)@.take_in(conn_id, connection, waiters@, closed@, now@).1,
            ),
    {
        proof {
            take_in_keeps_wf(self@, conn_id, connection, waiters@, closed@, now@);
        }
        let (room, mut actions) = self.make_room();
        if !room {
            actions.push(Action::Close { connection, reason: CloseReason::TooManyConnections });
            let mut more = refuse(waiters, &PoolConnectError::TooManyConnections {  });
            actions.append(&mut more);
            return actions;
        }
        let mut counter = ConnectionCounter::new(conn_id);
        let mut replies = grant(&connection, &mut counter, waiters, closed);
        actions.append(&mut replies);
        // Learn when the connection closes.
        actions.push(Action::Watch { conn_id, connection: connection.clone() });
        if counter.is_unused() {
            self.unused.insert(conn_id, now);
        }
        let state = PeerState::Ready { generation: conn_id.generation, connection, counter };
        proof {
            lemma_insert_peer(self.peers@, conn_id.peer, state);
        }
        self.peers.insert(conn_id.peer.key(), state);
        actions
    }

    /// Handles a connection closing, by us or by the peer.
    ///
    /// Only acts if the connection is still the peer's current one. One the
    /// pool replaced has closed already, and must not take down its successor.
    pub fn handle_conn_closed(&mut self, conn_id: ConnId) -> (actions: Vec<Action<C, W>>)
        requires
            old(self).wf(),
        ensures
            final(self).wf(),
            final(self).clock() == old(self).clock(),
            final(self)@ == old(self)@.conn_closed(conn_id).0,
            have(actions@, old(self)@.conn_closed(conn_id).1),
    {
        proof {
            conn_closed_keeps_wf(self@, conn_id);
        }
        let current = match self.peers.get(&conn_id.peer.key()) {
            Some(PeerState::Ready { generation, .. }) => *generation == conn_id.generation,
            _ => false,
        };
        if current {
            self.remove_peer(conn_id.peer)
        } else {
            Vec::new()
        }
    }

    /// Handles a connection going unused at `now`.
    ///
    /// Only acts if the connection is still the peer's current one. References
    /// to a connection the pool replaced can outlive it, and their last drop
    /// must not restart its successor's idle timeout.
    pub fn handle_unused_event(&mut self, conn_id: ConnId, now: Duration)
        requires
            old(self).wf(),
        ensures
            final(self).wf(),
            final(self).clock() == old(self).clock(),
            final(self)@ == old(self)@.unused_event(conn_id, now@),
    {
        proof {
            unused_event_keeps_wf(self@, conn_id, now@);
        }
        let unused = match self.peers.get(&conn_id.peer.key()) {
            // The connection may have been handed out in the meantime.
            Some(PeerState::Ready { generation, counter, .. }) => *generation == conn_id.generation
                && counter.is_unused(),
            _ => false,
        };
        if unused {
            self.unused.insert(conn_id, now);
        }
    }

    /// Closes the connections that have been unused for the idle timeout at
    /// `now`.
    pub fn close_unused(&mut self, now: Duration) -> (actions: Vec<Action<C, W>>)
        requires
            old(self).wf(),
        ensures
            final(self).wf(),
            final(self).clock() == old(self).clock(),
            final(self)@ == old(self)@.close_unused(now@).0,
            have(actions@, old(self)@.close_unused(now@).1),
    {
        let mut actions: Vec<Action<C, W>> = Vec::new();
        let ghost mut effects: Seq<Effect<C, W>> = Seq::empty();
        loop
            invariant
                self.wf(),
                self.clock() == old(self).clock(),
                have(actions@, effects),
                old(self)@.close_unused(now@).0 == self@.close_unused(now@).0,
                old(self)@.close_unused(now@).1 =~= effects + self@.close_unused(now@).1,
            ensures
                self.wf(),
                self.clock() == old(self).clock(),
                self@ == old(self)@.close_unused(now@).0,
                have(actions@, old(self)@.close_unused(now@).1),
            decreases self@.unused.dom().len(),
        {
            let ghost before = self@;
            match self.unused.pop_expired(now, self.idle_timeout) {
                Some(conn_id) => {
                    proof {
                        give_up_keeps_wf(before, conn_id.peer, PoolConnectError::Closed {  });
                    }
                    let mut more = self.remove_peer(conn_id.peer);
                    proof {
                        assert(self@ =~= before.remove_peer(conn_id.peer).0);
                        effects = effects + before.remove_peer(conn_id.peer).1;
                    }
                    actions.append(&mut more);
                },
                None => {
                    break ;
                },
            }
        }
        actions
    }

    /// Takes back the permit of a reference that is gone.
    ///
    /// Returns the unused event that is due if it was the last reference to its
    /// connection.
    pub fn release(&mut self, permit: OneConnection) -> (event: Option<ConnId>)
        requires
            old(self).wf(),
        ensures
            final(self).wf(),
            final(self).clock() == old(self).clock(),
            final(self)@ == old(self)@.release(permit.conn_id()).0,
            event == old(self)@.release(permit.conn_id()).1,
    {
        let conn_id = permit.id();
        let key = conn_id.peer.key();
        proof {
            release_keeps_wf(self@, conn_id);
        }
        let counted = match self.peers.get(&key) {
            Some(PeerState::Ready { generation, counter, .. }) => *generation == conn_id.generation
                && !counter.is_unused(),
            _ => false,
        };
        if counted {
            match self.peers.remove(&key) {
                Some(PeerState::Ready { generation, connection, mut counter }) => {
                    let event = counter.put_back(permit);
                    let state = PeerState::Ready { generation, connection, counter };
                    self.peers.insert(key, state);
                    assert(self@ =~= old(self)@.release(conn_id).0);
                    event
                },
                _ => {
                    assert(false);
                    None
                },
            }
        } else {
            match self.detached.remove(&conn_id.key()) {
                Some(mut counter) => {
                    let event = counter.put_back(permit);
                    if !counter.is_unused() {
                        self.detached.insert(conn_id.key(), counter);
                    }
                    assert(self@ =~= old(self)@.release(conn_id).0);
                    event
                },
                None => {
                    assert(self@ =~= old(self)@);
                    None
                },
            }
        }
    }

    /// Handles what a user of the pool asks of it. `closed` says that the
    /// connection that the pool has to the peer in question has ended.
    pub fn handle_msg(&mut self, msg: ActorMessage<W>, closed: bool) -> (actions: Vec<
        Action<C, W>,
    >)
        requires
            old(self).wf(),
            old(self)@.accepts(msg, closed),
        ensures
            final(self).wf(),
            final(self).clock() == old(self).clock(),
            final(self)@ == old(self)@.message(msg, closed).0,
            have(actions@, old(self)@.message(msg, closed).1),
    {
        match msg {
            ActorMessage::RequestRef(req) => self.handle_request(req, closed),
            ActorMessage::ConnectionShutdown { id } => {
                proof {
                    give_up_keeps_wf(self@, id, PoolConnectError::Closed {  });
                }
                self.remove_peer(id)
            },
        }
    }

    /// Returns whether the counters can hold what the message leads to: one more
    /// attempt, if it starts one, and one more reference, if it hands one out.
    /// `closed` says that the connection that the pool has to the peer in question
    /// has ended.
    pub fn accepts(&self, msg: &ActorMessage<W>, closed: bool) -> (accepts: bool)
        requires
            self.wf(),
        ensures
            accepts == self@.accepts(*msg, closed),
    {
        match msg {
            ActorMessage::RequestRef(req) => match self.peers.get(&req.id.key()) {
                Some(PeerState::Ready { counter, .. }) => if closed {
                    self.next_generation.0 < u64::MAX
                } else {
                    counter.current() < usize::MAX
                },
                Some(PeerState::Connecting { .. }) => true,
                None => self.next_generation.0 < u64::MAX || !self.has_room(),
            },
            ActorMessage::ConnectionShutdown { .. } => true,
        }
    }

    /// Returns whether there is room for one more connection, or a connection that
    /// can be evicted to make room.
    fn has_room(&self) -> (room: bool)
        requires
            self.wf(),
        ensures
            room == self@.make_room().0,
    {
        self.ready_count() < self.max_connections || self.unused.oldest().is_some()
    }

    /// Handles an event.
    ///
    /// Where a decision depends on it, `has_closed` is asked whether a connection
    /// has ended, `is_closed` whether a waiter no longer wants an answer, and the
    /// clock for the time.
    pub fn handle_event<F: Fn(&C) -> bool, G: Fn(&W) -> bool>(
        &mut self,
        event: Event<C, W>,
        has_closed: F,
        is_closed: G,
    ) -> (actions: Vec<Action<C, W>>)
        requires
            old(self).wf(),
            event matches Event::Message(msg) ==> forall|closed: bool| #[trigger]
                told(old(self)@, msg, has_closed, closed) ==> old(self)@.accepts(msg, closed),
            forall|connection: &C| call_requires(has_closed, (connection,)),
            forall|waiter: &W| call_requires(is_closed, (waiter,)),
        ensures
            final(self).wf(),
            final(self).clock() == old(self).clock(),
            exists|closed: bool, gone: Seq<bool>, now: Duration|
                {
                    &&& old(self).clock().reads(now)
                    &&& event matches Event::Message(ActorMessage::RequestRef(req)) ==> (
                    old(self)@.peers.contains_key(req.id) ==> (
                    old(self)@.peers[req.id] matches PeerModel::Ready { connection, .. }
                        ==> call_ensures(has_closed, (&connection,), closed)))
                    &&& event matches Event::ConnectResult { conn_id, .. } ==> (
                    old(self)@.peers.contains_key(conn_id.peer) ==> (
                    old(self)@.peers[conn_id.peer] matches PeerModel::Connecting {
                        generation,
                        waiters,
                    } ==> (generation == conn_id.generation ==> gone.len() == waiters.len()
                        && forall|i: int|
                        0 <= i < waiters.len() ==> call_ensures(
                            is_closed,
                            (&#[trigger] waiters[i],),
                            gone[i],
                        ))))
                    &&& asked(old(self)@, event, has_closed, is_closed, closed, gone)
                    &&& final(self)@ == (#[trigger] old(self)@.step(event, closed, gone, now@)).0
                    &&& have(actions@, old(self)@.step(event, closed, gone, now@).1)
                },
    {
        let now = self.clock.now();
        match event {
            Event::Unused { conn_id } => {
                self.handle_unused_event(conn_id, now);
                assert(self@ == old(self)@.step(event, false, Seq::empty(), now@).0);
                Vec::new()
            },
            Event::ConnectResult { conn_id, result } => {
                let gone = self.ask_waiters(conn_id, is_closed);
                let actions = self.handle_connect_result(conn_id, result, &gone, now);
                assert(self@ == old(self)@.step(event, false, gone@, now@).0);
                actions
            },
            Event::ConnClosed { conn_id } => {
                let actions = self.handle_conn_closed(conn_id);
                assert(self@ == old(self)@.step(event, false, Seq::empty(), now@).0);
                actions
            },
            Event::IdleTimer => {
                let actions = self.close_unused(now);
                assert(self@ == old(self)@.step(event, false, Seq::empty(), now@).0);
                actions
            },
            Event::Message(msg) => {
                let closed = match &msg {
                    ActorMessage::RequestRef(req) => match self.peers.get(&req.id.key()) {
                        Some(PeerState::Ready { connection, .. }) => has_closed(connection),
                        _ => false,
                    },
                    ActorMessage::ConnectionShutdown { .. } => false,
                };
                assert(told(self@, msg, has_closed, closed));
                let actions = self.handle_msg(msg, closed);
                assert(self@ == old(self)@.step(event, closed, Seq::empty(), now@).0);
                actions
            },
        }
    }

    /// Asks each of those who wait for the attempt whether it no longer wants an
    /// answer.
    fn ask_waiters<G: Fn(&W) -> bool>(&self, conn_id: ConnId, is_closed: G) -> (gone: Vec<bool>)
        requires
            forall|waiter: &W| call_requires(is_closed, (waiter,)),
        ensures
            self@.is_connecting(conn_id) ==> {
                let waiters = self@.peers[conn_id.peer]->waiters;
                &&& gone@.len() == waiters.len()
                &&& forall|i: int|
                    0 <= i < waiters.len() ==> call_ensures(
                        is_closed,
                        (&#[trigger] waiters[i],),
                        gone@[i],
                    )
            },
    {
        let mut gone: Vec<bool> = Vec::new();
        if let Some(PeerState::Connecting { waiters, .. }) = self.peers.get(&conn_id.peer.key()) {
            let mut i: usize = 0;
            while i < waiters.len()
                invariant
                    i <= waiters.len(),
                    gone@.len() == i,
                    forall|waiter: &W| call_requires(is_closed, (waiter,)),
                    forall|j: int|
                        0 <= j < i ==> call_ensures(is_closed, (&#[trigger] waiters@[j],), gone@[j]),
                decreases waiters.len() - i,
            {
                gone.push(is_closed(&waiters[i]));
                i = i + 1;
            }
        }
        gone
    }

    /// Returns when the connection that has been unused longest is due to be
    /// closed, in nanoseconds since the clock was started.
    pub fn next_unused_timer(&self) -> (deadline: Option<u128>)
        requires
            self.wf(),
        ensures
            match deadline {
                Some(deadline) => {
                    &&& oldest_of(self@.unused) matches Some(conn_id)
                    &&& is_oldest(self@.unused, conn_id)
                    &&& deadline == self@.unused[conn_id] + self@.idle_timeout
                },
                None => self@.unused == Map::<ConnId, nat>::empty(),
            },
    {
        match self.unused.oldest() {
            Some(since) => Some(since + self.idle_timeout.as_nanos()),
            None => None,
        }
    }

    /// Ends the pool: refuses those who wait for a connection, and closes
    /// connections.
    pub fn shutdown(&mut self) -> (actions: Vec<Action<C, W>>)
        requires
            old(self).wf(),
        ensures
            final(self).wf(),
            final(self).clock() == old(self).clock(),
            final(self)@ == old(self)@.ended(),
            exists|ids: Seq<EndpointId>|
                {
                    &&& ids.no_duplicates()
                    &&& ids.to_set() == old(self)@.peers.dom()
                    &&& #[trigger] have(actions@, old(self)@.farewells(ids))
                },
    {
        let ids = self.ids();
        let mut actions: Vec<Action<C, W>> = Vec::new();
        let mut i: usize = 0;
        while i < ids.len()
            invariant
                i <= ids.len(),
                ids@.no_duplicates(),
                ids@.to_set() == old(self)@.peers.dom(),
                old(self)@.wf(),
                self.wf(),
                self.clock() == old(self).clock(),
                left_by(old(self)@, ids@.take(i as int), self@),
                have(actions@, old(self)@.farewells(ids@.take(i as int))),
            decreases ids.len() - i,
        {
            let id = ids[i];
            let ghost before = self@;
            proof {
                give_up_keeps_wf(before, id, PoolConnectError::Shutdown {  });
                lemma_left_by(old(self)@, ids@, i as int, before);
                assert(ids@.take(i + 1).drop_last() =~= ids@.take(i as int));
            }
            let mut more = self.give_up(id, PoolConnectError::Shutdown {  });
            actions.append(&mut more);
            i = i + 1;
        }
        proof {
            assert(ids@.take(i as int) =~= ids@);
        }
        actions
    }

    /// Returns the peers that the pool knows of.
    fn ids(&self) -> (ids: Vec<EndpointId>)
        ensures
            ids@.no_duplicates(),
            ids@.to_set() == self@.peers.dom(),
    {
        let visit = self.peers.keys();
        let ghost keys = visit.remaining();
        let mut ids: Vec<EndpointId> = Vec::new();
        for key in it: visit
            invariant
                it.seq() == keys,
                ids@.len() == it.index(),
                forall|i: int| 0 <= i < ids@.len() ==> (#[trigger] ids@[i]).spec_key() == *keys[i],
        {
            ids.push(EndpointId { hi: key.0, lo: key.1 });
        }
        proof {
            assert forall|id: EndpointId| ids@.contains(id) == self@.peers.contains_key(id) by {
                if ids@.contains(id) {
                    let i = choose|i: int| 0 <= i < ids@.len() && ids@[i] == id;
                    assert(keys.unref()[i] == id.spec_key());
                }
                if self@.peers.contains_key(id) {
                    let i = choose|i: int|
                        0 <= i < keys.len() && keys.unref()[i] == id.spec_key();
                    assert(ids@[i] == id);
                }
            }
        }
        ids
    }
}

/// Whether `now` is what is left of `pool` after the peers `ids` were given up.
spec fn left_by<C, W>(
    pool: PoolModel<C, W>,
    ids: Seq<EndpointId>,
    now: PoolModel<C, W>,
) -> bool {
    &&& now.max_connections == pool.max_connections
    &&& now.idle_timeout == pool.idle_timeout
    &&& now.next_generation == pool.next_generation
    &&& forall|id: EndpointId| #[trigger]
        now.peers.contains_key(id) <==> pool.peers.contains_key(id) && !ids.contains(id)
    &&& forall|id: EndpointId| #[trigger]
        now.peers.contains_key(id) ==> now.peers[id] == pool.peers[id]
    &&& forall|conn_id: ConnId| #[trigger]
        now.detached.contains_key(conn_id) <==> (pool.detached.contains_key(conn_id) || (
        pool.is_current(conn_id) && pool.references(conn_id.peer) > 0 && ids.contains(
            conn_id.peer,
        )))
    &&& forall|conn_id: ConnId| #[trigger]
        now.detached.contains_key(conn_id) ==> now.detached[conn_id] == if pool.is_current(
            conn_id,
        ) {
            pool.references(conn_id.peer)
        } else {
            pool.detached[conn_id]
        }
}

/// Peers can be given up one by one: each leaves what giving up all of them so far
/// leaves, and leads to what it would have led to in the first place.
proof fn lemma_left_by<C, W>(
    pool: PoolModel<C, W>,
    ids: Seq<EndpointId>,
    i: int,
    before: PoolModel<C, W>,
)
    requires
        pool.wf(),
        0 <= i < ids.len(),
        ids.no_duplicates(),
        pool.peers.contains_key(ids[i]),
        left_by(pool, ids.take(i), before),
    ensures
        left_by(
            pool,
            ids.take(i + 1),
            before.give_up(ids[i], PoolConnectError::Shutdown {  }).0,
        ),
        before.give_up(ids[i], PoolConnectError::Shutdown {  }).1 == pool.give_up(
            ids[i],
            PoolConnectError::Shutdown {  },
        ).1,
{
    let id = ids[i];
    assert forall|other: EndpointId| ids.take(i + 1).contains(other) == (ids.take(i).contains(
        other,
    ) || other == id) by {
        if other == id {
            assert(ids.take(i + 1)[i] == other);
        }
    }
}

/// Whether `closed` is what the one who runs the pool says of the connection that
/// the pool has to the peer that the message is about.
pub open spec fn told<C, W, F: Fn(&C) -> bool>(
    pool: PoolModel<C, W>,
    msg: ActorMessage<W>,
    has_closed: F,
    closed: bool,
) -> bool {
    msg matches ActorMessage::RequestRef(req) ==> pool.is_ready(req.id) ==> call_ensures(
        has_closed,
        (&pool.peers[req.id]->connection,),
        closed,
    )
}

/// Whether `closed` and `gone` are what the one who runs the pool says of the
/// connection and the waiters that the event is about.
pub open spec fn asked<C, W, F: Fn(&C) -> bool, G: Fn(&W) -> bool>(
    pool: PoolModel<C, W>,
    event: Event<C, W>,
    has_closed: F,
    is_closed: G,
    closed: bool,
    gone: Seq<bool>,
) -> bool {
    match event {
        Event::Message(msg) => told(pool, msg, has_closed, closed),
        Event::ConnectResult { conn_id, .. } => pool.is_connecting(conn_id) ==> {
            let waiters = pool.peers[conn_id.peer]->waiters;
            &&& gone.len() == waiters.len()
            &&& forall|i: int|
                0 <= i < waiters.len() ==> call_ensures(
                    is_closed,
                    (&#[trigger] waiters[i],),
                    gone[i],
                )
        },
        _ => true,
    }
}

/// One more peer visited is one more in `ready`, or none.
proof fn lemma_ready_among(ready: Set<EndpointId>, keys: Seq<&(u128, u128)>, i: int)
    requires
        0 <= i < keys.len(),
        keys.no_duplicates(),
    ensures
        ({
            let id = EndpointId { hi: keys[i].0, lo: keys[i].1 };
            let before = ready_among(ready, keys.take(i));
            let after = ready_among(ready, keys.take(i + 1));
            &&& !before.contains(id)
            &&& after == if ready.contains(id) {
                before.insert(id)
            } else {
                before
            }
        }),
{
    let id = EndpointId { hi: keys[i].0, lo: keys[i].1 };
    assert forall|other: EndpointId| keys.take(i + 1).contains(&other.spec_key()) == (
    keys.take(i).contains(&other.spec_key()) || other == id) by {
        if other == id {
            assert(keys.take(i + 1)[i] == &other.spec_key());
        }
    }
}

/// Of the peers with these ids, those in `ready`.
spec fn ready_among(ready: Set<EndpointId>, keys: Seq<&(u128, u128)>) -> Set<EndpointId> {
    Set::new(|id: EndpointId| ready.contains(id) && keys.contains(&id.spec_key()))
}

} // verus!
