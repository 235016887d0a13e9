//! What the pool promises of its events taken together.

use crate::action::{CloseReason, Effect};
use crate::error::PoolConnectError;
use crate::event::{ActorMessage, Event, RequestRef};
use crate::ids::{ConnId, EndpointId};
use crate::model::{close_reason, grant_all, open_waiters, refuse_all, PeerModel, PoolModel};
use crate::unused::{expired, is_oldest, lemma_oldest_exists, oldest_of};
use crate::upkeep::{
    close_unused_keeps_wf, conn_closed_keeps_wf, connect_result_keeps_wf, forget_attempt_keeps_wf,
    give_up_keeps_wf, init_is_wf, lemma_ready_finite, release_keeps_wf, request_keeps_wf,
    unused_event_keeps_wf,
};
use vstd::prelude::*;

verus! {

/// Every event keeps the pool well formed: what counts as unused is a current
/// connection without references, and the pool never holds more connections than
/// it may.
pub proof fn every_event_keeps_wf<C, W>(
    pool: PoolModel<C, W>,
    event: Event<C, W>,
    closed: bool,
    gone: Seq<bool>,
    now: nat,
)
    requires
        pool.wf(),
        event matches Event::Message(msg) ==> pool.accepts(msg, closed),
    ensures
        pool.step(event, closed, gone, now).0.wf(),
        pool.step(event, closed, gone, now).0.max_connections == pool.max_connections,
        pool.step(event, closed, gone, now).0.ready().len() <= pool.max_connections,
{
    match event {
        Event::Unused { conn_id } => {
            unused_event_keeps_wf(pool, conn_id, now);
        },
        Event::ConnectResult { conn_id, result } => {
            connect_result_keeps_wf(pool, conn_id, result, gone, now);
        },
        Event::ConnClosed { conn_id } => {
            conn_closed_keeps_wf(pool, conn_id);
        },
        Event::IdleTimer => {
            close_unused_keeps_wf(pool, now);
            idle_timer_closes_what_is_overdue(pool, now);
        },
        Event::Message(ActorMessage::RequestRef(req)) => {
            request_keeps_wf(pool, req.id, req.waiter, closed);
        },
        Event::Message(ActorMessage::ConnectionShutdown { id }) => {
            give_up_keeps_wf(pool, id, PoolConnectError::Closed {  });
        },
    }
}

/// One thing that can happen to a pool.
pub enum Move<C, W> {
    /// The pool handles an event, and learns of `closed`, `gone` and `now` on the way.
    Handle { event: Event<C, W>, closed: bool, gone: Seq<bool>, now: nat },
    /// A reference to a connection is dropped.
    Drop { conn_id: ConnId },
}

/// The pool after the moves, one after the other.
pub open spec fn run<C, W>(pool: PoolModel<C, W>, moves: Seq<Move<C, W>>) -> PoolModel<C, W>
    decreases moves.len(),
{
    if moves.len() == 0 {
        pool
    } else {
        let before = run(pool, moves.drop_last());
        match moves.last() {
            Move::Handle { event, closed, gone, now } => before.step(event, closed, gone, now).0,
            Move::Drop { conn_id } => before.release(conn_id).0,
        }
    }
}

proof fn lemma_runs_are_tidy<C, W>(pool: PoolModel<C, W>, moves: Seq<Move<C, W>>)
    requires
        pool.tidy(),
    ensures
        run(pool, moves).tidy(),
        run(pool, moves).max_connections == pool.max_connections,
        run(pool, moves).idle_timeout == pool.idle_timeout,
    decreases moves.len(),
{
    if moves.len() > 0 {
        let before = run(pool, moves.drop_last());
        lemma_runs_are_tidy(pool, moves.drop_last());
        match moves.last() {
            Move::Handle { event, closed, gone, now } => match event {
                Event::Unused { conn_id } => {
                    unused_event_keeps_wf(before, conn_id, now);
                },
                Event::ConnectResult { conn_id, result } => {
                    connect_result_keeps_wf(before, conn_id, result, gone, now);
                },
                Event::ConnClosed { conn_id } => {
                    conn_closed_keeps_wf(before, conn_id);
                },
                Event::IdleTimer => {
                    close_unused_keeps_wf(before, now);
                },
                Event::Message(ActorMessage::RequestRef(req)) => {
                    request_keeps_wf(before, req.id, req.waiter, closed);
                },
                Event::Message(ActorMessage::ConnectionShutdown { id }) => {
                    give_up_keeps_wf(before, id, PoolConnectError::Closed {  });
                },
            },
            Move::Drop { conn_id } => {
                release_keeps_wf(before, conn_id);
            },
        }
    }
}

/// Whatever happens to a new pool, in whatever order: it goes by the limit and the
/// idle timeout that it was made with.
pub proof fn the_options_never_change<C, W>(
    max_connections: nat,
    idle_timeout: nat,
    moves: Seq<Move<C, W>>,
)
    ensures
        ({
            let pool = run(PoolModel::<C, W>::init(max_connections, idle_timeout), moves);
            &&& pool.max_connections == max_connections
            &&& pool.idle_timeout == idle_timeout
        }),
{
    init_is_wf::<C, W>(max_connections, idle_timeout);
    lemma_runs_are_tidy(PoolModel::<C, W>::init(max_connections, idle_timeout), moves);
}

/// Whatever happens to a new pool, in whatever order: it holds at most as many
/// connections as it may, and at most one to a peer, however many attempts were
/// started or have ended.
pub proof fn the_limit_is_never_exceeded<C, W>(
    max_connections: nat,
    idle_timeout: nat,
    moves: Seq<Move<C, W>>,
)
    ensures
        ({
            let pool = run(PoolModel::<C, W>::init(max_connections, idle_timeout), moves);
            &&& pool.ready().finite()
            &&& pool.ready().len() <= max_connections
            &&& forall|a: ConnId, b: ConnId| #[trigger]
                pool.is_current(a) && #[trigger] pool.is_current(b) && a.peer == b.peer ==> a == b
        }),
{
    init_is_wf::<C, W>(max_connections, idle_timeout);
    let init = PoolModel::<C, W>::init(max_connections, idle_timeout);
    lemma_runs_are_tidy(init, moves);
    lemma_ready_finite(run(init, moves));
}

/// Whatever happens to a new pool, in whatever order: what counts as unused is the
/// current connection to its peer and has no references, so making room never takes
/// a connection that is in use.
pub proof fn what_is_unused_has_no_references<C, W>(
    max_connections: nat,
    idle_timeout: nat,
    moves: Seq<Move<C, W>>,
)
    ensures
        ({
            let pool = run(PoolModel::<C, W>::init(max_connections, idle_timeout), moves);
            &&& forall|conn_id: ConnId| #[trigger]
                pool.unused.contains_key(conn_id) ==> pool.is_current(conn_id) && pool.references(
                    conn_id.peer,
                ) == 0
            &&& forall|id: EndpointId| #[trigger]
                pool.references(id) > 0 ==> pool.make_room().1.peers.contains_key(id)
                    && pool.make_room().1.peers[id] == pool.peers[id]
        }),
{
    init_is_wf::<C, W>(max_connections, idle_timeout);
    let init = PoolModel::<C, W>::init(max_connections, idle_timeout);
    lemma_runs_are_tidy(init, moves);
    let pool = run(init, moves);
    if let Some(oldest) = oldest_of(pool.unused) {
        assert(is_oldest(pool.unused, oldest));
        assert(pool.references(oldest.peer) == 0);
        assert(pool.remove_peer(oldest.peer).0.peers =~= pool.peers.remove(oldest.peer));
    }
}

/// The connection that the pool has to the peer.
pub open spec fn current<C, W>(pool: PoolModel<C, W>, id: EndpointId) -> ConnId {
    ConnId { peer: id, generation: pool.peers[id].generation() }
}

/// Whether the pool has a connection to the peer that has been unused for the
/// idle timeout.
pub open spec fn overdue<C, W>(pool: PoolModel<C, W>, id: EndpointId, now: nat) -> bool {
    &&& pool.is_ready(id)
    &&& pool.unused.contains_key(current(pool, id))
    &&& expired(pool.unused[current(pool, id)], now, pool.idle_timeout)
}

/// The pool's connection to the peer is closed, as nothing uses it.
pub open spec fn idle_close<C, W>(pool: PoolModel<C, W>, id: EndpointId) -> Effect<C, W> {
    Effect::Close { connection: pool.peers[id]->connection, reason: CloseReason::Unused }
}

/// Whether the effect closes a connection that has been unused for the idle
/// timeout.
pub open spec fn closes_overdue<C, W>(
    pool: PoolModel<C, W>,
    effect: Effect<C, W>,
    now: nat,
) -> bool {
    exists|id: EndpointId| #[trigger] overdue(pool, id, now) && effect == idle_close(pool, id)
}

/// The idle timer closes exactly the connections that have been unused for the
/// idle timeout. All else stays as it is.
pub proof fn idle_timer_closes_what_is_overdue<C, W>(pool: PoolModel<C, W>, now: nat)
    requires
        pool.wf(),
    ensures
        ({
            let (after, effects) = pool.close_unused(now);
            &&& forall|id: EndpointId| #[trigger]
                after.peers.contains_key(id) <==> pool.peers.contains_key(id) && !overdue(
                    pool,
                    id,
                    now,
                )
            &&& forall|id: EndpointId| #[trigger]
                after.peers.contains_key(id) ==> after.peers[id] == pool.peers[id]
            &&& forall|conn_id: ConnId| #[trigger]
                after.unused.contains_key(conn_id) <==> pool.unused.contains_key(conn_id)
                    && !expired(pool.unused[conn_id], now, pool.idle_timeout)
            &&& forall|conn_id: ConnId| #[trigger]
                after.unused.contains_key(conn_id) ==> after.unused[conn_id]
                    == pool.unused[conn_id]
            &&& after.detached == pool.detached
            &&& after.max_connections == pool.max_connections
            &&& after.idle_timeout == pool.idle_timeout
            &&& after.next_generation == pool.next_generation
            &&& forall|id: EndpointId| #[trigger]
                overdue(pool, id, now) ==> effects.contains(idle_close(pool, id))
            &&& forall|i: int|
                0 <= i < effects.len() ==> closes_overdue(pool, #[trigger] effects[i], now)
        }),
    decreases pool.unused.dom().len(),
{
    if pool.unused != Map::<ConnId, nat>::empty() {
        lemma_oldest_exists(pool.unused);
        let oldest = oldest_of(pool.unused)->0;
        if expired(pool.unused[oldest], now, pool.idle_timeout) {
            let next = pool.remove_peer(oldest.peer).0;
            give_up_keeps_wf(pool, oldest.peer, PoolConnectError::Closed {  });
            assert(overdue(pool, oldest.peer, now));
            idle_timer_closes_what_is_overdue(next, now);
            let more = next.close_unused(now).1;
            let effects = pool.close_unused(now).1;
            assert forall|id: EndpointId| id != oldest.peer implies #[trigger] overdue(
                next,
                id,
                now,
            ) == overdue(pool, id, now) by {}
            assert forall|id: EndpointId| #[trigger] overdue(pool, id, now) implies effects.contains(
                idle_close(pool, id),
            ) by {
                if id == oldest.peer {
                    assert(effects[0] == idle_close(pool, id));
                } else {
                    assert(overdue(next, id, now));
                    let i = choose|i: int|
                        0 <= i < more.len() && more[i] == idle_close(pool, id);
                    assert(effects[i + 1] == idle_close(pool, id));
                }
            }
        }
    }
}

/// Until the timer for the connection that has been unused longest is due, no
/// connection is overdue. From then on, that one is.
pub proof fn timer_is_due_with_the_oldest<C, W>(pool: PoolModel<C, W>, now: nat)
    requires
        pool.wf(),
        pool.unused != Map::<ConnId, nat>::empty(),
    ensures
        ({
            let oldest = oldest_of(pool.unused)->0;
            &&& pool.unused.contains_key(oldest)
            &&& now < pool.unused[oldest] + pool.idle_timeout ==> pool.close_unused(now) == (
                pool,
                Seq::<Effect<C, W>>::empty(),
            )
            &&& now >= pool.unused[oldest] + pool.idle_timeout ==> !pool.close_unused(
                now,
            ).0.peers.contains_key(oldest.peer)
        }),
{
    lemma_oldest_exists(pool.unused);
    idle_timer_closes_what_is_overdue(pool, now);
}

/// A connection that is in use is neither evicted nor closed by the idle timer.
pub proof fn connections_in_use_are_kept<C, W>(pool: PoolModel<C, W>, id: EndpointId, now: nat)
    requires
        pool.wf(),
        pool.references(id) > 0,
    ensures
        pool.close_unused(now).0.peers.contains_key(id),
        pool.close_unused(now).0.peers[id] == pool.peers[id],
        pool.make_room().1.peers.contains_key(id),
        pool.make_room().1.peers[id] == pool.peers[id],
{
    idle_timer_closes_what_is_overdue(pool, now);
    // What is overdue or can be evicted is unused, and so has no references.
    assert(pool.unused.contains_key(current(pool, id)) ==> pool.references(id) == 0);
    assert(!overdue(pool, id, now));
    assert(pool.close_unused(now).0.peers.contains_key(id));
    if let Some(oldest) = oldest_of(pool.unused) {
        assert(is_oldest(pool.unused, oldest));
        assert(pool.references(oldest.peer) == 0);
        assert(oldest.peer != id);
        assert(pool.remove_peer(oldest.peer).0.peers == pool.peers.remove(oldest.peer));
    }
}

/// Attempts that are still running take up no room: while the pool holds fewer
/// connections than it may, a request for a peer that it does not know starts an
/// attempt, and closes nothing.
pub proof fn attempts_take_up_no_room<C, W>(
    pool: PoolModel<C, W>,
    id: EndpointId,
    waiter: W,
    closed: bool,
)
    requires
        pool.wf(),
        !pool.peers.contains_key(id),
        pool.ready().len() < pool.max_connections,
    ensures
        ({
            let generation = pool.next_generation;
            let (after, effects) = pool.request(id, waiter, closed);
            &&& effects == seq![
                Effect::<C, W>::Connect { conn_id: ConnId { peer: id, generation } },
            ]
            &&& after.peers == pool.peers.insert(
                id,
                PeerModel::Connecting { generation, waiters: seq![waiter] },
            )
        }),
{
}

/// A request for a peer that the pool does not know is refused if and only if the
/// pool is full and uses all of its connections. A refusal changes nothing.
pub proof fn refused_only_if_full_and_in_use<C, W>(
    pool: PoolModel<C, W>,
    id: EndpointId,
    waiter: W,
    closed: bool,
)
    requires
        pool.wf(),
        !pool.peers.contains_key(id),
    ensures
        ({
            let (after, effects) = pool.request(id, waiter, closed);
            let refusal = Effect::<C, W>::Refuse {
                waiter,
                error: PoolConnectError::TooManyConnections {  },
            };
            let refused = pool.ready().len() == pool.max_connections && pool.unused == Map::<
                ConnId,
                nat,
            >::empty();
            &&& effects.contains(refusal) <==> refused
            &&& refused ==> effects == seq![refusal] && after == pool
            &&& !refused ==> effects.contains(
                Effect::Connect { conn_id: ConnId { peer: id, generation: pool.next_generation } },
            )
        }),
{
    let effects = pool.request(id, waiter, closed).1;
    if pool.unused != Map::<ConnId, nat>::empty() {
        lemma_oldest_exists(pool.unused);
    }
    if pool.make_room().0 {
        assert(effects.last() == Effect::<C, W>::Connect {
            conn_id: ConnId { peer: id, generation: pool.next_generation },
        });
    } else {
        assert(effects[0] == Effect::<C, W>::Refuse {
            waiter,
            error: PoolConnectError::TooManyConnections {  },
        });
    }
}

/// When the pool is full, a request for a peer that it does not know evicts the
/// connection that has been unused longest, and nothing else.
pub proof fn eviction_takes_the_oldest<C, W>(
    pool: PoolModel<C, W>,
    id: EndpointId,
    waiter: W,
    closed: bool,
)
    requires
        pool.wf(),
        !pool.peers.contains_key(id),
        pool.ready().len() == pool.max_connections,
        pool.unused != Map::<ConnId, nat>::empty(),
    ensures
        ({
            let oldest = oldest_of(pool.unused)->0;
            let generation = pool.next_generation;
            let (after, effects) = pool.request(id, waiter, closed);
            &&& is_oldest(pool.unused, oldest)
            &&& pool.is_current(oldest)
            &&& pool.references(oldest.peer) == 0
            &&& effects == seq![
                idle_close(pool, oldest.peer),
                Effect::Connect { conn_id: ConnId { peer: id, generation } },
            ]
            &&& after.peers == pool.peers.remove(oldest.peer).insert(
                id,
                PeerModel::Connecting { generation, waiters: seq![waiter] },
            )
            &&& after.unused == pool.unused.remove(oldest)
        }),
{
    lemma_oldest_exists(pool.unused);
}

/// A request for a peer that the pool is connecting to waits for that attempt,
/// and starts no other.
pub proof fn requests_share_an_attempt<C, W>(
    pool: PoolModel<C, W>,
    id: EndpointId,
    waiter: W,
    closed: bool,
)
    requires
        pool.peers.contains_key(id),
        pool.peers[id] is Connecting,
    ensures
        ({
            let (after, effects) = pool.request(id, waiter, closed);
            &&& effects == Seq::<Effect<C, W>>::empty()
            &&& after.peers[id] == (PeerModel::<C, W>::Connecting {
                generation: pool.peers[id].generation(),
                waiters: pool.peers[id]->waiters.push(waiter),
            })
            &&& after.peers.remove(id) == pool.peers.remove(id)
            &&& after.next_generation == pool.next_generation
        }),
{
}

/// A request for a peer that the pool has a live connection to is answered with a
/// reference to that connection, whether or not the pool is full.
pub proof fn live_connections_are_reused<C, W>(
    pool: PoolModel<C, W>,
    id: EndpointId,
    waiter: W,
)
    requires
        pool.is_ready(id),
    ensures
        pool.request(id, waiter, false).1 == seq![
            Effect::<C, W>::Grant {
                waiter,
                conn_id: current(pool, id),
                connection: pool.peers[id]->connection,
            },
        ],
        pool.request(id, waiter, false).0.references(id) == pool.references(id) + 1,
        pool.request(id, waiter, false).0.is_current(current(pool, id)),
{
}

/// A connection that has ended is not handed out. It is closed, and a new attempt
/// takes its place.
pub proof fn ended_connections_are_not_handed_out<C, W>(
    pool: PoolModel<C, W>,
    id: EndpointId,
    waiter: W,
)
    requires
        pool.wf(),
        pool.is_ready(id),
    ensures
        ({
            let generation = pool.next_generation;
            let (after, effects) = pool.request(id, waiter, true);
            &&& effects == seq![
                Effect::<C, W>::Close {
                    connection: pool.peers[id]->connection,
                    reason: close_reason(pool.references(id)),
                },
                Effect::Connect { conn_id: ConnId { peer: id, generation } },
            ]
            &&& after.peers == pool.peers.insert(
                id,
                PeerModel::Connecting { generation, waiters: seq![waiter] },
            )
            &&& !after.unused.contains_key(current(pool, id))
        }),
{
    give_up_keeps_wf(pool, id, PoolConnectError::Closed {  });
}

/// Closing a peer closes its connection, or refuses those who wait for one. A
/// request after that starts a new attempt, if the pool had a connection to the
/// peer or has room for another one.
pub proof fn close_makes_way_for_a_new_connection<C, W>(
    pool: PoolModel<C, W>,
    id: EndpointId,
    waiter: W,
    closed: bool,
)
    requires
        pool.wf(),
        pool.is_ready(id) || pool.ready().len() < pool.max_connections,
    ensures
        ({
            let (cleared, farewell) = pool.remove_peer(id);
            &&& !cleared.peers.contains_key(id)
            &&& pool.is_ready(id) ==> farewell == seq![
                Effect::<C, W>::Close {
                    connection: pool.peers[id]->connection,
                    reason: close_reason(pool.references(id)),
                },
            ]
            &&& pool.peers.contains_key(id) && pool.peers[id] is Connecting ==> farewell
                == refuse_all::<C, W>(pool.peers[id]->waiters, PoolConnectError::Closed {  })
            &&& cleared.request(id, waiter, closed).1 == seq![
                Effect::<C, W>::Connect {
                    conn_id: ConnId { peer: id, generation: pool.next_generation },
                },
            ]
            &&& pool.peers.contains_key(id) ==> pool.peers[id].generation()
                != pool.next_generation
        }),
{
    give_up_keeps_wf(pool, id, PoolConnectError::Closed {  });
    if !pool.is_ready(id) {
        assert(pool.ready().remove(id) =~= pool.ready());
    }
    attempts_take_up_no_room(pool.remove_peer(id).0, id, waiter, closed);
}

/// A message does what it asks for: a request is handled as a request, and a
/// message to close a peer removes that peer. Where the pool does not know the
/// peer, nothing is removed, and no other peer is ever affected.
pub proof fn messages_do_what_they_ask_for<C, W>(
    pool: PoolModel<C, W>,
    req: RequestRef<W>,
    id: EndpointId,
    closed: bool,
)
    ensures
        pool.message(ActorMessage::RequestRef(req), closed) == pool.request(
            req.id,
            req.waiter,
            closed,
        ),
        ({
            let (after, effects) = pool.message(
                ActorMessage::ConnectionShutdown { id },
                closed,
            );
            &&& (after, effects) == pool.remove_peer(id)
            &&& after.peers == pool.peers.remove(id)
            &&& !pool.peers.contains_key(id) ==> after == pool && effects == Seq::<
                Effect<C, W>,
            >::empty()
            &&& forall|conn_id: ConnId|
                conn_id.peer != id ==> {
                    &&& #[trigger] after.unused.contains_key(conn_id)
                        == pool.unused.contains_key(conn_id)
                    &&& after.unused[conn_id] == pool.unused[conn_id]
                    &&& after.detached.contains_key(conn_id) == pool.detached.contains_key(conn_id)
                    &&& after.detached[conn_id] == pool.detached[conn_id]
                }
        }),
{
    assert(pool.remove_peer(id).0.peers =~= pool.peers.remove(id));
}

/// An event about a connection or an attempt that is not the peer's current one
/// changes nothing. A connection that comes too late is closed.
pub proof fn stale_events_change_nothing<C, W>(
    pool: PoolModel<C, W>,
    conn_id: ConnId,
    result: Result<C, PoolConnectError>,
    gone: Seq<bool>,
    now: nat,
)
    ensures
        !pool.is_current(conn_id) ==> {
            &&& pool.conn_closed(conn_id) == (pool, Seq::<Effect<C, W>>::empty())
            &&& pool.unused_event(conn_id, now) == pool
        },
        !pool.is_connecting(conn_id) ==> pool.connect_result(conn_id, result, gone, now) == (
            pool,
            match result {
                Ok(connection) => seq![
                    Effect::<C, W>::Close { connection, reason: CloseReason::Discarded },
                ],
                Err(_) => Seq::empty(),
            },
        ),
{
}

/// An attempt that was given up cannot serve a later request: what becomes of it
/// does not touch the attempt that took its place.
pub proof fn attempts_given_up_stay_given_up<C, W>(
    pool: PoolModel<C, W>,
    conn_id: ConnId,
    waiter: W,
    closed: bool,
    result: Result<C, PoolConnectError>,
    gone: Seq<bool>,
    now: nat,
)
    requires
        pool.wf(),
        pool.is_connecting(conn_id),
    ensures
        ({
            let cleared = pool.remove_peer(conn_id.peer).0;
            let renewed = cleared.request(conn_id.peer, waiter, closed).0;
            &&& !renewed.is_connecting(conn_id)
            &&& renewed.connect_result(conn_id, result, gone, now).0 == renewed
        }),
{
}

/// References to a connection that the pool has given up can outlive it. Dropping
/// them leaves the peers and their idle times alone.
pub proof fn old_references_leave_the_successor_alone<C, W>(
    pool: PoolModel<C, W>,
    conn_id: ConnId,
    now: nat,
)
    requires
        !pool.is_current(conn_id),
    ensures
        ({
            let (after, event) = pool.release(conn_id);
            &&& after.peers == pool.peers
            &&& after.unused == pool.unused
            &&& event matches Some(event) ==> event == conn_id && after.unused_event(event, now)
                == after
        }),
{
}

/// Using a connection that nothing used, and dropping the reference again, leaves
/// the pool as it was, but for the idle time, which starts anew.
pub proof fn use_restarts_the_idle_timeout<C, W>(
    pool: PoolModel<C, W>,
    id: EndpointId,
    waiter: W,
    now: nat,
)
    requires
        pool.wf(),
        pool.is_ready(id),
        pool.references(id) == 0,
    ensures
        ({
            let conn_id = current(pool, id);
            let used = pool.request(id, waiter, false).0;
            let (dropped, event) = used.release(conn_id);
            &&& !used.unused.contains_key(conn_id)
            &&& event == Some(conn_id)
            &&& dropped.unused_event(conn_id, now) == (PoolModel {
                unused: pool.unused.insert(conn_id, now),
                ..pool
            })
        }),
{
}

/// A connection that is made when the pool has filled up with connections in use
/// is closed, and those who wait for it are refused.
pub proof fn connections_over_the_limit_are_refused<C, W>(
    pool: PoolModel<C, W>,
    conn_id: ConnId,
    connection: C,
    gone: Seq<bool>,
    now: nat,
)
    requires
        pool.wf(),
        pool.is_connecting(conn_id),
        pool.ready().len() == pool.max_connections,
        pool.unused == Map::<ConnId, nat>::empty(),
    ensures
        ({
            let (after, effects) = pool.connect_result(conn_id, Ok(connection), gone, now);
            &&& effects == seq![
                Effect::<C, W>::Close { connection, reason: CloseReason::TooManyConnections },
            ] + refuse_all(
                pool.peers[conn_id.peer]->waiters,
                PoolConnectError::TooManyConnections {  },
            )
            &&& after == (PoolModel { peers: pool.peers.remove(conn_id.peer), ..pool })
        }),
{
    forget_attempt_keeps_wf(pool, conn_id.peer);
}

/// An attempt that fails is forgotten, and each of those who wait for it gets the
/// error, in the order in which they asked. All else stays as it is.
pub proof fn failures_reach_all_who_wait<C, W>(
    pool: PoolModel<C, W>,
    conn_id: ConnId,
    error: PoolConnectError,
    gone: Seq<bool>,
    now: nat,
)
    requires
        pool.is_connecting(conn_id),
    ensures
        pool.connect_result(conn_id, Err(error), gone, now) == (
            PoolModel { peers: pool.peers.remove(conn_id.peer), ..pool },
            refuse_all::<C, W>(pool.peers[conn_id.peer]->waiters, error),
        ),
{
}

/// A connection that is made while the pool is not full, or holds one that nothing
/// uses, becomes the peer's current one. It is watched, and each of those who
/// still wait for it gets a reference to it.
pub proof fn connections_reach_all_who_wait<C, W>(
    pool: PoolModel<C, W>,
    conn_id: ConnId,
    connection: C,
    gone: Seq<bool>,
    now: nat,
)
    requires
        pool.wf(),
        pool.is_connecting(conn_id),
        pool.ready().len() < pool.max_connections || pool.unused != Map::<ConnId, nat>::empty(),
    ensures
        ({
            let waiters = pool.peers[conn_id.peer]->waiters;
            let (after, effects) = pool.connect_result(conn_id, Ok(connection), gone, now);
            &&& after.is_current(conn_id)
            &&& after.peers[conn_id.peer]->connection == connection
            &&& after.references(conn_id.peer) == open_waiters(waiters, gone).len()
            &&& after.references(conn_id.peer) == 0 ==> after.unused.contains_key(conn_id)
                && after.unused[conn_id] == now
            &&& effects.contains(Effect::Watch { conn_id, connection })
            &&& forall|i: int|
                0 <= i < waiters.len() && !(i < gone.len() && gone[i]) ==> effects.contains(
                    Effect::Grant { waiter: #[trigger] waiters[i], conn_id, connection },
                )
        }),
{
    let waiters = pool.peers[conn_id.peer]->waiters;
    let open = open_waiters(waiters, gone);
    let effects = pool.connect_result(conn_id, Ok(connection), gone, now).1;
    let rest = PoolModel { peers: pool.peers.remove(conn_id.peer), ..pool };
    forget_attempt_keeps_wf(pool, conn_id.peer);
    if pool.unused != Map::<ConnId, nat>::empty() {
        lemma_oldest_exists(pool.unused);
    }
    let evicted = rest.make_room().2;
    assert(effects.last() == Effect::<C, W>::Watch { conn_id, connection });
    assert forall|i: int|
        0 <= i < waiters.len() && !(i < gone.len() && gone[i]) implies effects.contains(
        Effect::Grant { waiter: #[trigger] waiters[i], conn_id, connection },
    ) by {
        lemma_open_waiters(waiters, gone, i);
        let j = choose|j: int| 0 <= j < open.len() && open[j] == waiters[i];
        assert(effects[evicted.len() + j] == Effect::<C, W>::Grant {
            waiter: waiters[i],
            conn_id,
            connection,
        });
    }
}

/// The references to the connection that are alive, whether the pool still has it
/// or not.
pub open spec fn alive<C, W>(pool: PoolModel<C, W>, conn_id: ConnId) -> nat {
    if pool.is_current(conn_id) {
        pool.references(conn_id.peer)
    } else if pool.detached.contains_key(conn_id) {
        pool.detached[conn_id]
    } else {
        0
    }
}

/// Whether the effect hands out a reference to the connection.
pub open spec fn grants<C, W>(effect: Effect<C, W>, conn_id: ConnId) -> bool {
    effect matches Effect::Grant { conn_id: granted, .. } && granted == conn_id
}

/// How many of the effects hand out a reference to the connection.
pub open spec fn granted<C, W>(effects: Seq<Effect<C, W>>, conn_id: ConnId) -> nat
    decreases effects.len(),
{
    if effects.len() == 0 {
        0
    } else {
        granted(effects.drop_last(), conn_id) + if grants(effects.last(), conn_id) {
            1nat
        } else {
            0
        }
    }
}

proof fn lemma_granted_concat<C, W>(
    first: Seq<Effect<C, W>>,
    second: Seq<Effect<C, W>>,
    conn_id: ConnId,
)
    ensures
        granted(first + second, conn_id) == granted(first, conn_id) + granted(second, conn_id),
    decreases second.len(),
{
    if second.len() > 0 {
        assert((first + second).drop_last() =~= first + second.drop_last());
        lemma_granted_concat(first, second.drop_last(), conn_id);
    }
}

proof fn lemma_granted_none<C, W>(effects: Seq<Effect<C, W>>, conn_id: ConnId)
    requires
        forall|i: int| 0 <= i < effects.len() ==> !grants(#[trigger] effects[i], conn_id),
    ensures
        granted(effects, conn_id) == 0,
    decreases effects.len(),
{
    if effects.len() > 0 {
        lemma_granted_none(effects.drop_last(), conn_id);
    }
}

proof fn lemma_granted_all<C, W>(
    waiters: Seq<W>,
    granting: ConnId,
    connection: C,
    conn_id: ConnId,
)
    ensures
        granted(grant_all(waiters, granting, connection), conn_id) == if granting == conn_id {
            waiters.len()
        } else {
            0
        },
    decreases waiters.len(),
{
    if waiters.len() > 0 {
        assert(grant_all(waiters, granting, connection).drop_last() =~= grant_all(
            waiters.drop_last(),
            granting,
            connection,
        ));
        lemma_granted_all(waiters.drop_last(), granting, connection, conn_id);
    }
}

proof fn lemma_give_up_counts<C, W>(
    pool: PoolModel<C, W>,
    id: EndpointId,
    error: PoolConnectError,
    conn_id: ConnId,
)
    requires
        pool.wf(),
    ensures
        alive(pool.give_up(id, error).0, conn_id) == alive(pool, conn_id),
        granted(pool.give_up(id, error).1, conn_id) == 0,
{
    lemma_granted_none(pool.give_up(id, error).1, conn_id);
}

proof fn lemma_make_room_counts<C, W>(pool: PoolModel<C, W>, conn_id: ConnId)
    requires
        pool.wf(),
    ensures
        alive(pool.make_room().1, conn_id) == alive(pool, conn_id),
        granted(pool.make_room().2, conn_id) == 0,
{
    if let Some(oldest) = oldest_of(pool.unused) {
        lemma_give_up_counts(pool, oldest.peer, PoolConnectError::Closed {  }, conn_id);
    }
}

proof fn lemma_dial_counts<C, W>(
    pool: PoolModel<C, W>,
    id: EndpointId,
    waiter: W,
    conn_id: ConnId,
)
    requires
        pool.wf(),
        !pool.peers.contains_key(id),
    ensures
        alive(pool.dial(id, waiter).0, conn_id) == alive(pool, conn_id),
        granted(pool.dial(id, waiter).1, conn_id) == 0,
{
    lemma_make_room_counts(pool, conn_id);
    let effects = pool.dial(id, waiter).1;
    assert(effects.drop_last() =~= pool.make_room().2);
}

proof fn lemma_request_counts<C, W>(
    pool: PoolModel<C, W>,
    id: EndpointId,
    waiter: W,
    closed: bool,
    conn_id: ConnId,
)
    requires
        pool.wf(),
    ensures
        alive(pool.request(id, waiter, closed).0, conn_id) == alive(pool, conn_id) + granted(
            pool.request(id, waiter, closed).1,
            conn_id,
        ),
{
    let effects = pool.request(id, waiter, closed).1;
    if pool.is_ready(id) && closed {
        give_up_keeps_wf(pool, id, PoolConnectError::Closed {  });
        let (cleared, first) = pool.remove_peer(id);
        lemma_give_up_counts(pool, id, PoolConnectError::Closed {  }, conn_id);
        lemma_dial_counts(cleared, id, waiter, conn_id);
        lemma_granted_concat(first, cleared.dial(id, waiter).1, conn_id);
    } else if !pool.peers.contains_key(id) {
        lemma_dial_counts(pool, id, waiter, conn_id);
    } else if pool.is_ready(id) {
        lemma_granted_none(effects.drop_last(), conn_id);
    }
}

proof fn lemma_connect_result_counts<C, W>(
    pool: PoolModel<C, W>,
    made: ConnId,
    result: Result<C, PoolConnectError>,
    gone: Seq<bool>,
    now: nat,
    conn_id: ConnId,
)
    requires
        pool.wf(),
    ensures
        alive(pool.connect_result(made, result, gone, now).0, conn_id) == alive(pool, conn_id)
            + granted(pool.connect_result(made, result, gone, now).1, conn_id),
{
    let effects = pool.connect_result(made, result, gone, now).1;
    if !pool.is_connecting(made) {
        lemma_granted_none(effects, conn_id);
    } else {
        forget_attempt_keeps_wf(pool, made.peer);
        let waiters = pool.peers[made.peer]->waiters;
        let rest = PoolModel { peers: pool.peers.remove(made.peer), ..pool };
        match result {
            Err(error) => {
                lemma_granted_none(effects, conn_id);
            },
            Ok(connection) => {
                lemma_make_room_counts(rest, conn_id);
                let (room, _, evicted) = rest.make_room();
                if room {
                    let open = open_waiters(waiters, gone);
                    let replies = grant_all(open, made, connection);
                    assert(effects.drop_last() =~= evicted + replies);
                    lemma_granted_concat(evicted, replies, conn_id);
                    lemma_granted_all(open, made, connection, conn_id);
                } else {
                    lemma_granted_none(effects, conn_id);
                }
            },
        }
    }
}

proof fn lemma_close_unused_counts<C, W>(pool: PoolModel<C, W>, now: nat, conn_id: ConnId)
    requires
        pool.wf(),
    ensures
        alive(pool.close_unused(now).0, conn_id) == alive(pool, conn_id),
        granted(pool.close_unused(now).1, conn_id) == 0,
{
    idle_timer_closes_what_is_overdue(pool, now);
    lemma_granted_none(pool.close_unused(now).1, conn_id);
}

/// References are counted exactly: an event adds as many to a connection as it
/// hands out. Closing a connection takes none away.
pub proof fn references_are_counted_when_handed_out<C, W>(
    pool: PoolModel<C, W>,
    event: Event<C, W>,
    closed: bool,
    gone: Seq<bool>,
    now: nat,
    conn_id: ConnId,
)
    requires
        pool.wf(),
        event matches Event::Message(msg) ==> pool.accepts(msg, closed),
    ensures
        alive(pool.step(event, closed, gone, now).0, conn_id) == alive(pool, conn_id) + granted(
            pool.step(event, closed, gone, now).1,
            conn_id,
        ),
{
    match event {
        Event::Unused { conn_id: unused } => {},
        Event::ConnectResult { conn_id: made, result } => {
            lemma_connect_result_counts(pool, made, result, gone, now, conn_id);
        },
        Event::ConnClosed { conn_id: ended } => {
            lemma_give_up_counts(pool, ended.peer, PoolConnectError::Closed {  }, conn_id);
        },
        Event::IdleTimer => {
            lemma_close_unused_counts(pool, now, conn_id);
        },
        Event::Message(ActorMessage::RequestRef(req)) => {
            lemma_request_counts(pool, req.id, req.waiter, closed, conn_id);
        },
        Event::Message(ActorMessage::ConnectionShutdown { id }) => {
            lemma_give_up_counts(pool, id, PoolConnectError::Closed {  }, conn_id);
        },
    }
}

/// Dropping a reference takes one away from its connection and from no other. The
/// unused event is due if and only if it was the last.
pub proof fn references_are_counted_when_dropped<C, W>(
    pool: PoolModel<C, W>,
    dropped: ConnId,
    conn_id: ConnId,
)
    requires
        pool.wf(),
        alive(pool, dropped) > 0,
    ensures
        alive(pool.release(dropped).0, conn_id) == if conn_id == dropped {
            (alive(pool, conn_id) - 1) as nat
        } else {
            alive(pool, conn_id)
        },
        pool.release(dropped).1 == if alive(pool, dropped) == 1 {
            Some(dropped)
        } else {
            None
        },
{
}

/// Whether every connection that nothing uses is known as such, or its unused
/// event is on its way.
pub open spec fn accounted<C, W>(pool: PoolModel<C, W>, pending: Set<ConnId>) -> bool {
    forall|conn_id: ConnId| #[trigger]
        pool.is_current(conn_id) && pool.references(conn_id.peer) == 0
            ==> pool.unused.contains_key(conn_id) || pending.contains(conn_id)
}

/// No connection that nothing uses is overlooked: as long as every unused event
/// that is due is handled some time, every such connection has its idle time
/// running or its event on the way.
pub proof fn no_idle_connection_is_overlooked<C, W>(
    pool: PoolModel<C, W>,
    pending: Set<ConnId>,
    event: Event<C, W>,
    closed: bool,
    gone: Seq<bool>,
    now: nat,
)
    requires
        pool.wf(),
        accounted(pool, pending),
        event matches Event::Message(msg) ==> pool.accepts(msg, closed),
    ensures
        accounted(
            pool.step(event, closed, gone, now).0,
            match event {
                Event::Unused { conn_id } => pending.remove(conn_id),
                _ => pending,
            },
        ),
{
    let after = pool.step(event, closed, gone, now).0;
    match event {
        Event::ConnectResult { conn_id: made, result } => {
            if pool.is_connecting(made) {
                forget_attempt_keeps_wf(pool, made.peer);
                let rest = PoolModel { peers: pool.peers.remove(made.peer), ..pool };
                assert forall|conn_id: ConnId| #[trigger]
                    rest.is_current(conn_id) implies pool.is_current(conn_id) by {}
                lemma_make_room_accounts(rest, pending);
                let cleared = rest.make_room().1;
                assert forall|conn_id: ConnId| #[trigger]
                    after.is_current(conn_id) && conn_id != made implies cleared.is_current(
                    conn_id,
                ) || rest.is_current(conn_id) by {}
            }
        },
        Event::IdleTimer => {
            idle_timer_closes_what_is_overdue(pool, now);
            assert forall|conn_id: ConnId| #[trigger]
                after.is_current(conn_id) && after.references(conn_id.peer)
                    == 0 implies after.unused.contains_key(conn_id) || pending.contains(
                conn_id,
            ) by {
                assert(pool.is_current(conn_id));
            }
        },
        Event::Message(ActorMessage::RequestRef(req)) => {
            if pool.is_ready(req.id) && closed {
                give_up_keeps_wf(pool, req.id, PoolConnectError::Closed {  });
                let cleared = pool.remove_peer(req.id).0;
                assert forall|conn_id: ConnId| #[trigger]
                    cleared.is_current(conn_id) implies pool.is_current(conn_id) by {}
                assert forall|conn_id: ConnId| #[trigger]
                    after.is_current(conn_id) implies cleared.make_room().1.is_current(
                    conn_id,
                ) by {}
            } else if !pool.peers.contains_key(req.id) {
                lemma_make_room_accounts(pool, pending);
                assert forall|conn_id: ConnId| #[trigger]
                    after.is_current(conn_id) implies pool.make_room().1.is_current(conn_id) by {}
            } else {
                assert forall|conn_id: ConnId| #[trigger]
                    after.is_current(conn_id) implies pool.is_current(conn_id) by {}
            }
        },
        _ => {
            assert forall|conn_id: ConnId| #[trigger]
                after.is_current(conn_id) implies pool.is_current(conn_id) by {}
        },
    }
}

proof fn lemma_make_room_accounts<C, W>(pool: PoolModel<C, W>, pending: Set<ConnId>)
    requires
        pool.wf(),
        accounted(pool, pending),
    ensures
        accounted(pool.make_room().1, pending),
{
    assert forall|conn_id: ConnId| #[trigger]
        pool.make_room().1.is_current(conn_id) implies pool.is_current(conn_id) by {}
}

/// Dropping the last reference to a connection that the pool has puts its unused
/// event on the way.
pub proof fn dropping_accounts_for_the_connection<C, W>(
    pool: PoolModel<C, W>,
    pending: Set<ConnId>,
    dropped: ConnId,
)
    requires
        pool.wf(),
        accounted(pool, pending),
    ensures
        accounted(
            pool.release(dropped).0,
            match pool.release(dropped).1 {
                Some(event) => pending.insert(event),
                None => pending,
            },
        ),
{
    assert forall|conn_id: ConnId| #[trigger]
        pool.release(dropped).0.is_current(conn_id) implies pool.is_current(conn_id) by {}
}

/// Attempts do not share an id: one that is started gets a generation that no
/// connection or attempt in the pool has had, and the next one gets another.
pub proof fn attempts_do_not_share_an_id<C, W>(
    pool: PoolModel<C, W>,
    event: Event<C, W>,
    closed: bool,
    gone: Seq<bool>,
    now: nat,
    conn_id: ConnId,
)
    requires
        pool.wf(),
        event matches Event::Message(msg) ==> pool.accepts(msg, closed),
    ensures
        ({
            let (after, effects) = pool.step(event, closed, gone, now);
            let started = effects.contains(Effect::Connect { conn_id });
            &&& started ==> {
                &&& conn_id.generation == pool.next_generation
                &&& after.next_generation.0 == pool.next_generation.0 + 1
                &&& after.is_connecting(conn_id)
                &&& !pool.is_current(conn_id)
                &&& !pool.is_connecting(conn_id)
                &&& !pool.detached.contains_key(conn_id)
            }
            &&& after.next_generation.0 >= pool.next_generation.0
        }),
{
    let (after, effects) = pool.step(event, closed, gone, now);
    let start = Effect::<C, W>::Connect { conn_id };
    match event {
        Event::ConnectResult { conn_id: made, result } => {
            if pool.is_connecting(made) {
                forget_attempt_keeps_wf(pool, made.peer);
            }
            assert forall|i: int| 0 <= i < effects.len() implies effects[i] != start by {}
        },
        Event::IdleTimer => {
            idle_timer_closes_what_is_overdue(pool, now);
            assert forall|i: int| 0 <= i < effects.len() implies effects[i] != start by {
                assert(closes_overdue(pool, effects[i], now));
            }
        },
        Event::Message(ActorMessage::RequestRef(req)) => {
            if effects.contains(start) {
                let i = choose|i: int| 0 <= i < effects.len() && effects[i] == start;
                assert(effects[i] == start);
                give_up_keeps_wf(pool, req.id, PoolConnectError::Closed {  });
            }
        },
        _ => {
            assert forall|i: int| 0 <= i < effects.len() implies effects[i] != start by {}
        },
    }
}

/// Whether the effect is an answer for the waiter.
pub open spec fn answers<C, W>(effect: Effect<C, W>, waiter: W) -> bool {
    match effect {
        Effect::Grant { waiter: answered, .. } => answered == waiter,
        Effect::Refuse { waiter: answered, .. } => answered == waiter,
        _ => false,
    }
}

/// Whether one of the effects is an answer for the waiter.
pub open spec fn answered<C, W>(effects: Seq<Effect<C, W>>, waiter: W) -> bool {
    exists|i: int| 0 <= i < effects.len() && answers(#[trigger] effects[i], waiter)
}

proof fn lemma_refuse_all_answers<C, W>(
    before: Seq<Effect<C, W>>,
    waiters: Seq<W>,
    error: PoolConnectError,
    i: int,
)
    requires
        0 <= i < waiters.len(),
    ensures
        answered(before + refuse_all(waiters, error), waiters[i]),
{
    let effects = before + refuse_all(waiters, error);
    assert(answers(effects[before.len() + i], waiters[i]));
}

proof fn lemma_open_waiters<W>(waiters: Seq<W>, gone: Seq<bool>, i: int)
    requires
        0 <= i < waiters.len(),
        !(i < gone.len() && gone[i]),
    ensures
        open_waiters(waiters, gone).contains(waiters[i]),
    decreases waiters.len(),
{
    let open = open_waiters(waiters, gone);
    let rest = open_waiters(waiters.drop_last(), gone);
    if i == waiters.len() - 1 {
        assert(open.last() == waiters[i]);
    } else {
        lemma_open_waiters(waiters.drop_last(), gone, i);
        let j = choose|j: int| 0 <= j < rest.len() && rest[j] == waiters[i];
        assert(open[j] == waiters[i]);
    }
}

/// Whether the `i`-th of those who wait for a connection to the peer still waits
/// in `after`, for the same attempt as in `pool`.
pub open spec fn still_waits<C, W>(
    pool: PoolModel<C, W>,
    after: PoolModel<C, W>,
    id: EndpointId,
    i: int,
) -> bool {
    &&& after.peers.contains_key(id)
    &&& after.peers[id] is Connecting
    &&& after.peers[id].generation() == pool.peers[id].generation()
    &&& i < after.peers[id]->waiters.len()
    &&& after.peers[id]->waiters[i] == pool.peers[id]->waiters[i]
}

/// Nobody who waits is forgotten: after an event, each of those who waited either
/// still waits, or gets an answer, or no longer wanted one when the attempt ended.
pub proof fn nobody_who_waits_is_forgotten<C, W>(
    pool: PoolModel<C, W>,
    event: Event<C, W>,
    closed: bool,
    gone: Seq<bool>,
    now: nat,
    id: EndpointId,
    i: int,
)
    requires
        pool.wf(),
        event matches Event::Message(msg) ==> pool.accepts(msg, closed),
        pool.peers.contains_key(id),
        pool.peers[id] is Connecting,
        0 <= i < pool.peers[id]->waiters.len(),
    ensures
        ({
            let (after, effects) = pool.step(event, closed, gone, now);
            let ended = event matches Event::ConnectResult { conn_id, .. } && conn_id.peer == id
                && pool.is_connecting(conn_id);
            ||| !ended && still_waits(pool, after, id, i)
            ||| answered(effects, pool.peers[id]->waiters[i])
            ||| ended && i < gone.len() && gone[i]
        }),
{
    let (after, effects) = pool.step(event, closed, gone, now);
    let waiters = pool.peers[id]->waiters;
    let none = Seq::<Effect<C, W>>::empty();
    match event {
        Event::ConnectResult { conn_id, result } => {
            if pool.is_connecting(conn_id) {
                let rest = PoolModel { peers: pool.peers.remove(conn_id.peer), ..pool };
                let (room, _, evicted) = rest.make_room();
                if conn_id.peer == id {
                    match result {
                        Err(error) => {
                            lemma_refuse_all_answers(none, waiters, error, i);
                        },
                        Ok(connection) => {
                            if !room {
                                lemma_refuse_all_answers(
                                    evicted.push(
                                        Effect::Close {
                                            connection,
                                            reason: CloseReason::TooManyConnections,
                                        },
                                    ),
                                    waiters,
                                    PoolConnectError::TooManyConnections {  },
                                    i,
                                );
                            } else if !(i < gone.len() && gone[i]) {
                                lemma_open_waiters(waiters, gone, i);
                                let open = open_waiters(waiters, gone);
                                let j = choose|j: int|
                                    0 <= j < open.len() && open[j] == waiters[i];
                                assert(answers(effects[evicted.len() + j], waiters[i]));
                            }
                        },
                    }
                }
            }
        },
        Event::IdleTimer => {
            idle_timer_closes_what_is_overdue(pool, now);
            assert(after.peers.contains_key(id));
        },
        Event::Message(ActorMessage::ConnectionShutdown { id: given_up }) => {
            if given_up == id {
                lemma_refuse_all_answers(none, waiters, PoolConnectError::Closed {  }, i);
            }
        },
        _ => {},
    }
}

/// A request is answered, or waits for the attempt that its peer is being
/// connected with.
pub proof fn a_request_is_answered_or_waits<C, W>(
    pool: PoolModel<C, W>,
    id: EndpointId,
    waiter: W,
    closed: bool,
)
    requires
        pool.wf(),
    ensures
        ({
            let (after, effects) = pool.request(id, waiter, closed);
            ||| answered(effects, waiter)
            ||| after.peers.contains_key(id) && after.peers[id] is Connecting
                && after.peers[id]->waiters.len() > 0 && after.peers[id]->waiters.last() == waiter
        }),
{
    let (after, effects) = pool.request(id, waiter, closed);
    if effects.len() > 0 {
        assert(answers(effects.last(), waiter) || after.peers.contains_key(id));
    }
}

/// The end of the pool leaves it well formed and without peers.
pub proof fn the_end_keeps_wf<C, W>(pool: PoolModel<C, W>)
    requires
        pool.wf(),
    ensures
        pool.ended().wf(),
        pool.ended().peers == Map::<EndpointId, PeerModel<C, W>>::empty(),
{
    assert(pool.ended().ready() =~= Set::empty());
}

/// The end of the pool takes no references away: they can still be dropped.
pub proof fn references_outlive_the_pool<C, W>(pool: PoolModel<C, W>, conn_id: ConnId)
    requires
        pool.wf(),
    ensures
        alive(pool.ended(), conn_id) == alive(pool, conn_id),
{
}

/// The end of the pool leaves nobody waiting and no connection open: those who
/// wait learn that it is shut down, and connections are closed.
pub proof fn the_end_answers_everyone<C, W>(
    pool: PoolModel<C, W>,
    ids: Seq<EndpointId>,
    id: EndpointId,
)
    requires
        ids.contains(id),
        pool.peers.contains_key(id),
    ensures
        match pool.peers[id] {
            PeerModel::Connecting { waiters, .. } => forall|i: int|
                0 <= i < waiters.len() ==> pool.farewells(ids).contains(
                    Effect::Refuse {
                        waiter: #[trigger] waiters[i],
                        error: PoolConnectError::Shutdown {  },
                    },
                ),
            PeerModel::Ready { connection, count, .. } => pool.farewells(ids).contains(
                Effect::Close { connection, reason: close_reason(count) },
            ),
        },
    decreases ids.len(),
{
    let all = pool.farewells(ids);
    let rest = pool.farewells(ids.drop_last());
    let last = pool.give_up(ids.last(), PoolConnectError::Shutdown {  }).1;
    if ids.last() == id {
        match pool.peers[id] {
            PeerModel::Connecting { waiters, .. } => {
                assert forall|i: int| 0 <= i < waiters.len() implies all.contains(
                    Effect::Refuse {
                        waiter: #[trigger] waiters[i],
                        error: PoolConnectError::Shutdown {  },
                    },
                ) by {
                    assert(all[rest.len() + i] == last[i]);
                }
            },
            PeerModel::Ready { .. } => {
                assert(all[rest.len() as int] == last[0]);
            },
        }
    } else {
        let j = choose|j: int| 0 <= j < ids.len() && ids[j] == id;
        assert(ids.drop_last()[j] == id);
        the_end_answers_everyone(pool, ids.drop_last(), id);
        assert forall|effect: Effect<C, W>| rest.contains(effect) implies all.contains(effect) by {
            let k = choose|k: int| 0 <= k < rest.len() && rest[k] == effect;
            assert(all[k] == effect);
        }
    }
}

} // verus!
