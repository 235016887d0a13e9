//! What each event does to the pool and leads to, case by case.
//!
//! The cases of an event cover all that a pool can be like when it arrives, and each
//! says all of what becomes of the pool and all that is to be done, in order.

use crate::action::{CloseReason, Effect};
use crate::actor::asked;
use crate::error::PoolConnectError;
use crate::event::{ActorMessage, Event, RequestRef};
use crate::ids::{ConnId, EndpointId, Generation};
use crate::laws::connections_reach_all_who_wait;
use crate::model::{grant_all, open_waiters, refuse_all, PeerModel, PoolModel};
use crate::unused::{is_oldest, lemma_oldest_exists, lemma_oldest_is_unique};
use crate::upkeep::{forget_attempt_keeps_wf, give_up_keeps_wf};
use vstd::prelude::*;

verus! {

/// A new pool goes by the limit and the idle timeout that it was given, and knows of
/// no peer.
pub proof fn a_new_pool_goes_by_its_options<C, W>(max_connections: nat, idle_timeout: nat)
    ensures
        ({
            let pool = PoolModel::<C, W>::init(max_connections, idle_timeout);
            &&& pool.max_connections == max_connections
            &&& pool.idle_timeout == idle_timeout
            &&& pool.peers == Map::<EndpointId, PeerModel<C, W>>::empty()
            &&& pool.unused == Map::<ConnId, nat>::empty()
            &&& pool.detached == Map::<ConnId, nat>::empty()
            &&& pool.next_generation.0 == 0
        }),
{
}

/// A request for a peer that the pool has a live connection to gets one more
/// reference to it. The connection no longer counts as unused, if it did.
pub proof fn a_request_gets_the_live_connection<C, W>(
    pool: PoolModel<C, W>,
    id: EndpointId,
    waiter: W,
    generation: Generation,
    connection: C,
    count: nat,
)
    requires
        pool.peers.contains_key(id),
        pool.peers[id] == (PeerModel::<C, W>::Ready { generation, connection, count }),
    ensures
        pool.request(id, waiter, false) == (
            PoolModel {
                peers: pool.peers.insert(
                    id,
                    PeerModel::Ready { generation, connection, count: count + 1 },
                ),
                unused: pool.unused.remove(ConnId { peer: id, generation }),
                ..pool
            },
            seq![
                Effect::<C, W>::Grant {
                    waiter,
                    conn_id: ConnId { peer: id, generation },
                    connection,
                },
            ],
        ),
{
}

/// A request for a peer that the pool has a connection to which has ended gives up
/// that connection, whoever still refers to it, and starts a new attempt.
pub proof fn a_request_replaces_the_ended_connection<C, W>(
    pool: PoolModel<C, W>,
    id: EndpointId,
    waiter: W,
    generation: Generation,
    connection: C,
    count: nat,
)
    requires
        pool.wf(),
        pool.next_generation.0 < u64::MAX,
        pool.peers.contains_key(id),
        pool.peers[id] == (PeerModel::<C, W>::Ready { generation, connection, count }),
    ensures
        ({
            let ended = ConnId { peer: id, generation };
            let next = pool.next_generation;
            let (after, effects) = pool.request(id, waiter, true);
            &&& effects == seq![
                Effect::<C, W>::Close {
                    connection,
                    reason: if count == 0 {
                        CloseReason::Unused
                    } else {
                        CloseReason::Drop
                    },
                },
                Effect::Connect { conn_id: ConnId { peer: id, generation: next } },
            ]
            &&& after.peers == pool.peers.insert(
                id,
                PeerModel::Connecting { generation: next, waiters: seq![waiter] },
            )
            &&& after.unused == pool.unused.remove(ended)
            &&& after.detached == if count == 0 {
                pool.detached
            } else {
                pool.detached.insert(ended, count)
            }
            &&& after.next_generation.0 == next.0 + 1
            &&& after.max_connections == pool.max_connections
            &&& after.idle_timeout == pool.idle_timeout
        }),
{
    give_up_keeps_wf(pool, id, PoolConnectError::Closed {  });
    let after = pool.request(id, waiter, true).0;
    assert(after.peers =~= pool.peers.insert(
        id,
        PeerModel::Connecting { generation: pool.next_generation, waiters: seq![waiter] },
    ));
}

/// A request for a peer that the pool is connecting to waits behind those who asked
/// before.
pub proof fn a_request_joins_the_attempt<C, W>(
    pool: PoolModel<C, W>,
    id: EndpointId,
    waiter: W,
    closed: bool,
    generation: Generation,
    waiters: Seq<W>,
)
    requires
        pool.peers.contains_key(id),
        pool.peers[id] == (PeerModel::<C, W>::Connecting { generation, waiters }),
    ensures
        pool.request(id, waiter, closed) == (
            PoolModel {
                peers: pool.peers.insert(
                    id,
                    PeerModel::Connecting { generation, waiters: waiters.push(waiter) },
                ),
                ..pool
            },
            Seq::<Effect<C, W>>::empty(),
        ),
{
}

/// A request for a peer that the pool does not know starts an attempt if the pool
/// holds fewer connections than it may.
pub proof fn a_request_starts_an_attempt<C, W>(
    pool: PoolModel<C, W>,
    id: EndpointId,
    waiter: W,
    closed: bool,
)
    requires
        pool.next_generation.0 < u64::MAX,
        !pool.peers.contains_key(id),
        pool.ready().len() < pool.max_connections,
    ensures
        ({
            let next = pool.next_generation;
            let (after, effects) = pool.request(id, waiter, closed);
            &&& effects == seq![
                Effect::<C, W>::Connect { conn_id: ConnId { peer: id, generation: next } },
            ]
            &&& after.next_generation.0 == next.0 + 1
            &&& after == (PoolModel {
                peers: pool.peers.insert(
                    id,
                    PeerModel::Connecting { generation: next, waiters: seq![waiter] },
                ),
                next_generation: after.next_generation,
                ..pool
            })
        }),
{
}

/// A request for a peer that the pool does not know gives up the connection that has
/// been unused longest, and no other, if the pool holds as many as it may.
pub proof fn a_request_evicts_the_oldest<C, W>(
    pool: PoolModel<C, W>,
    id: EndpointId,
    waiter: W,
    closed: bool,
    oldest: ConnId,
)
    requires
        pool.wf(),
        pool.next_generation.0 < u64::MAX,
        !pool.peers.contains_key(id),
        pool.ready().len() >= pool.max_connections,
        is_oldest(pool.unused, oldest),
    ensures
        ({
            let next = pool.next_generation;
            let (after, effects) = pool.request(id, waiter, closed);
            &&& pool.peers[oldest.peer] matches PeerModel::Ready { generation, connection, count }
            &&& generation == oldest.generation
            &&& count == 0
            &&& effects == seq![
                Effect::<C, W>::Close { connection, reason: CloseReason::Unused },
                Effect::Connect { conn_id: ConnId { peer: id, generation: next } },
            ]
            &&& after.next_generation.0 == next.0 + 1
            &&& after == (PoolModel {
                peers: pool.peers.remove(oldest.peer).insert(
                    id,
                    PeerModel::Connecting { generation: next, waiters: seq![waiter] },
                ),
                unused: pool.unused.remove(oldest),
                next_generation: after.next_generation,
                ..pool
            })
        }),
{
    lemma_oldest_is_unique(pool.unused, oldest);
    assert(pool.unused.contains_key(oldest));
}

/// A request for a peer that the pool does not know is refused if the pool holds as
/// many connections as it may and none of them is unused. Nothing changes.
pub proof fn a_request_is_refused<C, W>(
    pool: PoolModel<C, W>,
    id: EndpointId,
    waiter: W,
    closed: bool,
)
    requires
        !pool.peers.contains_key(id),
        pool.ready().len() >= pool.max_connections,
        pool.unused == Map::<ConnId, nat>::empty(),
    ensures
        pool.request(id, waiter, closed) == (
            pool,
            seq![
                Effect::<C, W>::Refuse { waiter, error: PoolConnectError::TooManyConnections {  } },
            ],
        ),
{
}

/// Where whoever runs the pool can only say that the connection to a peer has ended,
/// a request for the peer does not get that connection, whoever still refers to it.
/// It is closed, and the request waits for a new attempt.
pub proof fn an_ended_connection_is_never_handed_out<C, W, F: Fn(&C) -> bool, G: Fn(&W) -> bool>(
    pool: PoolModel<C, W>,
    req: RequestRef<W>,
    has_closed: F,
    is_closed: G,
    closed: bool,
    gone: Seq<bool>,
    now: nat,
    generation: Generation,
    connection: C,
    count: nat,
)
    requires
        pool.wf(),
        pool.peers.contains_key(req.id),
        pool.peers[req.id] == (PeerModel::<C, W>::Ready { generation, connection, count }),
        asked(
            pool,
            Event::Message(ActorMessage::RequestRef(req)),
            has_closed,
            is_closed,
            closed,
            gone,
        ),
        forall|answer: bool| call_ensures(has_closed, (&connection,), answer) ==> answer,
    ensures
        ({
            let next = ConnId { peer: req.id, generation: pool.next_generation };
            let (after, effects) = pool.step(
                Event::Message(ActorMessage::RequestRef(req)),
                closed,
                gone,
                now,
            );
            &&& effects.len() == 2
            &&& effects[0] matches Effect::Close { connection: ended, .. }
            &&& ended == connection
            &&& effects[1] == (Effect::<C, W>::Connect { conn_id: next })
            &&& after.peers[req.id] == (PeerModel::<C, W>::Connecting {
                generation: next.generation,
                waiters: seq![req.waiter],
            })
        }),
{
    give_up_keeps_wf(pool, req.id, PoolConnectError::Closed {  });
    assert(closed);
}

/// Where whoever runs the pool can only say that the connection to a peer is live, a
/// request for the peer gets a reference to that very connection.
pub proof fn a_live_connection_is_always_handed_out<C, W, F: Fn(&C) -> bool, G: Fn(&W) -> bool>(
    pool: PoolModel<C, W>,
    req: RequestRef<W>,
    has_closed: F,
    is_closed: G,
    closed: bool,
    gone: Seq<bool>,
    now: nat,
    generation: Generation,
    connection: C,
    count: nat,
)
    requires
        pool.peers.contains_key(req.id),
        pool.peers[req.id] == (PeerModel::<C, W>::Ready { generation, connection, count }),
        asked(
            pool,
            Event::Message(ActorMessage::RequestRef(req)),
            has_closed,
            is_closed,
            closed,
            gone,
        ),
        forall|answer: bool| call_ensures(has_closed, (&connection,), answer) ==> !answer,
    ensures
        pool.step(Event::Message(ActorMessage::RequestRef(req)), closed, gone, now).1 == seq![
            Effect::<C, W>::Grant {
                waiter: req.waiter,
                conn_id: ConnId { peer: req.id, generation },
                connection,
            },
        ],
{
    assert(!closed);
}

/// Whoever waits for an attempt, and of whom it can only be said that an answer is
/// still wanted, gets a reference to the connection that the attempt makes, whatever
/// is said of the others, unless the pool is full of connections in use.
pub proof fn whoever_still_waits_is_served<C, W, F: Fn(&C) -> bool, G: Fn(&W) -> bool>(
    pool: PoolModel<C, W>,
    conn_id: ConnId,
    connection: C,
    has_closed: F,
    is_closed: G,
    closed: bool,
    gone: Seq<bool>,
    now: nat,
    waiters: Seq<W>,
    i: int,
)
    requires
        pool.wf(),
        pool.peers.contains_key(conn_id.peer),
        pool.peers[conn_id.peer] == (PeerModel::<C, W>::Connecting {
            generation: conn_id.generation,
            waiters,
        }),
        pool.ready().len() < pool.max_connections || pool.unused != Map::<ConnId, nat>::empty(),
        asked(
            pool,
            Event::ConnectResult { conn_id, result: Ok(connection) },
            has_closed,
            is_closed,
            closed,
            gone,
        ),
        0 <= i < waiters.len(),
        forall|answer: bool| call_ensures(is_closed, (&waiters[i],), answer) ==> !answer,
    ensures
        pool.step(
            Event::ConnectResult { conn_id, result: Ok(connection) },
            closed,
            gone,
            now,
        ).1.contains(Effect::Grant { waiter: waiters[i], conn_id, connection }),
{
    assert(call_ensures(is_closed, (&waiters[i],), gone[i]));
    connections_reach_all_who_wait(pool, conn_id, connection, gone, now);
}

/// The end of an attempt that the pool no longer makes changes nothing. A connection
/// that it made is closed.
pub proof fn a_late_result_is_discarded<C, W>(
    pool: PoolModel<C, W>,
    conn_id: ConnId,
    connection: C,
    error: PoolConnectError,
    gone: Seq<bool>,
    now: nat,
)
    requires
        pool.peers.contains_key(conn_id.peer) ==> match pool.peers[conn_id.peer] {
            PeerModel::Connecting { generation, .. } => generation != conn_id.generation,
            PeerModel::Ready { .. } => true,
        },
    ensures
        pool.connect_result(conn_id, Ok(connection), gone, now) == (
            pool,
            seq![Effect::<C, W>::Close { connection, reason: CloseReason::Discarded }],
        ),
        pool.connect_result(conn_id, Err(error), gone, now) == (
            pool,
            Seq::<Effect<C, W>>::empty(),
        ),
{
}

/// An attempt that fails is forgotten, and all who wait for it get its error.
pub proof fn a_failure_is_passed_on<C, W>(
    pool: PoolModel<C, W>,
    conn_id: ConnId,
    error: PoolConnectError,
    gone: Seq<bool>,
    now: nat,
    waiters: Seq<W>,
)
    requires
        pool.peers.contains_key(conn_id.peer),
        pool.peers[conn_id.peer] == (PeerModel::<C, W>::Connecting {
            generation: conn_id.generation,
            waiters,
        }),
    ensures
        pool.connect_result(conn_id, Err(error), gone, now) == (
            PoolModel { peers: pool.peers.remove(conn_id.peer), ..pool },
            refuse_all::<C, W>(waiters, error),
        ),
{
}

/// A connection that is made while the pool holds fewer than it may is taken in, and
/// no other is closed. It counts as unused if nobody wants it any more.
pub proof fn a_connection_is_taken_in<C, W>(
    pool: PoolModel<C, W>,
    conn_id: ConnId,
    connection: C,
    gone: Seq<bool>,
    now: nat,
    waiters: Seq<W>,
)
    requires
        pool.wf(),
        pool.peers.contains_key(conn_id.peer),
        pool.peers[conn_id.peer] == (PeerModel::<C, W>::Connecting {
            generation: conn_id.generation,
            waiters,
        }),
        pool.ready().len() < pool.max_connections,
    ensures
        ({
            let open = open_waiters(waiters, gone);
            let (after, effects) = pool.connect_result(conn_id, Ok(connection), gone, now);
            &&& effects == grant_all(open, conn_id, connection).push(
                Effect::<C, W>::Watch { conn_id, connection },
            )
            &&& after == (PoolModel {
                peers: pool.peers.insert(
                    conn_id.peer,
                    PeerModel::Ready {
                        generation: conn_id.generation,
                        connection,
                        count: open.len(),
                    },
                ),
                unused: if open.len() == 0 {
                    pool.unused.insert(conn_id, now)
                } else {
                    pool.unused
                },
                ..pool
            })
        }),
{
    let (after, effects) = pool.connect_result(conn_id, Ok(connection), gone, now);
    let open = open_waiters(waiters, gone);
    forget_attempt_keeps_wf(pool, conn_id.peer);
    assert(effects =~= grant_all(open, conn_id, connection).push(
        Effect::<C, W>::Watch { conn_id, connection },
    ));
    assert(after.peers =~= pool.peers.insert(
        conn_id.peer,
        PeerModel::Ready { generation: conn_id.generation, connection, count: open.len() },
    ));
}

/// A connection that is made while the pool holds as many as it may is taken in in
/// place of the one that has been unused longest. No other is closed.
pub proof fn a_connection_takes_the_place_of_the_oldest<C, W>(
    pool: PoolModel<C, W>,
    conn_id: ConnId,
    made: C,
    gone: Seq<bool>,
    now: nat,
    waiters: Seq<W>,
    oldest: ConnId,
)
    requires
        pool.wf(),
        pool.peers.contains_key(conn_id.peer),
        pool.peers[conn_id.peer] == (PeerModel::<C, W>::Connecting {
            generation: conn_id.generation,
            waiters,
        }),
        pool.ready().len() >= pool.max_connections,
        is_oldest(pool.unused, oldest),
    ensures
        ({
            let open = open_waiters(waiters, gone);
            let (after, effects) = pool.connect_result(conn_id, Ok(made), gone, now);
            &&& pool.peers[oldest.peer] matches PeerModel::Ready { generation, connection, count }
            &&& generation == oldest.generation
            &&& count == 0
            &&& oldest.peer != conn_id.peer
            &&& effects == seq![Effect::<C, W>::Close { connection, reason: CloseReason::Unused }]
                + grant_all(open, conn_id, made).push(
                Effect::<C, W>::Watch { conn_id, connection: made },
            )
            &&& after == (PoolModel {
                peers: pool.peers.remove(oldest.peer).insert(
                    conn_id.peer,
                    PeerModel::Ready {
                        generation: conn_id.generation,
                        connection: made,
                        count: open.len(),
                    },
                ),
                unused: if open.len() == 0 {
                    pool.unused.remove(oldest).insert(conn_id, now)
                } else {
                    pool.unused.remove(oldest)
                },
                ..pool
            })
        }),
{
    let (after, effects) = pool.connect_result(conn_id, Ok(made), gone, now);
    let open = open_waiters(waiters, gone);
    forget_attempt_keeps_wf(pool, conn_id.peer);
    lemma_oldest_is_unique(pool.unused, oldest);
    assert(pool.unused.contains_key(oldest));
    let evicted = pool.peers[oldest.peer]->connection;
    assert(effects =~= seq![
        Effect::<C, W>::Close { connection: evicted, reason: CloseReason::Unused },
    ] + grant_all(open, conn_id, made).push(
        Effect::<C, W>::Watch { conn_id, connection: made },
    ));
    assert(after.peers =~= pool.peers.remove(oldest.peer).insert(
        conn_id.peer,
        PeerModel::Ready { generation: conn_id.generation, connection: made, count: open.len() },
    ));
}

/// A connection that is made while the pool holds as many as it may, and none of them
/// is unused, is closed, and all who wait for it are refused.
pub proof fn a_connection_too_many_is_closed<C, W>(
    pool: PoolModel<C, W>,
    conn_id: ConnId,
    connection: C,
    gone: Seq<bool>,
    now: nat,
    waiters: Seq<W>,
)
    requires
        pool.wf(),
        pool.peers.contains_key(conn_id.peer),
        pool.peers[conn_id.peer] == (PeerModel::<C, W>::Connecting {
            generation: conn_id.generation,
            waiters,
        }),
        pool.ready().len() >= pool.max_connections,
        pool.unused == Map::<ConnId, nat>::empty(),
    ensures
        pool.connect_result(conn_id, Ok(connection), gone, now) == (
            PoolModel { peers: pool.peers.remove(conn_id.peer), ..pool },
            seq![Effect::<C, W>::Close { connection, reason: CloseReason::TooManyConnections }]
                + refuse_all(waiters, PoolConnectError::TooManyConnections {  }),
        ),
{
    let effects = pool.connect_result(conn_id, Ok(connection), gone, now).1;
    forget_attempt_keeps_wf(pool, conn_id.peer);
    assert(effects =~= seq![
        Effect::<C, W>::Close { connection, reason: CloseReason::TooManyConnections },
    ] + refuse_all(waiters, PoolConnectError::TooManyConnections {  }));
}

/// The connection that the pool has to a peer is given up when it ends, or when the
/// peer is to be closed, whoever still refers to it. References to it are kept in
/// mind.
pub proof fn a_connection_that_ends_is_given_up<C, W>(
    pool: PoolModel<C, W>,
    conn_id: ConnId,
    connection: C,
    count: nat,
    closed: bool,
)
    requires
        pool.peers.contains_key(conn_id.peer),
        pool.peers[conn_id.peer] == (PeerModel::<C, W>::Ready {
            generation: conn_id.generation,
            connection,
            count,
        }),
    ensures
        ({
            let given_up = (
                PoolModel {
                    peers: pool.peers.remove(conn_id.peer),
                    unused: pool.unused.remove(conn_id),
                    detached: if count == 0 {
                        pool.detached
                    } else {
                        pool.detached.insert(conn_id, count)
                    },
                    ..pool
                },
                seq![
                    Effect::<C, W>::Close {
                        connection,
                        reason: if count == 0 {
                            CloseReason::Unused
                        } else {
                            CloseReason::Drop
                        },
                    },
                ],
            );
            &&& pool.conn_closed(conn_id) == given_up
            &&& pool.message(ActorMessage::ConnectionShutdown { id: conn_id.peer }, closed)
                == given_up
        }),
{
}

/// Once a connection has ended, the next request for its peer gets a new attempt and
/// not that connection, whoever still refers to it.
pub proof fn a_connection_that_ended_is_dialed_again<C, W>(
    pool: PoolModel<C, W>,
    conn_id: ConnId,
    waiter: W,
    closed: bool,
)
    requires
        pool.wf(),
        pool.is_current(conn_id),
    ensures
        pool.conn_closed(conn_id).0.request(conn_id.peer, waiter, closed).1 == seq![
            Effect::<C, W>::Connect {
                conn_id: ConnId { peer: conn_id.peer, generation: pool.next_generation },
            },
        ],
        pool.conn_closed(conn_id).0.ready() == pool.ready().remove(conn_id.peer),
{
    give_up_keeps_wf(pool, conn_id.peer, PoolConnectError::Closed {  });
}

/// An attempt is given up when its peer is to be closed, and all who wait for it
/// learn that.
pub proof fn an_attempt_is_given_up<C, W>(
    pool: PoolModel<C, W>,
    id: EndpointId,
    closed: bool,
    generation: Generation,
    waiters: Seq<W>,
)
    requires
        pool.peers.contains_key(id),
        pool.peers[id] == (PeerModel::<C, W>::Connecting { generation, waiters }),
    ensures
        pool.message(ActorMessage::ConnectionShutdown { id }, closed) == (
            PoolModel { peers: pool.peers.remove(id), ..pool },
            refuse_all::<C, W>(waiters, PoolConnectError::Closed {  }),
        ),
{
}

/// The end of a connection that is not the one that the pool has to its peer changes
/// nothing, and neither does closing a peer that the pool does not know.
pub proof fn what_is_not_there_is_not_given_up<C, W>(
    pool: PoolModel<C, W>,
    conn_id: ConnId,
    id: EndpointId,
    closed: bool,
)
    ensures
        (pool.peers.contains_key(conn_id.peer) ==> match pool.peers[conn_id.peer] {
            PeerModel::Connecting { .. } => true,
            PeerModel::Ready { generation, .. } => generation != conn_id.generation,
        }) ==> pool.conn_closed(conn_id) == (pool, Seq::<Effect<C, W>>::empty()),
        !pool.peers.contains_key(id) ==> pool.message(
            ActorMessage::ConnectionShutdown { id },
            closed,
        ) == (pool, Seq::<Effect<C, W>>::empty()),
{
}

/// An unused event starts the idle time of the connection that it names, if that is
/// the one that the pool has to its peer and it has no references. Else it changes
/// nothing.
pub proof fn an_unused_event_starts_the_idle_time<C, W>(
    pool: PoolModel<C, W>,
    conn_id: ConnId,
    now: nat,
)
    ensures
        pool.unused_event(conn_id, now) == if pool.peers.contains_key(conn_id.peer) && (
        pool.peers[conn_id.peer] matches PeerModel::Ready { generation, count, .. } && generation
            == conn_id.generation && count == 0) {
            PoolModel { unused: pool.unused.insert(conn_id, now), ..pool }
        } else {
            pool
        },
{
}

/// The idle timer does nothing while nothing has been unused for the idle timeout.
pub proof fn the_idle_timer_waits<C, W>(pool: PoolModel<C, W>, now: nat)
    requires
        pool.wf(),
        forall|conn_id: ConnId| #[trigger]
            pool.unused.contains_key(conn_id) ==> now < pool.unused[conn_id] + pool.idle_timeout,
    ensures
        pool.close_unused(now) == (pool, Seq::<Effect<C, W>>::empty()),
{
    if pool.unused != Map::<ConnId, nat>::empty() {
        lemma_oldest_exists(pool.unused);
    }
}

/// The idle timer closes the connection that has been unused longest if that is for
/// the idle timeout, and then goes on with the others.
pub proof fn the_idle_timer_closes_the_oldest_first<C, W>(
    pool: PoolModel<C, W>,
    now: nat,
    oldest: ConnId,
)
    requires
        pool.wf(),
        is_oldest(pool.unused, oldest),
        now >= pool.unused[oldest] + pool.idle_timeout,
    ensures
        ({
            let rest = PoolModel {
                peers: pool.peers.remove(oldest.peer),
                unused: pool.unused.remove(oldest),
                ..pool
            };
            &&& pool.peers[oldest.peer] matches PeerModel::Ready { generation, connection, count }
            &&& generation == oldest.generation
            &&& count == 0
            &&& rest.wf()
            &&& pool.close_unused(now).0 == rest.close_unused(now).0
            &&& pool.close_unused(now).1 == seq![
                Effect::<C, W>::Close { connection, reason: CloseReason::Unused },
            ] + rest.close_unused(now).1
        }),
{
    lemma_oldest_is_unique(pool.unused, oldest);
    assert(pool.unused.contains_key(oldest));
    give_up_keeps_wf(pool, oldest.peer, PoolConnectError::Closed {  });
}

/// Dropping a reference to a connection that the pool has counts it down. The event
/// is due with the last one. Nothing else changes.
pub proof fn a_dropped_reference_is_counted_down<C, W>(
    pool: PoolModel<C, W>,
    conn_id: ConnId,
    connection: C,
    count: nat,
)
    requires
        pool.peers.contains_key(conn_id.peer),
        pool.peers[conn_id.peer] == (PeerModel::<C, W>::Ready {
            generation: conn_id.generation,
            connection,
            count: count + 1,
        }),
    ensures
        pool.release(conn_id) == (
            PoolModel {
                peers: pool.peers.insert(
                    conn_id.peer,
                    PeerModel::Ready { generation: conn_id.generation, connection, count },
                ),
                ..pool
            },
            if count == 0 {
                Some(conn_id)
            } else {
                None
            },
        ),
{
}

/// Dropping a reference to a connection that the pool has given up counts it down as
/// well, until there is none left to keep in mind.
pub proof fn a_dropped_reference_to_the_past_is_counted_down<C, W>(
    pool: PoolModel<C, W>,
    conn_id: ConnId,
    count: nat,
)
    requires
        pool.wf(),
        pool.detached.contains_key(conn_id),
        pool.detached[conn_id] == count + 1,
    ensures
        pool.release(conn_id) == (
            PoolModel {
                detached: if count == 0 {
                    pool.detached.remove(conn_id)
                } else {
                    pool.detached.insert(conn_id, count)
                },
                ..pool
            },
            if count == 0 {
                Some(conn_id)
            } else {
                None
            },
        ),
{
}

/// Dropping what is not a reference to anything changes nothing.
pub proof fn only_references_are_counted_down<C, W>(pool: PoolModel<C, W>, conn_id: ConnId)
    requires
        pool.peers.contains_key(conn_id.peer) ==> match pool.peers[conn_id.peer] {
            PeerModel::Connecting { .. } => true,
            PeerModel::Ready { generation, count, .. } => generation != conn_id.generation || count
                == 0,
        },
        !pool.detached.contains_key(conn_id),
    ensures
        pool.release(conn_id) == (pool, None::<ConnId>),
{
}

/// A message or an event is handled as what it is.
pub proof fn events_are_handled_as_what_they_are<C, W>(
    pool: PoolModel<C, W>,
    req: RequestRef<W>,
    msg: ActorMessage<W>,
    conn_id: ConnId,
    result: Result<C, PoolConnectError>,
    closed: bool,
    gone: Seq<bool>,
    now: nat,
)
    ensures
        pool.message(ActorMessage::RequestRef(req), closed) == pool.request(
            req.id,
            req.waiter,
            closed,
        ),
        pool.step(Event::Message(msg), closed, gone, now) == pool.message(msg, closed),
        pool.step(Event::Unused { conn_id }, closed, gone, now) == (
            pool.unused_event(conn_id, now),
            Seq::<Effect<C, W>>::empty(),
        ),
        pool.step(Event::ConnectResult { conn_id, result }, closed, gone, now)
            == pool.connect_result(conn_id, result, gone, now),
        pool.step(Event::ConnClosed { conn_id }, closed, gone, now) == pool.conn_closed(conn_id),
        pool.step(Event::IdleTimer, closed, gone, now) == pool.close_unused(now),
{
}

/// A request is accepted if and only if there is a generation left for the attempt
/// that it starts, if it starts one, and room to count the reference that it gets, if
/// it gets one. A message to close a peer is always accepted.
pub proof fn what_can_be_counted_is_accepted<C, W>(
    pool: PoolModel<C, W>,
    req: RequestRef<W>,
    id: EndpointId,
    closed: bool,
)
    requires
        pool.wf(),
    ensures
        pool.accepts(ActorMessage::ConnectionShutdown { id }, closed),
        pool.accepts(ActorMessage::RequestRef(req), closed) == pool.can_count(req.id, closed),
        pool.can_count(req.id, closed) <==> if !pool.peers.contains_key(req.id) {
            pool.next_generation.0 < u64::MAX || (pool.ready().len() >= pool.max_connections
                && pool.unused == Map::<ConnId, nat>::empty())
        } else {
            match pool.peers[req.id] {
                PeerModel::Connecting { .. } => true,
                PeerModel::Ready { count, .. } => if closed {
                    pool.next_generation.0 < u64::MAX
                } else {
                    count < usize::MAX
                },
            }
        },
{
    if pool.unused != Map::<ConnId, nat>::empty() {
        lemma_oldest_exists(pool.unused);
    }
}

/// After the end, the pool knows of no peer. A reference that was alive before is
/// still kept in mind, and no other is.
pub proof fn the_end_leaves_only_references<C, W>(pool: PoolModel<C, W>, conn_id: ConnId)
    requires
        pool.wf(),
    ensures
        ({
            let after = pool.ended();
            let held = pool.peers.contains_key(conn_id.peer) && (
            pool.peers[conn_id.peer] matches PeerModel::Ready { generation, count, .. }
                && generation == conn_id.generation && count > 0);
            &&& after.peers == Map::<EndpointId, PeerModel<C, W>>::empty()
            &&& after.unused == Map::<ConnId, nat>::empty()
            &&& after.detached.contains_key(conn_id) <==> held || pool.detached.contains_key(
                conn_id,
            )
            &&& held ==> (pool.peers[conn_id.peer] matches PeerModel::Ready { count, .. }
                && after.detached[conn_id] == count)
            &&& pool.detached.contains_key(conn_id) ==> after.detached[conn_id]
                == pool.detached[conn_id]
            &&& after.max_connections == pool.max_connections
            &&& after.idle_timeout == pool.idle_timeout
            &&& after.next_generation == pool.next_generation
        }),
{
}

/// At the end, the peers are said farewell one after the other: those who wait for a
/// connection learn that the pool is shut down, and a connection is closed.
pub proof fn farewells_go_peer_by_peer<C, W>(
    pool: PoolModel<C, W>,
    ids: Seq<EndpointId>,
    id: EndpointId,
)
    ensures
        pool.farewells(Seq::empty()) == Seq::<Effect<C, W>>::empty(),
        pool.farewells(ids.push(id)) == pool.farewells(ids) + if !pool.peers.contains_key(id) {
            Seq::empty()
        } else {
            match pool.peers[id] {
                PeerModel::Connecting { waiters, .. } => refuse_all(
                    waiters,
                    PoolConnectError::Shutdown {  },
                ),
                PeerModel::Ready { connection, count, .. } => seq![
                    Effect::Close {
                        connection,
                        reason: if count == 0 {
                            CloseReason::Unused
                        } else {
                            CloseReason::Drop
                        },
                    },
                ],
            }
        },
{
    assert(ids.push(id).drop_last() =~= ids);
}

} // verus!
