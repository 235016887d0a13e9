//! What holds of the pool between events is kept by every event.
//!
//! That the pool is tidy is kept in any case. That it is well formed is kept as long
//! as there are generations for new attempts.

use crate::error::PoolConnectError;
use crate::ids::{ConnId, EndpointId};
use crate::model::PoolModel;
use crate::unused::{expired, oldest_of};
use vstd::prelude::*;

verus! {

/// A pool that has seen no event is well formed.
pub proof fn init_is_wf<C, W>(max_connections: nat, idle_timeout: nat)
    ensures
        PoolModel::<C, W>::init(max_connections, idle_timeout).wf(),
{
    let pool = PoolModel::<C, W>::init(max_connections, idle_timeout);
    assert(pool.ready() =~= Set::empty());
}

/// The connections of a well formed pool are finitely many.
pub proof fn lemma_ready_finite<C, W>(pool: PoolModel<C, W>)
    requires
        pool.peers.dom().finite(),
    ensures
        pool.ready().finite(),
        pool.ready().len() <= pool.peers.dom().len(),
{
    assert(pool.ready() =~= pool.peers.dom().filter(|id: EndpointId| pool.is_ready(id)));
    pool.peers.dom().lemma_len_filter(|id: EndpointId| pool.is_ready(id));
}

/// Giving up a peer keeps the pool well formed, and takes only that peer's
/// connection out of it.
pub proof fn give_up_keeps_wf<C, W>(
    pool: PoolModel<C, W>,
    id: EndpointId,
    error: PoolConnectError,
)
    requires
        pool.tidy(),
    ensures
        pool.give_up(id, error).0.tidy(),
        pool.wf() ==> pool.give_up(id, error).0.wf(),
        pool.give_up(id, error).0.peers == pool.peers.remove(id),
        pool.give_up(id, error).0.ready() == pool.ready().remove(id),
        pool.is_ready(id) ==> pool.give_up(id, error).0.ready().len() + 1 == pool.ready().len(),
{
    let after = pool.give_up(id, error).0;
    lemma_ready_finite(pool);
    assert(after.ready() =~= pool.ready().remove(id));
}

/// Making room keeps the pool well formed. If there is room, the pool holds
/// fewer connections than it may.
pub proof fn make_room_keeps_wf<C, W>(pool: PoolModel<C, W>)
    requires
        pool.tidy(),
    ensures
        pool.make_room().1.tidy(),
        pool.wf() ==> pool.make_room().1.wf(),
        pool.make_room().1.next_generation == pool.next_generation,
        pool.make_room().1.max_connections == pool.max_connections,
        pool.make_room().0 ==> pool.make_room().1.ready().len() < pool.max_connections,
        forall|id: EndpointId| #[trigger]
            pool.make_room().1.peers.contains_key(id) ==> pool.peers.contains_key(id),
        forall|conn_id: ConnId| #[trigger]
            pool.make_room().1.detached.contains_key(conn_id) ==> pool.detached.contains_key(
                conn_id,
            ),
        forall|conn_id: ConnId| #[trigger]
            pool.make_room().1.unused.contains_key(conn_id) ==> pool.unused.contains_key(conn_id),
{
    if let Some(conn_id) = oldest_of(pool.unused) {
        give_up_keeps_wf(pool, conn_id.peer, PoolConnectError::Closed {  });
    }
}

/// Starting an attempt keeps the pool well formed.
pub proof fn dial_keeps_wf<C, W>(pool: PoolModel<C, W>, id: EndpointId, waiter: W)
    requires
        pool.tidy(),
        !pool.peers.contains_key(id),
    ensures
        pool.dial(id, waiter).0.tidy(),
        pool.wf() && (pool.make_room().0 ==> pool.next_generation.0 < u64::MAX) ==> pool.dial(
            id,
            waiter,
        ).0.wf(),
{
    make_room_keeps_wf(pool);
    let (room, cleared, _) = pool.make_room();
    if room {
        let after = pool.dial(id, waiter).0;
        assert(after.ready() =~= cleared.ready());
    }
}

/// A request keeps the pool well formed.
pub proof fn request_keeps_wf<C, W>(
    pool: PoolModel<C, W>,
    id: EndpointId,
    waiter: W,
    closed: bool,
)
    requires
        pool.tidy(),
    ensures
        pool.request(id, waiter, closed).0.tidy(),
        pool.wf() && pool.can_count(id, closed) ==> pool.request(id, waiter, closed).0.wf(),
{
    let after = pool.request(id, waiter, closed).0;
    if pool.is_ready(id) && closed {
        give_up_keeps_wf(pool, id, PoolConnectError::Closed {  });
        dial_keeps_wf(pool.remove_peer(id).0, id, waiter);
    } else if !pool.peers.contains_key(id) {
        dial_keeps_wf(pool, id, waiter);
    } else {
        assert(after.ready() =~= pool.ready());
    }
}

/// Forgetting the attempt to a peer keeps the pool well formed.
pub proof fn forget_attempt_keeps_wf<C, W>(pool: PoolModel<C, W>, id: EndpointId)
    requires
        pool.tidy(),
        pool.peers.contains_key(id),
        pool.peers[id] is Connecting,
    ensures
        (PoolModel { peers: pool.peers.remove(id), ..pool }).tidy(),
        pool.wf() ==> (PoolModel { peers: pool.peers.remove(id), ..pool }).wf(),
        (PoolModel { peers: pool.peers.remove(id), ..pool }).ready() == pool.ready(),
{
    assert((PoolModel { peers: pool.peers.remove(id), ..pool }).ready() =~= pool.ready());
}

/// Taking a new connection in keeps the pool well formed.
pub proof fn take_in_keeps_wf<C, W>(
    pool: PoolModel<C, W>,
    conn_id: ConnId,
    connection: C,
    waiters: Seq<W>,
    closed: Seq<bool>,
    now: nat,
)
    requires
        pool.tidy(),
        !pool.peers.contains_key(conn_id.peer),
    ensures
        pool.take_in(conn_id, connection, waiters, closed, now).0.tidy(),
        pool.wf() && !pool.detached.contains_key(conn_id) && conn_id.generation.0
            < pool.next_generation.0 ==> pool.take_in(
            conn_id,
            connection,
            waiters,
            closed,
            now,
        ).0.wf(),
{
    make_room_keeps_wf(pool);
    let (room, cleared, _) = pool.make_room();
    if room {
        let after = pool.take_in(conn_id, connection, waiters, closed, now).0;
        lemma_ready_finite(cleared);
        assert(after.ready() =~= cleared.ready().insert(conn_id.peer));
    }
}

/// The end of an attempt keeps the pool well formed.
pub proof fn connect_result_keeps_wf<C, W>(
    pool: PoolModel<C, W>,
    conn_id: ConnId,
    result: Result<C, PoolConnectError>,
    closed: Seq<bool>,
    now: nat,
)
    requires
        pool.tidy(),
    ensures
        pool.connect_result(conn_id, result, closed, now).0.tidy(),
        pool.wf() ==> pool.connect_result(conn_id, result, closed, now).0.wf(),
{
    if pool.is_connecting(conn_id) {
        forget_attempt_keeps_wf(pool, conn_id.peer);
        let rest = PoolModel { peers: pool.peers.remove(conn_id.peer), ..pool };
        if let Ok(connection) = result {
            let waiters = pool.peers[conn_id.peer]->waiters;
            take_in_keeps_wf(rest, conn_id, connection, waiters, closed, now);
        }
    }
}

/// The end of a connection keeps the pool well formed.
pub proof fn conn_closed_keeps_wf<C, W>(pool: PoolModel<C, W>, conn_id: ConnId)
    requires
        pool.tidy(),
    ensures
        pool.conn_closed(conn_id).0.tidy(),
        pool.wf() ==> pool.conn_closed(conn_id).0.wf(),
{
    give_up_keeps_wf(pool, conn_id.peer, PoolConnectError::Closed {  });
}

/// A connection that goes unused keeps the pool well formed.
pub proof fn unused_event_keeps_wf<C, W>(pool: PoolModel<C, W>, conn_id: ConnId, now: nat)
    requires
        pool.tidy(),
    ensures
        pool.unused_event(conn_id, now).tidy(),
        pool.wf() ==> pool.unused_event(conn_id, now).wf(),
{
    assert(pool.unused_event(conn_id, now).ready() =~= pool.ready());
}

/// Closing the connections that have been unused for too long keeps the pool
/// well formed.
pub proof fn close_unused_keeps_wf<C, W>(pool: PoolModel<C, W>, now: nat)
    requires
        pool.tidy(),
    ensures
        pool.close_unused(now).0.tidy(),
        pool.close_unused(now).0.max_connections == pool.max_connections,
        pool.close_unused(now).0.idle_timeout == pool.idle_timeout,
        pool.wf() ==> pool.close_unused(now).0.wf(),
    decreases pool.unused.dom().len(),
{
    if let Some(conn_id) = oldest_of(pool.unused) {
        if expired(pool.unused[conn_id], now, pool.idle_timeout) {
            give_up_keeps_wf(pool, conn_id.peer, PoolConnectError::Closed {  });
            close_unused_keeps_wf(pool.remove_peer(conn_id.peer).0, now);
        }
    }
}

/// A reference that goes away keeps the pool well formed.
pub proof fn release_keeps_wf<C, W>(pool: PoolModel<C, W>, conn_id: ConnId)
    requires
        pool.tidy(),
    ensures
        pool.release(conn_id).0.tidy(),
        pool.wf() ==> pool.release(conn_id).0.wf(),
{
    assert(pool.release(conn_id).0.ready() =~= pool.ready());
}

} // verus!
