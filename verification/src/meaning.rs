//! What the words mean that the pool is described in.
//!
//! Each of these says in terms of plain numbers, maps and sequences what one of the
//! words stands for, so that what is stated with it can be read without it.

use crate::action::{have, Action, CloseReason, Effect};
use crate::actor::{asked, told};
use crate::error::PoolConnectError;
use crate::event::{ActorMessage, Event, RequestRef};
use crate::ids::{decimal, hex_digit, ConnId, EndpointId, Generation};
use crate::model::{close_reason, grant_all, open_waiters, refuse_all, PeerModel, PoolModel};
use crate::options::Duration;
use crate::unused::{expired, is_oldest, lemma_oldest_exists, lemma_oldest_is_unique, oldest_of};
use vstd::arithmetic::power2::pow2;
use vstd::bits::lemma_u128_shr_is_div;
use vstd::prelude::*;

verus! {

/// A span is as many nanoseconds long as its seconds and nanoseconds say.
pub proof fn spans_are_counted_in_nanoseconds(span: Duration)
    ensures
        span@ == span.secs * 1_000_000_000 + span.nanos,
{
}

/// Peers are ordered as their keys are, read as one number.
pub proof fn peers_are_ordered_by_key(a: EndpointId, b: EndpointId)
    ensures
        a.before(b) <==> a.hi * 0x1_0000_0000_0000_0000_0000_0000_0000_0000int + a.lo < b.hi
            * 0x1_0000_0000_0000_0000_0000_0000_0000_0000int + b.lo,
{
}

/// Connections are ordered by peer, and those to one peer by generation.
pub proof fn connections_are_ordered_by_peer(a: ConnId, b: ConnId)
    ensures
        a.peer == b.peer ==> (a.before(b) <==> a.generation.0 < b.generation.0),
        a.peer != b.peer ==> (a.before(b) <==> a.peer.before(b.peer)),
{
}

/// A hexadecimal digit stands for its number.
pub proof fn digits_stand_for_numbers(n: int)
    requires
        0 <= n < 16,
    ensures
        n < 10 ==> hex_digit(n) as int == 0x30 + n,
        n >= 10 ==> hex_digit(n) as int == 0x61 + n - 10,
{
}

/// Decimal digits are those of the number: a number below ten is its own digit, and
/// ten times a number plus a digit is written by appending that digit.
pub proof fn decimals_stand_for_numbers(n: nat, digit: nat)
    requires
        digit < 10,
    ensures
        decimal(digit) == seq![hex_digit(digit as int)],
        n > 0 ==> decimal(10 * n + digit) == decimal(n).push(hex_digit(digit as int)),
{
    if n > 0 {
        assert((10 * n + digit) / 10 == n);
        assert((10 * n + digit) % 10 == digit);
    }
}

/// A peer's short text is made of the ten highest hexadecimal digits of its key.
pub proof fn short_texts_are_the_highest_digits(id: EndpointId, i: int)
    requires
        0 <= i < 10,
    ensures
        id.short_text().len() == 10,
        id.short_text()[i] == hex_digit((id.hi as nat / pow2((124 - 4 * i) as nat)) as int % 16),
{
    let shift = (124 - 4 * i) as u128;
    let shifted = id.hi >> shift;
    lemma_u128_shr_is_div(id.hi, shift);
    assert(shifted & 15 == shifted % 16) by (bit_vector);
}

/// A connection's text is its peer's short text, a `#`, and its generation.
pub proof fn texts_name_peer_and_generation(conn_id: ConnId)
    ensures
        conn_id.text() == conn_id.peer.short_text() + seq!['#'] + decimal(
            conn_id.generation.0 as nat,
        ),
{
    reveal_strlit("#");
    assert("#"@ =~= seq!['#']);
}

/// The connection that has been unused longest went unused no later than any other,
/// and before those that went unused at the same time in the order of connections.
/// There is one, and only one, if anything is unused.
pub proof fn the_oldest_went_unused_first(since: Map<ConnId, nat>, conn_id: ConnId)
    requires
        since.dom().finite(),
    ensures
        oldest_of(since) == Some(conn_id) <==> since.contains_key(conn_id) && forall|other: ConnId|
         #[trigger]
            since.contains_key(other) && other != conn_id ==> since[conn_id] < since[other] || (
            since[conn_id] == since[other] && conn_id.before(other)),
        is_oldest(since, conn_id) <==> oldest_of(since) == Some(conn_id),
        oldest_of(since) is None <==> since == Map::<ConnId, nat>::empty(),
{
    if is_oldest(since, conn_id) {
        lemma_oldest_is_unique(since, conn_id);
    }
    if since != Map::<ConnId, nat>::empty() {
        lemma_oldest_exists(since);
    }
}

/// A connection has been unused for too long from the time on that lies the timeout
/// after it went unused, and not before.
pub proof fn idle_time_expires_with_the_timeout(since: nat, now: nat, timeout: nat)
    ensures
        expired(since, now, timeout) <==> now - since >= timeout,
{
}

/// What is said of a peer goes by what the pool knows of it.
pub proof fn peers_are_what_the_pool_knows_of_them<C, W>(
    pool: PoolModel<C, W>,
    id: EndpointId,
    generation: Generation,
)
    ensures
        pool.is_ready(id) <==> pool.peers.contains_key(id) && (pool.peers[id] matches PeerModel::Ready {
            ..
        }),
        pool.ready().contains(id) <==> pool.is_ready(id),
        pool.is_current(ConnId { peer: id, generation }) <==> pool.peers.contains_key(id) && (
        pool.peers[id] matches PeerModel::Ready { generation: made, .. } && made == generation),
        pool.is_connecting(ConnId { peer: id, generation }) <==> pool.peers.contains_key(id) && (
        pool.peers[id] matches PeerModel::Connecting { generation: tried, .. } && tried
            == generation),
        !pool.peers.contains_key(id) ==> pool.references(id) == 0,
        pool.peers.contains_key(id) ==> match pool.peers[id] {
            PeerModel::Connecting { .. } => pool.references(id) == 0,
            PeerModel::Ready { count, .. } => pool.references(id) == count,
        },
{
}

/// A connection is closed as unused if and only if it has no references.
pub proof fn reasons_go_by_references(count: nat)
    ensures
        count == 0 ==> close_reason(count) == CloseReason::Unused,
        count > 0 ==> close_reason(count) == CloseReason::Drop,
{
}

/// Refusing or serving all waiters answers each of them, in the order in which they
/// asked, and no one else.
pub proof fn all_waiters_are_answered_in_order<C, W>(
    waiters: Seq<W>,
    error: PoolConnectError,
    conn_id: ConnId,
    connection: C,
)
    ensures
        refuse_all::<C, W>(waiters, error).len() == waiters.len(),
        forall|i: int|
            0 <= i < waiters.len() ==> #[trigger] refuse_all::<C, W>(waiters, error)[i]
                == (Effect::<C, W>::Refuse { waiter: waiters[i], error }),
        grant_all(waiters, conn_id, connection).len() == waiters.len(),
        forall|i: int|
            0 <= i < waiters.len() ==> #[trigger] grant_all(waiters, conn_id, connection)[i]
                == (Effect::<C, W>::Grant { waiter: waiters[i], conn_id, connection }),
{
}

/// Those who still want an answer are all but those who said that they do not, each
/// for itself: one more waiter is one more in the end, unless it said so.
pub proof fn only_who_said_so_gets_nothing<W>(waiters: Seq<W>, waiter: W, closed: Seq<bool>)
    ensures
        open_waiters(Seq::<W>::empty(), closed) == Seq::<W>::empty(),
        waiters.len() < closed.len() && closed[waiters.len() as int] ==> open_waiters(
            waiters.push(waiter),
            closed,
        ) == open_waiters(waiters, closed),
        !(waiters.len() < closed.len() && closed[waiters.len() as int]) ==> open_waiters(
            waiters.push(waiter),
            closed,
        ) == open_waiters(waiters, closed).push(waiter),
{
    assert(waiters.push(waiter).drop_last() =~= waiters);
}

/// Actions have the effects that they say, one for one and in order. Handles to a
/// connection that are handed on are clones of the pool's own.
pub proof fn actions_have_the_effects_they_say<C: Clone, W>(
    actions: Seq<Action<C, W>>,
    effects: Seq<Effect<C, W>>,
)
    ensures
        have(actions, effects) <==> actions.len() == effects.len() && forall|i: int|
            0 <= i < actions.len() ==> match (#[trigger] actions[i]) {
                Action::Connect { conn_id } => effects[i] == (Effect::<C, W>::Connect { conn_id }),
                Action::Watch { conn_id, connection } => {
                    &&& effects[i] matches Effect::Watch { conn_id: watched, connection: handle }
                    &&& watched == conn_id
                    &&& cloned(handle, connection)
                },
                Action::Reply { waiter, result: Ok(reference) } => {
                    &&& effects[i] matches Effect::Grant {
                        waiter: answered,
                        conn_id,
                        connection: handle,
                    }
                    &&& answered == waiter
                    &&& conn_id == reference.conn_id()
                    &&& cloned(handle, reference.connection())
                },
                Action::Reply { waiter, result: Err(error) } => effects[i] == (Effect::<
                    C,
                    W,
                >::Refuse { waiter, error }),
                Action::Close { connection, reason } => effects[i] == (Effect::<C, W>::Close {
                    connection,
                    reason,
                }),
            },
{
}

/// Whoever runs the pool is asked about the very connection that the pool has to the
/// peer that a request is for, however many references there are to it.
pub proof fn the_connection_itself_is_asked_about<C, W, F: Fn(&C) -> bool, G: Fn(&W) -> bool>(
    pool: PoolModel<C, W>,
    req: RequestRef<W>,
    has_closed: F,
    is_closed: G,
    closed: bool,
    gone: Seq<bool>,
    generation: Generation,
    connection: C,
    count: nat,
)
    requires
        pool.peers.contains_key(req.id),
        pool.peers[req.id] == (PeerModel::<C, W>::Ready { generation, connection, count }),
    ensures
        told(pool, ActorMessage::RequestRef(req), has_closed, closed) <==> call_ensures(
            has_closed,
            (&connection,),
            closed,
        ),
        asked(
            pool,
            Event::Message(ActorMessage::RequestRef(req)),
            has_closed,
            is_closed,
            closed,
            gone,
        ) <==> call_ensures(has_closed, (&connection,), closed),
{
}

/// Whoever runs the pool is asked about each of those who wait for an attempt, and
/// about each for itself.
pub proof fn every_waiter_is_asked_about<C, W, F: Fn(&C) -> bool, G: Fn(&W) -> bool>(
    pool: PoolModel<C, W>,
    conn_id: ConnId,
    result: Result<C, PoolConnectError>,
    has_closed: F,
    is_closed: G,
    closed: bool,
    gone: Seq<bool>,
    waiters: Seq<W>,
)
    requires
        pool.peers.contains_key(conn_id.peer),
        pool.peers[conn_id.peer] == (PeerModel::<C, W>::Connecting {
            generation: conn_id.generation,
            waiters,
        }),
    ensures
        asked(
            pool,
            Event::ConnectResult { conn_id, result },
            has_closed,
            is_closed,
            closed,
            gone,
        ) <==> gone.len() == waiters.len() && forall|i: int|
            0 <= i < waiters.len() ==> call_ensures(
                is_closed,
                (&#[trigger] waiters[i],),
                gone[i],
            ),
{
}

} // verus!
