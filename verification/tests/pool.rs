use connection_pool::action::{Action, CloseReason};
use connection_pool::actor::{Actor, PeerState};
use connection_pool::attempt::{Attempt, NextStep};
use connection_pool::clock::Clock;
use connection_pool::counter::ConnectionRef;
use connection_pool::error::{close_outcome, request_outcome, ConnectionPoolError, PoolConnectError};
use connection_pool::event::{ActorMessage, Event, RequestRef};
use connection_pool::ids::{ConnId, EndpointId, Generation};
use connection_pool::options::{Duration, Options};

/// A handle to a connection: which one it is.
type Conn = u64;
/// Who waits for an answer.
type Waiter = u32;

type Pool = Actor<Conn, Waiter>;
type Actions = Vec<Action<Conn, Waiter>>;
type Answer = Result<ConnectionRef<Conn>, PoolConnectError>;

/// Nanoseconds since the clock was started.
type Nanos = u64;

const MILLI: Nanos = 1_000_000;

/// The point in time that lies so many nanoseconds after the start of the clock.
fn at(nanos: Nanos) -> Duration {
    Duration { secs: nanos / 1_000_000_000, nanos: (nanos % 1_000_000_000) as u32 }
}

fn peer(n: u128) -> EndpointId {
    EndpointId { hi: n, lo: 0 }
}

fn test_options() -> Options<()> {
    Options {
        idle_timeout: Duration::from_millis(100),
        connect_timeout: Duration::from_secs(5),
        max_connections: 32,
        on_connected: None,
    }
}

fn pool(options: &Options<()>) -> Pool {
    Actor::new(options, Clock::started_at(n0_future::time::Instant::now()))
}

fn request(pool: &mut Pool, id: EndpointId, waiter: Waiter) -> Actions {
    pool.handle_request(RequestRef { id, waiter }, false)
}

/// The attempt that the last of the actions starts.
fn started(actions: &Actions) -> ConnId {
    match actions.last() {
        Some(Action::Connect { conn_id }) => *conn_id,
        other => panic!("no attempt was started: {other:?}"),
    }
}

/// The answers among the actions, in order.
fn answers(actions: Actions) -> Vec<(Waiter, Answer)> {
    let mut answers = Vec::new();
    for action in actions {
        if let Action::Reply { waiter, result } = action {
            answers.push((waiter, result));
        }
    }
    answers
}

/// The connections that the actions close, in order.
fn closed(actions: &Actions) -> Vec<(Conn, CloseReason)> {
    let mut closed = Vec::new();
    for action in actions {
        if let Action::Close { connection, reason } = action {
            closed.push((*connection, *reason));
        }
    }
    closed
}

/// Asks for a connection and makes it: returns the reference to it.
fn get(pool: &mut Pool, id: EndpointId, conn: Conn, now: Nanos) -> Answer {
    let actions = request(pool, id, 0);
    if matches!(actions.last(), Some(Action::Connect { .. })) {
        let conn_id = started(&actions);
        let actions = pool.handle_connect_result(conn_id, Ok(conn), &vec![], at(now));
        answers(actions).pop().expect("the request was not answered").1
    } else {
        answers(actions).pop().expect("the request was not answered").1
    }
}

/// Drops a reference, and hands the pool the unused event if one is due.
fn put_back(pool: &mut Pool, reference: ConnectionRef<Conn>, now: Nanos) {
    let (_, permit) = reference.into_parts();
    if let Some(conn_id) = pool.release(permit) {
        pool.handle_unused_event(conn_id, at(now));
    }
}

/// Puts a connection into the pool that nothing uses.
fn insert_ready(pool: &mut Pool, id: EndpointId, conn: Conn, now: Nanos) -> ConnId {
    let conn_id = started(&request(pool, id, 0));
    let actions = pool.handle_connect_result(conn_id, Ok(conn), &vec![true], at(now));
    assert!(answers(actions).is_empty());
    conn_id
}

/// Puts a connection into the pool that nothing uses, in place of an earlier one to
/// the same peer. Returns the ids of both.
fn insert_second(pool: &mut Pool, id: EndpointId, conn: Conn, now: Nanos) -> (ConnId, ConnId) {
    let earlier = insert_ready(pool, id, 1000 + conn, now);
    let actions = pool.handle_msg(ActorMessage::ConnectionShutdown { id }, false);
    assert_eq!(closed(&actions), vec![(1000 + conn, CloseReason::Unused)]);
    let current = insert_ready(pool, id, conn, now);
    assert_eq!(earlier, ConnId { peer: id, generation: Generation(0) });
    assert_eq!(current, ConnId { peer: id, generation: Generation(1) });
    (earlier, current)
}

/// Returns the id of some attempt to connect to `peer`.
fn some_attempt(peer: EndpointId) -> ConnId {
    ConnId { peer, generation: Generation(77) }
}

fn is_connecting(pool: &Pool, id: EndpointId) -> bool {
    matches!(pool.peer(id), Some(PeerState::Connecting { .. }))
}

fn is_ready(pool: &Pool, id: EndpointId) -> bool {
    matches!(pool.peer(id), Some(PeerState::Ready { .. }))
}

#[test]
fn connection_pool_errors() {
    let mut pool = pool(&test_options());
    let id = peer(0);
    {
        let conn_id = started(&request(&mut pool, id, 1));
        let mut attempt: Attempt<Conn> = Attempt::new(conn_id);
        let refused = iroh::endpoint::ConnectError::from(iroh::endpoint::ConnectionError::Reset);
        let result = match attempt.dialed(Err(refused), false) {
            NextStep::Done { result } => result,
            other => panic!("{other:?}"),
        };
        let (event, close) = attempt.conclude::<Waiter>(Some(result));
        assert!(close.is_none());
        let actions = pool.handle_event(event, |_| false, |_| false);
        let res = answers(actions);
        assert_eq!(res.len(), 1);
        assert!(matches!(res[0], (1, Err(PoolConnectError::ConnectError { .. }))));
    }
    {
        let conn_id = started(&request(&mut pool, id, 2));
        let attempt: Attempt<Conn> = Attempt::new(conn_id);
        let (event, close) = attempt.conclude::<Waiter>(None);
        assert!(close.is_none());
        let actions = pool.handle_event(event, |_| false, |_| false);
        let res = answers(actions);
        assert_eq!(res.len(), 1);
        assert!(matches!(res[0], (2, Err(PoolConnectError::Timeout { .. }))));
    }
    assert!(pool.peer(id).is_none());
}

#[test]
fn connection_pool_smoke() {
    let n = 32;
    let mut pool = pool(&test_options());
    let mut now = 0;
    for i in 0..n {
        let conn1 = get(&mut pool, peer(i), i as Conn, now).unwrap();
        assert_eq!(*conn1, i as Conn);
        put_back(&mut pool, conn1, now);
        let conn2 = get(&mut pool, peer(i), 1000 + i as Conn, now).unwrap();
        assert_eq!(*conn2, i as Conn);
        put_back(&mut pool, conn2, now);
        now += MILLI;
    }
    now += 1000 * MILLI;
    let actions = pool.close_unused(at(now));
    assert_eq!(actions.len(), n as usize);
    for i in 0..n {
        let conn = get(&mut pool, peer(i), 1000 + i as Conn, now).unwrap();
        assert_eq!(*conn, 1000 + i as Conn);
        put_back(&mut pool, conn, now);
    }
}

/// Unused connections are reclaimed to make room at the connection limit.
#[test]
fn connection_pool_unused() {
    let n = 32;
    let mut pool = pool(&Options {
        idle_timeout: Duration::from_secs(100),
        max_connections: 8,
        ..test_options()
    });
    for i in 0..n {
        let conn = get(&mut pool, peer(i), i as Conn, i as Nanos).unwrap();
        put_back(&mut pool, conn, i as Nanos);
    }
    // The last eight are left.
    for i in 0..n {
        assert_eq!(is_ready(&pool, peer(i)), i >= 24);
    }
}

/// A callback that gives up every connection.
#[test]
fn on_connected_error() {
    let mut pool = pool(&test_options());
    let conn_id = started(&request(&mut pool, peer(0), 9));
    let mut attempt: Attempt<Conn> = Attempt::new(conn_id);
    let result = match attempt.dialed(Ok(5), true) {
        NextStep::CallBack { connection } => {
            let failed = Err(std::io::Error::other("on_connect failed"));
            Attempt::called_back(connection, failed)
        }
        other => panic!("{other:?}"),
    };
    let (event, _) = attempt.conclude::<Waiter>(Some(result));
    let res = answers(pool.handle_event(event, |_| false, |_| false));
    assert_eq!(res.len(), 1);
    match &res[0].1 {
        Err(PoolConnectError::OnConnectError { source }) => {
            assert_eq!(source.to_string(), "on_connect failed");
        }
        other => panic!("{other:?}"),
    }
}

/// A callback that is content with the connection.
#[test]
fn on_connected_direct() {
    let mut pool = pool(&test_options());
    let conn_id = started(&request(&mut pool, peer(0), 9));
    let mut attempt: Attempt<Conn> = Attempt::new(conn_id);
    let result = match attempt.dialed(Ok(5), true) {
        NextStep::CallBack { connection } => Attempt::called_back(connection, Ok(())),
        other => panic!("{other:?}"),
    };
    let (event, close) = attempt.conclude::<Waiter>(Some(result));
    assert!(close.is_none());
    let res = answers(pool.handle_event(event, |_| false, |_| false));
    assert_eq!(res.len(), 1);
    assert_eq!(**res[0].1.as_ref().unwrap(), 5);
}

#[test]
fn connection_pool_dead_peer_backlog_does_not_wedge() {
    let mut pool = pool(&test_options());
    let dead_peer = peer(7);
    started(&request(&mut pool, dead_peer, 0));
    for waiter in 1..150 {
        // One attempt serves them all.
        assert!(request(&mut pool, dead_peer, waiter).is_empty());
    }
    assert!(get(&mut pool, peer(1), 1, 0).is_ok());
}

#[test]
fn connection_pool_dead_peer_below_inbox_cap_is_unaffected() {
    let mut pool = pool(&test_options());
    let dead_peer = peer(8);
    let conn_id = started(&request(&mut pool, dead_peer, 0));
    for waiter in 1..50 {
        assert!(request(&mut pool, dead_peer, waiter).is_empty());
    }
    let res = get(&mut pool, peer(1), 1, 0);
    assert!(res.is_ok(), "live-peer connect failed: {res:?}");
    // All of them learn that the attempt has failed.
    let failed = Err(PoolConnectError::Timeout {});
    let res = answers(pool.handle_connect_result(conn_id, failed, &vec![], at(0)));
    assert_eq!(res.len(), 50);
    for (waiter, answer) in res.iter().enumerate() {
        assert_eq!(answer.0, waiter as Waiter);
        assert!(matches!(answer.1, Err(PoolConnectError::Timeout {})));
    }
}

#[test]
fn close_during_connect_returns_closed() {
    let mut pool = pool(&test_options());
    let id = peer(0);
    started(&request(&mut pool, id, 1));
    let actions = pool.handle_msg(ActorMessage::ConnectionShutdown { id }, false);
    let first = answers(actions);
    assert_eq!(first.len(), 1);
    assert!(
        matches!(first[0], (1, Err(PoolConnectError::Closed { .. }))),
        "in-flight connect after close: {first:?}"
    );
    let second = get(&mut pool, id, 2, 0);
    assert!(second.is_ok(), "pool unusable after close: {second:?}");
}

#[test]
fn close_then_immediate_reconnect() {
    let mut pool = pool(&test_options());
    let id = peer(0);
    let conn1 = get(&mut pool, id, 1, 0).unwrap();
    let actions = pool.handle_msg(ActorMessage::ConnectionShutdown { id }, false);
    assert_eq!(closed(&actions), vec![(1, CloseReason::Drop)]);
    let conn2 = get(&mut pool, id, 2, 0).unwrap();
    assert_ne!(*conn2, *conn1);
    assert_eq!(*conn2, 2);
}

#[test]
fn dropping_old_ref_does_not_close_new_connection() {
    let mut pool = pool(&Options {
        idle_timeout: Duration::from_millis(50),
        ..test_options()
    });
    let id = peer(0);
    let conn1 = get(&mut pool, id, 1, 0).unwrap();
    pool.handle_msg(ActorMessage::ConnectionShutdown { id }, false);
    let conn2 = get(&mut pool, id, 2, 0).unwrap();
    put_back(&mut pool, conn1, 0);
    assert!(pool.close_unused(at(200 * MILLI)).is_empty());
    assert!(is_ready(&pool, id));
    assert_eq!(*conn2, 2);
}

/// Closing a slow connection attempt discards it. A later connect starts a new
/// attempt.
#[test]
fn stale_connect_result_is_discarded() {
    let mut pool = pool(&test_options());
    let id = peer(0);
    let first = started(&request(&mut pool, id, 1));
    pool.handle_msg(ActorMessage::ConnectionShutdown { id }, false);
    let second = started(&request(&mut pool, id, 2));
    assert_ne!(first, second);
    // The connection that the first attempt makes serves nobody.
    let actions = pool.handle_connect_result(first, Ok(1), &vec![], at(0));
    assert_eq!(closed(&actions), vec![(1, CloseReason::Discarded)]);
    assert!(answers(actions).is_empty());
    assert!(is_connecting(&pool, id));
    let failed = Err(PoolConnectError::Timeout {});
    assert!(pool.handle_connect_result(first, failed, &vec![], at(0)).is_empty());
    let res = answers(pool.handle_connect_result(second, Ok(2), &vec![], at(0)));
    assert_eq!(res.len(), 1);
    assert_eq!(**res[0].1.as_ref().unwrap(), 2);
}

/// When a connection is closed, the pool makes a new one for the next request.
#[test]
fn watch_close() {
    let mut pool = pool(&test_options());
    let id = peer(0);
    let conn_id = started(&request(&mut pool, id, 1));
    let actions = pool.handle_connect_result(conn_id, Ok(1), &vec![], at(0));
    assert!(matches!(
        actions.last(),
        Some(Action::Watch { conn_id: watched, connection: 1 }) if *watched == conn_id
    ));
    pool.handle_conn_closed(conn_id);
    let conn = get(&mut pool, id, 2, 0).unwrap();
    assert_eq!(*conn, 2);
}

/// In-flight attempts do not count towards the connection limit.
#[test]
fn inflight_connects_do_not_exhaust_slots() {
    let max_connections = 2;
    let mut pool = pool(&Options { max_connections, ..test_options() });
    for i in 0..max_connections {
        started(&request(&mut pool, peer(20 + i as u128), i as Waiter));
    }
    let res = get(&mut pool, peer(1), 1, 0);
    assert!(
        res.is_ok(),
        "unrelated peer rejected while pool holds no connections: {res:?}"
    );
}

/// A connection made after the pool filled up fails with `TooManyConnections`.
#[test]
fn connect_into_a_full_pool_fails() {
    let mut pool = pool(&Options { max_connections: 1, ..test_options() });
    // Both attempts start before either connection exists.
    let a = started(&request(&mut pool, peer(0), 10));
    let b = started(&request(&mut pool, peer(1), 11));
    let a = answers(pool.handle_connect_result(a, Ok(1), &vec![], at(0)));
    assert_eq!(a.len(), 1);
    assert!(matches!(a[0], (10, Ok(_))));
    let actions = pool.handle_connect_result(b, Ok(2), &vec![], at(0));
    assert_eq!(closed(&actions), vec![(2, CloseReason::TooManyConnections)]);
    let b = answers(actions);
    assert_eq!(b.len(), 1);
    assert!(matches!(b[0], (11, Err(PoolConnectError::TooManyConnections { .. }))));
    assert!(pool.peer(peer(1)).is_none());
}

/// A stale close event leaves the current connection alone.
#[test]
fn stale_close_event_keeps_the_current_connection() {
    let mut pool = pool(&test_options());
    let id = peer(0);
    let (stale, conn_id) = insert_second(&mut pool, id, 1, 0);

    let actions = pool.handle_conn_closed(stale);
    assert!(pool.peer(id).is_some(), "a stale close event removed the peer");
    assert!(actions.is_empty(), "a stale close event closed the connection");
    pool.handle_conn_closed(conn_id);
    assert!(pool.peer(id).is_none());
}

/// A connection that has closed is not handed out.
#[test]
fn closed_connection_is_not_handed_out() {
    let mut pool = pool(&test_options());
    let id = peer(0);
    insert_ready(&mut pool, id, 1, 0);
    // The pool has not handled the close event yet.
    let msg = ActorMessage::RequestRef(RequestRef { id, waiter: 3 });
    assert!(pool.accepts(&msg, true));
    let actions = pool.handle_event(Event::Message(msg), |conn| *conn == 1, |_| false);
    assert_eq!(closed(&actions), vec![(1, CloseReason::Unused)]);
    assert_eq!(started(&actions).peer, id);
    assert!(answers(actions).is_empty(), "the closed connection was handed out");
    assert!(
        matches!(pool.peer(id), Some(PeerState::Connecting { .. })),
        "the request did not start a new connection"
    );
}

/// A connection whose callback failed is closed.
#[test]
fn on_connected_error_closes_the_connection() {
    let mut attempt: Attempt<Conn> = Attempt::new(some_attempt(peer(0)));
    let result = match attempt.dialed(Ok(5), true) {
        NextStep::CallBack { connection } => {
            let failed = Err(std::io::Error::other("on_connect failed"));
            Attempt::called_back(connection, failed)
        }
        other => panic!("{other:?}"),
    };
    let (event, close) = attempt.conclude::<Waiter>(Some(result));
    assert!(matches!(
        event,
        Event::ConnectResult { result: Err(PoolConnectError::OnConnectError { .. }), .. }
    ));
    assert!(matches!(
        close,
        Some(Action::Close { connection: 5, reason: CloseReason::OnConnectedFailed })
    ));
}

/// Using a connection again restarts its idle timeout.
#[test]
fn use_restarts_the_idle_timeout() {
    let idle_timeout = 500 * MILLI;
    let mut pool = pool(&Options {
        idle_timeout: Duration::from_millis(500),
        ..test_options()
    });
    let id = peer(0);
    let conn = get(&mut pool, id, 1, 0).unwrap();
    put_back(&mut pool, conn, 0);
    let again = idle_timeout * 3 / 5;
    let conn = get(&mut pool, id, 2, again).unwrap();
    assert_eq!(*conn, 1);
    put_back(&mut pool, conn, again);
    // Past the first timeout, within the second.
    assert!(pool.close_unused(at(again + idle_timeout * 3 / 5)).is_empty());
    assert!(is_ready(&pool, id), "closed before its restarted timeout");
    // Past the second.
    let actions = pool.close_unused(at(again + idle_timeout * 7 / 5));
    assert_eq!(closed(&actions), vec![(1, CloseReason::Unused)]);
    assert!(pool.peer(id).is_none(), "not closed after its timeout");
}

/// A stale unused event leaves the current connection's idle time alone.
#[test]
fn stale_unused_event_keeps_the_idle_time() {
    let mut pool = pool(&test_options());
    let id = peer(0);
    let (stale, conn_id) = insert_second(&mut pool, id, 1, 7);
    let due = pool.next_unused_timer().expect("the connection is unused");
    assert_eq!(due, 100_000_007);

    pool.handle_unused_event(stale, at(50));
    assert_eq!(
        pool.next_unused_timer(),
        Some(due),
        "a stale unused event restarted the idle timeout"
    );
    pool.handle_unused_event(conn_id, at(50));
    assert_eq!(pool.next_unused_timer(), Some(100_000_050));
}

#[test]
fn a_timeout_after_connecting_closes_the_connection() {
    let mut attempt: Attempt<Conn> = Attempt::new(some_attempt(peer(0)));
    attempt.dialed(Ok(5), true);
    let (event, close) = attempt.conclude::<Waiter>(None);
    assert!(matches!(
        event,
        Event::ConnectResult { result: Err(PoolConnectError::Timeout {}), .. }
    ));
    assert!(matches!(
        close,
        Some(Action::Close { connection: 5, reason: CloseReason::OnConnectedFailed })
    ));
}

#[test]
fn an_attempt_without_callback_is_done_when_dialed() {
    let conn_id = some_attempt(peer(0));
    let mut attempt: Attempt<Conn> = Attempt::new(conn_id);
    let result = match attempt.dialed(Ok(5), false) {
        NextStep::Done { result } => result,
        other => panic!("{other:?}"),
    };
    let (event, close) = attempt.conclude::<Waiter>(Some(result));
    assert!(close.is_none());
    assert!(matches!(
        event,
        Event::ConnectResult { conn_id: c, result: Ok(5) } if c == conn_id
    ));
}

#[test]
fn a_full_pool_in_use_refuses() {
    let mut pool = pool(&Options { max_connections: 1, ..test_options() });
    let held = get(&mut pool, peer(0), 1, 0).unwrap();
    let res = answers(request(&mut pool, peer(1), 5));
    assert_eq!(res.len(), 1);
    assert!(matches!(res[0], (5, Err(PoolConnectError::TooManyConnections {}))));
    // The connection that it has is still handed out.
    assert_eq!(*get(&mut pool, peer(0), 9, 0).unwrap(), 1);
    drop(held);
}

#[test]
fn a_pool_for_no_connections_refuses_everyone() {
    let mut pool = pool(&Options { max_connections: 0, ..test_options() });
    let res = answers(request(&mut pool, peer(1), 5));
    assert!(matches!(res[0], (5, Err(PoolConnectError::TooManyConnections {}))));
}

#[test]
fn eviction_takes_the_longest_unused() {
    let mut pool = pool(&Options { max_connections: 3, ..test_options() });
    insert_ready(&mut pool, peer(1), 1, 30);
    insert_ready(&mut pool, peer(2), 2, 10);
    insert_ready(&mut pool, peer(3), 3, 20);
    let actions = request(&mut pool, peer(4), 0);
    assert_eq!(closed(&actions), vec![(2, CloseReason::Unused)]);
    let conn_id = started(&actions);
    // The attempt takes up no room, so its connection fits.
    let actions = pool.handle_connect_result(conn_id, Ok(4), &vec![], at(40));
    assert!(closed(&actions).is_empty());
    // The next one again has to make room.
    let actions = request(&mut pool, peer(5), 0);
    assert_eq!(closed(&actions), vec![(3, CloseReason::Unused)]);
}

#[test]
fn equal_idle_times_are_ordered_by_peer() {
    let mut pool = pool(&Options { max_connections: 2, ..test_options() });
    insert_ready(&mut pool, EndpointId { hi: 1, lo: 9 }, 1, 5);
    insert_ready(&mut pool, EndpointId { hi: 1, lo: 2 }, 2, 5);
    let actions = request(&mut pool, peer(3), 0);
    assert_eq!(closed(&actions), vec![(2, CloseReason::Unused)]);
}

#[test]
fn the_idle_timer_closes_the_oldest_first() {
    let mut pool = pool(&test_options());
    insert_ready(&mut pool, peer(1), 1, 30);
    insert_ready(&mut pool, peer(2), 2, 10);
    insert_ready(&mut pool, peer(3), 3, 20);
    let held = get(&mut pool, peer(4), 4, 0).unwrap();
    assert_eq!(pool.next_unused_timer(), Some(100_000_010));
    assert!(pool.close_unused(at(100_000_009)).is_empty());
    let actions = pool.close_unused(at(100_000_020));
    assert_eq!(closed(&actions), vec![(2, CloseReason::Unused), (3, CloseReason::Unused)]);
    assert_eq!(pool.next_unused_timer(), Some(100_000_030));
    let actions = pool.close_unused(at(u64::MAX));
    assert_eq!(closed(&actions), vec![(1, CloseReason::Unused)]);
    assert_eq!(pool.next_unused_timer(), None);
    assert!(is_ready(&pool, peer(4)));
    drop(held);
}

#[test]
fn waiters_that_lost_interest_get_nothing() {
    let mut pool = pool(&test_options());
    let id = peer(0);
    let conn_id = started(&request(&mut pool, id, 1));
    request(&mut pool, id, 2);
    request(&mut pool, id, 3);
    let event = Event::ConnectResult { conn_id, result: Ok(8) };
    let actions = pool.handle_event(event, |_| false, |waiter| *waiter == 2);
    let got: Vec<Waiter> = answers(actions).into_iter().map(|answer| answer.0).collect();
    assert_eq!(got, vec![1, 3]);
    match pool.peer(id) {
        Some(PeerState::Ready { counter, connection, .. }) => {
            assert_eq!(counter.current(), 2);
            assert!(!counter.is_unused());
            assert_eq!(*connection, 8);
        }
        _ => panic!("the connection was not taken in"),
    }
}

#[test]
fn the_clock_decides_on_the_idle_timer() {
    let mut patient = pool(&Options { idle_timeout: Duration::from_secs(1000), ..test_options() });
    let mut hasty = pool(&Options { idle_timeout: Duration::from_secs(0), ..test_options() });
    for pool in [&mut patient, &mut hasty] {
        let conn_id = started(&request(pool, peer(0), 0));
        let event = Event::ConnectResult { conn_id, result: Ok(1) };
        pool.handle_event(event, |_| false, |_| true);
        pool.handle_event(Event::Unused { conn_id }, |_| false, |_| true);
    }
    assert!(patient.handle_event(Event::IdleTimer, |_| false, |_| false).is_empty());
    let actions = hasty.handle_event(Event::IdleTimer, |_| false, |_| false);
    assert_eq!(closed(&actions), vec![(1, CloseReason::Unused)]);
}

#[test]
fn a_close_event_reaches_the_pool() {
    let mut pool = pool(&test_options());
    let conn_id = insert_ready(&mut pool, peer(0), 1, 0);
    let actions = pool.handle_event(Event::ConnClosed { conn_id }, |_| false, |_| false);
    assert_eq!(closed(&actions), vec![(1, CloseReason::Unused)]);
    assert!(pool.peer(peer(0)).is_none());
}

#[test]
fn the_unused_event_is_due_with_the_last_reference() {
    let mut pool = pool(&test_options());
    let id = peer(0);
    let a = get(&mut pool, id, 1, 0).unwrap();
    let b = get(&mut pool, id, 1, 0).unwrap();
    let (_, a) = a.into_parts();
    let (_, b) = b.into_parts();
    let conn_id = a.id();
    assert_eq!(pool.release(a), None);
    assert_eq!(pool.release(b), Some(conn_id));
    assert_eq!(pool.next_unused_timer(), None);
    pool.handle_unused_event(conn_id, at(3));
    assert_eq!(pool.next_unused_timer(), Some(100_000_003));
}

#[test]
fn an_unused_event_that_was_overtaken_is_ignored() {
    let mut pool = pool(&test_options());
    let id = peer(0);
    let a = get(&mut pool, id, 1, 0).unwrap();
    let (_, permit) = a.into_parts();
    let event = pool.release(permit).unwrap();
    let b = get(&mut pool, id, 1, 0).unwrap();
    pool.handle_unused_event(event, at(3));
    assert_eq!(pool.next_unused_timer(), None);
    drop(b);
}

#[test]
fn references_are_counted_after_the_connection_is_given_up() {
    let mut pool = pool(&test_options());
    let id = peer(0);
    let a = get(&mut pool, id, 1, 0).unwrap();
    let b = get(&mut pool, id, 1, 0).unwrap();
    let actions = pool.handle_msg(ActorMessage::ConnectionShutdown { id }, false);
    assert_eq!(closed(&actions), vec![(1, CloseReason::Drop)]);
    insert_ready(&mut pool, id, 2, 7);
    let (_, a) = a.into_parts();
    let (_, b) = b.into_parts();
    let conn_id = a.id();
    assert_eq!(pool.release(a), None);
    assert_eq!(pool.release(b), Some(conn_id));
    pool.handle_unused_event(conn_id, at(50));
    assert_eq!(pool.next_unused_timer(), Some(100_000_007));
}

#[test]
fn shutdown_refuses_waiters_and_closes_connections() {
    let mut pool = pool(&test_options());
    started(&request(&mut pool, peer(1), 11));
    request(&mut pool, peer(1), 12);
    insert_ready(&mut pool, peer(2), 2, 0);
    let held = get(&mut pool, peer(3), 3, 0).unwrap();
    let actions = pool.shutdown();
    assert_eq!(closed(&actions), vec![(2, CloseReason::Unused), (3, CloseReason::Drop)]);
    let res = answers(actions);
    assert_eq!(res.len(), 2);
    assert!(matches!(res[0], (11, Err(PoolConnectError::Shutdown {}))));
    assert!(matches!(res[1], (12, Err(PoolConnectError::Shutdown {}))));
    assert!(pool.peer(peer(1)).is_none());
    assert!(pool.peer(peer(2)).is_none());
    assert!(pool.peer(peer(3)).is_none());
    assert_eq!(pool.next_unused_timer(), None);
    let (_, permit) = held.into_parts();
    let conn_id = permit.id();
    assert_eq!(pool.release(permit), Some(conn_id));
}

#[test]
fn a_pool_that_is_gone_answers_shutdown() {
    assert!(matches!(request_outcome::<u8>(None), Err(PoolConnectError::Shutdown {})));
    assert!(matches!(request_outcome(Some(Ok(3u8))), Ok(3)));
    assert!(matches!(
        request_outcome::<u8>(Some(Err(PoolConnectError::Closed {}))),
        Err(PoolConnectError::Closed {})
    ));
    assert_eq!(close_outcome(true), Ok(()));
    assert_eq!(close_outcome(false), Err(ConnectionPoolError::Shutdown {}));
}

#[test]
fn a_new_connection_evicts_the_oldest() {
    let mut pool = pool(&Options { max_connections: 1, ..test_options() });
    // Both attempts start before either connection exists.
    let a = started(&request(&mut pool, peer(0), 10));
    let b = started(&request(&mut pool, peer(1), 11));
    pool.handle_connect_result(a, Ok(1), &vec![true], at(0));
    let actions = pool.handle_connect_result(b, Ok(2), &vec![false], at(5));
    assert_eq!(closed(&actions), vec![(1, CloseReason::Unused)]);
    let b = answers(actions);
    assert_eq!(b.len(), 1);
    assert!(matches!(b[0], (11, Ok(_))));
    assert!(pool.peer(peer(0)).is_none());
    assert!(is_ready(&pool, peer(1)));
    assert_eq!(pool.next_unused_timer(), None);
}

#[test]
fn generations_that_were_never_issued_are_stale_too() {
    let mut pool = pool(&test_options());
    let id = peer(0);
    insert_ready(&mut pool, id, 1, 7);
    assert!(pool.handle_conn_closed(some_attempt(id)).is_empty());
    pool.handle_unused_event(some_attempt(id), at(50));
    assert!(is_ready(&pool, id));
    assert_eq!(pool.next_unused_timer(), Some(100_000_007));
}

#[test]
fn messages_are_accepted_while_the_counters_last() {
    let mut pool = pool(&Options { max_connections: 1, ..test_options() });
    let request_for = |n: u128| ActorMessage::RequestRef(RequestRef { id: peer(n), waiter: 1 });
    // An attempt can be started.
    assert!(pool.accepts(&request_for(0), false));
    started(&request(&mut pool, peer(0), 0));
    // An attempt can be shared, a message to close is always accepted.
    assert!(pool.accepts(&request_for(0), false));
    assert!(pool.accepts(&ActorMessage::ConnectionShutdown { id: peer(0) }, false));
    let held = get(&mut pool, peer(1), 1, 0).unwrap();
    // A reference can be handed out, a full pool refuses.
    assert!(pool.accepts(&request_for(1), false));
    assert!(pool.accepts(&request_for(1), true));
    assert!(pool.accepts(&request_for(2), false));
    drop(held);
}

#[test]
fn closing_a_peer_leaves_the_others_alone() {
    let mut pool = pool(&test_options());
    insert_ready(&mut pool, peer(1), 1, 5);
    let held = get(&mut pool, peer(2), 2, 5).unwrap();
    started(&request(&mut pool, peer(3), 9));
    // The pool does not know this one.
    assert!(pool.handle_msg(ActorMessage::ConnectionShutdown { id: peer(4) }, false).is_empty());
    let actions = pool.handle_msg(ActorMessage::ConnectionShutdown { id: peer(2) }, false);
    assert_eq!(closed(&actions), vec![(2, CloseReason::Drop)]);
    assert_eq!(actions.len(), 1);
    assert!(is_ready(&pool, peer(1)));
    assert!(pool.peer(peer(2)).is_none());
    assert!(is_connecting(&pool, peer(3)));
    assert_eq!(pool.next_unused_timer(), Some(100_000_005));
    drop(held);
}

#[test]
fn idle_times_far_from_the_start_of_the_clock_expire() {
    // More nanoseconds than fit into 64 bits.
    let ages = 1 << 40;
    let mut pool = pool(&test_options());
    let id = peer(0);
    let conn_id = started(&request(&mut pool, id, 0));
    let late = Duration { secs: ages, nanos: 7 };
    pool.handle_connect_result(conn_id, Ok(1), &vec![true], late);
    let due = ages as u128 * 1_000_000_000 + 100_000_007;
    assert!(due > u64::MAX as u128);
    assert_eq!(pool.next_unused_timer(), Some(due));
    assert!(pool.close_unused(Duration { secs: ages, nanos: 100_000_006 }).is_empty());
    let actions = pool.close_unused(Duration { secs: ages, nanos: 100_000_007 });
    assert_eq!(closed(&actions), vec![(1, CloseReason::Unused)]);
}

#[test]
fn the_limit_holds_whatever_happens() {
    let max = 3;
    let mut pool = pool(&Options { max_connections: max, ..test_options() });
    let mut held = Vec::new();
    for step in 0..200u64 {
        let id = peer((step * 7 % 11) as u128);
        match step % 5 {
            0 | 1 => {
                let result = get(&mut pool, id, step, step * MILLI);
                held.extend(result);
            }
            2 => {
                pool.handle_msg(ActorMessage::ConnectionShutdown { id }, false);
            }
            3 => {
                if !held.is_empty() {
                    let reference = held.remove(0);
                    put_back(&mut pool, reference, step * MILLI);
                }
            }
            _ => {
                pool.close_unused(at(step * MILLI));
            }
        }
        let ready = (0..11).filter(|n| is_ready(&pool, peer(*n))).count();
        assert!(ready <= max);
    }
}
