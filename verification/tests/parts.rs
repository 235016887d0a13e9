use connection_pool::action::{CloseReason, CLOSE_CODE};
use connection_pool::counter::{ConnectionCounter, ConnectionRef};
use connection_pool::error::{ConnectionPoolError, PoolConnectError};
use connection_pool::ids::{ConnId, EndpointId, Generation};
use connection_pool::options::{Duration, Options, LONGEST};
use connection_pool::unused::UnusedSet;

/// So many nanoseconds after the clock was started.
fn at(nanos: u32) -> Duration {
    Duration { secs: 0, nanos }
}

fn conn_id(hi: u128, generation: u64) -> ConnId {
    ConnId { peer: EndpointId { hi, lo: 0 }, generation: Generation(generation) }
}

#[test]
fn generations_count_up() {
    let mut generation = Generation(0);
    assert_eq!(generation.next(), Generation(0));
    assert_eq!(generation.next(), Generation(1));
    assert_eq!(generation, Generation(2));
}

#[test]
fn connections_are_named_by_peer_and_generation() {
    let bytes = *iroh::SecretKey::from_bytes(&[7; 32]).public().as_bytes();
    let mut hi = [0; 16];
    hi.copy_from_slice(&bytes[..16]);
    let mut lo = [0; 16];
    lo.copy_from_slice(&bytes[16..]);
    let peer = EndpointId { hi: u128::from_be_bytes(hi), lo: u128::from_be_bytes(lo) };
    let expected = iroh::EndpointId::from_bytes(&bytes).unwrap().fmt_short().to_string();
    assert_eq!(peer.fmt_short(), expected);
    let id = ConnId { peer, generation: Generation(1907) };
    assert_eq!(id.to_text(), format!("{expected}#1907"));
}

#[test]
fn short_names_hold_five_bytes() {
    let peer = EndpointId { hi: 0x0123_4567_89ab_cdef_0123_4567_89ab_cdef, lo: u128::MAX };
    assert_eq!(peer.fmt_short(), "0123456789");
    let peer = EndpointId { hi: 0xfedc_ba98_7600_0000_0000_0000_0000_0000, lo: 0 };
    assert_eq!(peer.fmt_short(), "fedcba9876");
    assert_eq!(conn_id(0, 0).to_text(), "0000000000#0");
    assert_eq!(conn_id(0, u64::MAX).to_text(), "0000000000#18446744073709551615");
}

#[test]
fn default_options() {
    let options: Options<u8> = Options::default();
    assert_eq!(options.idle_timeout, Duration { secs: 5, nanos: 0 });
    assert_eq!(options.idle_timeout, Duration::from_secs(5));
    assert_eq!(options.connect_timeout, Duration { secs: 1, nanos: 0 });
    assert_eq!(options.max_connections, 1024);
    assert_eq!(options.on_connected, None);
    let options = options.with_on_connected(3);
    let copy = options.clone();
    assert_eq!(copy.idle_timeout, options.idle_timeout);
    assert_eq!(copy.connect_timeout, options.connect_timeout);
    assert_eq!(copy.max_connections, options.max_connections);
    assert_eq!(copy.on_connected, Some(3));
    assert_eq!(options.on_connected, Some(3));
    assert_eq!(options.max_connections, 1024);
}

#[test]
fn durations_are_exact() {
    assert_eq!(Duration::from_millis(1500), Duration { secs: 1, nanos: 500_000_000 });
    assert_eq!(Duration::from_millis(1500).as_nanos(), 1_500_000_000);
    let longest = Duration { secs: u64::MAX, nanos: u32::MAX };
    assert_eq!(longest.as_nanos(), LONGEST);
    assert_eq!(LONGEST, u64::MAX as u128 * 1_000_000_000 + u32::MAX as u128);
}

#[test]
fn the_unused_set_keeps_the_order() {
    let timeout = Duration { secs: 0, nanos: 100 };
    let mut set = UnusedSet::new();
    assert_eq!(set.oldest(), None);
    assert_eq!(set.pop_oldest(), None);
    assert_eq!(set.pop_expired(Duration { secs: u64::MAX, nanos: 0 }, timeout), None);
    set.insert(conn_id(1, 1), at(10));
    set.insert(conn_id(2, 2), at(5));
    set.insert(conn_id(3, 3), at(20));
    assert_eq!(set.oldest(), Some(5));
    // Going unused again counts from the later time.
    set.insert(conn_id(2, 2), at(15));
    assert_eq!(set.oldest(), Some(10));
    set.remove(conn_id(1, 1));
    set.remove(conn_id(1, 1));
    assert_eq!(set.oldest(), Some(15));
    assert_eq!(set.pop_expired(at(114), timeout), None);
    assert_eq!(set.pop_expired(at(115), timeout), Some(conn_id(2, 2)));
    assert_eq!(set.pop_oldest(), Some(conn_id(3, 3)));
    assert_eq!(set.oldest(), None);
}

#[test]
fn the_unused_set_orders_ties_by_id() {
    let mut set = UnusedSet::new();
    set.insert(conn_id(2, 1), at(5));
    set.insert(conn_id(1, 7), at(5));
    set.insert(conn_id(1, 3), at(5));
    assert_eq!(set.pop_oldest(), Some(conn_id(1, 3)));
    assert_eq!(set.pop_oldest(), Some(conn_id(1, 7)));
    assert_eq!(set.pop_oldest(), Some(conn_id(2, 1)));
}

#[test]
fn counters_count_references() {
    let mut counter = ConnectionCounter::new(conn_id(1, 1));
    assert!(counter.is_unused());
    let a = counter.get_one();
    let b = counter.get_one();
    assert_eq!(counter.current(), 2);
    assert_eq!(a.id(), conn_id(1, 1));
    assert_eq!(counter.put_back(a), None);
    assert_eq!(counter.put_back(b), Some(conn_id(1, 1)));
    assert!(counter.is_unused());
}

#[test]
fn references_lead_to_the_connection() {
    let mut counter = ConnectionCounter::new(conn_id(1, 1));
    let reference = ConnectionRef::new("connection", counter.get_one());
    assert_eq!(*reference, "connection");
    let (connection, permit) = reference.into_parts();
    assert_eq!(connection, "connection");
    assert_eq!(permit.id(), conn_id(1, 1));
}

#[test]
fn reasons_have_a_text() {
    assert_eq!(CloseReason::Unused.text(), "unused");
    assert_eq!(CloseReason::Drop.text(), "drop");
    assert_eq!(CloseReason::Discarded.text(), "discarded");
    assert_eq!(CloseReason::TooManyConnections.text(), "too many connections");
    assert_eq!(CloseReason::OnConnectedFailed.text(), "on_connected failed");
    assert_eq!(CLOSE_CODE, 0);
}

#[test]
fn errors_share_their_source() {
    let error = PoolConnectError::from(std::io::Error::other("broken"));
    let copy = error.clone();
    match (&error, &copy) {
        (
            PoolConnectError::OnConnectError { source: a },
            PoolConnectError::OnConnectError { source: b },
        ) => {
            assert!(std::sync::Arc::ptr_eq(a, b));
            assert_eq!(a.to_string(), "broken");
        }
        other => panic!("{other:?}"),
    }
    let lost = iroh::endpoint::ConnectionError::TimedOut;
    let error = PoolConnectError::from(iroh::endpoint::ConnectError::from(lost));
    match (&error, &error.clone()) {
        (
            PoolConnectError::ConnectError { source: a },
            PoolConnectError::ConnectError { source: b },
        ) => assert!(std::sync::Arc::ptr_eq(a, b)),
        other => panic!("{other:?}"),
    }
    for plain in [
        PoolConnectError::Shutdown {},
        PoolConnectError::Closed {},
        PoolConnectError::Timeout {},
        PoolConnectError::TooManyConnections {},
    ] {
        assert_eq!(format!("{:?}", plain.clone()), format!("{plain:?}"));
    }
}

#[test]
fn errors_have_a_text() {
    assert_eq!(PoolConnectError::Shutdown {}.text(), Some("Connection pool is shut down"));
    assert_eq!(PoolConnectError::Closed {}.text(), Some("Connection was closed"));
    assert_eq!(PoolConnectError::Timeout {}.text(), Some("Timeout during connect"));
    assert_eq!(PoolConnectError::TooManyConnections {}.text(), Some("Too many connections"));
    assert_eq!(PoolConnectError::from(std::io::Error::other("broken")).text(), None);
    let lost = iroh::endpoint::ConnectionError::TimedOut;
    assert_eq!(PoolConnectError::from(iroh::endpoint::ConnectError::from(lost)).text(), None);
    assert_eq!(ConnectionPoolError::Shutdown {}.text(), "The connection pool has been shut down");
}
