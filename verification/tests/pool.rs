use hi_kafka::pool::{
    all_stats, is_alive, pool_for, pool_size, AcquireStep, ConnectionPool, PoolError, PoolRegistry,
    PooledConn, ProbeRead,
};
use std::cell::Cell;

fn alive(_: &u32) -> bool {
    true
}

fn put_idle(pool: &mut ConnectionPool<u32>, n: u32) {
    let conn = pool.note_connect(Ok(n)).unwrap();
    conn.give_back(pool);
}

fn take(pool: &mut ConnectionPool<u32>, opened: &Cell<u32>) -> PooledConn<u32> {
    pool.acquire(alive, |_: &str| {
        opened.set(opened.get() + 1);
        Ok(opened.get())
    })
    .unwrap()
}

#[test]
fn test_acquire_creates_then_reuses() {
    let opened = Cell::new(0);
    let mut pool = ConnectionPool::new("/tmp/pool.sock".to_string(), 4);

    let c1 = take(&mut pool, &opened);
    c1.give_back(&mut pool);
    assert_eq!(pool.idle_count(), 1);

    let c2 = take(&mut pool, &opened);
    c2.give_back(&mut pool);
    let s = pool.stats();
    assert_eq!(s.acquires_total, 2);
    assert_eq!(s.misses_total, 1);
    assert!(s.hits_total >= 1);
}

#[test]
fn test_poisoned_not_returned() {
    let opened = Cell::new(0);
    let mut pool = ConnectionPool::new("/tmp/pool.sock".to_string(), 4);
    let mut c = take(&mut pool, &opened);
    c.poison(&mut pool);
    c.give_back(&mut pool);
    assert_eq!(pool.idle_count(), 0);
    assert_eq!(pool.stats().poisoned_total, 1);
}

#[test]
fn test_max_idle_caps_pool() {
    let opened = Cell::new(0);
    let mut pool = ConnectionPool::new("/tmp/pool.sock".to_string(), 2);
    let c1 = take(&mut pool, &opened);
    let c2 = take(&mut pool, &opened);
    let c3 = take(&mut pool, &opened);
    c1.give_back(&mut pool);
    c2.give_back(&mut pool);
    c3.give_back(&mut pool);

    assert_eq!(pool.idle_count(), 2);
}

#[test]
fn test_pool_for_returns_same_instance() {
    let mut registry: PoolRegistry<u32> = PoolRegistry::new();
    let a = pool_for(&mut registry, "/tmp/pool.sock", None);
    let b = pool_for(&mut registry, "/tmp/pool.sock", None);
    assert_eq!(a, b);
}

#[test]
fn the_connection_given_back_last_is_reused_first() {
    let opened = Cell::new(0);
    let mut pool = ConnectionPool::new("/tmp/pool.sock".to_string(), 4);
    let c1 = take(&mut pool, &opened);
    let c2 = take(&mut pool, &opened);
    c2.give_back(&mut pool);
    c1.give_back(&mut pool);
    let mut again = take(&mut pool, &opened);
    assert_eq!(*again.stream_mut(), 1);
    *again.stream_mut() = 11;
    again.give_back(&mut pool);
    assert_eq!(*take(&mut pool, &opened).stream_mut(), 11);
    assert_eq!(*take(&mut pool, &opened).stream_mut(), 2);
    assert_eq!(opened.get(), 2);
}

#[test]
fn dead_connections_are_dropped_on_the_way() {
    let mut pool = ConnectionPool::new("/tmp/pool.sock".to_string(), 4);
    for n in [1u32, 2, 3] {
        put_idle(&mut pool, n);
    }
    let mut c = pool
        .acquire(|n: &u32| *n < 2, |_: &str| Err("unused".to_string()))
        .unwrap();
    assert_eq!(*c.stream_mut(), 1);
    let s = pool.stats();
    assert_eq!(s.closed_total, 2);
    assert_eq!(s.hits_total, 1);
    assert_eq!(s.misses_total, 0);
    assert_eq!(pool.idle_count(), 0);
}

#[test]
fn where_all_are_dead_a_new_one_is_opened() {
    let mut pool = ConnectionPool::new("/tmp/pool.sock".to_string(), 4);
    put_idle(&mut pool, 1);
    let mut c = pool
        .acquire(|_: &u32| false, |socket: &str| Ok(socket.len() as u32))
        .unwrap();
    assert_eq!(*c.stream_mut(), 14);
    let s = pool.stats();
    assert_eq!(
        (s.acquires_total, s.hits_total, s.misses_total, s.closed_total),
        (1, 0, 1, 1)
    );
}

#[test]
fn a_connection_that_cannot_be_opened_is_an_error() {
    let mut pool = ConnectionPool::new("/tmp/pool.sock".to_string(), 4);
    let r = pool.acquire(alive, |_: &str| Err("refused".to_string()));
    let PoolError::Connect { socket, source } = r.err().unwrap();
    assert_eq!(socket, "/tmp/pool.sock");
    assert_eq!(source, "refused");
    assert_eq!(pool.stats().misses_total, 1);
    assert_eq!(
        PoolError::Connect { socket, source }.message(),
        "connect /tmp/pool.sock: refused"
    );
}

#[test]
fn requests_are_hits_or_misses() {
    let opened = Cell::new(0);
    let mut pool = ConnectionPool::new("/tmp/pool.sock".to_string(), 1);
    for _ in 0..5 {
        let a = take(&mut pool, &opened);
        let b = take(&mut pool, &opened);
        a.give_back(&mut pool);
        b.give_back(&mut pool);
        let s = pool.stats();
        assert_eq!(s.acquires_total, s.hits_total + s.misses_total);
    }
    assert_eq!(pool.stats().acquires_total, 10);
    let failed = pool
        .acquire(|_: &u32| false, |_: &str| Err("refused".to_string()))
        .is_err();
    assert!(failed);
    let s = pool.stats();
    assert_eq!(s.acquires_total, 11);
    assert_eq!(s.acquires_total, s.hits_total + s.misses_total);
}

#[test]
fn the_steps_of_a_request_add_up() {
    let mut pool = ConnectionPool::new("/tmp/pool.sock".to_string(), 2);
    put_idle(&mut pool, 5);
    pool.begin_acquire();
    let stream = match pool.take_idle() {
        AcquireStep::Probe(stream) => stream,
        AcquireStep::Connect => panic!("one is idle"),
    };
    assert!(pool.note_probe(stream, false).is_none());
    assert!(matches!(pool.take_idle(), AcquireStep::Connect));
    let mut conn = pool.note_connect(Ok(6)).unwrap();
    assert_eq!(*conn.stream_mut(), 6);
    let s = pool.stats();
    assert_eq!(
        (s.acquires_total, s.hits_total, s.misses_total, s.closed_total),
        (1, 0, 1, 1)
    );
    let kept = pool.note_probe(7, true);
    assert_eq!(*kept.unwrap().stream_mut(), 7);
    assert_eq!(pool.stats().hits_total, 1);
}

#[test]
fn a_pool_may_keep_nothing() {
    let mut pool = ConnectionPool::new("/tmp/pool.sock".to_string(), 0);
    put_idle(&mut pool, 1);
    assert_eq!(pool.idle_count(), 0);
    assert_eq!(pool.max_idle(), 0);
    assert_eq!(pool.socket(), "/tmp/pool.sock");
}

#[test]
fn only_a_silent_connection_is_alive() {
    assert!(is_alive(ProbeRead::WouldBlock));
    assert!(!is_alive(ProbeRead::Read(0)));
    assert!(!is_alive(ProbeRead::Read(1)));
    assert!(!is_alive(ProbeRead::Failed));
    assert!(!is_alive(ProbeRead::NotSwitched));
}

#[test]
fn pool_sizes_are_positive_numbers() {
    assert_eq!(pool_size(None), 16);
    assert_eq!(pool_size(Some("4")), 4);
    assert_eq!(pool_size(Some("0")), 16);
    assert_eq!(pool_size(Some("-4")), 16);
    assert_eq!(pool_size(Some("four")), 16);
    assert_eq!(pool_size(Some("")), 16);
}

#[test]
fn each_socket_has_one_pool() {
    let opened = Cell::new(0);
    let mut registry: PoolRegistry<u32> = PoolRegistry::new();
    let a = pool_for(&mut registry, "/tmp/a.sock", Some("3"));
    let b = pool_for(&mut registry, "/tmp/b.sock", None);
    assert_ne!(a, b);
    let spelt = pool_for(&mut registry, "/tmp//a.sock", Some("9"));
    assert_eq!(spelt, a);

    let conn = take(registry.pool(b), &opened);
    conn.give_back(registry.pool(b));
    let stats = all_stats(&registry);
    assert_eq!(stats.len(), 2);
    let (socket, counters, idle, max_idle) = &stats[a];
    assert_eq!(socket, "/tmp/a.sock");
    assert_eq!(counters.acquires_total, 0);
    assert_eq!((*idle, *max_idle), (0, 3));
    let (socket, counters, idle, max_idle) = &stats[b];
    assert_eq!(socket, "/tmp/b.sock");
    assert_eq!(counters.acquires_total, 1);
    assert_eq!((*idle, *max_idle), (1, 16));
}
