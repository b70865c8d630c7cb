use hi_kafka::spawn::SpawnError;
use hi_kafka::worker_health::{
    cached_count, ensure, invalidate, EnsureEvent, EnsureStep, WorkerCache,
};

fn started(cache: &mut WorkerCache, socket: &str) {
    let step = ensure(cache, socket, EnsureEvent::Started(Ok(())));
    assert!(matches!(step, EnsureStep::Return(Ok(()))));
}

#[test]
fn test_invalidate_unknown_is_noop() {
    let mut cache = WorkerCache::new();
    invalidate(&mut cache, "/does/not/exist.sock");
}

#[test]
fn test_cache_state_is_per_socket() {
    let mut cache = WorkerCache::new();
    let len_before = cached_count(&cache);
    invalidate(&mut cache, "/tmp/some-fake-socket-for-test.sock");
    let len_after = cached_count(&cache);
    assert_eq!(len_before, len_after);
}

#[test]
fn a_started_worker_is_remembered_until_it_is_doubted() {
    let mut cache = WorkerCache::new();
    let wanted = ensure(&mut cache, "/tmp/a.sock", EnsureEvent::Wanted);
    assert!(matches!(wanted, EnsureStep::Start));
    started(&mut cache, "/tmp/a.sock");
    let again = ensure(&mut cache, "/tmp//a.sock", EnsureEvent::Wanted);
    assert!(matches!(again, EnsureStep::Return(Ok(()))));
    invalidate(&mut cache, "/tmp/./a.sock");
    let doubted = ensure(&mut cache, "/tmp/a.sock", EnsureEvent::Wanted);
    assert!(matches!(doubted, EnsureStep::Start));
}

#[test]
fn a_failed_start_is_not_remembered() {
    let mut cache = WorkerCache::new();
    let failed = ensure(
        &mut cache,
        "/tmp/a.sock",
        EnsureEvent::Started(Err(SpawnError::NotReady { timeout_ms: 3 })),
    );
    assert!(matches!(
        failed,
        EnsureStep::Return(Err(SpawnError::NotReady { timeout_ms: 3 }))
    ));
    assert_eq!(cached_count(&cache), 0);
}

#[test]
fn sockets_are_counted_once_and_forgotten_one_by_one() {
    let mut cache = WorkerCache::new();
    started(&mut cache, "/tmp/a.sock");
    started(&mut cache, "/tmp/b.sock");
    started(&mut cache, "/tmp/c.sock");
    started(&mut cache, "/tmp/b.sock");
    assert_eq!(cached_count(&cache), 3);
    invalidate(&mut cache, "/tmp/b.sock");
    assert_eq!(cached_count(&cache), 2);
    let a = ensure(&mut cache, "/tmp/a.sock", EnsureEvent::Wanted);
    assert!(matches!(a, EnsureStep::Return(Ok(()))));
    let c = ensure(&mut cache, "/tmp/c.sock", EnsureEvent::Wanted);
    assert!(matches!(c, EnsureStep::Return(Ok(()))));
}

#[test]
fn doubting_a_worker_counts_once() {
    let mut cache = WorkerCache::new();
    started(&mut cache, "/tmp/a.sock");
    started(&mut cache, "/tmp/b.sock");
    invalidate(&mut cache, "/tmp/a.sock");
    assert_eq!(cached_count(&cache), 1);
    invalidate(&mut cache, "/tmp/a.sock");
    assert_eq!(cached_count(&cache), 1);
    invalidate(&mut cache, "/does/not/exist.sock");
    assert_eq!(cached_count(&cache), 1);
}
