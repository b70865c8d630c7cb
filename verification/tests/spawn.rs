use hi_kafka::spawn::{
    ensure_worker, lock_path_for, SpawnAction, SpawnConfig, SpawnError, SpawnEvent, SpawnStage,
};

fn config() -> SpawnConfig {
    SpawnConfig {
        socket: "/run/kafka/worker.sock".to_string(),
        brokers: None,
        log_level: "info".to_string(),
        log_file: None,
        drain_timeout_ms: 10_000,
        ready_timeout_ms: 5_000,
    }
}

fn reached(stage: SpawnStage, events: Vec<SpawnEvent>) -> (SpawnStage, SpawnAction) {
    let cfg = config();
    let first = stage.action(&cfg);
    let mut at = (stage, first);
    for event in events {
        at = ensure_worker(&cfg, at.0, event);
    }
    at
}

fn locked(now_ns: u64) -> Vec<SpawnEvent> {
    vec![
        SpawnEvent::Probed(false),
        SpawnEvent::DirMade(Ok(())),
        SpawnEvent::LockOpened(Ok(())),
        SpawnEvent::LockTried { got: true, now_ns },
    ]
}

#[test]
fn test_lock_path_for() {
    let p = lock_path_for("/tmp/hi-kafka.sock");
    assert_eq!(p, "/tmp/hi-kafka.sock.spawn-lock");
}

#[test]
fn lock_paths_are_those_of_std() {
    for s in [
        "", ".", "..", "/", "a", "a/", "/a", "/a/", "a/b", "a//b", "a/./b", "a/b/.", "a/..",
        "/..", "../a", "./a", "//a", "/a/b//",
    ] {
        let mut p = std::path::PathBuf::from(s);
        let mut name = p.file_name().map(|n| n.to_os_string()).unwrap_or_default();
        name.push(".spawn-lock");
        p.set_file_name(name);
        assert_eq!(lock_path_for(s), p.to_str().unwrap(), "{s:?}");
    }
}

#[test]
fn two_spellings_of_a_socket_share_a_lock() {
    let a = lock_path_for("/run/./kafka//worker.sock");
    let b = lock_path_for("/run/kafka/worker.sock");
    assert!(hi_kafka::path::same_path(&a, &b));
    let c = lock_path_for("/run/kafka/other.sock");
    assert!(!hi_kafka::path::same_path(&a, &c));
}

#[test]
fn a_running_worker_is_left_alone() {
    let (stage, action) = reached(SpawnStage::FirstProbe, vec![SpawnEvent::Probed(true)]);
    assert!(matches!(stage, SpawnStage::Done(Ok(()))));
    assert!(matches!(action, SpawnAction::Finish));
}

#[test]
fn the_lock_file_lies_beside_the_socket() {
    let (_, action) = reached(SpawnStage::FirstProbe, vec![]);
    assert!(matches!(action, SpawnAction::Probe));
    let (_, action) = reached(SpawnStage::FirstProbe, vec![SpawnEvent::Probed(false)]);
    assert!(matches!(action, SpawnAction::CreateDir(d) if d == "/run/kafka"));
    let (_, action) = reached(
        SpawnStage::FirstProbe,
        vec![SpawnEvent::Probed(false), SpawnEvent::DirMade(Ok(()))],
    );
    assert!(
        matches!(action, SpawnAction::OpenLock(f) if f == "/run/kafka/worker.sock.spawn-lock")
    );
}

#[test]
fn who_gets_the_lock_forks_and_waits() {
    let mut events = locked(1_000);
    let (stage, action) = reached(SpawnStage::FirstProbe, locked(1_000));
    assert!(
        matches!(stage, SpawnStage::Fork { deadline_ns } if deadline_ns == 5_000_001_000)
    );
    assert!(matches!(action, SpawnAction::Fork));
    events.push(SpawnEvent::Forked(Ok(())));
    events.push(SpawnEvent::Time { now_ns: 2_000 });
    events.push(SpawnEvent::Probed(false));
    let (stage, action) = reached(SpawnStage::FirstProbe, events);
    assert!(matches!(stage, SpawnStage::Pause { .. }));
    assert!(matches!(action, SpawnAction::Sleep { ms: 30 }));
}

#[test]
fn who_does_not_get_the_lock_only_waits() {
    let (stage, action) = reached(
        SpawnStage::Lock,
        vec![SpawnEvent::LockTried {
            got: false,
            now_ns: 7,
        }],
    );
    assert!(matches!(stage, SpawnStage::Clock { deadline_ns } if deadline_ns == 5_000_000_007));
    assert!(matches!(action, SpawnAction::ReadTime));
    let (stage, _) = reached(
        stage,
        vec![
            SpawnEvent::Time { now_ns: 8 },
            SpawnEvent::Probed(false),
            SpawnEvent::Paused,
            SpawnEvent::Time { now_ns: 9 },
            SpawnEvent::Probed(true),
        ],
    );
    assert!(matches!(stage, SpawnStage::Done(Ok(()))));
}

#[test]
fn a_worker_that_never_answers_is_given_up() {
    let deadline_ns = 5_000_000_000u128;
    let (stage, action) = reached(
        SpawnStage::Clock { deadline_ns },
        vec![SpawnEvent::Time {
            now_ns: 4_999_999_999,
        }],
    );
    assert!(matches!(stage, SpawnStage::Probe { .. }));
    assert!(matches!(action, SpawnAction::Probe));
    let (stage, action) = reached(
        SpawnStage::Clock { deadline_ns },
        vec![SpawnEvent::Time {
            now_ns: 5_000_000_000,
        }],
    );
    assert!(matches!(
        stage,
        SpawnStage::Done(Err(SpawnError::NotReady { timeout_ms: 5000 }))
    ));
    assert!(matches!(action, SpawnAction::Finish));
}

#[test]
fn giving_up_reports_the_time_the_worker_was_given() {
    let mut cfg = config();
    cfg.ready_timeout_ms = 250;
    let (stage, _) = ensure_worker(
        &cfg,
        SpawnStage::Lock,
        SpawnEvent::LockTried {
            got: false,
            now_ns: 1_000,
        },
    );
    let late = SpawnEvent::Time {
        now_ns: 900_000_000,
    };
    let error = match ensure_worker(&cfg, stage, late).0 {
        SpawnStage::Done(Err(e)) => e,
        other => panic!("{other:?}"),
    };
    assert_eq!(error.message(), "worker did not become ready in 250ms");
}

#[test]
fn failures_end_the_start() {
    let (stage, _) = reached(
        SpawnStage::LockDir,
        vec![SpawnEvent::DirMade(Err("denied".to_string()))],
    );
    assert!(matches!(stage, SpawnStage::Done(Err(SpawnError::CreateLockFile(e))) if e == "denied"));
    let (stage, _) = reached(
        SpawnStage::LockFile,
        vec![SpawnEvent::LockOpened(Err("full".to_string()))],
    );
    assert!(matches!(stage, SpawnStage::Done(Err(SpawnError::CreateLockFile(e))) if e == "full"));
    let mut events = locked(0);
    events.push(SpawnEvent::Forked(Err("no memory".to_string())));
    events.push(SpawnEvent::Probed(true));
    let (stage, action) = reached(SpawnStage::FirstProbe, events);
    assert!(matches!(stage, SpawnStage::Done(Err(SpawnError::ForkFailed(e))) if e == "no memory"));
    assert!(matches!(action, SpawnAction::Finish));
}

#[test]
fn an_event_that_is_not_waited_for_changes_nothing() {
    let (stage, action) = reached(SpawnStage::Lock, vec![SpawnEvent::Forked(Ok(()))]);
    assert!(matches!(stage, SpawnStage::Lock));
    assert!(matches!(action, SpawnAction::TryLock));
}

#[test]
fn spawn_errors_in_words() {
    assert_eq!(
        SpawnError::ForkFailed("EAGAIN".to_string()).message(),
        "fork failed: EAGAIN"
    );
    assert_eq!(
        SpawnError::NotReady { timeout_ms: 5000 }.message(),
        "worker did not become ready in 5000ms"
    );
    assert_eq!(
        SpawnError::CreateLockFile("EACCES".to_string()).message(),
        "create spawn lock file: EACCES"
    );
}
