//! Starting the worker.
//!
//! The first process that needs the worker forks it; the others wait for its socket.
//! Who forks is settled by an exclusive lock on a file beside the socket. Probing,
//! locking, forking and waiting are left to the caller: [`ensure_worker`] is told what
//! came of the last thing and says what to do next.

use crate::ini_config::{drain_timeout_ms, log_file, log_level, Source};
use crate::path::{file_name_of, join, parent_of};
use crate::text::push_decimal;
use vstd::prelude::*;
use vstd::string::StringExecFns;

verus! {

/// Why the worker could not be started.
#[derive(Debug)]
pub enum SpawnError {
    /// `fork` failed, for this reason.
    ForkFailed(String),
    /// No worker answered within this time.
    NotReady { timeout_ms: u64 },
    /// The lock file could not be made, for this reason.
    CreateLockFile(String),
}

impl SpawnError {
    pub open spec fn text(self) -> Seq<char> {
        match self {
            SpawnError::ForkFailed(e) => "fork failed: "@ + e@,
            SpawnError::NotReady { timeout_ms } => "worker did not become ready in "@
                + crate::text::decimal(timeout_ms as nat) + "ms"@,
            SpawnError::CreateLockFile(e) => "create spawn lock file: "@ + e@,
        }
    }

    /// The error in words.
    pub fn message(&self) -> (r: String)
        ensures
            r@ == self.text(),
    {
        match self {
            SpawnError::ForkFailed(e) => {
                let mut r = "fork failed: ".to_owned();
                r.append(e);
                r
            },
            SpawnError::NotReady { timeout_ms } => {
                let mut r = "worker did not become ready in ".to_owned();
                push_decimal(&mut r, *timeout_ms);
                r.append("ms");
                r
            },
            SpawnError::CreateLockFile(e) => {
                let mut r = "create spawn lock file: ".to_owned();
                r.append(e);
                r
            },
        }
    }
}

/// How to start the worker.
#[derive(Debug)]
pub struct SpawnConfig {
    pub socket: String,
    pub brokers: Option<String>,
    pub log_level: String,
    pub log_file: Option<String>,
    /// How long the worker finishes what it has begun once it is told to stop.
    pub drain_timeout_ms: u64,
    /// How long to wait for the socket.
    pub ready_timeout_ms: u64,
}

/// What the environment and `php.ini` hold for the settings of the worker.
#[derive(Debug)]
pub struct SpawnSources {
    /// `HI_KAFKA_BROKERS`, from the environment alone.
    pub brokers: Option<String>,
    pub log_level: Source,
    pub log_file: Source,
    pub drain_timeout_ms: Source,
}

/// What the forked worker is given. `A` is an address to listen on.
#[derive(Debug)]
pub struct ChildConfig<A> {
    pub socket: String,
    pub brokers: Option<String>,
    pub log_level: String,
    pub log_file: Option<String>,
    pub drain_timeout_ms: u64,
    pub metrics_addr: Option<A>,
}

/// The environment variable with the brokers to register at start.
pub const ENV_BROKERS: &'static str = "HI_KAFKA_BROKERS";

/// How long to wait for the socket of a worker.
pub const READY_TIMEOUT_MS: u64 = 5_000;

/// How long to wait between two probes.
pub const PROBE_INTERVAL_MS: u64 = 30;

/// A copy of a value that may be missing.
fn copied(s: &Option<String>) -> (r: Option<String>)
    ensures
        r == *s,
{
    match s {
        Some(t) => Some(t.clone()),
        None => None,
    }
}

impl SpawnConfig {
    /// Settles the configuration, before the fork.
    pub fn from_env(socket: String, sources: &SpawnSources) -> (r: Self)
        ensures
            r.socket == socket,
            r.brokers == sources.brokers,
            r.log_level@ == (match sources.log_level.text() {
                Some(t) => t,
                None => crate::ini_config::DEFAULT_LOG_LEVEL@,
            }),
            match r.log_file {
                Some(f) => sources.log_file.text() == Some(f@),
                None => sources.log_file.text() is None,
            },
            r.drain_timeout_ms == (match sources.drain_timeout_ms.number() {
                Some(n) => n,
                None => crate::ini_config::DEFAULT_DRAIN_TIMEOUT_MS as nat,
            }),
            r.ready_timeout_ms == READY_TIMEOUT_MS,
    {
        SpawnConfig {
            socket,
            brokers: copied(&sources.brokers),
            log_level: log_level(&sources.log_level),
            log_file: log_file(&sources.log_file),
            drain_timeout_ms: drain_timeout_ms(&sources.drain_timeout_ms),
            ready_timeout_ms: READY_TIMEOUT_MS,
        }
    }

    /// The part of the configuration that goes to the worker.
    pub fn to_child_config<A>(&self, metrics_addr: Option<A>) -> (r: ChildConfig<A>)
        ensures
            r == (ChildConfig {
                socket: self.socket,
                brokers: self.brokers,
                log_level: self.log_level,
                log_file: self.log_file,
                drain_timeout_ms: self.drain_timeout_ms,
                metrics_addr,
            }),
    {
        ChildConfig {
            socket: self.socket.clone(),
            brokers: copied(&self.brokers),
            log_level: self.log_level.clone(),
            log_file: copied(&self.log_file),
            drain_timeout_ms: self.drain_timeout_ms,
            metrics_addr,
        }
    }
}

/// What is added to the name of the socket for its lock file.
pub const LOCK_SUFFIX: &'static str = ".spawn-lock";

/// The lock file of the socket at `p`: beside it, its name followed by the suffix.
pub open spec fn lock_path(p: Seq<char>) -> Seq<char> {
    match crate::path::file_name(p) {
        Some(name) => crate::path::joined(crate::path::parent(p)->0, name + LOCK_SUFFIX@),
        None => crate::path::joined(p, LOCK_SUFFIX@),
    }
}

/// The lock file of a socket.
pub fn lock_path_for(socket: &str) -> (r: String)
    ensures
        r@ == lock_path(socket@),
{
    match file_name_of(socket) {
        Some(name) => {
            proof {
                crate::path::lemma_file_name(socket@);
                crate::path::lemma_parent(socket@);
            }
            let dir = parent_of(socket).unwrap();
            let mut lock = name;
            lock.append(LOCK_SUFFIX);
            join(&dir, &lock)
        },
        None => join(socket, LOCK_SUFFIX),
    }
}

/// The components of the lock file of the socket with the components `k`.
pub open spec fn lock_key(k: crate::path::PathKey) -> crate::path::PathKey {
    crate::path::PathKey {
        parts: if k.parts.len() > 0 && k.parts.last() != seq!['.', '.'] {
            k.parts.drop_last().push(k.parts.last() + LOCK_SUFFIX@)
        } else {
            k.parts.push(LOCK_SUFFIX@)
        },
        ..k
    }
}

proof fn lemma_suffix()
    ensures
        LOCK_SUFFIX@.len() == 11,
        !LOCK_SUFFIX@.contains('/'),
{
    reveal_strlit(".spawn-lock");
    assert(LOCK_SUFFIX@ == ".spawn-lock"@);
    assert(LOCK_SUFFIX@.len() == 11);
    assert forall|i: int| 0 <= i < LOCK_SUFFIX@.len() implies #[trigger] LOCK_SUFFIX@[i]
        != '/' by {}
}

/// Which file is locked depends on the path of the socket, not on how it is spelt.
pub proof fn law_lock_follows_path(p: Seq<char>)
    ensures
        crate::path::path_key(lock_path(p)) == lock_key(crate::path::path_key(p)),
{
    lemma_suffix();
    crate::path::lemma_file_name(p);
    match crate::path::file_name(p) {
        Some(name) => {
            crate::path::lemma_parent(p);
            let lock = name + LOCK_SUFFIX@;
            assert(!lock.contains('/')) by {
                assert forall|i: int| 0 <= i < lock.len() implies #[trigger] lock[i] != '/' by {
                    if i < name.len() {
                        assert(name.contains(name[i]));
                    } else {
                        assert(LOCK_SUFFIX@.contains(LOCK_SUFFIX@[i - name.len()]));
                    }
                }
            }
            crate::path::lemma_joined(crate::path::parent(p)->0, lock);
        },
        None => {
            crate::path::lemma_joined(p, LOCK_SUFFIX@);
        },
    }
}

/// Two sockets share a lock file exactly where they are one path.
pub proof fn law_lock_per_socket(p: Seq<char>, q: Seq<char>)
    ensures
        crate::path::path_key(lock_path(p)) == crate::path::path_key(lock_path(q))
            <==> crate::path::path_key(p) == crate::path::path_key(q),
{
    law_lock_follows_path(p);
    law_lock_follows_path(q);
    lemma_suffix();
    crate::path::lemma_parts_not_void(p);
    crate::path::lemma_parts_not_void(q);
    let a = crate::path::path_key(p);
    let b = crate::path::path_key(q);
    if lock_key(a) == lock_key(b) {
        let ka = lock_key(a).parts;
        let kb = lock_key(b).parts;
        assert(ka.drop_last() == kb.drop_last());
        assert(ka.last() == kb.last());
        let named_a = a.parts.len() > 0 && a.parts.last() != seq!['.', '.'];
        let named_b = b.parts.len() > 0 && b.parts.last() != seq!['.', '.'];
        assert(named_a ==> ka.last().len() > 11);
        assert(named_b ==> kb.last().len() > 11);
        assert(!named_a ==> ka.last().len() == 11);
        assert(!named_b ==> kb.last().len() == 11);
        if named_a {
            let x = a.parts.last();
            let y = b.parts.last();
            assert((x + LOCK_SUFFIX@).take(x.len() as int) == x);
            assert((y + LOCK_SUFFIX@).take(y.len() as int) == y);
            assert(x == y);
            assert(ka.drop_last() == a.parts.drop_last());
            assert(kb.drop_last() == b.parts.drop_last());
            assert(a.parts == a.parts.drop_last().push(x));
            assert(b.parts == b.parts.drop_last().push(y));
        } else {
            assert(ka.drop_last() == a.parts);
            assert(kb.drop_last() == b.parts);
        }
    }
}

/// How far the start of a worker has come: what is waited for. Times are nanoseconds
/// on a clock that only goes forward.
#[derive(Debug)]
pub enum SpawnStage {
    /// Whether a worker is running already.
    FirstProbe,
    /// The directory of the lock file.
    LockDir,
    /// The lock file.
    LockFile,
    /// The lock.
    Lock,
    /// The new worker process.
    Fork { deadline_ns: u128 },
    /// The time, before the next probe.
    Clock { deadline_ns: u128 },
    /// Whether the worker answers by now.
    Probe { deadline_ns: u128 },
    /// The end of a pause.
    Pause { deadline_ns: u128 },
    /// Nothing: this is the outcome.
    Done(Result<(), SpawnError>),
}

/// What came of an action.
#[derive(Debug)]
pub enum SpawnEvent {
    /// Whether a connection to the socket could be made.
    Probed(bool),
    /// Whether the directory is there, or why it could not be made.
    DirMade(Result<(), String>),
    /// Whether the lock file is open, or why it could not be opened.
    LockOpened(Result<(), String>),
    /// Whether this process got the lock, and the time thereafter.
    LockTried { got: bool, now_ns: u64 },
    /// Whether the parent is back from `fork`, or why it failed.
    Forked(Result<(), String>),
    /// The time.
    Time { now_ns: u64 },
    /// The pause is over.
    Paused,
}

/// What to do next.
#[derive(Debug)]
pub enum SpawnAction {
    /// Try to connect to the socket.
    Probe,
    /// Make this directory and those above it.
    CreateDir(String),
    /// Open this file for writing; create it where it is missing.
    OpenLock(String),
    /// Try to lock the file exclusively, without waiting, then read the time.
    TryLock,
    /// Fork the worker.
    Fork,
    /// Read the time.
    ReadTime,
    /// Sleep.
    Sleep { ms: u64 },
    /// Return the outcome.
    Finish,
}

/// The time by which the worker must answer.
pub open spec fn deadline(now_ns: u64, ready_timeout_ms: u64) -> u128 {
    (now_ns + ready_timeout_ms * 1_000_000) as u128
}

/// Where an event leads. One that is not waited for changes nothing.
pub open spec fn next_stage(
    ready_timeout_ms: u64,
    stage: SpawnStage,
    event: SpawnEvent,
) -> SpawnStage {
    match (stage, event) {
        (SpawnStage::FirstProbe, SpawnEvent::Probed(alive)) => if alive {
            SpawnStage::Done(Ok(()))
        } else {
            SpawnStage::LockDir
        },
        (SpawnStage::LockDir, SpawnEvent::DirMade(r)) => match r {
            Ok(_) => SpawnStage::LockFile,
            Err(e) => SpawnStage::Done(Err(SpawnError::CreateLockFile(e))),
        },
        (SpawnStage::LockFile, SpawnEvent::LockOpened(r)) => match r {
            Ok(_) => SpawnStage::Lock,
            Err(e) => SpawnStage::Done(Err(SpawnError::CreateLockFile(e))),
        },
        (SpawnStage::Lock, SpawnEvent::LockTried { got, now_ns }) => {
            let deadline_ns = deadline(now_ns, ready_timeout_ms);
            if got {
                SpawnStage::Fork { deadline_ns }
            } else {
                SpawnStage::Clock { deadline_ns }
            }
        },
        (SpawnStage::Fork { deadline_ns }, SpawnEvent::Forked(r)) => match r {
            Ok(_) => SpawnStage::Clock { deadline_ns },
            Err(e) => SpawnStage::Done(Err(SpawnError::ForkFailed(e))),
        },
        (SpawnStage::Clock { deadline_ns }, SpawnEvent::Time { now_ns }) => if now_ns
            < deadline_ns {
            SpawnStage::Probe { deadline_ns }
        } else {
            SpawnStage::Done(Err(SpawnError::NotReady { timeout_ms: ready_timeout_ms }))
        },
        (SpawnStage::Probe { deadline_ns }, SpawnEvent::Probed(alive)) => if alive {
            SpawnStage::Done(Ok(()))
        } else {
            SpawnStage::Pause { deadline_ns }
        },
        (SpawnStage::Pause { deadline_ns }, SpawnEvent::Paused) => SpawnStage::Clock {
            deadline_ns,
        },
        (s, _) => s,
    }
}

/// Whether `action` is what `stage` waits for, with the paths that belong to `socket`.
pub open spec fn action_fits(
    socket: Seq<char>,
    stage: SpawnStage,
    action: SpawnAction,
) -> bool {
    match stage {
        SpawnStage::FirstProbe => action is Probe,
        SpawnStage::LockDir => action matches SpawnAction::CreateDir(dir) && crate::path::parent(
            lock_path(socket),
        ) == Some(dir@),
        SpawnStage::LockFile => action matches SpawnAction::OpenLock(file) && file@ == lock_path(
            socket,
        ),
        SpawnStage::Lock => action is TryLock,
        SpawnStage::Fork { .. } => action is Fork,
        SpawnStage::Clock { .. } => action is ReadTime,
        SpawnStage::Probe { .. } => action is Probe,
        SpawnStage::Pause { .. } => action == (SpawnAction::Sleep { ms: PROBE_INTERVAL_MS }),
        SpawnStage::Done(_) => action is Finish,
    }
}

impl SpawnStage {
    /// What this stage asks for.
    pub fn action(&self, cfg: &SpawnConfig) -> (r: SpawnAction)
        ensures
            action_fits(cfg.socket@, *self, r),
    {
        match self {
            SpawnStage::FirstProbe => SpawnAction::Probe,
            SpawnStage::LockDir => {
                let lock = lock_path_for(&cfg.socket);
                proof {
                    law_lock_follows_path(cfg.socket@);
                    crate::path::lemma_parent(lock@);
                }
                SpawnAction::CreateDir(parent_of(&lock).unwrap())
            },
            SpawnStage::LockFile => SpawnAction::OpenLock(lock_path_for(&cfg.socket)),
            SpawnStage::Lock => SpawnAction::TryLock,
            SpawnStage::Fork { .. } => SpawnAction::Fork,
            SpawnStage::Clock { .. } => SpawnAction::ReadTime,
            SpawnStage::Probe { .. } => SpawnAction::Probe,
            SpawnStage::Pause { .. } => SpawnAction::Sleep { ms: PROBE_INTERVAL_MS },
            SpawnStage::Done(_) => SpawnAction::Finish,
        }
    }
}

/// Makes sure that a worker answers behind the socket, one step at a time.
///
/// Starts at [`SpawnStage::FirstProbe`] and ends at [`SpawnStage::Done`].
pub fn ensure_worker(cfg: &SpawnConfig, stage: SpawnStage, event: SpawnEvent) -> (r: (
    SpawnStage,
    SpawnAction,
))
    ensures
        r.0 == next_stage(cfg.ready_timeout_ms, stage, event),
        action_fits(cfg.socket@, r.0, r.1),
{
    let next = match (stage, event) {
        (SpawnStage::FirstProbe, SpawnEvent::Probed(alive)) => {
            if alive {
                SpawnStage::Done(Ok(()))
            } else {
                SpawnStage::LockDir
            }
        },
        (SpawnStage::LockDir, SpawnEvent::DirMade(r)) => match r {
            Ok(_) => SpawnStage::LockFile,
            Err(e) => SpawnStage::Done(Err(SpawnError::CreateLockFile(e))),
        },
        (SpawnStage::LockFile, SpawnEvent::LockOpened(r)) => match r {
            Ok(_) => SpawnStage::Lock,
            Err(e) => SpawnStage::Done(Err(SpawnError::CreateLockFile(e))),
        },
        (SpawnStage::Lock, SpawnEvent::LockTried { got, now_ns }) => {
            let deadline_ns: u128 = now_ns as u128 + cfg.ready_timeout_ms as u128 * 1_000_000;
            if got {
                SpawnStage::Fork { deadline_ns }
            } else {
                SpawnStage::Clock { deadline_ns }
            }
        },
        (SpawnStage::Fork { deadline_ns }, SpawnEvent::Forked(r)) => match r {
            Ok(_) => SpawnStage::Clock { deadline_ns },
            Err(e) => SpawnStage::Done(Err(SpawnError::ForkFailed(e))),
        },
        (SpawnStage::Clock { deadline_ns }, SpawnEvent::Time { now_ns }) => {
            if (now_ns as u128) < deadline_ns {
                SpawnStage::Probe { deadline_ns }
            } else {
                SpawnStage::Done(
                    Err(SpawnError::NotReady { timeout_ms: cfg.ready_timeout_ms }),
                )
            }
        },
        (SpawnStage::Probe { deadline_ns }, SpawnEvent::Probed(alive)) => {
            if alive {
                SpawnStage::Done(Ok(()))
            } else {
                SpawnStage::Pause { deadline_ns }
            }
        },
        (SpawnStage::Pause { deadline_ns }, SpawnEvent::Paused) => SpawnStage::Clock {
            deadline_ns,
        },
        (s, _) => s,
    };
    let action = next.action(cfg);
    (next, action)
}

/// Only the process that got the lock forks.
pub proof fn law_fork_needs_lock(ready_timeout_ms: u64, stage: SpawnStage, event: SpawnEvent)
    requires
        stage !is Fork,
        next_stage(ready_timeout_ms, stage, event) is Fork,
    ensures
        stage is Lock,
        event matches SpawnEvent::LockTried { got, .. } && got,
{
}

/// Whether the fork is behind, if there was one at all.
pub open spec fn past_fork(stage: SpawnStage) -> bool {
    stage is Clock || stage is Probe || stage is Pause || stage is Done
}

/// A process forks at most once: having forked, or having lost the lock, it never comes
/// to the fork again.
pub proof fn law_forks_once(ready_timeout_ms: u64, stage: SpawnStage, event: SpawnEvent)
    ensures
        past_fork(stage) ==> past_fork(next_stage(ready_timeout_ms, stage, event)),
        stage is Fork && event is Forked ==> past_fork(
            next_stage(ready_timeout_ms, stage, event),
        ),
        stage is Lock && (event matches SpawnEvent::LockTried { got: false, .. }) ==> past_fork(
            next_stage(ready_timeout_ms, stage, event),
        ),
{
}

/// Success is reported only where a worker has just answered, and then at once.
pub proof fn law_ready_means_alive(ready_timeout_ms: u64, stage: SpawnStage, event: SpawnEvent)
    requires
        stage !is Done,
    ensures
        next_stage(ready_timeout_ms, stage, event) == SpawnStage::Done(Ok(()))
            <==> (event == SpawnEvent::Probed(true) && (stage is FirstProbe || stage is Probe)),
{
}

/// A worker is given up exactly where a look at the clock, between two probes, finds the
/// deadline reached; what is reported is the time that it was given.
pub proof fn law_gives_up_late(
    ready_timeout_ms: u64,
    stage: SpawnStage,
    event: SpawnEvent,
    timeout_ms: u64,
)
    requires
        stage !is Done,
    ensures
        next_stage(ready_timeout_ms, stage, event) == SpawnStage::Done(
            Err(SpawnError::NotReady { timeout_ms }),
        ) <==> timeout_ms == ready_timeout_ms && (stage matches SpawnStage::Clock { deadline_ns } && (
        event matches SpawnEvent::Time { now_ns } && now_ns >= deadline_ns)),
{
}

/// The deadline that a stage knows of.
pub open spec fn deadline_of(stage: SpawnStage) -> Option<u128> {
    match stage {
        SpawnStage::Fork { deadline_ns } => Some(deadline_ns),
        SpawnStage::Clock { deadline_ns } => Some(deadline_ns),
        SpawnStage::Probe { deadline_ns } => Some(deadline_ns),
        SpawnStage::Pause { deadline_ns } => Some(deadline_ns),
        _ => None,
    }
}

/// The deadline lies as far behind the attempt to lock as the worker is given, and does not
/// move.
pub proof fn law_deadline_stays(ready_timeout_ms: u64, stage: SpawnStage, event: SpawnEvent)
    ensures
        stage is Lock ==> (event matches SpawnEvent::LockTried { now_ns, .. } ==> deadline_of(
            next_stage(ready_timeout_ms, stage, event),
        ) == Some(deadline(now_ns, ready_timeout_ms))),
        ({
            let next = next_stage(ready_timeout_ms, stage, event);
            deadline_of(stage) is Some && next !is Done ==> deadline_of(next) == deadline_of(stage)
        }),
{
}

/// The outcome stands.
pub proof fn law_outcome_is_final(
    ready_timeout_ms: u64,
    outcome: Result<(), SpawnError>,
    event: SpawnEvent,
)
    ensures
        next_stage(ready_timeout_ms, SpawnStage::Done(outcome), event) == SpawnStage::Done(outcome),
{
}

/// Where a run of events leads.
pub open spec fn after_events(
    ready_timeout_ms: u64,
    stage: SpawnStage,
    events: Seq<SpawnEvent>,
) -> SpawnStage
    decreases events.len(),
{
    if events.len() == 0 {
        stage
    } else {
        after_events(
            ready_timeout_ms,
            next_stage(ready_timeout_ms, stage, events[0]),
            events.skip(1),
        )
    }
}

/// Whatever happens, a worker that is reported as not ready is reported with the time that
/// it was given, and one that answered no probe is not reported as ready.
pub proof fn law_outcome_of_a_run(
    ready_timeout_ms: u64,
    stage: SpawnStage,
    events: Seq<SpawnEvent>,
)
    requires
        stage !is Done,
    ensures
        after_events(ready_timeout_ms, stage, events) matches SpawnStage::Done(
            Err(SpawnError::NotReady { timeout_ms }),
        ) ==> timeout_ms == ready_timeout_ms,
        (forall|i: int|
            0 <= i < events.len() ==> #[trigger] events[i] != SpawnEvent::Probed(true))
            ==> after_events(ready_timeout_ms, stage, events) != SpawnStage::Done(Ok(())),
    decreases events.len(),
{
    if events.len() > 0 {
        let next = next_stage(ready_timeout_ms, stage, events[0]);
        let rest = events.skip(1);
        if next is Done {
            lemma_done_stays(ready_timeout_ms, next, rest);
        } else {
            law_outcome_of_a_run(ready_timeout_ms, next, rest);
            assert forall|i: int| 0 <= i < rest.len() implies #[trigger] rest[i] == events[i
                + 1] by {}
        }
    }
}

proof fn lemma_done_stays(ready_timeout_ms: u64, stage: SpawnStage, events: Seq<SpawnEvent>)
    requires
        stage is Done,
    ensures
        after_events(ready_timeout_ms, stage, events) == stage,
    decreases events.len(),
{
    if events.len() > 0 {
        lemma_done_stays(ready_timeout_ms, stage, events.skip(1));
    }
}

/// How often a run of events has the process fork.
pub open spec fn forks(ready_timeout_ms: u64, stage: SpawnStage, events: Seq<SpawnEvent>) -> nat
    decreases events.len(),
{
    if events.len() == 0 {
        0
    } else {
        (if stage is Fork && events[0] is Forked {
            1nat
        } else {
            0nat
        }) + forks(
            ready_timeout_ms,
            next_stage(ready_timeout_ms, stage, events[0]),
            events.skip(1),
        )
    }
}

/// Whatever happens, one call to start the worker forks at most once.
pub proof fn law_at_most_one_fork(
    ready_timeout_ms: u64,
    stage: SpawnStage,
    events: Seq<SpawnEvent>,
)
    ensures
        forks(ready_timeout_ms, stage, events) <= 1,
        past_fork(stage) ==> forks(ready_timeout_ms, stage, events) == 0,
    decreases events.len(),
{
    if events.len() > 0 {
        law_forks_once(ready_timeout_ms, stage, events[0]);
        law_at_most_one_fork(
            ready_timeout_ms,
            next_stage(ready_timeout_ms, stage, events[0]),
            events.skip(1),
        );
    }
}

/// The attempt to lock gives the worker its whole time: the deadline that the next stage holds
/// lies exactly that many milliseconds behind it, whoever got the lock. Until then a look at
/// the clock leads to a probe, and from then on to giving up.
pub proof fn law_worker_gets_its_whole_time(
    ready_timeout_ms: u64,
    got: bool,
    now_ns: u64,
    forked: Result<(), String>,
    t_ns: u64,
)
    ensures
        next_stage(ready_timeout_ms, SpawnStage::Lock, SpawnEvent::LockTried { got, now_ns }) matches (
        SpawnStage::Fork { deadline_ns }) ==> got && deadline_ns - now_ns == ready_timeout_ms
            * 1_000_000,
        next_stage(ready_timeout_ms, SpawnStage::Lock, SpawnEvent::LockTried { got, now_ns }) matches (
        SpawnStage::Clock { deadline_ns }) ==> !got && deadline_ns - now_ns == ready_timeout_ms
            * 1_000_000,
        ({
            let locked = next_stage(
                ready_timeout_ms,
                SpawnStage::Lock,
                SpawnEvent::LockTried { got, now_ns },
            );
            let waiting = if got {
                next_stage(ready_timeout_ms, locked, SpawnEvent::Forked(forked))
            } else {
                locked
            };
            let looked = next_stage(ready_timeout_ms, waiting, SpawnEvent::Time { now_ns: t_ns });
            &&& got <==> locked is Fork
            &&& !got <==> locked is Clock
            &&& !got || forked is Ok ==> {
                &&& waiting is Clock
                &&& t_ns < now_ns + ready_timeout_ms * 1_000_000 ==> looked is Probe
                &&& t_ns >= now_ns + ready_timeout_ms * 1_000_000 ==> looked == SpawnStage::Done(
                    Err(SpawnError::NotReady { timeout_ms: ready_timeout_ms }),
                )
            }
        }),
{
    assert(ready_timeout_ms * 1_000_000 <= u64::MAX * 1_000_000);
}

/// Before the lock, each thing that works out leads to the next: no answer to the first probe
/// to the directory, that to the lock file, and that to the lock.
pub proof fn law_way_to_the_lock(ready_timeout_ms: u64)
    ensures
        next_stage(ready_timeout_ms, SpawnStage::FirstProbe, SpawnEvent::Probed(false)) is LockDir,
        next_stage(ready_timeout_ms, SpawnStage::LockDir, SpawnEvent::DirMade(Ok(()))) is LockFile,
        next_stage(ready_timeout_ms, SpawnStage::LockFile, SpawnEvent::LockOpened(Ok(()))) is Lock,
{
}

/// A start ends with the reason that was reported, and with no other: the lock file fails
/// where its directory or the file itself does, and the fork where the fork does.
pub proof fn law_failures_keep_their_reason(
    ready_timeout_ms: u64,
    stage: SpawnStage,
    event: SpawnEvent,
    reason: String,
)
    requires
        stage !is Done,
    ensures
        next_stage(ready_timeout_ms, stage, event) == SpawnStage::Done(
            Err(SpawnError::CreateLockFile(reason)),
        ) <==> (stage is LockDir && event == SpawnEvent::DirMade(Err(reason))) || (
        stage is LockFile && event == SpawnEvent::LockOpened(Err(reason))),
        next_stage(ready_timeout_ms, stage, event) == SpawnStage::Done(
            Err(SpawnError::ForkFailed(reason)),
        ) <==> stage is Fork && event == SpawnEvent::Forked(Err(reason)),
{
}

/// The events of so many rounds of waiting, none of which finds the worker up: a look at the
/// clock, at the times in `t`, then a probe, then a pause.
pub open spec fn vain_rounds(t: Seq<u64>) -> Seq<SpawnEvent>
    decreases t.len(),
{
    if t.len() == 0 {
        Seq::empty()
    } else {
        seq![SpawnEvent::Time { now_ns: t[0] }, SpawnEvent::Probed(false), SpawnEvent::Paused]
            + vain_rounds(t.skip(1))
    }
}

/// As long as the deadline is not reached, the worker is probed again and again, however
/// often it did not answer; it is found as soon as it does, and given up only once the clock
/// shows the deadline.
pub proof fn law_probes_until_the_deadline(
    ready_timeout_ms: u64,
    deadline_ns: u128,
    t: Seq<u64>,
    last: u64,
)
    requires
        forall|i: int| 0 <= i < t.len() ==> #[trigger] t[i] < deadline_ns,
    ensures
        after_events(ready_timeout_ms, SpawnStage::Clock { deadline_ns }, vain_rounds(t)) == (
        SpawnStage::Clock { deadline_ns }),
        last < deadline_ns ==> after_events(
            ready_timeout_ms,
            SpawnStage::Clock { deadline_ns },
            vain_rounds(t) + seq![SpawnEvent::Time { now_ns: last }, SpawnEvent::Probed(true)],
        ) == SpawnStage::Done(Ok(())),
        last >= deadline_ns ==> after_events(
            ready_timeout_ms,
            SpawnStage::Clock { deadline_ns },
            vain_rounds(t) + seq![SpawnEvent::Time { now_ns: last }],
        ) == SpawnStage::Done(Err(SpawnError::NotReady { timeout_ms: ready_timeout_ms })),
    decreases t.len(),
{
    reveal_with_fuel(after_events, 5);
    let clock = SpawnStage::Clock { deadline_ns };
    let found = seq![SpawnEvent::Time { now_ns: last }, SpawnEvent::Probed(true)];
    let late = seq![SpawnEvent::Time { now_ns: last }];
    let none = Seq::<SpawnEvent>::empty();
    if t.len() == 0 {
        assert(vain_rounds(t) + found =~= found);
        assert(vain_rounds(t) + late =~= late);
        assert(found.skip(1) =~= seq![SpawnEvent::Probed(true)]);
        assert(found.skip(1).skip(1) =~= none);
        assert(late.skip(1) =~= none);
    } else {
        let rest = t.skip(1);
        assert forall|i: int| 0 <= i < rest.len() implies #[trigger] rest[i] < deadline_ns by {
            assert(rest[i] == t[i + 1]);
        }
        law_probes_until_the_deadline(ready_timeout_ms, deadline_ns, rest, last);
        assert(t[0] < deadline_ns);
        lemma_vain_round(ready_timeout_ms, deadline_ns, t[0], vain_rounds(rest));
        lemma_vain_round(ready_timeout_ms, deadline_ns, t[0], vain_rounds(rest) + found);
        lemma_vain_round(ready_timeout_ms, deadline_ns, t[0], vain_rounds(rest) + late);
        let round = seq![
            SpawnEvent::Time { now_ns: t[0] },
            SpawnEvent::Probed(false),
            SpawnEvent::Paused,
        ];
        assert(vain_rounds(t) + found =~= round + (vain_rounds(rest) + found));
        assert(vain_rounds(t) + late =~= round + (vain_rounds(rest) + late));
    }
}

proof fn lemma_vain_round(
    ready_timeout_ms: u64,
    deadline_ns: u128,
    now_ns: u64,
    events: Seq<SpawnEvent>,
)
    requires
        now_ns < deadline_ns,
    ensures
        after_events(
            ready_timeout_ms,
            SpawnStage::Clock { deadline_ns },
            seq![SpawnEvent::Time { now_ns }, SpawnEvent::Probed(false), SpawnEvent::Paused]
                + events,
        ) == after_events(ready_timeout_ms, SpawnStage::Clock { deadline_ns }, events),
{
    reveal_with_fuel(after_events, 4);
    let all = seq![SpawnEvent::Time { now_ns }, SpawnEvent::Probed(false), SpawnEvent::Paused]
        + events;
    assert(all.skip(1).skip(1).skip(1) =~= events);
    assert(all[0] == SpawnEvent::Time { now_ns });
    assert(all.skip(1)[0] == SpawnEvent::Probed(false));
    assert(all.skip(1).skip(1)[0] == SpawnEvent::Paused);
}

/// The lock file of a socket lies in the directory of the socket, and bears its name followed
/// by `.spawn-lock`.
pub proof fn law_lock_is_named_after_the_socket(dir: Seq<char>, name: Seq<char>)
    requires
        name.len() > 0,
        !name.contains('/'),
        name != seq!['.'],
        name != seq!['.', '.'],
    ensures
        ({
            let socket = crate::path::joined(dir, name);
            let lock = crate::path::path_key(lock_path(socket));
            &&& lock.parts == crate::path::parts(dir).push(name + ".spawn-lock"@)
            &&& lock.absolute == crate::path::is_absolute(dir)
            &&& lock.dot_first == crate::path::is_dot_first(dir)
        }),
{
    let socket = crate::path::joined(dir, name);
    crate::path::lemma_joined(dir, name);
    law_lock_follows_path(socket);
    let parts = crate::path::parts(dir).push(name);
    assert(parts.last() == name);
    assert(parts.drop_last() =~= crate::path::parts(dir));
    assert(LOCK_SUFFIX@ == ".spawn-lock"@);
}

/// What is asked for at each stage: the worker is probed at its socket, the directory that is
/// made is the one that the lock file lies in, and the pauses last 30 milliseconds.
pub proof fn law_actions(
    socket: Seq<char>,
    deadline_ns: u128,
    dir: SpawnAction,
    file: SpawnAction,
    pause: SpawnAction,
)
    requires
        action_fits(socket, SpawnStage::LockDir, dir),
        action_fits(socket, SpawnStage::LockFile, file),
        action_fits(socket, SpawnStage::Pause { deadline_ns }, pause),
    ensures
        file matches SpawnAction::OpenLock(f) && f@ == lock_path(socket) && (
        dir matches SpawnAction::CreateDir(d) && crate::path::path_key(d@) == (
        crate::path::PathKey {
            parts: crate::path::parts(f@).drop_last(),
            ..crate::path::path_key(f@)
        })),
        pause == (SpawnAction::Sleep { ms: 30 }),
        forall|a: SpawnAction| #[trigger]
            action_fits(socket, SpawnStage::FirstProbe, a) ==> a is Probe,
        forall|a: SpawnAction| #[trigger]
            action_fits(socket, SpawnStage::Probe { deadline_ns }, a) ==> a is Probe,
        forall|a: SpawnAction| #[trigger]
            action_fits(socket, SpawnStage::Lock, a) ==> a is TryLock,
        forall|a: SpawnAction| #[trigger]
            action_fits(socket, SpawnStage::Fork { deadline_ns }, a) ==> a is Fork,
        forall|a: SpawnAction| #[trigger]
            action_fits(socket, SpawnStage::Clock { deadline_ns }, a) ==> a is ReadTime,
        forall|outcome: Result<(), SpawnError>, a: SpawnAction| #[trigger]
            action_fits(socket, SpawnStage::Done(outcome), a) ==> a is Finish,
{
    law_lock_follows_path(socket);
    crate::path::lemma_parent(lock_path(socket));
}

/// The words of an error end in the whole of its reason, or in the whole number, behind words
/// that are the same for all errors of the kind.
pub proof fn law_spawn_error_words(reason: String, timeout_ms: u64)
    ensures
        SpawnError::ForkFailed(reason).text() == "fork failed: "@ + reason@,
        SpawnError::CreateLockFile(reason).text() == "create spawn lock file: "@ + reason@,
        (SpawnError::NotReady { timeout_ms }).text() == "worker did not become ready in "@
            + crate::text::decimal(timeout_ms as nat) + "ms"@,
{
}

/// An event that a stage does not wait for changes nothing.
pub proof fn law_only_awaited_events_count(
    ready_timeout_ms: u64,
    stage: SpawnStage,
    event: SpawnEvent,
)
    requires
        next_stage(ready_timeout_ms, stage, event) != stage,
    ensures
        ({
            ||| event is Probed && (stage is FirstProbe || stage is Probe)
            ||| event is DirMade && stage is LockDir
            ||| event is LockOpened && stage is LockFile
            ||| event is LockTried && stage is Lock
            ||| event is Forked && stage is Fork
            ||| event is Time && stage is Clock
            ||| event is Paused && stage is Pause
        }),
{
}

/// The lock file of a socket without a name, at the root or at a path that goes up, lies behind
/// the whole path.
pub proof fn law_lock_of_a_nameless_socket(p: Seq<char>)
    requires
        crate::path::parts(p).len() == 0 || crate::path::parts(p).last() == seq!['.', '.'],
    ensures
        crate::path::path_key(lock_path(p)) == (crate::path::PathKey {
            parts: crate::path::parts(p).push(".spawn-lock"@),
            ..crate::path::path_key(p)
        }),
        ENV_BROKERS@ == "HI_KAFKA_BROKERS"@,
        READY_TIMEOUT_MS == 5000,
        PROBE_INTERVAL_MS == 30,
{
    law_lock_follows_path(p);
    assert(LOCK_SUFFIX@ == ".spawn-lock"@);
}

} // verus!
