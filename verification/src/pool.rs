//! Connections to the worker, kept for reuse.
//!
//! There is one pool per socket. A connection that is taken out goes back when its user
//! is done with it, unless the user poisoned it because an operation on it failed. A
//! connection is probed before it is handed out again; one that the worker has closed
//! is dropped.
//!
//! `S` is the type of a connection. Opening and probing one is left to the caller.

use crate::path::same_path;
use crate::text::parse_usize;
use vstd::prelude::*;
use vstd::string::StringExecFns;

verus! {

/// Why a pool has no connection to give.
#[derive(Debug)]
pub enum PoolError {
    /// No connection to this socket could be opened, for this reason.
    Connect { socket: String, source: String },
}

impl PoolError {
    pub open spec fn text(self) -> Seq<char> {
        match self {
            PoolError::Connect { socket, source } => "connect "@ + socket@ + ": "@ + source@,
        }
    }

    /// The error in words.
    pub fn message(&self) -> (r: String)
        ensures
            r@ == self.text(),
    {
        match self {
            PoolError::Connect { socket, source } => {
                let mut r = "connect ".to_owned();
                r.append(socket);
                r.append(": ");
                r.append(source);
                r
            },
        }
    }
}

/// How many idle connections a pool keeps by default.
pub const DEFAULT_MAX_IDLE: usize = 16;

/// The environment variable that says how many idle connections a pool keeps.
pub const ENV_POOL_SIZE: &'static str = "HI_KAFKA_POOL_SIZE";

/// What a pool has counted. The counters wrap around.
#[derive(Debug, Clone, Copy)]
pub struct PoolStats {
    pub acquires_total: u64,
    pub hits_total: u64,
    pub misses_total: u64,
    pub closed_total: u64,
    pub poisoned_total: u64,
}

impl Default for PoolStats {
    fn default() -> (r: Self)
        ensures
            r == PoolStats::zero(),
    {
        PoolStats {
            acquires_total: 0,
            hits_total: 0,
            misses_total: 0,
            closed_total: 0,
            poisoned_total: 0,
        }
    }
}

/// A counter that stood at `n`, after `by` more.
pub open spec fn counted(n: u64, by: nat) -> u64 {
    ((n + by) % 0x1_0000_0000_0000_0000) as u64
}

/// One more.
fn count(n: u64) -> (r: u64)
    ensures
        r == counted(n, 1),
{
    n.wrapping_add(1)
}

impl PoolStats {
    pub open spec fn zero() -> PoolStats {
        PoolStats {
            acquires_total: 0,
            hits_total: 0,
            misses_total: 0,
            closed_total: 0,
            poisoned_total: 0,
        }
    }
}

/// A pool as a mathematical value. The connection that was given back last is the last
/// in `idle`.
pub struct PoolView<S> {
    pub socket: Seq<char>,
    pub max_idle: usize,
    pub idle: Seq<S>,
    pub stats: PoolStats,
    /// How many requests have begun and are neither a hit nor a miss yet.
    pub running: int,
}

impl<S> PoolView<S> {
    /// No more connections are idle than the pool keeps.
    pub open spec fn wf(self) -> bool {
        self.idle.len() <= self.max_idle
    }

    /// Each request is a hit, a miss or still running, up to the wrapping of the counters.
    pub open spec fn balanced(self) -> bool {
        (self.stats.acquires_total - self.stats.hits_total - self.stats.misses_total
            - self.running) % 0x1_0000_0000_0000_0000 == 0
    }

    /// What holds of every pool at any time.
    pub open spec fn sound(self) -> bool {
        self.wf() && self.balanced()
    }

    /// What holds of every pool while no request is running: as many connections were asked
    /// for as were reused and newly opened.
    pub open spec fn adds_up(self) -> bool {
        self.stats.acquires_total == counted(self.stats.hits_total, self.stats.misses_total as nat)
    }

    /// A pool that has been asked for nothing yet.
    pub open spec fn fresh(socket: Seq<char>, max_idle: usize) -> Self {
        PoolView { socket, max_idle, idle: Seq::empty(), stats: PoolStats::zero(), running: 0 }
    }

    /// After a request.
    pub open spec fn requested(self) -> Self {
        PoolView {
            stats: PoolStats {
                acquires_total: counted(self.stats.acquires_total, 1),
                ..self.stats
            },
            running: self.running + 1,
            ..self
        }
    }

    /// After a look for an idle connection: the last one is out, or a miss is counted.
    pub open spec fn popped(self) -> Self {
        if self.idle.len() > 0 {
            PoolView { idle: self.idle.drop_last(), ..self }
        } else {
            PoolView {
                stats: PoolStats {
                    misses_total: counted(self.stats.misses_total, 1),
                    ..self.stats
                },
                running: self.running - 1,
                ..self
            }
        }
    }

    /// After a probe.
    pub open spec fn probed(self, alive: bool) -> Self {
        PoolView {
            stats: if alive {
                PoolStats { hits_total: counted(self.stats.hits_total, 1), ..self.stats }
            } else {
                PoolStats { closed_total: counted(self.stats.closed_total, 1), ..self.stats }
            },
            running: if alive {
                self.running - 1
            } else {
                self.running
            },
            ..self
        }
    }

    /// After a connection was given back: kept, if there is room.
    pub open spec fn released(self, stream: S) -> Self {
        if self.idle.len() < self.max_idle {
            PoolView { idle: self.idle.push(stream), ..self }
        } else {
            self
        }
    }

    /// After a connection was poisoned.
    pub open spec fn poisoned(self) -> Self {
        PoolView {
            stats: PoolStats {
                poisoned_total: counted(self.stats.poisoned_total, 1),
                ..self.stats
            },
            ..self
        }
    }

    /// After a request that dropped the last `dead` idle connections and took the one in
    /// front of them.
    pub open spec fn hit(self, dead: nat) -> Self {
        PoolView {
            idle: self.idle.take(self.idle.len() - dead - 1),
            stats: PoolStats {
                acquires_total: counted(self.stats.acquires_total, 1),
                hits_total: counted(self.stats.hits_total, 1),
                closed_total: counted(self.stats.closed_total, dead),
                ..self.stats
            },
            ..self
        }
    }

    /// After a request that dropped all idle connections.
    pub open spec fn missed(self) -> Self {
        PoolView {
            idle: Seq::empty(),
            stats: PoolStats {
                acquires_total: counted(self.stats.acquires_total, 1),
                misses_total: counted(self.stats.misses_total, 1),
                closed_total: counted(self.stats.closed_total, self.idle.len()),
                ..self.stats
            },
            ..self
        }
    }
}

/// The pool of one socket.
pub struct ConnectionPool<S> {
    socket: String,
    max_idle: usize,
    idle: Vec<S>,
    stats: PoolStats,
    running: Ghost<int>,
}

impl<S> View for ConnectionPool<S> {
    type V = PoolView<S>;

    closed spec fn view(&self) -> PoolView<S> {
        PoolView {
            socket: self.socket@,
            max_idle: self.max_idle,
            idle: self.idle@,
            stats: self.stats,
            running: self.running@,
        }
    }
}

/// A connection that has been taken out of a pool, and belongs to it.
pub struct PooledConn<S> {
    stream: S,
    poisoned: bool,
    socket: Ghost<Seq<char>>,
}

/// What taking a connection out of a pool comes to next.
#[derive(Debug)]
pub enum AcquireStep<S> {
    /// Probe this connection, then report the result with it.
    Probe(S),
    /// Open a connection.
    Connect,
}

/// What came of reading one byte, without waiting, from an idle connection.
#[derive(Debug, Clone, Copy, PartialEq, Eq, Structural)]
pub enum ProbeRead {
    /// The connection could not be told not to wait.
    NotSwitched,
    /// This many bytes were read.
    Read(usize),
    /// Nothing is there to be read yet.
    WouldBlock,
    /// The read failed in another way.
    Failed,
}

/// Whether an idle connection can be used again. At the end of the stream the worker has
/// closed it; bytes that nobody asked for show that it is out of step.
pub fn is_alive(read: ProbeRead) -> (r: bool)
    ensures
        r == (read is WouldBlock),
{
    match read {
        ProbeRead::WouldBlock => true,
        _ => false,
    }
}

impl<S> PooledConn<S> {
    pub closed spec fn stream(self) -> S {
        self.stream
    }

    pub closed spec fn is_poisoned(self) -> bool {
        self.poisoned
    }

    /// The socket of the pool that the connection belongs to.
    pub closed spec fn socket(self) -> Seq<char> {
        self.socket@
    }

    /// Whether this is the connection `stream` of the pool of `socket`, fit for use.
    pub open spec fn lent(self, stream: S, socket: Seq<char>) -> bool {
        self.stream() == stream && self.socket() == socket && !self.is_poisoned()
    }

    /// The connection itself.
    pub fn stream_mut(&mut self) -> (r: &mut S)
        ensures
            *r == old(self).stream(),
            final(self).stream() == *final(r),
            final(self).is_poisoned() == old(self).is_poisoned(),
            final(self).socket() == old(self).socket(),
    {
        &mut self.stream
    }

    /// Marks the connection as not to be used again. `pool` is the pool that it belongs to.
    pub fn poison(&mut self, pool: &mut ConnectionPool<S>)
        requires
            old(pool)@.socket == old(self).socket(),
        ensures
            final(self).is_poisoned(),
            final(self).stream() == old(self).stream(),
            final(self).socket() == old(self).socket(),
            final(pool)@ == old(pool)@.poisoned(),
            old(pool)@.sound() ==> final(pool)@.sound(),
    {
        self.poisoned = true;
        pool.stats.poisoned_total = count(pool.stats.poisoned_total);
    }

    /// Ends the use of the connection: it goes back to `pool`, the pool that it belongs to,
    /// unless it is poisoned.
    pub fn give_back(self, pool: &mut ConnectionPool<S>)
        requires
            old(pool)@.socket == self.socket(),
        ensures
            old(pool)@.sound() ==> final(pool)@.sound(),
            final(pool)@ == (if self.is_poisoned() {
                old(pool)@
            } else {
                old(pool)@.released(self.stream())
            }),
    {
        if !self.poisoned {
            pool.release(self.stream);
        }
    }
}

/// What a request comes to when a new connection had to be opened.
pub open spec fn connected<S>(
    socket: Seq<char>,
    opened: Result<S, String>,
    r: Result<PooledConn<S>, PoolError>,
) -> bool {
    match opened {
        Ok(stream) => r matches Ok(conn) && conn.lent(stream, socket),
        Err(e) => r matches Err(PoolError::Connect { socket: s, source }) && s@ == socket && source
            == e,
    }
}

/// What a request for a connection does: idle connections are probed from the last one
/// on, `dead` of them fail, and the next one is handed out; where none is left, a new
/// one is opened.
pub open spec fn acquired<S, P: Fn(&S) -> bool, C: FnOnce(&str) -> Result<S, String>>(
    before: PoolView<S>,
    probe: P,
    connect: C,
    dead: nat,
    after: PoolView<S>,
    r: Result<PooledConn<S>, PoolError>,
) -> bool {
    let n = before.idle.len();
    &&& dead <= n
    &&& forall|i: int|
        n - dead <= i < n ==> call_ensures(probe, (&#[trigger] before.idle[i],), false)
    &&& if dead < n {
        &&& call_ensures(probe, (&before.idle[n - dead - 1],), true)
        &&& after == before.hit(dead)
        &&& r matches Ok(conn) && conn.lent(before.idle[n - dead - 1], before.socket)
    } else {
        &&& after == before.missed()
        &&& exists|s: &str, opened: Result<S, String>|
            s@ == before.socket && #[trigger] call_ensures(connect, (s,), opened) && connected(
                before.socket,
                opened,
                r,
            )
    }
}

impl<S> ConnectionPool<S> {
    /// An empty pool that keeps at most `max_idle` connections.
    pub fn new(socket: String, max_idle: usize) -> (r: Self)
        ensures
            r@ == PoolView::<S>::fresh(socket@, max_idle),
            r@.sound(),
    {
        let r = ConnectionPool {
            socket,
            max_idle,
            idle: Vec::new(),
            stats: PoolStats::default(),
            running: Ghost(0),
        };
        assert(r@.idle =~= Seq::<S>::empty());
        r
    }

    /// What the pool has counted.
    pub fn stats(&self) -> (r: PoolStats)
        ensures
            r == self@.stats,
    {
        self.stats
    }

    /// How many connections are idle.
    pub fn idle_count(&self) -> (r: usize)
        ensures
            r == self@.idle.len(),
    {
        self.idle.len()
    }

    /// How many idle connections the pool keeps.
    pub fn max_idle(&self) -> (r: usize)
        ensures
            r == self@.max_idle,
    {
        self.max_idle
    }

    /// The socket that the connections lead to.
    pub fn socket(&self) -> (r: &str)
        ensures
            r@ == self@.socket,
    {
        self.socket.as_str()
    }

    /// Hands a connection out.
    fn lend(&self, stream: S) -> (r: PooledConn<S>)
        ensures
            r.lent(stream, self@.socket),
    {
        PooledConn { stream, poisoned: false, socket: Ghost(self@.socket) }
    }

    /// Counts a request.
    pub fn begin_acquire(&mut self)
        ensures
            final(self)@ == old(self)@.requested(),
            old(self)@.sound() ==> final(self)@.sound(),
    {
        self.stats.acquires_total = count(self.stats.acquires_total);
        proof {
            self.running@ = self.running@ + 1;
        }
    }

    /// Takes out the connection that was given back last, or says that a new one is
    /// needed.
    pub fn take_idle(&mut self) -> (r: AcquireStep<S>)
        ensures
            final(self)@ == old(self)@.popped(),
            old(self)@.sound() ==> final(self)@.sound(),
            old(self)@.idle.len() > 0 ==> r == AcquireStep::Probe(old(self)@.idle.last()),
            old(self)@.idle.len() == 0 ==> r is Connect,
    {
        match self.idle.pop() {
            Some(stream) => AcquireStep::Probe(stream),
            None => {
                self.stats.misses_total = count(self.stats.misses_total);
                proof {
                    self.running@ = self.running@ - 1;
                }
                AcquireStep::Connect
            },
        }
    }

    /// Counts what a probe found, and keeps the connection only where it is alive.
    pub fn note_probe(&mut self, stream: S, alive: bool) -> (r: Option<PooledConn<S>>)
        ensures
            final(self)@ == old(self)@.probed(alive),
            old(self)@.sound() ==> final(self)@.sound(),
            alive ==> r is Some && r->0.lent(stream, old(self)@.socket),
            !alive ==> r is None,
    {
        if alive {
            self.stats.hits_total = count(self.stats.hits_total);
            proof {
                self.running@ = self.running@ - 1;
            }
            Some(self.lend(stream))
        } else {
            self.stats.closed_total = count(self.stats.closed_total);
            None
        }
    }

    /// Hands on a connection that was opened for this pool.
    pub fn note_connect(&self, opened: Result<S, String>) -> (r: Result<PooledConn<S>, PoolError>)
        ensures
            connected(self@.socket, opened, r),
    {
        match opened {
            Ok(stream) => Ok(self.lend(stream)),
            Err(source) => Err(PoolError::Connect { socket: self.socket.clone(), source }),
        }
    }

    /// Takes a connection out: an idle one that passes the probe, else a new one.
    pub fn acquire<P: Fn(&S) -> bool, C: FnOnce(&str) -> Result<S, String>>(
        &mut self,
        probe: P,
        connect: C,
    ) -> (r: Result<PooledConn<S>, PoolError>)
        requires
            forall|s: &S| #[trigger] call_requires(probe, (s,)),
            forall|s: &str| s@ == old(self)@.socket ==> #[trigger] call_requires(connect, (s,)),
        ensures
            exists|dead: nat| acquired(old(self)@, probe, connect, dead, final(self)@, r),
            old(self)@.sound() ==> final(self)@.sound(),
    {
        let ghost before = self@;
        let ghost n = before.idle.len();
        self.begin_acquire();
        let ghost mut dead: nat = 0;
        assert(before.idle.take(n as int) == before.idle);
        loop
            invariant
                n == before.idle.len(),
                dead <= n,
                before.socket == old(self)@.socket,
                before == old(self)@,
                before.sound() ==> self@.sound(),
                forall|s: &S| #[trigger] call_requires(probe, (s,)),
                forall|s: &str| s@ == old(self)@.socket ==> #[trigger] call_requires(connect, (s,)),
                forall|i: int|
                    n - dead <= i < n ==> call_ensures(probe, (&#[trigger] before.idle[i],), false),
                self@ == (PoolView {
                    idle: before.idle.take(n - dead),
                    stats: PoolStats {
                        acquires_total: counted(before.stats.acquires_total, 1),
                        closed_total: counted(before.stats.closed_total, dead),
                        ..before.stats
                    },
                    running: before.running + 1,
                    ..before
                }),
            decreases n - dead,
        {
            match self.take_idle() {
                AcquireStep::Probe(stream) => {
                    assert(stream == before.idle[n - dead - 1]);
                    let alive = probe(&stream);
                    assert(before.idle.take(n - dead).drop_last() == before.idle.take(
                        n - dead - 1,
                    ));
                    match self.note_probe(stream, alive) {
                        Some(conn) => {
                            assert(acquired(before, probe, connect, dead, self@, Ok(conn)));
                            return Ok(conn);
                        },
                        None => {
                            proof {
                                dead = dead + 1;
                            }
                        },
                    }
                },
                AcquireStep::Connect => {
                    assert(before.idle.take(n - dead).len() == n - dead);
                    assert(before.idle.take(0) == Seq::<S>::empty());
                    let opened = connect(self.socket.as_str());
                    let r = self.note_connect(opened);
                    assert(acquired(before, probe, connect, dead, self@, r));
                    return r;
                },
            }
        }
    }

    /// Takes a connection back. It is dropped where enough are idle already.
    fn release(&mut self, stream: S)
        ensures
            final(self)@ == old(self)@.released(stream),
            old(self)@.sound() ==> final(self)@.sound(),
    {
        if self.idle.len() < self.max_idle {
            self.idle.push(stream);
        }
    }
}

/// The pools of all sockets in use.
pub struct PoolRegistry<S> {
    pools: Vec<ConnectionPool<S>>,
}

/// How many idle connections the text of [`ENV_POOL_SIZE`] asks for.
pub open spec fn size_in(text: Option<Seq<char>>) -> usize {
    match text {
        Some(s) => match crate::text::parse_unsigned(s, usize::MAX as nat) {
            Some(n) => if n > 0 {
                n as usize
            } else {
                DEFAULT_MAX_IDLE
            },
            None => DEFAULT_MAX_IDLE,
        },
        None => DEFAULT_MAX_IDLE,
    }
}

/// How many idle connections a new pool keeps, by the text of [`ENV_POOL_SIZE`]. A text
/// that is no positive number counts as none.
pub fn pool_size(text: Option<&str>) -> (r: usize)
    ensures
        r == size_in(
            match text {
                Some(s) => Some(s@),
                None => None,
            },
        ),
{
    match text {
        Some(s) => match parse_usize(s) {
            Some(n) => if n > 0 {
                n
            } else {
                DEFAULT_MAX_IDLE
            },
            None => DEFAULT_MAX_IDLE,
        },
        None => DEFAULT_MAX_IDLE,
    }
}

impl<S> View for PoolRegistry<S> {
    type V = Seq<PoolView<S>>;

    closed spec fn view(&self) -> Seq<PoolView<S>> {
        self.pools@.map_values(|p: ConnectionPool<S>| p@)
    }
}

/// Whether the pool at `i` is the one of the socket `key`.
pub open spec fn holds_at<S>(
    pools: Seq<PoolView<S>>,
    key: crate::path::PathKey,
    i: int,
) -> bool {
    0 <= i < pools.len() && crate::path::path_key(pools[i].socket) == key
}

/// The pools after one was wanted for `socket`.
pub open spec fn with_pool<S>(
    pools: Seq<PoolView<S>>,
    socket: Seq<char>,
    size: usize,
) -> Seq<PoolView<S>> {
    if exists|i: int| holds_at(pools, crate::path::path_key(socket), i) {
        pools
    } else {
        pools.push(PoolView::fresh(socket, size))
    }
}

impl<S> PoolRegistry<S> {
    /// No socket has two pools.
    pub open spec fn one_each(pools: Seq<PoolView<S>>) -> bool {
        forall|i: int, j: int|
            0 <= i < j < pools.len() ==> crate::path::path_key(#[trigger] pools[i].socket)
                != crate::path::path_key(#[trigger] pools[j].socket)
    }

    /// What holds of every registry: no socket has two pools, and the pools are sound.
    pub open spec fn wf(pools: Seq<PoolView<S>>) -> bool {
        &&& Self::one_each(pools)
        &&& forall|i: int| 0 <= i < pools.len() ==> (#[trigger] pools[i]).sound()
    }

    /// A registry without pools.
    pub fn new() -> (r: Self)
        ensures
            r@ == Seq::<PoolView<S>>::empty(),
            Self::wf(r@),
    {
        let r = PoolRegistry { pools: Vec::new() };
        assert(r@ =~= Seq::<PoolView<S>>::empty());
        r
    }

    /// The pool at a place that [`pool_for`] gave.
    pub fn pool(&mut self, at: usize) -> (r: &mut ConnectionPool<S>)
        requires
            at < old(self)@.len(),
        ensures
            r@ == old(self)@[at as int],
            final(self)@ == old(self)@.update(at as int, final(r)@),
            Self::wf(old(self)@) ==> r@.sound(),
            Self::wf(old(self)@) && final(r)@.sound() && final(r)@.socket == r@.socket ==> Self::wf(
                final(self)@,
            ),
    {
        let ghost pools = self@;
        proof {
            assert(pools[at as int] == self.pools@[at as int]@);
            assert forall|p: PoolView<S>|
                Self::wf(pools) && p.sound() && p.socket == pools[at as int].socket implies Self::wf(
                #[trigger] pools.update(at as int, p),
            ) by {
                let after = pools.update(at as int, p);
                assert forall|i: int, j: int| 0 <= i < j < after.len() implies crate::path::path_key(
                    #[trigger] after[i].socket,
                ) != crate::path::path_key(#[trigger] after[j].socket) by {
                    assert(after[i].socket == pools[i].socket);
                    assert(after[j].socket == pools[j].socket);
                }
                assert forall|i: int| 0 <= i < after.len() implies (
                #[trigger] after[i]).sound() by {
                    if i != at {
                        assert(after[i] == pools[i]);
                    }
                }
            }
        }
        &mut self.pools[at]
    }
}

/// Where the pool of `socket` is. There is one per socket, made when it is first wanted;
/// `size` is the text of [`ENV_POOL_SIZE`], which only a new pool goes by.
pub fn pool_for<S>(registry: &mut PoolRegistry<S>, socket: &str, size: Option<&str>) -> (at: usize)
    requires
        PoolRegistry::wf(old(registry)@),
    ensures
        PoolRegistry::wf(final(registry)@),
        final(registry)@ == with_pool(
            old(registry)@,
            socket@,
            size_in(
                match size {
                    Some(s) => Some(s@),
                    None => None,
                },
            ),
        ),
        holds_at(final(registry)@, crate::path::path_key(socket@), at as int),
{
    let ghost key = crate::path::path_key(socket@);
    let ghost before = registry@;
    let mut i: usize = 0;
    while i < registry.pools.len()
        invariant
            i <= registry.pools@.len(),
            registry@ == before,
            PoolRegistry::wf(before),
            before.len() == registry.pools@.len(),
            key == crate::path::path_key(socket@),
            forall|j: int| 0 <= j < i ==> !holds_at(before, key, j),
        decreases registry.pools@.len() - i,
    {
        assert(before[i as int] == registry.pools@[i as int]@);
        if same_path(registry.pools[i].socket(), socket) {
            assert(holds_at(before, key, i as int));
            return i;
        }
        i += 1;
    }
    registry.pools.push(ConnectionPool::new(socket.to_owned(), pool_size(size)));
    proof {
        let after = registry@;
        let fresh = registry.pools@.last()@;
        assert(after =~= before.push(fresh));
        assert forall|a: int| 0 <= a < after.len() implies (#[trigger] after[a]).sound() by {
            if a < before.len() {
                assert(after[a] == before[a]);
            }
        }
        assert(!exists|j: int| holds_at(before, key, j));
        assert forall|a: int, b: int| 0 <= a < b < after.len() implies crate::path::path_key(
            #[trigger] after[a].socket,
        ) != crate::path::path_key(#[trigger] after[b].socket) by {
            assert(after[a] == before[a]);
            if b < before.len() {
                assert(after[b] == before[b]);
            } else {
                assert(!holds_at(before, key, a));
            }
        }
    }
    i
}

/// What all pools have counted: each one's socket, counters, number of idle connections
/// and limit on them.
pub fn all_stats<S>(registry: &PoolRegistry<S>) -> (r: Vec<(String, PoolStats, usize, usize)>)
    ensures
        r@.len() == registry@.len(),
        forall|i: int|
            0 <= i < r@.len() ==> {
                let p = registry@[i];
                &&& (#[trigger] r@[i]).0@ == p.socket
                &&& r@[i].1 == p.stats
                &&& r@[i].2 == p.idle.len()
                &&& r@[i].3 == p.max_idle
                &&& PoolRegistry::wf(registry@) ==> r@[i].2 <= r@[i].3
                &&& PoolRegistry::wf(registry@) && p.running == 0 ==> r@[i].1.acquires_total
                    == counted(r@[i].1.hits_total, r@[i].1.misses_total as nat)
            },
{
    let mut r: Vec<(String, PoolStats, usize, usize)> = Vec::new();
    let mut i: usize = 0;
    while i < registry.pools.len()
        invariant
            i <= registry.pools@.len(),
            registry@.len() == registry.pools@.len(),
            r@.len() == i,
            forall|j: int|
                0 <= j < i ==> {
                    let p = registry@[j];
                    &&& (#[trigger] r@[j]).0@ == p.socket
                    &&& r@[j].1 == p.stats
                    &&& r@[j].2 == p.idle.len()
                    &&& r@[j].3 == p.max_idle
                    &&& PoolRegistry::wf(registry@) ==> r@[j].2 <= r@[j].3
                    &&& PoolRegistry::wf(registry@) && p.running == 0 ==> r@[j].1.acquires_total
                        == counted(r@[j].1.hits_total, r@[j].1.misses_total as nat)
                },
        decreases registry.pools@.len() - i,
    {
        let p = &registry.pools[i];
        assert(registry@[i as int] == p@);
        proof {
            if p@.sound() && p@.running == 0 {
                law_sound_adds_up(p@);
            }
        }
        r.push((p.socket().to_owned(), p.stats(), p.idle_count(), p.max_idle()));
        i += 1;
    }
    r
}

/// What happens to a pool, where a request is seen as a whole.
pub enum PoolEvent<S> {
    /// A request dropped so many idle connections and reused the next one.
    Hit { dead: nat },
    /// A request found no idle connection to reuse, whether or not one could be opened.
    Missed,
    /// A connection was poisoned.
    Poisoned,
    /// A connection was given back.
    Released(S),
}

impl<S> PoolView<S> {
    /// Whether this can happen to the pool.
    pub open spec fn admits(self, event: PoolEvent<S>) -> bool {
        match event {
            PoolEvent::Hit { dead } => dead < self.idle.len(),
            _ => true,
        }
    }

    /// After this has happened.
    pub open spec fn after(self, event: PoolEvent<S>) -> Self {
        match event {
            PoolEvent::Hit { dead } => self.hit(dead),
            PoolEvent::Missed => self.missed(),
            PoolEvent::Poisoned => self.poisoned(),
            PoolEvent::Released(stream) => self.released(stream),
        }
    }

    /// After all this has happened to a new pool.
    pub open spec fn reached(socket: Seq<char>, max_idle: usize, events: Seq<PoolEvent<S>>) -> Self
        decreases events.len(),
    {
        if events.len() == 0 {
            Self::fresh(socket, max_idle)
        } else {
            Self::reached(socket, max_idle, events.drop_last()).after(events.last())
        }
    }

    /// Whether all this can happen to a new pool.
    pub open spec fn possible(
        socket: Seq<char>,
        max_idle: usize,
        events: Seq<PoolEvent<S>>,
    ) -> bool
        decreases events.len(),
    {
        events.len() > 0 ==> {
            &&& Self::possible(socket, max_idle, events.drop_last())
            &&& Self::reached(socket, max_idle, events.drop_last()).admits(events.last())
        }
    }
}

/// How many of the events are requests.
pub open spec fn requests<S>(events: Seq<PoolEvent<S>>) -> nat
    decreases events.len(),
{
    if events.len() == 0 {
        0
    } else {
        requests(events.drop_last()) + (if events.last() is Hit || events.last() is Missed {
            1nat
        } else {
            0nat
        })
    }
}

/// A sound pool adds up while no request is running.
pub proof fn law_sound_adds_up<S>(pool: PoolView<S>)
    requires
        pool.sound(),
        pool.running == 0,
    ensures
        pool.idle.len() <= pool.max_idle,
        pool.adds_up(),
{
}

/// Every step of every operation keeps a pool sound.
pub proof fn law_pool_stays_sound<S>(
    pool: PoolView<S>,
    alive: bool,
    event: PoolEvent<S>,
)
    requires
        pool.sound(),
    ensures
        pool.requested().sound(),
        pool.popped().sound(),
        pool.probed(alive).sound(),
        pool.admits(event) ==> pool.after(event).sound() && pool.after(event).running
            == pool.running,
{
}

/// A connection that is given back is kept, behind those that are idle already, exactly
/// where there is room; no counter changes.
pub proof fn law_given_back_where_there_is_room<S>(pool: PoolView<S>, stream: S)
    requires
        pool.sound(),
    ensures
        ({
            let after = pool.released(stream);
            &&& pool.idle.len() < pool.max_idle ==> after.idle == pool.idle.push(stream)
                && after.idle.len() == pool.idle.len() + 1
            &&& pool.idle.len() >= pool.max_idle ==> after == pool
            &&& pool.max_idle == 0 ==> after.idle.len() == 0
            &&& after.idle.len() <= after.max_idle
            &&& after.max_idle == pool.max_idle && after.socket == pool.socket
            &&& after.stats == pool.stats
        }),
{
}

proof fn lemma_count_on(n: u64, k: nat)
    ensures
        counted(counted(n, k), 1) == counted(n, k + 1),
{
}

/// Whatever has happened to a pool, it keeps no more idle connections than it may, none at
/// all where it may keep none, and has counted every request once, as a hit or as a miss.
pub proof fn law_reached_pool_adds_up<S>(
    socket: Seq<char>,
    max_idle: usize,
    events: Seq<PoolEvent<S>>,
)
    requires
        PoolView::possible(socket, max_idle, events),
    ensures
        ({
            let pool = PoolView::reached(socket, max_idle, events);
            &&& pool.socket == socket && pool.max_idle == max_idle
            &&& pool.sound() && pool.running == 0
            &&& pool.idle.len() <= max_idle
            &&& max_idle == 0 ==> pool.idle.len() == 0
            &&& pool.adds_up()
            &&& pool.stats.acquires_total == counted(0, requests(events))
        }),
    decreases events.len(),
{
    let pool = PoolView::reached(socket, max_idle, events);
    if events.len() == 0 {
        assert(pool == PoolView::<S>::fresh(socket, max_idle));
    } else {
        let earlier = events.drop_last();
        let event = events.last();
        law_reached_pool_adds_up(socket, max_idle, earlier);
        let before = PoolView::reached(socket, max_idle, earlier);
        assert(pool == before.after(event) && before.admits(event));
        law_pool_stays_sound(before, true, event);
        lemma_count_on(0, requests(earlier));
    }
    law_sound_adds_up(pool);
}

/// No counter goes down, until it has used up all 64 bit numbers, and giving a connection
/// back counts nothing.
pub proof fn law_counters_do_not_go_down<S>(pool: PoolView<S>, event: PoolEvent<S>)
    requires
        pool.admits(event),
        pool.stats.acquires_total < u64::MAX,
        pool.stats.hits_total < u64::MAX,
        pool.stats.misses_total < u64::MAX,
        pool.stats.closed_total + pool.idle.len() <= u64::MAX,
        pool.stats.poisoned_total < u64::MAX,
    ensures
        ({
            let after = pool.after(event).stats;
            &&& after.acquires_total >= pool.stats.acquires_total
            &&& after.hits_total >= pool.stats.hits_total
            &&& after.misses_total >= pool.stats.misses_total
            &&& after.closed_total >= pool.stats.closed_total
            &&& after.poisoned_total >= pool.stats.poisoned_total
            &&& event is Released ==> after == pool.stats
        }),
{
}

/// A request is one event: it takes out an idle connection, or misses, and its connection
/// belongs to this pool.
pub proof fn law_request_is_one_event<S, P: Fn(&S) -> bool, C: FnOnce(&str) -> Result<S, String>>(
    before: PoolView<S>,
    probe: P,
    connect: C,
    dead: nat,
    after: PoolView<S>,
    r: Result<PooledConn<S>, PoolError>,
)
    requires
        acquired(before, probe, connect, dead, after, r),
    ensures
        exists|event: PoolEvent<S>|
            (event is Hit || event is Missed) && before.admits(event) && after
                == #[trigger] before.after(event),
        after.socket == before.socket,
        r matches Ok(conn) ==> conn.socket() == before.socket,
        r is Err ==> after == before.after(PoolEvent::Missed),
{
    if dead < before.idle.len() {
        assert(before.admits(PoolEvent::Hit { dead }));
        assert(after == before.after(PoolEvent::Hit { dead }));
    } else {
        assert(after == before.after(PoolEvent::Missed));
    }
}

/// A connection that was given back is the next to be handed out, if it passes the
/// probe, and the pool is then as it was, but for the counters.
pub proof fn law_last_in_first_out<S, P: Fn(&S) -> bool, C: FnOnce(&str) -> Result<S, String>>(
    before: PoolView<S>,
    stream: S,
    probe: P,
    connect: C,
    dead: nat,
    after: PoolView<S>,
    r: Result<PooledConn<S>, PoolError>,
)
    requires
        before.idle.len() < before.max_idle,
        acquired(before.released(stream), probe, connect, dead, after, r),
        !call_ensures(probe, (&stream,), false),
    ensures
        r matches Ok(conn) && conn.stream() == stream,
        after.idle == before.idle,
{
    let held = before.released(stream);
    let n = held.idle.len();
    assert(held.idle[n - 1] == stream);
    if dead > 0 {
        assert(call_ensures(probe, (&held.idle[n - 1],), false));
    }
    assert(before.idle.push(stream).take(n - 1) =~= before.idle);
}

/// Only a connection that was idle, and passed the probe, is handed out again; in
/// particular a poisoned one, which is not given back, never is.
pub proof fn law_reused_was_idle<S, P: Fn(&S) -> bool, C: FnOnce(&str) -> Result<S, String>>(
    before: PoolView<S>,
    probe: P,
    connect: C,
    dead: nat,
    after: PoolView<S>,
    r: Result<PooledConn<S>, PoolError>,
)
    requires
        acquired(before, probe, connect, dead, after, r),
    ensures
        after.stats.misses_total == before.stats.misses_total ==> {
            &&& r matches Ok(conn) && before.idle.contains(conn.stream()) && call_ensures(
                probe,
                (&conn.stream(),),
                true,
            )
        },
        forall|s: S| #[trigger] after.idle.contains(s) ==> before.idle.contains(s),
{
    let n = before.idle.len();
    if dead < n {
        let kept = before.idle.take(n - dead - 1);
        assert forall|s: S| #[trigger] after.idle.contains(s) implies before.idle.contains(s) by {
            let i = choose|i: int| 0 <= i < kept.len() && kept[i] == s;
            assert(before.idle[i] == s);
        }
    }
}

/// The pool of a socket is the same each time: once it is there, asking for it changes
/// nothing, and only one place holds it.
pub proof fn law_same_pool<S>(
    pools: Seq<PoolView<S>>,
    socket: Seq<char>,
    again: Seq<char>,
    size: usize,
    other_size: usize,
    i: int,
    j: int,
)
    requires
        PoolRegistry::wf(pools),
        crate::path::path_key(again) == crate::path::path_key(socket),
        holds_at(with_pool(pools, socket, size), crate::path::path_key(socket), i),
        holds_at(with_pool(pools, socket, size), crate::path::path_key(socket), j),
    ensures
        with_pool(with_pool(pools, socket, size), again, other_size) == with_pool(
            pools,
            socket,
            size,
        ),
        i == j,
{
    let key = crate::path::path_key(socket);
    let after = with_pool(pools, socket, size);
    if !(exists|k: int| holds_at(pools, key, k)) {
        if i < pools.len() {
            assert(holds_at(pools, key, i));
        }
        if j < pools.len() {
            assert(holds_at(pools, key, j));
        }
    } else {
        assert(crate::path::path_key(after[i].socket) == key);
        assert(crate::path::path_key(after[j].socket) == key);
    }
}

/// How many of the events are as asked.
pub open spec fn happened<S>(events: Seq<PoolEvent<S>>, asked: spec_fn(PoolEvent<S>) -> bool) -> nat
    decreases events.len(),
{
    if events.len() == 0 {
        0
    } else {
        happened(events.drop_last(), asked) + (if asked(events.last()) {
            1nat
        } else {
            0nat
        })
    }
}

/// Whatever has happened to a pool, it has counted as hits the requests that reused a connection,
/// as misses those that did not, and every time that a connection was poisoned.
pub proof fn law_counters_count_what_happened<S>(
    socket: Seq<char>,
    max_idle: usize,
    events: Seq<PoolEvent<S>>,
)
    ensures
        ({
            let stats = PoolView::reached(socket, max_idle, events).stats;
            let hits = happened(events, |e: PoolEvent<S>| e is Hit);
            let misses = happened(events, |e: PoolEvent<S>| e is Missed);
            let poisoned = happened(events, |e: PoolEvent<S>| e is Poisoned);
            &&& (stats.hits_total - hits) % 0x1_0000_0000_0000_0000 == 0
            &&& (stats.misses_total - misses) % 0x1_0000_0000_0000_0000 == 0
            &&& (stats.acquires_total - hits - misses) % 0x1_0000_0000_0000_0000 == 0
            &&& (stats.poisoned_total - poisoned) % 0x1_0000_0000_0000_0000 == 0
        }),
    decreases events.len(),
{
    if events.len() > 0 {
        law_counters_count_what_happened(socket, max_idle, events.drop_last());
        let before = PoolView::reached(socket, max_idle, events.drop_last());
        assert(PoolView::reached(socket, max_idle, events) == before.after(events.last()));
    }
}

/// A request that drops idle connections counts every one of them as closed, and all idle ones
/// where it opens a new one.
pub proof fn law_dropped_connections_are_counted<S>(pool: PoolView<S>, dead: nat)
    requires
        dead < pool.idle.len(),
    ensures
        (pool.hit(dead).stats.closed_total - pool.stats.closed_total - dead) % 0x1_0000_0000_0000_0000 == 0,
        pool.hit(dead).idle.len() + 1 + dead == pool.idle.len(),
        (pool.missed().stats.closed_total - pool.stats.closed_total - pool.idle.len()) % 0x1_0000_0000_0000_0000 == 0,
        pool.missed().idle.len() == 0,
        pool.poisoned().idle == pool.idle,
        pool.poisoned().stats.closed_total == pool.stats.closed_total,
{
}

/// Each step of a request changes what it should and nothing else: the request is counted, the
/// connection given back last is taken out or a miss is counted, and a probe counts a hit or a
/// closed connection.
pub proof fn law_steps_change_what_they_should<S>(pool: PoolView<S>, alive: bool)
    ensures
        ({
            let asked = pool.requested();
            let looked = pool.popped();
            let probed = pool.probed(alive);
            &&& (asked.stats.acquires_total - pool.stats.acquires_total - 1) % 0x1_0000_0000_0000_0000 == 0
            &&& asked.idle == pool.idle
            &&& asked.stats == (PoolStats {
                acquires_total: asked.stats.acquires_total,
                ..pool.stats
            })
            &&& pool.idle.len() > 0 ==> looked.idle == pool.idle.take(pool.idle.len() - 1)
                && looked.stats == pool.stats
            &&& pool.idle.len() == 0 ==> looked.idle.len() == 0 && (looked.stats.misses_total
                - pool.stats.misses_total - 1) % 0x1_0000_0000_0000_0000 == 0 && looked.stats == (PoolStats {
                misses_total: looked.stats.misses_total,
                ..pool.stats
            })
            &&& probed.idle == pool.idle
            &&& alive ==> (probed.stats.hits_total - pool.stats.hits_total - 1) % 0x1_0000_0000_0000_0000 == 0
                && probed.stats == (PoolStats {
                hits_total: probed.stats.hits_total,
                ..pool.stats
            })
            &&& !alive ==> (probed.stats.closed_total - pool.stats.closed_total - 1) % 0x1_0000_0000_0000_0000 == 0
                && probed.stats == (PoolStats {
                closed_total: probed.stats.closed_total,
                ..pool.stats
            })
            &&& asked.socket == pool.socket && looked.socket == pool.socket && probed.socket
                == pool.socket
            &&& asked.max_idle == pool.max_idle && looked.max_idle == pool.max_idle
                && probed.max_idle == pool.max_idle
        }),
{
    if pool.idle.len() > 0 {
        assert(pool.popped().idle =~= pool.idle.take(pool.idle.len() - 1));
    }
}

/// A request hands out the last idle connection that passes the probe, and drops only those
/// behind it, which failed; those in front of it stay. Where all failed it hands out what
/// connecting to the socket of the pool gave, or tells why that gave nothing.
pub proof fn law_acquired_means<S, P: Fn(&S) -> bool, C: FnOnce(&str) -> Result<S, String>>(
    before: PoolView<S>,
    probe: P,
    connect: C,
    dead: nat,
    after: PoolView<S>,
    r: Result<PooledConn<S>, PoolError>,
)
    requires
        acquired(before, probe, connect, dead, after, r),
    ensures
        dead <= before.idle.len(),
        forall|i: int|
            before.idle.len() - dead <= i < before.idle.len() ==> call_ensures(
                probe,
                (&#[trigger] before.idle[i],),
                false,
            ),
        dead < before.idle.len() ==> (r matches Ok(conn) && before.idle == after.idle + seq![
            conn.stream(),
        ] + before.idle.skip(before.idle.len() - dead) && call_ensures(
            probe,
            (&conn.stream(),),
            true,
        ) && conn.socket() == before.socket && !conn.is_poisoned()),
        dead < before.idle.len() ==> (after.stats.hits_total - before.stats.hits_total - 1) % 0x1_0000_0000_0000_0000
            == 0 && after.stats.misses_total == before.stats.misses_total,
        dead == before.idle.len() ==> after.idle.len() == 0 && (after.stats.misses_total
            - before.stats.misses_total - 1) % 0x1_0000_0000_0000_0000 == 0 && after.stats.hits_total
            == before.stats.hits_total && (exists|s: &str, opened: Result<S, String>|
            #[trigger] call_ensures(connect, (s,), opened) && s@ == before.socket && (
            opened matches Ok(stream) ==> (r matches Ok(conn) && conn.stream() == stream
                && conn.socket() == before.socket && !conn.is_poisoned())) && (
            opened matches Err(e) ==> (r matches Err(PoolError::Connect { socket, source })
                && socket@ == before.socket && source == e))),
        (after.stats.acquires_total - before.stats.acquires_total - 1) % 0x1_0000_0000_0000_0000 == 0,
        (after.stats.closed_total - before.stats.closed_total - dead) % 0x1_0000_0000_0000_0000 == 0,
        after.stats.poisoned_total == before.stats.poisoned_total,
        after.socket == before.socket,
        after.max_idle == before.max_idle,
{
    if dead < before.idle.len() {
        let conn = r->Ok_0;
        assert(before.idle =~= after.idle + seq![conn.stream()] + before.idle.skip(
            before.idle.len() - dead,
        ));
    }
}

/// A new pool is empty, has counted nothing, and is the pool of the socket that it was made for,
/// with the limit that it was made with.
pub proof fn law_fresh_pool<S>(socket: Seq<char>, max_idle: usize)
    ensures
        ({
            let p = PoolView::<S>::fresh(socket, max_idle);
            &&& p.socket == socket
            &&& p.max_idle == max_idle
            &&& p.idle.len() == 0
            &&& p.stats.acquires_total == 0
            &&& p.stats.hits_total == 0
            &&& p.stats.misses_total == 0
            &&& p.stats.closed_total == 0
            &&& p.stats.poisoned_total == 0
            &&& p.running == 0
        }),
{
}

/// The size of a pool is the number that the text writes, in decimal and with a plus sign or
/// not, where that is positive and fits, and else 16.
pub proof fn law_pool_size(n: nat, s: Seq<char>)
    ensures
        0 < n <= usize::MAX ==> size_in(Some(crate::text::decimal(n))) == n,
        size_in(None) == 16,
        size_in(Some(crate::text::decimal(0))) == 16,
        crate::text::parse_unsigned(s, usize::MAX as nat) is None ==> size_in(Some(s)) == 16,
        crate::text::parse_unsigned(s, usize::MAX as nat) matches Some(m) ==> m > 0 ==> size_in(
            Some(s),
        ) == m,
{
    if n <= usize::MAX {
        crate::text::law_decimal_round_trip(n, usize::MAX as nat);
    }
    crate::text::law_decimal_round_trip(0, usize::MAX as nat);
}

/// Asking for the pool of a socket leaves the pools that there are as they are; where none is
/// of this socket, one new pool comes behind them, for this socket and of this size.
pub proof fn law_pools_are_added_once<S>(
    pools: Seq<PoolView<S>>,
    socket: Seq<char>,
    size: usize,
)
    ensures
        ({
            let after = with_pool(pools, socket, size);
            let there = exists|i: int|
                0 <= i < pools.len() && crate::path::path_key((#[trigger] pools[i]).socket)
                    == crate::path::path_key(socket);
            &&& there ==> after == pools
            &&& !there ==> after.len() == pools.len() + 1 && after.last().socket == socket
                && after.last().max_idle == size && after.last().idle.len() == 0
                && after.last().stats == PoolStats::zero()
            &&& forall|i: int| 0 <= i < pools.len() ==> #[trigger] after[i] == pools[i]
        }),
{
    let key = crate::path::path_key(socket);
    if exists|i: int|
        0 <= i < pools.len() && crate::path::path_key((#[trigger] pools[i]).socket) == key {
        let i = choose|i: int|
            0 <= i < pools.len() && crate::path::path_key((#[trigger] pools[i]).socket) == key;
        assert(holds_at(pools, key, i));
    } else {
        assert forall|i: int| !holds_at(pools, key, i) by {
            if 0 <= i < pools.len() {
                assert(crate::path::path_key(pools[i].socket) != key);
            }
        }
    }
}

/// The place that is given for a socket holds a pool of the same path.
pub proof fn law_place_holds_the_socket<S>(
    pools: Seq<PoolView<S>>,
    key: crate::path::PathKey,
    i: int,
)
    ensures
        holds_at(pools, key, i) <==> 0 <= i < pools.len() && crate::path::path_key(pools[i].socket)
            == key,
{
}

/// The words of an error hold the whole socket and the whole reason.
pub proof fn law_pool_error_words(socket: String, source: String)
    ensures
        (PoolError::Connect { socket, source }).text() == "connect "@ + socket@ + ": "@ + source@,
{
}

/// A connection that was opened is lent as it is, for the pool that it was opened for; one that
/// could not be is an error with the socket of the pool and the reason.
pub proof fn law_connected_means<S>(
    socket: Seq<char>,
    opened: Result<S, String>,
    r: Result<PooledConn<S>, PoolError>,
)
    ensures
        connected(socket, opened, r) ==> (opened matches Ok(stream) ==> (r matches Ok(conn)
            && conn.stream() == stream && conn.socket() == socket && !conn.is_poisoned())),
        connected(socket, opened, r) ==> (opened matches Err(e) ==> (r matches Err(
            PoolError::Connect { socket: s, source },
        ) && s@ == socket && source == e)),
        ENV_POOL_SIZE@ == "HI_KAFKA_POOL_SIZE"@,
{
}

/// A connection is lent as it is, for the pool that it comes from, and fit for use.
pub proof fn law_lent_means<S>(conn: PooledConn<S>, stream: S, socket: Seq<char>)
    ensures
        conn.lent(stream, socket) <==> conn.stream() == stream && conn.socket() == socket
            && !conn.is_poisoned(),
{
}

} // verus!
