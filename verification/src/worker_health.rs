//! Which workers are known to be up.
//!
//! Probing the worker before every request would cost a connection each time. So the
//! sockets whose worker was found up are remembered, until a request fails and the
//! caller says that one is in doubt.

use crate::path::same_path;
use crate::spawn::SpawnError;
use vstd::prelude::*;

verus! {

/// The sockets whose worker is known to be up.
#[derive(Debug)]
pub struct WorkerCache {
    known: Vec<String>,
}

/// The components of each path in `v`.
pub open spec fn keys_of(v: Seq<String>) -> Seq<crate::path::PathKey> {
    v.map_values(|s: String| crate::path::path_key(s@))
}

impl View for WorkerCache {
    type V = Set<crate::path::PathKey>;

    closed spec fn view(&self) -> Set<crate::path::PathKey> {
        keys_of(self.known@).to_set()
    }
}

/// What [`ensure`] is told.
#[derive(Debug)]
pub enum EnsureEvent {
    /// A worker is wanted.
    Wanted,
    /// This came of starting it.
    Started(Result<(), SpawnError>),
}

/// What [`ensure`] says.
#[derive(Debug)]
pub enum EnsureStep {
    /// Start the worker, then report how that went.
    Start,
    /// Return this.
    Return(Result<(), SpawnError>),
}

/// The answer to `event` about the socket `key`, with the workers in `known` up.
pub open spec fn ensure_step(
    known: Set<crate::path::PathKey>,
    key: crate::path::PathKey,
    event: EnsureEvent,
) -> EnsureStep {
    match event {
        EnsureEvent::Wanted => if known.contains(key) {
            EnsureStep::Return(Ok(()))
        } else {
            EnsureStep::Start
        },
        EnsureEvent::Started(r) => EnsureStep::Return(r),
    }
}

/// The workers that are known to be up after `event`.
pub open spec fn known_after(
    known: Set<crate::path::PathKey>,
    key: crate::path::PathKey,
    event: EnsureEvent,
) -> Set<crate::path::PathKey> {
    match event {
        EnsureEvent::Started(Ok(_)) => known.insert(key),
        _ => known,
    }
}

impl WorkerCache {
    /// No path is held twice.
    pub closed spec fn wf(self) -> bool {
        keys_of(self.known@).no_duplicates()
    }

    /// A cache that knows of no worker.
    pub fn new() -> (r: Self)
        ensures
            r.wf(),
            r@.finite(),
            r@ == Set::<crate::path::PathKey>::empty(),
    {
        let r = WorkerCache { known: Vec::new() };
        assert(keys_of(r.known@) == Seq::<crate::path::PathKey>::empty());
        assert(r@ =~= Set::<crate::path::PathKey>::empty());
        r
    }

    /// Where `socket` is held, if it is.
    fn position(&self, socket: &str) -> (r: Option<usize>)
        ensures
            match r {
                Some(i) => i < self.known@.len() && keys_of(self.known@)[i as int]
                    == crate::path::path_key(socket@),
                None => !self@.contains(crate::path::path_key(socket@)),
            },
    {
        let ghost key = crate::path::path_key(socket@);
        let mut i: usize = 0;
        while i < self.known.len()
            invariant
                i <= self.known@.len(),
                key == crate::path::path_key(socket@),
                forall|j: int| 0 <= j < i ==> #[trigger] keys_of(self.known@)[j] != key,
            decreases self.known@.len() - i,
        {
            if same_path(&self.known[i], socket) {
                return Some(i);
            }
            i += 1;
        }
        None
    }
}

/// Makes sure that the worker behind `socket` is up. One that is known to be up is not
/// looked at again.
pub fn ensure(cache: &mut WorkerCache, socket: &str, event: EnsureEvent) -> (r: EnsureStep)
    requires
        old(cache).wf(),
    ensures
        final(cache).wf(),
        old(cache)@.finite() && final(cache)@.finite(),
        final(cache)@ == known_after(old(cache)@, crate::path::path_key(socket@), event),
        r == ensure_step(old(cache)@, crate::path::path_key(socket@), event),
{
    let ghost key = crate::path::path_key(socket@);
    let ghost before = keys_of(cache.known@);
    proof {
        law_known_is_finite(*cache);
    }
    let at = cache.position(socket);
    proof {
        if at is Some {
            assert(before[at->0 as int] == key);
            assert(cache@.contains(key));
        }
    }
    match event {
        EnsureEvent::Wanted => match at {
            Some(_) => EnsureStep::Return(Ok(())),
            None => EnsureStep::Start,
        },
        EnsureEvent::Started(Ok(done)) => {
            match at {
                Some(_) => {
                    assert(cache@.insert(key) =~= cache@);
                },
                None => {
                    cache.known.push(socket.to_owned());
                    proof {
                        let after = keys_of(cache.known@);
                        assert(after == before.push(key));
                        assert(!before.contains(key));
                        assert(after.to_set() =~= before.to_set().insert(key)) by {
                            assert forall|k: crate::path::PathKey| before.to_set().insert(
                                key,
                            ).contains(k) implies after.to_set().contains(k) by {
                                if k == key {
                                    assert(after[before.len() as int] == key);
                                } else {
                                    let i = before.index_of(k);
                                    assert(before.contains(k));
                                    assert(after[i] == k);
                                }
                            }
                        }
                    }
                },
            }
            EnsureStep::Return(Ok(done))
        },
        EnsureEvent::Started(Err(e)) => EnsureStep::Return(Err(e)),
    }
}

/// Puts the worker behind `socket` in doubt.
pub fn invalidate(cache: &mut WorkerCache, socket: &str)
    requires
        old(cache).wf(),
    ensures
        final(cache).wf(),
        old(cache)@.finite() && final(cache)@.finite(),
        final(cache)@ == old(cache)@.remove(crate::path::path_key(socket@)),
{
    let ghost key = crate::path::path_key(socket@);
    let ghost before = keys_of(cache.known@);
    proof {
        law_known_is_finite(*cache);
    }
    match cache.position(socket) {
        Some(i) => {
            cache.known.remove(i);
            proof {
                let after = keys_of(cache.known@);
                assert(after == before.remove(i as int));
                assert forall|k: crate::path::PathKey| before.to_set().remove(key).contains(
                    k,
                ) implies after.to_set().contains(k) by {
                    assert(before.contains(k));
                    let j = before.index_of(k);
                    if j < i {
                        assert(after[j] == k);
                    } else {
                        assert(after[j - 1] == k);
                    }
                }
                assert forall|k: crate::path::PathKey| after.to_set().contains(
                    k,
                ) implies before.to_set().remove(key).contains(k) by {
                    assert(after.contains(k));
                    let j = after.index_of(k);
                    if j < i {
                        assert(before[j] == k);
                    } else {
                        assert(before[j + 1] == k);
                    }
                }
                assert(after.to_set() =~= before.to_set().remove(key));
            }
        },
        None => {
            assert(cache@.remove(key) =~= cache@);
        },
    }
}

/// How many workers are known to be up.
pub fn cached_count(cache: &WorkerCache) -> (n: usize)
    requires
        cache.wf(),
    ensures
        cache@.finite(),
        n == cache@.len(),
{
    proof {
        law_known_is_finite(*cache);
        keys_of(cache.known@).unique_seq_to_set();
    }
    cache.known.len()
}

/// Only finitely many workers are ever known to be up, so that they can be counted.
pub proof fn law_known_is_finite(cache: WorkerCache)
    requires
        cache.wf(),
    ensures
        cache@.finite(),
{
    vstd::seq_lib::seq_to_set_is_finite(keys_of(cache.known@));
}

/// How the count of workers that are known to be up follows what happens: doubting one that
/// is known takes one away, starting one that is not adds one, and nothing else counts.
pub proof fn law_count_follows(
    known: Set<crate::path::PathKey>,
    key: crate::path::PathKey,
    event: EnsureEvent,
)
    requires
        known.finite(),
    ensures
        known.remove(key).finite(),
        known.remove(key).len() == known.len() - (if known.contains(key) {
            1int
        } else {
            0int
        }),
        known_after(known, key, event).finite(),
        known_after(known, key, event).len() == known.len() + (if !known.contains(key) && (
        event matches EnsureEvent::Started(Ok(_))) {
            1int
        } else {
            0int
        }),
{
    if !known.contains(key) {
        assert(known.remove(key) =~= known);
    } else {
        assert(known.insert(key) =~= known);
    }
}

/// A worker that was put in doubt is started when it is next wanted, and doubting it once
/// more changes nothing.
pub proof fn law_doubt_is_settled(known: Set<crate::path::PathKey>, key: crate::path::PathKey)
    ensures
        !known.remove(key).contains(key),
        ensure_step(known.remove(key), key, EnsureEvent::Wanted) == EnsureStep::Start,
        known.remove(key).remove(key) == known.remove(key),
{
    assert(known.remove(key).remove(key) =~= known.remove(key));
}

/// A worker that was started is not started again while it is not put in doubt, and is
/// started again once it is.
pub proof fn law_started_once(known: Set<crate::path::PathKey>, key: crate::path::PathKey)
    ensures
        ensure_step(
            known_after(known, key, EnsureEvent::Started(Ok(()))),
            key,
            EnsureEvent::Wanted,
        ) == EnsureStep::Return(Ok(())),
        ensure_step(known.remove(key), key, EnsureEvent::Wanted) == EnsureStep::Start,
{
}

/// A start that failed is not remembered.
pub proof fn law_failure_is_not_cached(
    known: Set<crate::path::PathKey>,
    key: crate::path::PathKey,
    e: SpawnError,
)
    ensures
        known_after(known, key, EnsureEvent::Started(Err(e))) == known,
        ensure_step(known, key, EnsureEvent::Started(Err(e))) == EnsureStep::Return(Err(e)),
{
}

/// What is said of one socket leaves the others alone, and doubting an unknown one does
/// nothing.
pub proof fn law_per_socket(
    known: Set<crate::path::PathKey>,
    key: crate::path::PathKey,
    other: crate::path::PathKey,
    event: EnsureEvent,
)
    requires
        key != other,
    ensures
        known_after(known, key, event).contains(other) == known.contains(other),
        known.remove(key).contains(other) == known.contains(other),
        !known.contains(key) ==> known.remove(key) == known,
{
    if !known.contains(key) {
        assert(known.remove(key) =~= known);
    }
}

/// A worker that is wanted is started exactly where it is not known to be up; how a start went
/// is passed on; and only a start that worked makes a worker known.
pub proof fn law_wanted_workers_are_started(
    known: Set<crate::path::PathKey>,
    key: crate::path::PathKey,
    e: SpawnError,
)
    ensures
        ensure_step(known, key, EnsureEvent::Wanted) is Start <==> !known.contains(key),
        known.contains(key) ==> (ensure_step(known, key, EnsureEvent::Wanted) matches (
        EnsureStep::Return(Ok(_)))),
        ensure_step(known, key, EnsureEvent::Started(Ok(()))) matches EnsureStep::Return(Ok(_)),
        ensure_step(known, key, EnsureEvent::Started(Err(e))) == EnsureStep::Return(Err(e)),
        known_after(known, key, EnsureEvent::Started(Ok(()))).contains(key),
        known_after(known, key, EnsureEvent::Wanted) == known,
        known_after(known, key, EnsureEvent::Started(Err(e))) == known,
{
}

/// Which worker is meant depends on the path of its socket, not on how it is spelt: each
/// remembered spelling counts with all its components, in order.
pub proof fn law_sockets_are_remembered_by_path(v: Seq<String>)
    ensures
        keys_of(v).len() == v.len(),
        forall|i: int| 0 <= i < v.len() ==> #[trigger] keys_of(v)[i] == crate::path::path_key(v[i]@),
{
}

} // verus!
