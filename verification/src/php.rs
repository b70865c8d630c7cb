//! The functions that PHP code calls.
//!
//! Each takes what the PHP caller passed and, where the outside world has a part in it,
//! functions that do that part: send a request, write a payload, read one. Errors are
//! texts, which become PHP exceptions. Where a function may have to look for a
//! socket, `env` is what is remembered of the environment and `now` what it holds.

use crate::arguments::{build_options, resolve_timeout, ProduceOptions, SocketEnv};
use crate::messages::{
    CommitReq, CommitResp, ConsumerMessage, PollReq, PollResp, ProduceFnf, ProduceResp,
    RegisterClusterReq, RegisterClusterResp, SubscribeReq, SubscribeResp, UnsubscribeReq,
};
use crate::number::{to_low_u32, to_signed, to_unsigned};
use crate::php_value::{assoc, bytes_to_php_string, messages_to_zval, put, PhpModel, PhpValue};
use crate::pool::{all_stats, PoolRegistry};
use crate::protocol::{
    build_commit_frame, build_fnf_frame, build_poll_frame, build_register_cluster_frame,
    build_req_frame, build_subscribe_frame, build_unsubscribe_frame, header_len, next_cid,
    parse_consumer_resp_frame, parse_header_only, parse_resp_frame, CidCounter, ConsumerResp,
    FrameHeader, FrameKind, ParsedFrame, ParsedHeader, ProtocolError,
};
use crate::text::push_decimal;
use crate::worker_health::{ensure, EnsureEvent, EnsureStep, WorkerCache};
use vstd::prelude::*;
use vstd::string::StringExecFns;

verus! {

/// What [`hi_kafka_ensure_worker`] says.
#[derive(Debug, PartialEq, Eq)]
pub enum EnsureWorkerStep {
    /// Start the worker behind this socket, then report how that went.
    Start { socket: String },
    /// Return this.
    Return(Result<(), String>),
}

/// What [`hi_kafka_ensure_worker`] says where [`ensure`] says `step`.
pub open spec fn ensure_worker_step(
    socket: Seq<char>,
    step: EnsureStep,
    r: EnsureWorkerStep,
) -> bool {
    match step {
        EnsureStep::Start => r matches EnsureWorkerStep::Start { socket: s } && s@ == socket,
        EnsureStep::Return(Ok(_)) => r matches EnsureWorkerStep::Return(Ok(_)),
        EnsureStep::Return(Err(e)) => r matches EnsureWorkerStep::Return(Err(m)) && m@
            == "ensure_worker: "@ + e.text(),
    }
}

/// Makes sure that the worker is up, and starts it if need be.
pub fn hi_kafka_ensure_worker(
    cache: &mut WorkerCache,
    env: &mut SocketEnv,
    socket: Option<&str>,
    now: Option<&str>,
    event: EnsureEvent,
) -> (r: EnsureWorkerStep)
    requires
        old(cache).wf(),
    ensures
        final(cache).wf(),
        final(env)@ == crate::arguments::settled(
            old(env)@,
            crate::arguments::text_of(socket),
            crate::arguments::text_of(now),
        ),
        ({
            let socket = crate::arguments::resolved(
                old(env)@,
                crate::arguments::text_of(socket),
                crate::arguments::text_of(now),
            );
            let key = crate::path::path_key(socket);
            &&& final(cache)@ == crate::worker_health::known_after(old(cache)@, key, event)
            &&& ensure_worker_step(
                socket,
                crate::worker_health::ensure_step(old(cache)@, key, event),
                r,
            )
        }),
{
    let socket = env.resolve(socket, now);
    match ensure(cache, socket.as_str(), event) {
        EnsureStep::Start => EnsureWorkerStep::Start { socket },
        EnsureStep::Return(Ok(done)) => EnsureWorkerStep::Return(Ok(done)),
        EnsureStep::Return(Err(e)) => {
            let mut m = "ensure_worker: ".to_owned();
            m.append(e.message().as_str());
            EnsureWorkerStep::Return(Err(m))
        },
    }
}

/// A request to make a cluster known.
#[derive(Debug, PartialEq, Eq)]
pub struct RegisterClusterCall {
    pub socket: String,
    pub cluster: String,
    pub config: Vec<(String, String)>,
    pub timeout_ms: u64,
}

/// Makes a Kafka cluster known under a name.
pub fn hi_kafka_register_cluster<R: FnOnce(RegisterClusterCall) -> Result<(), String>>(
    cluster: &str,
    config: Vec<(String, String)>,
    socket: Option<&str>,
    timeout_ms: Option<i64>,
    env: &mut SocketEnv,
    now: Option<&str>,
    register: R,
) -> (r: Result<(), String>)
    requires
        forall|c: RegisterClusterCall| #[trigger] call_requires(register, (c,)),
    ensures
        final(env)@ == crate::arguments::settled(
            old(env)@,
            crate::arguments::text_of(socket),
            crate::arguments::text_of(now),
        ),
        exists|c: RegisterClusterCall|
            c.socket@ == crate::arguments::resolved(
                old(env)@,
                crate::arguments::text_of(socket),
                crate::arguments::text_of(now),
            ) && c.cluster@ == cluster@ && c.config == config && c.timeout_ms
                == crate::arguments::timeout_for(timeout_ms) && #[trigger] call_ensures(
                register,
                (c,),
                r,
            ),
{
    let call = RegisterClusterCall {
        socket: env.resolve(socket, now),
        cluster: cluster.to_owned(),
        config,
        timeout_ms: resolve_timeout(timeout_ms),
    };
    register(call)
}

/// A message that a PHP caller wants produced.
#[derive(Debug, PartialEq, Eq)]
pub struct ProduceCall {
    pub socket: String,
    pub cluster: String,
    pub topic: String,
    pub key: String,
    pub value: String,
    pub options: ProduceOptions,
}

/// Whether `c` is what these arguments ask for.
pub open spec fn asks_to_produce(
    c: ProduceCall,
    cluster: Seq<char>,
    topic: Seq<char>,
    key: Seq<char>,
    value: Seq<char>,
    headers: Option<Vec<(String, String)>>,
    partition: Option<i64>,
    timestamp_ms: Option<i64>,
    socket: Seq<char>,
) -> bool {
    &&& c.socket@ == socket
    &&& c.cluster@ == cluster
    &&& c.topic@ == topic
    &&& c.key@ == key
    &&& c.value@ == value
    &&& crate::messages::header_views(c.options.headers@) == crate::arguments::text_headers(headers)
    &&& c.options.partition == crate::arguments::partition_for(partition)
    &&& c.options.timestamp_ms == crate::arguments::timestamp_for(timestamp_ms)
}

fn produce_call(
    cluster: &str,
    topic: &str,
    key: &str,
    value: &str,
    headers: Option<Vec<(String, String)>>,
    partition: Option<i64>,
    timestamp_ms: Option<i64>,
    socket: Option<&str>,
    env: &mut SocketEnv,
    now: Option<&str>,
) -> (c: ProduceCall)
    ensures
        final(env)@ == crate::arguments::settled(
            old(env)@,
            crate::arguments::text_of(socket),
            crate::arguments::text_of(now),
        ),
        asks_to_produce(
            c,
            cluster@,
            topic@,
            key@,
            value@,
            headers,
            partition,
            timestamp_ms,
            crate::arguments::resolved(
                old(env)@,
                crate::arguments::text_of(socket),
                crate::arguments::text_of(now),
            ),
        ),
{
    ProduceCall {
        socket: env.resolve(socket, now),
        cluster: cluster.to_owned(),
        topic: topic.to_owned(),
        key: key.to_owned(),
        value: value.to_owned(),
        options: build_options(headers, partition, timestamp_ms),
    }
}

/// Has a message produced and does not wait for the outcome.
pub fn hi_kafka_produce_fnf<S: FnOnce(ProduceCall) -> Result<(), String>>(
    cluster: &str,
    topic: &str,
    key: &str,
    value: &str,
    headers: Option<Vec<(String, String)>>,
    partition: Option<i64>,
    timestamp_ms: Option<i64>,
    socket: Option<&str>,
    env: &mut SocketEnv,
    now: Option<&str>,
    send: S,
) -> (r: Result<(), String>)
    requires
        forall|c: ProduceCall| #[trigger] call_requires(send, (c,)),
    ensures
        final(env)@ == crate::arguments::settled(
            old(env)@,
            crate::arguments::text_of(socket),
            crate::arguments::text_of(now),
        ),
        exists|c: ProduceCall|
            asks_to_produce(
                c,
                cluster@,
                topic@,
                key@,
                value@,
                headers,
                partition,
                timestamp_ms,
                crate::arguments::resolved(
                    old(env)@,
                    crate::arguments::text_of(socket),
                    crate::arguments::text_of(now),
                ),
            ) && #[trigger] call_ensures(send, (c,), r),
{
    let call = produce_call(
        cluster,
        topic,
        key,
        value,
        headers,
        partition,
        timestamp_ms,
        socket,
        env,
        now,
    );
    send(call)
}

/// Has a message produced and waits for the answer, for so many milliseconds at most.
pub fn hi_kafka_produce_sync<S: FnOnce(ProduceCall, u64) -> Result<ProduceResp, String>>(
    cluster: &str,
    topic: &str,
    key: &str,
    value: &str,
    headers: Option<Vec<(String, String)>>,
    partition: Option<i64>,
    timestamp_ms: Option<i64>,
    timeout_ms: Option<i64>,
    socket: Option<&str>,
    env: &mut SocketEnv,
    now: Option<&str>,
    send: S,
) -> (r: Result<ProduceResp, String>)
    requires
        forall|c: ProduceCall, t: u64| #[trigger] call_requires(send, (c, t)),
    ensures
        final(env)@ == crate::arguments::settled(
            old(env)@,
            crate::arguments::text_of(socket),
            crate::arguments::text_of(now),
        ),
        exists|c: ProduceCall, t: u64|
            asks_to_produce(
                c,
                cluster@,
                topic@,
                key@,
                value@,
                headers,
                partition,
                timestamp_ms,
                crate::arguments::resolved(
                    old(env)@,
                    crate::arguments::text_of(socket),
                    crate::arguments::text_of(now),
                ),
            ) && t == crate::arguments::timeout_for(timeout_ms) && #[trigger] call_ensures(
                send,
                (c, t),
                r,
            ),
{
    let timeout = resolve_timeout(timeout_ms);
    let call = produce_call(
        cluster,
        topic,
        key,
        value,
        headers,
        partition,
        timestamp_ms,
        socket,
        env,
        now,
    );
    send(call, timeout)
}

/// A request for a subscription.
#[derive(Debug, PartialEq, Eq)]
pub struct SubscribeCall {
    pub socket: String,
    pub cluster: String,
    pub group_id: String,
    pub topics: Vec<String>,
    pub config: Vec<(String, String)>,
    pub timeout_ms: u64,
}

/// The settings that were passed, if any.
pub open spec fn settings(config: Option<Vec<(String, String)>>) -> Seq<(String, String)> {
    match config {
        Some(v) => v@,
        None => Seq::empty(),
    }
}

fn config_or_none(config: Option<Vec<(String, String)>>) -> (r: Vec<(String, String)>)
    ensures
        r@ == settings(config),
{
    match config {
        Some(v) => v,
        None => Vec::new(),
    }
}

/// What becomes of the outcome of a subscription: PHP sees its number as a signed one.
pub open spec fn subscribed(s: Result<u64, String>) -> Result<i64, String> {
    match s {
        Ok(id) => Ok(crate::number::signed(id)),
        Err(e) => Err(e),
    }
}

/// Subscribes a consumer group to topics, and returns the number of the subscription.
pub fn hi_kafka_subscribe<S: FnOnce(SubscribeCall) -> Result<u64, String>>(
    cluster: &str,
    group_id: &str,
    topics: Vec<String>,
    config: Option<Vec<(String, String)>>,
    socket: Option<&str>,
    timeout_ms: Option<i64>,
    env: &mut SocketEnv,
    now: Option<&str>,
    subscribe: S,
) -> (r: Result<i64, String>)
    requires
        forall|c: SubscribeCall| #[trigger] call_requires(subscribe, (c,)),
    ensures
        final(env)@ == crate::arguments::settled(
            old(env)@,
            crate::arguments::text_of(socket),
            crate::arguments::text_of(now),
        ),
        exists|c: SubscribeCall, s: Result<u64, String>|
            c.socket@ == crate::arguments::resolved(
                old(env)@,
                crate::arguments::text_of(socket),
                crate::arguments::text_of(now),
            ) && c.cluster@ == cluster@ && c.group_id@ == group_id@ && c.topics == topics
                && c.config@ == settings(config) && c.timeout_ms == crate::arguments::timeout_for(
                timeout_ms,
            ) && #[trigger] call_ensures(subscribe, (c,), s) && r == subscribed(s),
{
    let call = SubscribeCall {
        socket: env.resolve(socket, now),
        cluster: cluster.to_owned(),
        group_id: group_id.to_owned(),
        topics,
        config: config_or_none(config),
        timeout_ms: resolve_timeout(timeout_ms),
    };
    match subscribe(call) {
        Ok(id) => Ok(to_signed(id)),
        Err(e) => Err(e),
    }
}

/// The poll request that these arguments ask for. The number of messages is raised to 1 and
/// the time to 0; of what that gives the low 32 bits count, which may be 0.
pub open spec fn poll_request(subscription_id: i64, max_messages: i64, timeout_ms: i64) -> PollReq {
    PollReq {
        subscription_id: crate::number::unsigned(subscription_id),
        max_messages: crate::number::low_u32(
            if max_messages < 1 {
                1
            } else {
                max_messages
            },
        ),
        timeout_ms: crate::number::low_u32(
            if timeout_ms < 0 {
                0
            } else {
                timeout_ms
            },
        ),
    }
}

fn to_poll_request(subscription_id: i64, max_messages: i64, timeout_ms: i64) -> (r: PollReq)
    ensures
        r == poll_request(subscription_id, max_messages, timeout_ms),
{
    PollReq {
        subscription_id: to_unsigned(subscription_id),
        max_messages: to_low_u32(
            if max_messages < 1 {
                1
            } else {
                max_messages
            },
        ),
        timeout_ms: to_low_u32(
            if timeout_ms < 0 {
                0
            } else {
                timeout_ms
            },
        ),
    }
}

/// What becomes of the outcome of a poll.
pub open spec fn polled(
    m: Result<Vec<ConsumerMessage>, String>,
    r: Result<PhpValue, String>,
) -> bool {
    match m {
        Ok(messages) => r matches Ok(v) && v.model() == crate::php_value::messages_model(
            messages@,
        ),
        Err(e) => r == Err::<PhpValue, String>(e),
    }
}

/// Fetches messages of a subscription.
pub fn hi_kafka_poll<P: FnOnce(PollReq) -> Result<Vec<ConsumerMessage>, String>>(
    subscription_id: i64,
    max_messages: i64,
    timeout_ms: i64,
    poll: P,
) -> (r: Result<PhpValue, String>)
    requires
        forall|c: PollReq| #[trigger] call_requires(poll, (c,)),
    ensures
        exists|m: Result<Vec<ConsumerMessage>, String>|
            #[trigger] call_ensures(
                poll,
                (poll_request(subscription_id, max_messages, timeout_ms),),
                m,
            ) && polled(m, r),
{
    match poll(to_poll_request(subscription_id, max_messages, timeout_ms)) {
        Ok(messages) => Ok(messages_to_zval(messages)),
        Err(e) => Err(e),
    }
}

/// Commits what a subscription has consumed.
pub fn hi_kafka_commit<C: FnOnce(CommitReq, u64) -> Result<(), String>>(
    subscription_id: i64,
    timeout_ms: Option<i64>,
    commit: C,
) -> (r: Result<(), String>)
    requires
        forall|c: CommitReq, t: u64| #[trigger] call_requires(commit, (c, t)),
    ensures
        exists|t: u64|
            t == crate::arguments::timeout_for(timeout_ms) && #[trigger] call_ensures(
                commit,
                (CommitReq { subscription_id: crate::number::unsigned(subscription_id) }, t),
                r,
            ),
{
    let timeout = resolve_timeout(timeout_ms);
    commit(CommitReq { subscription_id: to_unsigned(subscription_id) }, timeout)
}

/// Ends a subscription.
pub fn hi_kafka_unsubscribe<U: FnOnce(UnsubscribeReq) -> Result<(), String>>(
    subscription_id: i64,
    unsubscribe: U,
) -> (r: Result<(), String>)
    requires
        forall|c: UnsubscribeReq| #[trigger] call_requires(unsubscribe, (c,)),
    ensures
        call_ensures(
            unsubscribe,
            (UnsubscribeReq { subscription_id: crate::number::unsigned(subscription_id) },),
            r,
        ),
{
    unsubscribe(UnsubscribeReq { subscription_id: to_unsigned(subscription_id) })
}

/// How often something was tried again, and how often that worked or failed.
#[derive(Debug, Clone, Copy, PartialEq, Eq, Structural)]
pub struct RecoveryStats {
    pub attempts: u64,
    pub successes: u64,
    pub failures: u64,
}

pub open spec fn recovery_model(s: RecoveryStats) -> PhpModel {
    PhpModel::Assoc(
        seq![
            ("attempts"@, PhpModel::Int(crate::number::signed(s.attempts))),
            ("successes"@, PhpModel::Int(crate::number::signed(s.successes))),
            ("failures"@, PhpModel::Int(crate::number::signed(s.failures))),
        ],
    )
}

fn recovery_zval(s: RecoveryStats) -> (r: PhpValue)
    ensures
        r.model() == recovery_model(s),
{
    let mut entries: Vec<(String, PhpValue)> = Vec::new();
    put(&mut entries, "attempts", PhpValue::Int(to_signed(s.attempts)));
    put(&mut entries, "successes", PhpValue::Int(to_signed(s.successes)));
    put(&mut entries, "failures", PhpValue::Int(to_signed(s.failures)));
    assert(crate::php_value::entry_models(entries@) =~= recovery_model(s)->Assoc_0);
    assoc(entries)
}

/// How often subscriptions were renewed behind the caller's back.
pub fn hi_kafka_resubscribe_stats(stats: RecoveryStats) -> (r: PhpValue)
    ensures
        r.model() == recovery_model(stats),
{
    recovery_zval(stats)
}

/// How often requests were repeated behind the caller's back.
pub fn hi_kafka_retry_stats(stats: RecoveryStats) -> (r: PhpValue)
    ensures
        r.model() == recovery_model(stats),
{
    recovery_zval(stats)
}

pub open spec fn pool_model<S>(p: crate::pool::PoolView<S>) -> PhpModel {
    PhpModel::Assoc(
        seq![
            ("max_idle"@, PhpModel::Int(crate::number::signed(p.max_idle as u64))),
            ("idle"@, PhpModel::Int(crate::number::signed(p.idle.len() as u64))),
            ("acquires"@, PhpModel::Int(crate::number::signed(p.stats.acquires_total))),
            ("hits"@, PhpModel::Int(crate::number::signed(p.stats.hits_total))),
            ("misses"@, PhpModel::Int(crate::number::signed(p.stats.misses_total))),
            ("closed"@, PhpModel::Int(crate::number::signed(p.stats.closed_total))),
            ("poisoned"@, PhpModel::Int(crate::number::signed(p.stats.poisoned_total))),
        ],
    )
}

/// Whether the counters that PHP sees of a pool add up: as many requests as hits and misses,
/// up to the wrapping of the counters, and no more idle connections than the pool keeps.
pub open spec fn shown_adds_up(m: PhpModel) -> bool {
    &&& m.at("acquires"@) matches Some(PhpModel::Int(acquires)) && m.at("hits"@) matches Some(
        PhpModel::Int(hits),
    ) && m.at("misses"@) matches Some(PhpModel::Int(misses)) && crate::number::unsigned(acquires)
        == crate::pool::counted(
        crate::number::unsigned(hits),
        crate::number::unsigned(misses) as nat,
    )
    &&& m.at("idle"@) matches Some(PhpModel::Int(idle)) && m.at("max_idle"@) matches Some(
        PhpModel::Int(max_idle),
    ) && crate::number::unsigned(idle) <= crate::number::unsigned(max_idle)
}

/// What PHP sees of a sound pool adds up while no request is running.
pub proof fn law_shown_pool_adds_up<S>(p: crate::pool::PoolView<S>)
    requires
        p.sound(),
        p.running == 0,
    ensures
        shown_adds_up(pool_model(p)),
{
    crate::pool::law_sound_adds_up(p);
    crate::number::law_signed_round_trip(p.stats.acquires_total);
    crate::number::law_signed_round_trip(p.stats.hits_total);
    crate::number::law_signed_round_trip(p.stats.misses_total);
    crate::number::law_signed_round_trip(p.idle.len() as u64);
    crate::number::law_signed_round_trip(p.max_idle as u64);
    reveal_strlit("max_idle");
    reveal_strlit("idle");
    reveal_strlit("acquires");
    reveal_strlit("hits");
    reveal_strlit("misses");
    reveal_strlit("closed");
    reveal_strlit("poisoned");
    let entries = pool_model(p)->Assoc_0;
    // Length and first character tell the keys apart.
    assert(entries[0].0.len() == 8 && entries[0].0[0] == 'm');
    assert(entries[1].0.len() == 4 && entries[1].0[0] == 'i');
    assert(entries[2].0.len() == 8 && entries[2].0[0] == 'a');
    assert(entries[3].0.len() == 4 && entries[3].0[0] == 'h');
    assert(entries[4].0.len() == 6 && entries[4].0[0] == 'm');
    assert(entries[5].0.len() == 6 && entries[5].0[0] == 'c');
    assert(entries[6].0.len() == 8 && entries[6].0[0] == 'p');
    assert forall|i: int, j: int| 0 <= i < j < 7 implies (#[trigger] entries[i]).0 != (
    #[trigger] entries[j]).0 by {
        assert(entries[i].0.len() != entries[j].0.len() || entries[i].0[0] != entries[j].0[0]);
    }
    crate::php_value::law_last_entry_counts(entries, "max_idle"@, 0);
    crate::php_value::law_last_entry_counts(entries, "idle"@, 1);
    crate::php_value::law_last_entry_counts(entries, "acquires"@, 2);
    crate::php_value::law_last_entry_counts(entries, "hits"@, 3);
    crate::php_value::law_last_entry_counts(entries, "misses"@, 4);
}

/// What the connection pools have counted, under the socket of each.
pub fn hi_kafka_pool_stats<S>(registry: &PoolRegistry<S>) -> (r: PhpValue)
    ensures
        r.model() == PhpModel::Assoc(
            registry@.map_values(|p: crate::pool::PoolView<S>| (p.socket, pool_model(p))),
        ),
        PoolRegistry::wf(registry@) ==> forall|i: int|
            0 <= i < registry@.len() && (#[trigger] registry@[i]).running == 0 ==> shown_adds_up(
                r.model()->Assoc_0[i].1,
            ),
{
    proof {
        assert forall|i: int|
            PoolRegistry::wf(registry@) && 0 <= i < registry@.len() && (
            #[trigger] registry@[i]).running == 0 implies shown_adds_up(
            pool_model(registry@[i]),
        ) by {
            law_shown_pool_adds_up(registry@[i]);
        }
    }
    let stats = all_stats(registry);
    let mut top: Vec<(String, PhpValue)> = Vec::new();
    let mut i: usize = 0;
    while i < stats.len()
        invariant
            i <= stats@.len(),
            stats@.len() == registry@.len(),
            forall|j: int|
                0 <= j < stats@.len() ==> {
                    let p = registry@[j];
                    &&& (#[trigger] stats@[j]).0@ == p.socket
                    &&& stats@[j].1 == p.stats
                    &&& stats@[j].2 == p.idle.len()
                    &&& stats@[j].3 == p.max_idle
                },
            crate::php_value::entry_models(top@) == registry@.take(i as int).map_values(
                |p: crate::pool::PoolView<S>| (p.socket, pool_model(p)),
            ),
        decreases stats@.len() - i,
    {
        let ghost p = registry@[i as int];
        let s = stats[i].1;
        let idle = stats[i].2;
        let max_idle = stats[i].3;
        let mut inner: Vec<(String, PhpValue)> = Vec::new();
        put(&mut inner, "max_idle", PhpValue::Int(to_signed(max_idle as u64)));
        put(&mut inner, "idle", PhpValue::Int(to_signed(idle as u64)));
        put(&mut inner, "acquires", PhpValue::Int(to_signed(s.acquires_total)));
        put(&mut inner, "hits", PhpValue::Int(to_signed(s.hits_total)));
        put(&mut inner, "misses", PhpValue::Int(to_signed(s.misses_total)));
        put(&mut inner, "closed", PhpValue::Int(to_signed(s.closed_total)));
        put(&mut inner, "poisoned", PhpValue::Int(to_signed(s.poisoned_total)));
        assert(crate::php_value::entry_models(inner@) =~= pool_model(p)->Assoc_0);
        put(&mut top, stats[i].0.as_str(), assoc(inner));
        assert(registry@.take(i + 1) =~= registry@.take(i as int).push(p));
        i += 1;
    }
    assert(registry@.take(i as int) =~= registry@);
    assoc(top)
}

/// The texts of `v`.
pub open spec fn texts(v: Seq<String>) -> Seq<Seq<char>> {
    v.map_values(|s: String| s@)
}

/// The runtimes that there are, where Swoole or Swow is loaded or not.
pub open spec fn runtime_names(swoole: bool, swow: bool) -> Seq<Seq<char>> {
    seq!["blocking"@] + (if swoole {
        seq!["swoole"@]
    } else {
        Seq::empty()
    }) + (if swow {
        seq!["swow"@]
    } else {
        Seq::empty()
    })
}

/// The runtimes that there are, where Swoole or Swow is loaded or not.
pub fn runtimes(swoole: bool, swow: bool) -> (r: Vec<String>)
    ensures
        texts(r@) == runtime_names(swoole, swow),
{
    let mut r: Vec<String> = Vec::new();
    r.push("blocking".to_owned());
    if swoole {
        r.push("swoole".to_owned());
    }
    if swow {
        r.push("swow".to_owned());
    }
    assert(texts(r@) =~= runtime_names(swoole, swow));
    r
}

/// The function that shows that Swoole is loaded.
pub const SWOOLE_FUNCTION: &'static str = "swoole_version";

/// The function that shows that Swow is loaded.
pub const SWOW_FUNCTION: &'static str = "swow\\version";

/// Which of the known coroutine runtimes are loaded, `blocking` first.
pub fn hi_kafka_runtime<E: Fn(&str) -> bool>(function_exists: E) -> (r: Vec<String>)
    requires
        forall|s: &str| #[trigger] call_requires(function_exists, (s,)),
    ensures
        exists|swoole: bool, swow: bool|
            #[trigger] call_ensures(function_exists, (SWOOLE_FUNCTION,), swoole)
                && #[trigger] call_ensures(function_exists, (SWOW_FUNCTION,), swow) && texts(r@)
                == runtime_names(swoole, swow),
{
    let swoole = function_exists(SWOOLE_FUNCTION);
    let swow = function_exists(SWOW_FUNCTION);
    runtimes(swoole, swow)
}

/// A request number, for one request.
pub fn hi_kafka_next_cid(counter: &mut CidCounter) -> (r: i64)
    ensures
        r == crate::number::signed(old(counter).next()),
        final(counter).next() == crate::protocol::cid_after(old(counter).next()),
{
    to_signed(next_cid(counter))
}

/// The length of a frame header.
pub fn hi_kafka_header_len() -> (r: i64)
    ensures
        r == 13,
{
    header_len() as i64
}

pub open spec fn cid_frame_model(cid: u64, bytes: Seq<u8>) -> PhpModel {
    PhpModel::Assoc(
        seq![
            ("cid"@, PhpModel::Int(crate::number::signed(cid))),
            ("frame"@, PhpModel::Binary(bytes)),
        ],
    )
}

/// A frame with its number.
fn cid_frame_zval(cid: u64, bytes: &[u8]) -> (r: PhpValue)
    ensures
        r.model() == cid_frame_model(cid, bytes@),
{
    let mut entries: Vec<(String, PhpValue)> = Vec::new();
    put(&mut entries, "cid", PhpValue::Int(to_signed(cid)));
    put(&mut entries, "frame", bytes_to_php_string(bytes));
    assert(crate::php_value::entry_models(entries@) =~= cid_frame_model(cid, bytes@)->Assoc_0);
    assoc(entries)
}

/// What PHP sees of a frame that is answered.
pub open spec fn shows_cid_frame(
    built: Result<(u64, Vec<u8>), ProtocolError>,
    r: Result<PhpValue, String>,
) -> bool {
    match built {
        Ok((cid, bytes)) => r matches Ok(v) && v.model() == cid_frame_model(cid, bytes@),
        Err(e) => r matches Err(m) && m@ == e.text(),
    }
}

/// What PHP sees of a frame that is answered.
pub fn show_cid_frame(built: Result<(u64, Vec<u8>), ProtocolError>) -> (r: Result<
    PhpValue,
    String,
>)
    ensures
        shows_cid_frame(built, r),
{
    match built {
        Ok((cid, bytes)) => Ok(cid_frame_zval(cid, bytes.as_slice())),
        Err(e) => Err(e.message()),
    }
}

/// What PHP sees of a frame that is not answered.
pub open spec fn shows_frame(
    built: Result<Vec<u8>, ProtocolError>,
    r: Result<PhpValue, String>,
) -> bool {
    match built {
        Ok(bytes) => r matches Ok(v) && v.model() == PhpModel::Binary(bytes@),
        Err(e) => r matches Err(m) && m@ == e.text(),
    }
}

/// What PHP sees of a frame that is not answered.
pub fn show_frame(built: Result<Vec<u8>, ProtocolError>) -> (r: Result<PhpValue, String>)
    ensures
        shows_frame(built, r),
{
    match built {
        Ok(bytes) => Ok(bytes_to_php_string(bytes.as_slice())),
        Err(e) => Err(e.message()),
    }
}

/// The message that these arguments ask to have produced.
pub open spec fn message_for(
    cluster: Seq<char>,
    topic: Seq<char>,
    key: Seq<char>,
    value: Seq<char>,
    headers: Option<Vec<(String, String)>>,
    partition: Option<i64>,
    timestamp_ms: Option<i64>,
) -> crate::messages::ProduceView {
    crate::messages::ProduceView {
        cluster,
        topic,
        key: vstd::utf8::encode_utf8(key),
        value: vstd::utf8::encode_utf8(value),
        partition: crate::arguments::partition_for(partition) as i32,
        timestamp_ms: crate::arguments::timestamp_for(timestamp_ms) as i64,
        headers: crate::arguments::text_headers(headers),
    }
}

/// A frame that has a message produced and is not answered.
pub fn hi_kafka_encode_fnf_frame<
    E: FnOnce(&ProduceFnf) -> Result<Vec<u8>, String>,
    F: FnOnce(FrameKind, u64, &[u8]) -> Result<Vec<u8>, String>,
>(
    cluster: &str,
    topic: &str,
    key: &str,
    value: &str,
    headers: Option<Vec<(String, String)>>,
    partition: Option<i64>,
    timestamp_ms: Option<i64>,
    encode: E,
    frame: F,
) -> (r: Result<PhpValue, String>)
    requires
        forall|m: &ProduceFnf| #[trigger] call_requires(encode, (m,)),
        forall|p: &[u8]| #[trigger] call_requires(frame, (FrameKind::ProduceFnf, 0u64, p)),
    ensures
        exists|built: Result<Vec<u8>, ProtocolError>|
            #[trigger] crate::protocol::fnf_built(
                message_for(cluster@, topic@, key@, value@, headers, partition, timestamp_ms),
                encode,
                frame,
                built,
            ) && shows_frame(built, r),
{
    let opts = build_options(headers, partition, timestamp_ms);
    assert(message_for(cluster@, topic@, key@, value@, headers, partition, timestamp_ms) == (
    crate::messages::ProduceView {
        cluster: cluster@,
        topic: topic@,
        key: vstd::utf8::encode_utf8(key@),
        value: vstd::utf8::encode_utf8(value@),
        partition: opts.partition,
        timestamp_ms: opts.timestamp_ms,
        headers: crate::messages::header_views(opts.headers@),
    }));
    let built = build_fnf_frame(
        cluster,
        topic,
        key.as_bytes(),
        value.as_bytes(),
        opts.headers,
        opts.partition,
        opts.timestamp_ms,
        encode,
        frame,
    );
    show_frame(built)
}

/// A frame that has a message produced and is answered, with its number.
pub fn hi_kafka_encode_req_frame<
    E: FnOnce(&ProduceFnf) -> Result<Vec<u8>, String>,
    F: FnOnce(FrameKind, u64, &[u8]) -> Result<Vec<u8>, String>,
>(
    counter: &mut CidCounter,
    cluster: &str,
    topic: &str,
    key: &str,
    value: &str,
    headers: Option<Vec<(String, String)>>,
    partition: Option<i64>,
    timestamp_ms: Option<i64>,
    encode: E,
    frame: F,
) -> (r: Result<PhpValue, String>)
    requires
        forall|m: &ProduceFnf| #[trigger] call_requires(encode, (m,)),
        forall|p: &[u8]|
            #[trigger] call_requires(frame, (FrameKind::ProduceReq, old(counter).next(), p)),
    ensures
        exists|built: Result<(u64, Vec<u8>), ProtocolError>|
            #[trigger] crate::protocol::req_built(
                message_for(cluster@, topic@, key@, value@, headers, partition, timestamp_ms),
                encode,
                frame,
                old(counter).next(),
                final(counter).next(),
                built,
            ) && shows_cid_frame(built, r),
{
    let opts = build_options(headers, partition, timestamp_ms);
    assert(message_for(cluster@, topic@, key@, value@, headers, partition, timestamp_ms) == (
    crate::messages::ProduceView {
        cluster: cluster@,
        topic: topic@,
        key: vstd::utf8::encode_utf8(key@),
        value: vstd::utf8::encode_utf8(value@),
        partition: opts.partition,
        timestamp_ms: opts.timestamp_ms,
        headers: crate::messages::header_views(opts.headers@),
    }));
    let built = build_req_frame(
        counter,
        cluster,
        topic,
        key.as_bytes(),
        value.as_bytes(),
        opts.headers,
        opts.partition,
        opts.timestamp_ms,
        encode,
        frame,
    );
    show_cid_frame(built)
}

/// A frame that asks for a subscription, with its number.
pub fn hi_kafka_encode_subscribe_frame<
    E: FnOnce(&SubscribeReq) -> Result<Vec<u8>, String>,
    F: FnOnce(FrameKind, u64, &[u8]) -> Result<Vec<u8>, String>,
>(
    counter: &mut CidCounter,
    cluster: &str,
    group_id: &str,
    topics: Vec<String>,
    config: Option<Vec<(String, String)>>,
    encode: E,
    frame: F,
) -> (r: Result<PhpValue, String>)
    requires
        forall|m: &SubscribeReq| #[trigger] call_requires(encode, (m,)),
        forall|p: &[u8]|
            #[trigger] call_requires(frame, (FrameKind::SubscribeReq, old(counter).next(), p)),
    ensures
        exists|c: Vec<(String, String)>, built: Result<(u64, Vec<u8>), ProtocolError>|
            c@ == settings(config) && #[trigger] crate::protocol::subscribe_built(
                cluster@,
                group_id@,
                topics,
                c,
                encode,
                frame,
                old(counter).next(),
                final(counter).next(),
                built,
            ) && shows_cid_frame(built, r),
{
    let config = config_or_none(config);
    let built = build_subscribe_frame(counter, cluster, group_id, topics, config, encode, frame);
    show_cid_frame(built)
}

/// A frame that asks for messages, with its number.
pub fn hi_kafka_encode_poll_frame<
    E: FnOnce(&PollReq) -> Result<Vec<u8>, String>,
    F: FnOnce(FrameKind, u64, &[u8]) -> Result<Vec<u8>, String>,
>(
    counter: &mut CidCounter,
    subscription_id: i64,
    max_messages: i64,
    timeout_ms: i64,
    encode: E,
    frame: F,
) -> (r: Result<PhpValue, String>)
    requires
        forall|m: &PollReq| #[trigger] call_requires(encode, (m,)),
        forall|p: &[u8]|
            #[trigger] call_requires(frame, (FrameKind::PollReq, old(counter).next(), p)),
    ensures
        exists|built: Result<(u64, Vec<u8>), ProtocolError>|
            #[trigger] crate::protocol::poll_built(
                poll_request(subscription_id, max_messages, timeout_ms),
                encode,
                frame,
                old(counter).next(),
                final(counter).next(),
                built,
            ) && shows_cid_frame(built, r),
{
    let req = to_poll_request(subscription_id, max_messages, timeout_ms);
    let built = build_poll_frame(
        counter,
        req.subscription_id,
        req.max_messages,
        req.timeout_ms,
        encode,
        frame,
    );
    show_cid_frame(built)
}

/// A frame that asks for a commit, with its number.
pub fn hi_kafka_encode_commit_frame<
    E: FnOnce(&CommitReq) -> Result<Vec<u8>, String>,
    F: FnOnce(FrameKind, u64, &[u8]) -> Result<Vec<u8>, String>,
>(counter: &mut CidCounter, subscription_id: i64, encode: E, frame: F) -> (r: Result<
    PhpValue,
    String,
>)
    requires
        forall|m: &CommitReq| #[trigger] call_requires(encode, (m,)),
        forall|p: &[u8]|
            #[trigger] call_requires(frame, (FrameKind::CommitReq, old(counter).next(), p)),
    ensures
        exists|built: Result<(u64, Vec<u8>), ProtocolError>|
            #[trigger] crate::protocol::commit_built(
                (CommitReq { subscription_id: crate::number::unsigned(subscription_id) }),
                encode,
                frame,
                old(counter).next(),
                final(counter).next(),
                built,
            ) && shows_cid_frame(built, r),
{
    let built = build_commit_frame(counter, to_unsigned(subscription_id), encode, frame);
    show_cid_frame(built)
}

/// A frame that ends a subscription. It is not answered.
pub fn hi_kafka_encode_unsubscribe_frame<
    E: FnOnce(&UnsubscribeReq) -> Result<Vec<u8>, String>,
    F: FnOnce(FrameKind, u64, &[u8]) -> Result<Vec<u8>, String>,
>(subscription_id: i64, encode: E, frame: F) -> (r: Result<PhpValue, String>)
    requires
        forall|m: &UnsubscribeReq| #[trigger] call_requires(encode, (m,)),
        forall|p: &[u8]| #[trigger] call_requires(frame, (FrameKind::Unsubscribe, 0u64, p)),
    ensures
        exists|built: Result<Vec<u8>, ProtocolError>|
            #[trigger] crate::protocol::unsubscribe_built(
                (UnsubscribeReq { subscription_id: crate::number::unsigned(subscription_id) }),
                encode,
                frame,
                built,
            ) && shows_frame(built, r),
{
    let built = build_unsubscribe_frame(to_unsigned(subscription_id), encode, frame);
    show_frame(built)
}

/// A frame that makes a cluster known, with its number.
pub fn hi_kafka_encode_register_cluster_frame<
    E: FnOnce(&RegisterClusterReq) -> Result<Vec<u8>, String>,
    F: FnOnce(FrameKind, u64, &[u8]) -> Result<Vec<u8>, String>,
>(
    counter: &mut CidCounter,
    cluster: &str,
    config: Vec<(String, String)>,
    encode: E,
    frame: F,
) -> (r: Result<PhpValue, String>)
    requires
        forall|m: &RegisterClusterReq| #[trigger] call_requires(encode, (m,)),
        forall|p: &[u8]|
            #[trigger] call_requires(
                frame,
                (FrameKind::RegisterClusterReq, old(counter).next(), p),
            ),
    ensures
        exists|built: Result<(u64, Vec<u8>), ProtocolError>|
            #[trigger] crate::protocol::register_cluster_built(
                cluster@,
                config,
                encode,
                frame,
                old(counter).next(),
                final(counter).next(),
                built,
            ) && shows_cid_frame(built, r),
{
    let built = build_register_cluster_frame(counter, cluster, config, encode, frame);
    show_cid_frame(built)
}

pub open spec fn header_model(h: ParsedHeader) -> PhpModel {
    PhpModel::Assoc(
        seq![
            ("kind"@, PhpModel::Int(h.kind_byte as i64)),
            ("cid"@, PhpModel::Int(crate::number::signed(h.cid))),
            ("payload_len"@, PhpModel::Int(h.payload_len as i64)),
        ],
    )
}

/// What PHP sees of a header that was taken apart.
pub open spec fn shows_header(
    parsed: Result<ParsedHeader, ProtocolError>,
    r: Result<PhpValue, String>,
) -> bool {
    match parsed {
        Ok(h) => r matches Ok(v) && v.model() == header_model(h),
        Err(e) => r matches Err(m) && m@ == e.text(),
    }
}

/// What PHP sees of a header that was taken apart.
pub fn show_header(parsed: Result<ParsedHeader, ProtocolError>) -> (r: Result<PhpValue, String>)
    ensures
        shows_header(parsed, r),
{
    match parsed {
        Ok(h) => {
            let mut entries: Vec<(String, PhpValue)> = Vec::new();
            put(&mut entries, "kind", PhpValue::Int(h.kind_byte as i64));
            put(&mut entries, "cid", PhpValue::Int(to_signed(h.cid)));
            put(&mut entries, "payload_len", PhpValue::Int(h.payload_len as i64));
            assert(crate::php_value::entry_models(entries@) =~= header_model(h)->Assoc_0);
            Ok(assoc(entries))
        },
        Err(e) => Err(e.message()),
    }
}

/// Takes a frame header apart.
pub fn hi_kafka_parse_header<H: FnOnce(&[u8]) -> Result<FrameHeader, String>>(
    bytes: &[u8],
    decode_header: H,
) -> (r: Result<PhpValue, String>)
    requires
        forall|b: &[u8]|
            b@.len() == crate::protocol::HEADER_LEN ==> #[trigger] call_requires(
                decode_header,
                (b,),
            ),
    ensures
        exists|parsed: Result<ParsedHeader, ProtocolError>|
            #[trigger] crate::protocol::header_parsed(bytes@, decode_header, parsed)
                && shows_header(parsed, r),
{
    let parsed = parse_header_only(bytes, decode_header);
    show_header(parsed)
}

pub open spec fn resp_model(cid: u64, resp: ProduceResp) -> PhpModel {
    PhpModel::Assoc(
        match resp {
            ProduceResp::Done(ack) => seq![
                ("cid"@, PhpModel::Int(crate::number::signed(cid))),
                ("ok"@, PhpModel::Bool(true)),
                ("partition"@, PhpModel::Int(ack.partition as i64)),
                ("offset"@, PhpModel::Int(ack.offset)),
            ],
            ProduceResp::Failed(err) => seq![
                ("cid"@, PhpModel::Int(crate::number::signed(cid))),
                ("ok"@, PhpModel::Bool(false)),
                ("code"@, PhpModel::Int(err.code as i64)),
                ("message"@, PhpModel::Text(err.message@)),
                ("retryable"@, PhpModel::Bool(err.retryable)),
            ],
        },
    )
}

/// What PHP sees of a frame that may answer a produce request.
pub open spec fn shows_resp(
    parsed: Result<ParsedFrame, ProtocolError>,
    r: Result<PhpValue, String>,
) -> bool {
    match parsed {
        Ok(ParsedFrame::Resp { cid, resp }) => r matches Ok(v) && v.model() == resp_model(
            cid,
            resp,
        ),
        Ok(ParsedFrame::Other { kind, cid, .. }) => r matches Err(m) && m@
            == "unexpected frame kind "@ + kind.label() + " cid="@ + crate::text::decimal(
            cid as nat,
        ),
        Err(e) => r matches Err(m) && m@ == e.text(),
    }
}

/// What PHP sees of a frame that may answer a produce request.
pub fn show_resp(parsed: Result<ParsedFrame, ProtocolError>) -> (r: Result<PhpValue, String>)
    ensures
        shows_resp(parsed, r),
{
    match parsed {
        Ok(ParsedFrame::Resp { cid, resp }) => {
            let ghost model = resp_model(cid, resp);
            let mut entries: Vec<(String, PhpValue)> = Vec::new();
            put(&mut entries, "cid", PhpValue::Int(to_signed(cid)));
            match resp {
                ProduceResp::Done(ack) => {
                    put(&mut entries, "ok", PhpValue::Bool(true));
                    put(&mut entries, "partition", PhpValue::Int(ack.partition as i64));
                    put(&mut entries, "offset", PhpValue::Int(ack.offset));
                },
                ProduceResp::Failed(err) => {
                    put(&mut entries, "ok", PhpValue::Bool(false));
                    put(&mut entries, "code", PhpValue::Int(err.code as i64));
                    put(&mut entries, "message", PhpValue::Text(err.message));
                    put(&mut entries, "retryable", PhpValue::Bool(err.retryable));
                },
            }
            assert(crate::php_value::entry_models(entries@) =~= model->Assoc_0);
            Ok(assoc(entries))
        },
        Ok(ParsedFrame::Other { kind, cid, .. }) => {
            let mut m = "unexpected frame kind ".to_owned();
            m.append(kind.name());
            m.append(" cid=");
            push_decimal(&mut m, cid);
            Err(m)
        },
        Err(e) => Err(e.message()),
    }
}

/// Takes a frame apart that answers a produce request.
pub fn hi_kafka_decode_resp_frame<
    H: FnOnce(&[u8]) -> Result<FrameHeader, String>,
    D: FnOnce(&[u8]) -> Result<ProduceResp, String>,
>(bytes: &[u8], decode_header: H, decode: D) -> (r: Result<PhpValue, String>)
    requires
        forall|b: &[u8]|
            b@.len() == crate::protocol::HEADER_LEN ==> #[trigger] call_requires(
                decode_header,
                (b,),
            ),
        forall|p: &[u8]| #[trigger] call_requires(decode, (p,)),
    ensures
        exists|parsed: Result<ParsedFrame, ProtocolError>|
            #[trigger] crate::protocol::resp_parsed(bytes@, decode_header, decode, parsed)
                && shows_resp(parsed, r),
{
    let parsed = parse_resp_frame(bytes, decode_header, decode);
    show_resp(parsed)
}

/// The entries that every answer to a consumer starts with.
pub open spec fn answer_head(kind: Seq<char>, cid: u64, ok: bool) -> Seq<(Seq<char>, PhpModel)> {
    seq![
        ("kind"@, PhpModel::Text(kind)),
        ("cid"@, PhpModel::Int(crate::number::signed(cid))),
        ("ok"@, PhpModel::Bool(ok)),
    ]
}

pub open spec fn consumer_model(resp: ConsumerResp) -> PhpModel {
    PhpModel::Assoc(
        match resp {
            ConsumerResp::SubscribeOk { cid, subscription_id } => answer_head(
                "subscribe"@,
                cid,
                true,
            ).push(("subscription_id"@, PhpModel::Int(crate::number::signed(subscription_id)))),
            ConsumerResp::SubscribeErr { cid, message } => answer_head(
                "subscribe"@,
                cid,
                false,
            ).push(("message"@, PhpModel::Text(message@))),
            ConsumerResp::PollOk { cid, messages } => answer_head("poll"@, cid, true).push(
                ("messages"@, crate::php_value::messages_model(messages@)),
            ),
            ConsumerResp::PollErr { cid, message } => answer_head("poll"@, cid, false).push(
                ("message"@, PhpModel::Text(message@)),
            ),
            ConsumerResp::CommitOk { cid } => answer_head("commit"@, cid, true),
            ConsumerResp::CommitErr { cid, message } => answer_head("commit"@, cid, false).push(
                ("message"@, PhpModel::Text(message@)),
            ),
            ConsumerResp::RegisterClusterOk { cid } => answer_head("register_cluster"@, cid, true),
            ConsumerResp::RegisterClusterErr { cid, message } => answer_head(
                "register_cluster"@,
                cid,
                false,
            ).push(("message"@, PhpModel::Text(message@))),
        },
    )
}

fn put_answer_head(entries: &mut Vec<(String, PhpValue)>, kind: &str, cid: u64, ok: bool)
    ensures
        crate::php_value::entry_models(final(entries)@) == crate::php_value::entry_models(
            old(entries)@,
        ) + answer_head(kind@, cid, ok),
{
    put(entries, "kind", PhpValue::Text(kind.to_owned()));
    put(entries, "cid", PhpValue::Int(to_signed(cid)));
    put(entries, "ok", PhpValue::Bool(ok));
}

/// What PHP sees of an answer to a consumer.
pub open spec fn shows_consumer(
    parsed: Result<ConsumerResp, ProtocolError>,
    r: Result<PhpValue, String>,
) -> bool {
    match parsed {
        Ok(resp) => r matches Ok(v) && v.model() == consumer_model(resp),
        Err(e) => r matches Err(m) && m@ == e.text(),
    }
}

/// What PHP sees of an answer to a consumer.
pub fn show_consumer(parsed: Result<ConsumerResp, ProtocolError>) -> (r: Result<PhpValue, String>)
    ensures
        shows_consumer(parsed, r),
{
    let resp = match parsed {
        Ok(resp) => resp,
        Err(e) => {
            return Err(e.message());
        },
    };
    let ghost model = consumer_model(resp);
    let mut entries: Vec<(String, PhpValue)> = Vec::new();
    match resp {
        ConsumerResp::SubscribeOk { cid, subscription_id } => {
            put_answer_head(&mut entries, "subscribe", cid, true);
            put(&mut entries, "subscription_id", PhpValue::Int(to_signed(subscription_id)));
        },
        ConsumerResp::SubscribeErr { cid, message } => {
            put_answer_head(&mut entries, "subscribe", cid, false);
            put(&mut entries, "message", PhpValue::Text(message));
        },
        ConsumerResp::PollOk { cid, messages } => {
            put_answer_head(&mut entries, "poll", cid, true);
            put(&mut entries, "messages", messages_to_zval(messages));
        },
        ConsumerResp::PollErr { cid, message } => {
            put_answer_head(&mut entries, "poll", cid, false);
            put(&mut entries, "message", PhpValue::Text(message));
        },
        ConsumerResp::CommitOk { cid } => {
            put_answer_head(&mut entries, "commit", cid, true);
        },
        ConsumerResp::CommitErr { cid, message } => {
            put_answer_head(&mut entries, "commit", cid, false);
            put(&mut entries, "message", PhpValue::Text(message));
        },
        ConsumerResp::RegisterClusterOk { cid } => {
            put_answer_head(&mut entries, "register_cluster", cid, true);
        },
        ConsumerResp::RegisterClusterErr { cid, message } => {
            put_answer_head(&mut entries, "register_cluster", cid, false);
            put(&mut entries, "message", PhpValue::Text(message));
        },
    }
    assert(crate::php_value::entry_models(entries@) =~= model->Assoc_0);
    Ok(assoc(entries))
}

/// Takes a frame apart that answers a consumer.
pub fn hi_kafka_decode_consumer_resp<
    H: FnOnce(&[u8]) -> Result<FrameHeader, String>,
    S: FnOnce(&[u8]) -> Result<SubscribeResp, String>,
    P: FnOnce(&[u8]) -> Result<PollResp, String>,
    C: FnOnce(&[u8]) -> Result<CommitResp, String>,
    R: FnOnce(&[u8]) -> Result<RegisterClusterResp, String>,
>(
    bytes: &[u8],
    decode_header: H,
    subscribe: S,
    poll: P,
    commit: C,
    register_cluster: R,
) -> (r: Result<PhpValue, String>)
    requires
        forall|b: &[u8]|
            b@.len() == crate::protocol::HEADER_LEN ==> #[trigger] call_requires(
                decode_header,
                (b,),
            ),
        forall|p: &[u8]| #[trigger] call_requires(subscribe, (p,)),
        forall|p: &[u8]| #[trigger] call_requires(poll, (p,)),
        forall|p: &[u8]| #[trigger] call_requires(commit, (p,)),
        forall|p: &[u8]| #[trigger] call_requires(register_cluster, (p,)),
    ensures
        exists|parsed: Result<ConsumerResp, ProtocolError>|
            #[trigger] crate::protocol::consumer_parsed(
                bytes@,
                decode_header,
                subscribe,
                poll,
                commit,
                register_cluster,
                parsed,
            ) && shows_consumer(parsed, r),
{
    let parsed = parse_consumer_resp_frame(
        bytes,
        decode_header,
        subscribe,
        poll,
        commit,
        register_cluster,
    );
    show_consumer(parsed)
}

/// The number of a subscription that PHP was given leads back to that subscription, in
/// every call that takes it.
pub proof fn law_handle_leads_back(id: u64, max_messages: i64, timeout_ms: i64)
    ensures
        subscribed(Ok(id)) matches Ok(handle) && crate::number::unsigned(handle) == id
            && poll_request(handle, max_messages, timeout_ms).subscription_id == id,
{
    crate::number::law_signed_round_trip(id);
}

/// A PHP caller is told to start the worker behind the socket that was resolved, or that it is
/// up, or why it could not be started.
pub proof fn law_ensure_worker_answers(
    socket: Seq<char>,
    e: crate::spawn::SpawnError,
    r: EnsureWorkerStep,
)
    ensures
        ensure_worker_step(socket, EnsureStep::Start, r) <==> (
        r matches EnsureWorkerStep::Start { socket: s } && s@ == socket),
        ensure_worker_step(socket, EnsureStep::Return(Ok(())), r) <==> (
        r matches EnsureWorkerStep::Return(Ok(_))),
        ensure_worker_step(socket, EnsureStep::Return(Err(e)), r) <==> (
        r matches EnsureWorkerStep::Return(Err(m)) && m@ == "ensure_worker: "@ + e.text()),
{
}

/// A request to produce holds what was passed: cluster, topic, key and value as they are; every
/// header with its name and its text; the partition, where there can be one; and the timestamp.
pub proof fn law_produce_call_keeps_arguments(
    c: ProduceCall,
    cluster: Seq<char>,
    topic: Seq<char>,
    key: Seq<char>,
    value: Seq<char>,
    headers: Option<Vec<(String, String)>>,
    partition: Option<i64>,
    timestamp_ms: Option<i64>,
    socket: Seq<char>,
)
    requires
        asks_to_produce(
            c,
            cluster,
            topic,
            key,
            value,
            headers,
            partition,
            timestamp_ms,
            socket,
        ),
    ensures
        c.socket@ == socket,
        c.cluster@ == cluster,
        c.topic@ == topic,
        c.key@ == key,
        c.value@ == value,
        headers is None ==> c.options.headers@.len() == 0,
        headers matches Some(h) ==> c.options.headers@.len() == h@.len() && (forall|i: int|
            0 <= i < h@.len() ==> (#[trigger] c.options.headers@[i]).0@ == h@[i].0@
                && crate::wire::bytes_contents(c.options.headers@[i].1) == vstd::utf8::encode_utf8(
                h@[i].1@,
            )),
        partition is None ==> c.options.partition == -1,
        partition matches Some(p) ==> (i32::MIN <= p <= i32::MAX ==> c.options.partition == p) && (
        p < i32::MIN ==> c.options.partition == i32::MIN) && (p > i32::MAX ==> c.options.partition
            == i32::MAX),
        timestamp_ms is None ==> c.options.timestamp_ms == -1,
        timestamp_ms matches Some(t) ==> c.options.timestamp_ms == t,
{
    crate::messages::law_headers_are_all_there(c.options.headers@);
    if headers is Some {
        crate::arguments::law_options_keep_the_headers(headers->0, c.options);
    }
}

/// The message in a frame holds what was passed, in the same way; key and value are the UTF-8
/// bytes of their texts.
pub proof fn law_frame_message_keeps_arguments(
    cluster: Seq<char>,
    topic: Seq<char>,
    key: Seq<char>,
    value: Seq<char>,
    headers: Option<Vec<(String, String)>>,
    partition: Option<i64>,
    timestamp_ms: Option<i64>,
)
    ensures
        ({
            let m = message_for(cluster, topic, key, value, headers, partition, timestamp_ms);
            &&& m.cluster == cluster
            &&& m.topic == topic
            &&& m.key == vstd::utf8::encode_utf8(key)
            &&& m.value == vstd::utf8::encode_utf8(value)
            &&& headers is None ==> m.headers.len() == 0
            &&& headers matches Some(h) ==> m.headers.len() == h@.len() && (forall|i: int|
                0 <= i < h@.len() ==> (#[trigger] m.headers[i]).0 == h@[i].0@ && m.headers[i].1
                    == vstd::utf8::encode_utf8(h@[i].1@))
            &&& partition is None ==> m.partition == -1
            &&& partition matches Some(p) ==> {
                &&& i32::MIN <= p <= i32::MAX ==> m.partition == p
                &&& p < i32::MIN ==> m.partition == i32::MIN
                &&& p > i32::MAX ==> m.partition == i32::MAX
            }
            &&& timestamp_ms is None ==> m.timestamp_ms == -1
            &&& timestamp_ms matches Some(t) ==> m.timestamp_ms == t
        }),
{
}

/// All settings that were passed count, in order, and none where none were passed.
pub proof fn law_settings_are_all_there(config: Vec<(String, String)>)
    ensures
        settings(Some(config)) == config@,
        settings(Some(config)).len() == config@.len(),
        settings(None).len() == 0,
{
}

/// A request for a subscription, as a call and as a frame, holds exactly the settings and the
/// topics that were passed, all of them and in order.
pub proof fn law_subscription_keeps_settings<
    E: FnOnce(&SubscribeReq) -> Result<Vec<u8>, String>,
    F: FnOnce(FrameKind, u64, &[u8]) -> Result<Vec<u8>, String>,
>(
    cluster: Seq<char>,
    group_id: Seq<char>,
    topics: Vec<String>,
    config: Option<Vec<(String, String)>>,
    c: Vec<(String, String)>,
    encode: E,
    frame: F,
    before: u64,
    after: u64,
    built: Result<(u64, Vec<u8>), ProtocolError>,
)
    requires
        c@ == settings(config),
        crate::protocol::subscribe_built(
            cluster,
            group_id,
            topics,
            c,
            encode,
            frame,
            before,
            after,
            built,
        ),
    ensures
        config matches Some(v) ==> c@ == v@,
        config is None ==> c@.len() == 0,
        exists|m: SubscribeReq, p: Result<Vec<u8>, String>|
            #[trigger] call_ensures(encode, (&m,), p) && m.cluster@ == cluster && m.group_id@
                == group_id && m.topics@ == topics@ && (config matches Some(v) ==> m.config@
                == v@) && (config is None ==> m.config@.len() == 0) && (p is Err
                ==> built is Err),
{
}

/// A subscription that came about is handed to PHP under the signed number with the bits of its
/// own; one that did not is an error with its words.
pub proof fn law_subscribed(id: u64, e: String)
    ensures
        subscribed(Ok(id)) matches Ok(handle) && (handle - id) % 0x1_0000_0000_0000_0000 == 0,
        subscribed(Err(e)) == Err::<i64, String>(e),
{
}

/// A poll asks for the subscription with the bits of the number that was passed, and for as many
/// messages and as long as was passed, where that fits; at least for one message, and for no
/// time below zero.
pub proof fn law_poll_request(subscription_id: i64, max_messages: i64, timeout_ms: i64)
    ensures
        ({
            let req = poll_request(subscription_id, max_messages, timeout_ms);
            &&& (req.subscription_id - subscription_id) % 0x1_0000_0000_0000_0000 == 0
            &&& max_messages <= 1 ==> req.max_messages == 1
            &&& max_messages >= 1 ==> (req.max_messages - max_messages) % 0x1_0000_0000 == 0
            &&& 1 <= max_messages <= u32::MAX ==> req.max_messages == max_messages
            &&& timeout_ms <= 0 ==> req.timeout_ms == 0
            &&& timeout_ms >= 0 ==> (req.timeout_ms - timeout_ms) % 0x1_0000_0000 == 0
            &&& 0 <= timeout_ms <= u32::MAX ==> req.timeout_ms == timeout_ms
        }),
{
}

/// PHP sees of a poll exactly as many messages as came, each in its place and with its own topic,
/// partition, offset, timestamp, key and value; or why none came.
pub proof fn law_polled_messages_are_all_seen(
    messages: Vec<ConsumerMessage>,
    e: String,
    r: Result<PhpValue, String>,
)
    ensures
        polled(Ok(messages), r) ==> (r matches Ok(v) && v.model() matches PhpModel::List(seen)
            && seen.len() == messages@.len() && (forall|i: int|
            0 <= i < messages@.len() ==> {
                let m = messages@[i];
                &&& (#[trigger] seen[i]).at("topic"@) == Some(PhpModel::Text(m.topic@))
                &&& seen[i].at("partition"@) == Some(PhpModel::Int(m.partition as i64))
                &&& seen[i].at("offset"@) == Some(PhpModel::Int(m.offset))
                &&& seen[i].at("timestamp_ms"@) == Some(PhpModel::Int(m.timestamp_ms))
                &&& seen[i].at("key"@) == Some(
                    PhpModel::Binary(crate::wire::bytes_contents(m.key)),
                )
                &&& seen[i].at("value"@) == Some(
                    PhpModel::Binary(crate::wire::bytes_contents(m.value)),
                )
            })),
        polled(Err(e), r) ==> r == Err::<PhpValue, String>(e),
{
    crate::php_value::law_messages_are_all_seen(messages@);
}

/// PHP sees all three counters of the recoveries under their names.
pub proof fn law_recoveries_are_seen(s: RecoveryStats)
    ensures
        recovery_model(s).at("attempts"@) matches Some(PhpModel::Int(n)) && crate::number::unsigned(n)
            == s.attempts,
        recovery_model(s).at("successes"@) matches Some(PhpModel::Int(n)) && crate::number::unsigned(n)
            == s.successes,
        recovery_model(s).at("failures"@) matches Some(PhpModel::Int(n)) && crate::number::unsigned(n)
            == s.failures,
{
    reveal_strlit("attempts");
    reveal_strlit("successes");
    reveal_strlit("failures");
    let e = recovery_model(s)->Assoc_0;
    assert(e[0].0.len() == 8 && e[0].0[0] == 'a');
    assert(e[1].0.len() == 9);
    assert(e[2].0.len() == 8 && e[2].0[0] == 'f');
    crate::php_value::lemma_entry_counts(e, 0);
    crate::php_value::lemma_entry_counts(e, 1);
    crate::php_value::lemma_entry_counts(e, 2);
}

/// PHP sees all that a pool has counted, how many of its connections are idle, and how many it
/// keeps, under their names.
pub proof fn law_pool_counters_are_seen<S>(p: crate::pool::PoolView<S>)
    requires
        p.idle.len() <= u64::MAX,
    ensures
        ({
            let m = pool_model(p);
            &&& m.at("max_idle"@) matches Some(PhpModel::Int(n)) && crate::number::unsigned(n) == p.max_idle
            &&& m.at("idle"@) matches Some(PhpModel::Int(n)) && crate::number::unsigned(n) == p.idle.len()
            &&& m.at("acquires"@) matches Some(PhpModel::Int(n)) && crate::number::unsigned(n)
                == p.stats.acquires_total
            &&& m.at("hits"@) matches Some(PhpModel::Int(n)) && crate::number::unsigned(n) == p.stats.hits_total
            &&& m.at("misses"@) matches Some(PhpModel::Int(n)) && crate::number::unsigned(n)
                == p.stats.misses_total
            &&& m.at("closed"@) matches Some(PhpModel::Int(n)) && crate::number::unsigned(n)
                == p.stats.closed_total
            &&& m.at("poisoned"@) matches Some(PhpModel::Int(n)) && crate::number::unsigned(n)
                == p.stats.poisoned_total
        }),
{
    reveal_strlit("max_idle");
    reveal_strlit("idle");
    reveal_strlit("acquires");
    reveal_strlit("hits");
    reveal_strlit("misses");
    reveal_strlit("closed");
    reveal_strlit("poisoned");
    let e = pool_model(p)->Assoc_0;
    assert(e[0].0.len() == 8 && e[0].0[0] == 'm');
    assert(e[1].0.len() == 4 && e[1].0[0] == 'i');
    assert(e[2].0.len() == 8 && e[2].0[0] == 'a');
    assert(e[3].0.len() == 4 && e[3].0[0] == 'h');
    assert(e[4].0.len() == 6 && e[4].0[0] == 'm');
    assert(e[5].0.len() == 6 && e[5].0[0] == 'c');
    assert(e[6].0.len() == 8 && e[6].0[0] == 'p');
    crate::php_value::lemma_entry_counts(e, 0);
    crate::php_value::lemma_entry_counts(e, 1);
    crate::php_value::lemma_entry_counts(e, 2);
    crate::php_value::lemma_entry_counts(e, 3);
    crate::php_value::lemma_entry_counts(e, 4);
    crate::php_value::lemma_entry_counts(e, 5);
    crate::php_value::lemma_entry_counts(e, 6);
}

/// `blocking` is always there and comes first; Swoole and Swow are named exactly where they are
/// loaded, in this order; nothing else is.
pub proof fn law_runtimes_are_named(swoole: bool, swow: bool)
    ensures
        ({
            let names = runtime_names(swoole, swow);
            &&& names.len() == 1 + (if swoole {
                1int
            } else {
                0int
            }) + (if swow {
                1int
            } else {
                0int
            })
            &&& names[0] == "blocking"@
            &&& swoole ==> names[1] == "swoole"@
            &&& swow ==> names.last() == "swow"@
        }),
        SWOOLE_FUNCTION@ == "swoole_version"@,
        SWOW_FUNCTION@ == "swow\\version"@,
{
}

/// The names are the texts, one for one.
pub proof fn law_texts_are_all_there(v: Seq<String>)
    ensures
        texts(v).len() == v.len(),
        forall|i: int| 0 <= i < v.len() ==> #[trigger] texts(v)[i] == v[i]@,
{
}

/// PHP sees of a frame that was built all its bytes and, where it is answered, its number; or
/// why there is none.
pub proof fn law_built_frames_are_seen(
    cid: u64,
    bytes: Vec<u8>,
    e: ProtocolError,
    r: Result<PhpValue, String>,
)
    ensures
        shows_cid_frame(Ok((cid, bytes)), r) ==> (r matches Ok(v) && (v.model().at(
            "cid"@,
        ) matches Some(PhpModel::Int(n)) && crate::number::unsigned(n) == cid) && v.model().at("frame"@) == Some(
            PhpModel::Binary(bytes@),
        )),
        shows_cid_frame(Err(e), r) ==> (r matches Err(m) && m@ == e.text()),
        shows_frame(Ok(bytes), r) ==> (r matches Ok(v) && v.model() == PhpModel::Binary(bytes@)),
        shows_frame(Err(e), r) ==> (r matches Err(m) && m@ == e.text()),
{
    reveal_strlit("cid");
    reveal_strlit("frame");
    let m = cid_frame_model(cid, bytes@)->Assoc_0;
    assert(m[0].0.len() == 3 && m[1].0.len() == 5);
    crate::php_value::lemma_entry_counts(m, 0);
    crate::php_value::lemma_entry_counts(m, 1);
}

/// PHP sees of a header the byte of its kind, its number and the length of the payload; or why
/// it cannot be read.
pub proof fn law_headers_are_seen(
    h: ParsedHeader,
    e: ProtocolError,
    r: Result<PhpValue, String>,
)
    ensures
        shows_header(Ok(h), r) ==> (r matches Ok(v) && v.model().at("kind"@) == Some(
            PhpModel::Int(h.kind_byte as i64),
        ) && (v.model().at("cid"@) matches Some(PhpModel::Int(n)) && crate::number::unsigned(n) == h.cid)
            && v.model().at("payload_len"@) == Some(PhpModel::Int(h.payload_len as i64))),
        shows_header(Err(e), r) ==> (r matches Err(m) && m@ == e.text()),
{
    reveal_strlit("kind");
    reveal_strlit("cid");
    reveal_strlit("payload_len");
    let m = header_model(h)->Assoc_0;
    assert(m[0].0.len() == 4 && m[1].0.len() == 3 && m[2].0.len() == 11);
    crate::php_value::lemma_entry_counts(m, 0);
    crate::php_value::lemma_entry_counts(m, 1);
    crate::php_value::lemma_entry_counts(m, 2);
}

/// PHP sees of an acknowledgement that all went well, which request it answers, and in which
/// partition and at which offset the message is.
pub proof fn law_ack_is_seen_whole(cid: u64, ack: crate::messages::ProduceAck)
    ensures
        ({
            let m = resp_model(cid, ProduceResp::Done(ack));
            &&& m.at("cid"@) matches Some(PhpModel::Int(n)) && crate::number::unsigned(n) == cid
            &&& m.at("ok"@) == Some(PhpModel::Bool(true))
            &&& m.at("partition"@) matches Some(PhpModel::Int(n)) && n == ack.partition
            &&& m.at("offset"@) matches Some(PhpModel::Int(n)) && n == ack.offset
        }),
{
    reveal_strlit("cid");
    reveal_strlit("ok");
    reveal_strlit("partition");
    reveal_strlit("offset");
    let e = resp_model(cid, ProduceResp::Done(ack))->Assoc_0;
    assert(e[0].0.len() == 3 && e[1].0.len() == 2 && e[2].0.len() == 9 && e[3].0.len() == 6);
    crate::php_value::lemma_entry_counts(e, 0);
    crate::php_value::lemma_entry_counts(e, 1);
    crate::php_value::lemma_entry_counts(e, 2);
    crate::php_value::lemma_entry_counts(e, 3);
}

/// PHP sees of a refusal that it is one, which request it answers, its code, its words, and
/// whether a retry can help.
pub proof fn law_refusal_is_seen_whole(cid: u64, err: crate::messages::ProduceErr)
    ensures
        ({
            let m = resp_model(cid, ProduceResp::Failed(err));
            &&& m.at("cid"@) matches Some(PhpModel::Int(n)) && crate::number::unsigned(n) == cid
            &&& m.at("ok"@) == Some(PhpModel::Bool(false))
            &&& m.at("code"@) matches Some(PhpModel::Int(n)) && n == err.code
            &&& m.at("message"@) == Some(PhpModel::Text(err.message@))
            &&& m.at("retryable"@) == Some(PhpModel::Bool(err.retryable))
        }),
{
    reveal_strlit("cid");
    reveal_strlit("ok");
    reveal_strlit("code");
    reveal_strlit("message");
    reveal_strlit("retryable");
    let e = resp_model(cid, ProduceResp::Failed(err))->Assoc_0;
    assert(e[0].0.len() == 3 && e[1].0.len() == 2 && e[2].0.len() == 4 && e[3].0.len() == 7
        && e[4].0.len() == 9);
    crate::php_value::lemma_entry_counts(e, 0);
    crate::php_value::lemma_entry_counts(e, 1);
    crate::php_value::lemma_entry_counts(e, 2);
    crate::php_value::lemma_entry_counts(e, 3);
    crate::php_value::lemma_entry_counts(e, 4);
}

/// Answers to produce requests that differ, in any part, are seen to differ.
pub proof fn law_answers_are_told_apart(
    cid: u64,
    a: crate::messages::ProduceAck,
    other_cid: u64,
    b: crate::messages::ProduceAck,
    err: crate::messages::ProduceErr,
)
    ensures
        resp_model(cid, ProduceResp::Done(a)) == resp_model(other_cid, ProduceResp::Done(b))
            ==> cid == other_cid && a == b,
        resp_model(cid, ProduceResp::Done(a)) != resp_model(other_cid, ProduceResp::Failed(err)),
{
    law_ack_is_seen_whole(cid, a);
    law_ack_is_seen_whole(other_cid, b);
    law_refusal_is_seen_whole(other_cid, err);
}

/// PHP sees an answer to a produce request as it is; a frame of another kind is an error that
/// names the kind and the number, and so is one that cannot be read.
pub proof fn law_resp_frames_are_seen(
    cid: u64,
    resp: ProduceResp,
    kind: FrameKind,
    payload_len: u32,
    e: ProtocolError,
    r: Result<PhpValue, String>,
)
    ensures
        shows_resp(Ok(ParsedFrame::Resp { cid, resp }), r) ==> (r matches Ok(v) && v.model()
            == resp_model(cid, resp)),
        shows_resp(Ok(ParsedFrame::Other { kind, cid, payload_len }), r) ==> (r matches Err(m)
            && m@ == "unexpected frame kind "@ + kind.label() + " cid="@ + crate::text::decimal(
            cid as nat,
        )),
        shows_resp(Err(e), r) ==> (r matches Err(m) && m@ == e.text()),
{
}

/// PHP sees of every answer to a consumer what it answers, which request it belongs to, and
/// whether it went well.
pub proof fn law_consumer_answer_is_told(resp: ConsumerResp)
    ensures
        ({
            let m = consumer_model(resp);
            let (kind, number, well) = match resp {
                ConsumerResp::SubscribeOk { cid, .. } => ("subscribe"@, cid, true),
                ConsumerResp::SubscribeErr { cid, .. } => ("subscribe"@, cid, false),
                ConsumerResp::PollOk { cid, .. } => ("poll"@, cid, true),
                ConsumerResp::PollErr { cid, .. } => ("poll"@, cid, false),
                ConsumerResp::CommitOk { cid } => ("commit"@, cid, true),
                ConsumerResp::CommitErr { cid, .. } => ("commit"@, cid, false),
                ConsumerResp::RegisterClusterOk { cid } => ("register_cluster"@, cid, true),
                ConsumerResp::RegisterClusterErr { cid, .. } => ("register_cluster"@, cid, false),
            };
            &&& m.at("kind"@) == Some(PhpModel::Text(kind))
            &&& m.at("cid"@) matches Some(PhpModel::Int(n)) && crate::number::unsigned(n) == number
            &&& m.at("ok"@) == Some(PhpModel::Bool(well))
        }),
{
    reveal_strlit("kind");
    reveal_strlit("cid");
    reveal_strlit("ok");
    reveal_strlit("subscription_id");
    reveal_strlit("message");
    reveal_strlit("messages");
    let e = consumer_model(resp)->Assoc_0;
    assert(e[0].0.len() == 4 && e[1].0.len() == 3 && e[2].0.len() == 2);
    assert(e.len() <= 4);
    assert(e.len() == 4 ==> e[3].0.len() >= 7);
    crate::php_value::lemma_entry_counts(e, 0);
    crate::php_value::lemma_entry_counts(e, 1);
    crate::php_value::lemma_entry_counts(e, 2);
}

/// PHP sees of an answer to a consumer what comes with it: the subscription, all the messages,
/// or the words of the refusal.
pub proof fn law_consumer_answer_is_seen_whole(
    cid: u64,
    subscription_id: u64,
    messages: Vec<ConsumerMessage>,
    message: String,
)
    ensures
        consumer_model(ConsumerResp::SubscribeOk { cid, subscription_id }).at(
            "subscription_id"@,
        ) matches Some(PhpModel::Int(n)) && crate::number::unsigned(n) == subscription_id,
        consumer_model(ConsumerResp::PollOk { cid, messages }).at("messages"@) matches Some(
            PhpModel::List(seen),
        ) && seen.len() == messages@.len() && (forall|i: int|
            0 <= i < messages@.len() ==> #[trigger] seen[i]
                == crate::php_value::message_model(messages@[i])),
        consumer_model(ConsumerResp::SubscribeErr { cid, message }).at("message"@) == Some(
            PhpModel::Text(message@),
        ),
        consumer_model(ConsumerResp::PollErr { cid, message }).at("message"@) == Some(
            PhpModel::Text(message@),
        ),
        consumer_model(ConsumerResp::CommitErr { cid, message }).at("message"@) == Some(
            PhpModel::Text(message@),
        ),
        consumer_model(ConsumerResp::RegisterClusterErr { cid, message }).at("message"@) == Some(
            PhpModel::Text(message@),
        ),
{
    let a = consumer_model(ConsumerResp::SubscribeOk { cid, subscription_id })->Assoc_0;
    let b = consumer_model(ConsumerResp::PollOk { cid, messages })->Assoc_0;
    let c = consumer_model(ConsumerResp::SubscribeErr { cid, message })->Assoc_0;
    let d = consumer_model(ConsumerResp::PollErr { cid, message })->Assoc_0;
    let e = consumer_model(ConsumerResp::CommitErr { cid, message })->Assoc_0;
    let f = consumer_model(ConsumerResp::RegisterClusterErr { cid, message })->Assoc_0;
    crate::php_value::lemma_entry_counts(a, 3);
    crate::php_value::lemma_entry_counts(b, 3);
    crate::php_value::lemma_entry_counts(c, 3);
    crate::php_value::lemma_entry_counts(d, 3);
    crate::php_value::lemma_entry_counts(e, 3);
    crate::php_value::lemma_entry_counts(f, 3);
}

/// PHP sees an answer to a consumer as it is, or why it cannot be read.
pub proof fn law_consumer_frames_are_seen(
    resp: ConsumerResp,
    e: ProtocolError,
    r: Result<PhpValue, String>,
)
    ensures
        shows_consumer(Ok(resp), r) ==> (r matches Ok(v) && v.model() == consumer_model(resp)),
        shows_consumer(Err(e), r) ==> (r matches Err(m) && m@ == e.text()),
{
}

} // verus!
