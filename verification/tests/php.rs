use bytes::Bytes;
use hi_kafka::arguments::{
    build_binary_headers, build_offset_targets, build_options, build_partition_specs,
    resolve_socket, resolve_timeout, SocketEnv,
};
use hi_kafka::messages::{
    CommitReq, CommitResp, ConsumerMessage, PollReq, PollResp, ProduceAck, ProduceErr, ProduceFnf,
    ProduceResp, RebalanceEvent, RegisterClusterResp, SubscribeResp, UnsubscribeReq,
};
use hi_kafka::number::{to_low_i32, to_low_u32, to_signed, to_unsigned};
use hi_kafka::php::{
    hi_kafka_commit, hi_kafka_decode_consumer_resp, hi_kafka_decode_resp_frame,
    hi_kafka_encode_commit_frame, hi_kafka_encode_fnf_frame, hi_kafka_encode_poll_frame,
    hi_kafka_encode_register_cluster_frame, hi_kafka_encode_req_frame,
    hi_kafka_encode_subscribe_frame, hi_kafka_encode_unsubscribe_frame, hi_kafka_ensure_worker,
    hi_kafka_header_len, hi_kafka_next_cid, hi_kafka_parse_header, hi_kafka_poll,
    hi_kafka_pool_stats, hi_kafka_produce_fnf, hi_kafka_produce_sync, hi_kafka_register_cluster,
    hi_kafka_resubscribe_stats, hi_kafka_retry_stats, hi_kafka_runtime, hi_kafka_subscribe,
    hi_kafka_unsubscribe, runtimes, show_consumer, show_resp, EnsureWorkerStep, ProduceCall,
    RecoveryStats, RegisterClusterCall, SubscribeCall,
};
use hi_kafka::php_value::{
    bytes_to_php_string, messages_to_zval, partitions_to_zval, rebalance_events_to_zval, PhpValue,
};
use hi_kafka::pool::{pool_for, PoolRegistry};
use hi_kafka::protocol::{CidCounter, ConsumerResp, FrameHeader, FrameKind, ParsedFrame};
use hi_kafka::spawn::SpawnError;
use hi_kafka::worker_health::{EnsureEvent, WorkerCache};

fn array(entries: Vec<(&str, PhpValue)>) -> PhpValue {
    PhpValue::Assoc(
        entries
            .into_iter()
            .map(|(k, v)| (k.to_string(), v))
            .collect(),
    )
}

fn text(s: &str) -> PhpValue {
    PhpValue::Text(s.to_string())
}

fn num(n: i64) -> PhpValue {
    PhpValue::Int(n)
}

fn pairs(v: &[(&str, &str)]) -> Vec<(String, String)> {
    v.iter()
        .map(|(k, v)| (k.to_string(), v.to_string()))
        .collect()
}

fn strings(v: &[&str]) -> Vec<String> {
    v.iter().map(|s| s.to_string()).collect()
}

fn frame(kind: FrameKind, cid: u64, payload: &[u8]) -> Result<Vec<u8>, String> {
    let mut v = format!("{}#{}#", kind.name(), cid).into_bytes();
    v.extend_from_slice(payload);
    Ok(v)
}

fn message(offset: i64) -> ConsumerMessage {
    ConsumerMessage {
        topic: "orders".to_string(),
        partition: 2,
        offset,
        timestamp_ms: 1700,
        key: Bytes::from_static(&[0, 0xff]),
        value: Bytes::from_static(b"v"),
        headers: vec![
            ("a".to_string(), Bytes::from_static(b"1")),
            ("b".to_string(), Bytes::from_static(&[0x80])),
        ],
    }
}

fn shown_message(offset: i64) -> PhpValue {
    array(vec![
        ("topic", text("orders")),
        ("partition", num(2)),
        ("offset", num(offset)),
        ("timestamp_ms", num(1700)),
        ("key", PhpValue::Binary(vec![0, 0xff])),
        ("value", PhpValue::Binary(b"v".to_vec())),
        (
            "headers",
            array(vec![
                ("a", PhpValue::Binary(b"1".to_vec())),
                ("b", PhpValue::Binary(vec![0x80])),
            ]),
        ),
    ])
}

#[test]
fn sockets_are_resolved_in_order() {
    assert_eq!(resolve_socket(Some("/a"), Some("/b")), "/a");
    assert_eq!(resolve_socket(Some(""), Some("/b")), "/b");
    assert_eq!(resolve_socket(None, Some("")), "");
    assert_eq!(resolve_socket(None, None), "/tmp/hi-kafka.sock");
    assert_eq!(resolve_socket(Some(""), None), "/tmp/hi-kafka.sock");
}

#[test]
fn timeouts_are_at_least_a_millisecond() {
    assert_eq!(resolve_timeout(None), 5000);
    assert_eq!(resolve_timeout(Some(250)), 250);
    assert_eq!(resolve_timeout(Some(0)), 1);
    assert_eq!(resolve_timeout(Some(i64::MIN)), 1);
    assert_eq!(resolve_timeout(Some(i64::MAX)), i64::MAX as u64);
}

#[test]
fn options_have_defaults_and_bounds() {
    let o = build_options(None, None, None);
    assert_eq!((o.headers.len(), o.partition, o.timestamp_ms), (0, -1, -1));
    let o = build_options(Some(pairs(&[("h", "né")])), Some(7), Some(i64::MIN));
    assert_eq!(
        o.headers,
        vec![("h".to_string(), Bytes::from_static("né".as_bytes()))]
    );
    assert_eq!((o.partition, o.timestamp_ms), (7, i64::MIN));
    assert_eq!(build_options(None, Some(i64::MAX), None).partition, i32::MAX);
    assert_eq!(build_options(None, Some(i64::MIN), None).partition, i32::MIN);
}

#[test]
fn offset_targets_are_triples() {
    let r = build_offset_targets(strings(&["a", "b"]), vec![1, 1 << 32], vec![10, 20]);
    assert_eq!(
        r,
        Ok(vec![("a".to_string(), 1, 10), ("b".to_string(), 0, 20)])
    );
    let r = build_offset_targets(strings(&["a", "b"]), vec![1], vec![1, 2, 3]);
    assert_eq!(
        r,
        Err("topics(2), partitions(1), offsets(3) 长度必须一致".to_string())
    );
    assert!(build_offset_targets(vec![], vec![], vec![4]).is_err());
    assert_eq!(build_offset_targets(vec![], vec![], vec![]), Ok(vec![]));
}

#[test]
fn binary_headers_are_pairs() {
    let r = build_binary_headers(strings(&["a", "b"]), vec![vec![0xff, 0], vec![]]);
    assert_eq!(
        r,
        Ok(vec![
            ("a".to_string(), Bytes::from_static(&[0xff, 0])),
            ("b".to_string(), Bytes::new())
        ])
    );
    let r = build_binary_headers(strings(&["a"]), vec![]);
    assert_eq!(
        r,
        Err("header names(1) 和 values(0) 长度必须一致".to_string())
    );
}

#[test]
fn partition_specs_are_pairs() {
    let r = build_partition_specs(strings(&["a", "b"]), vec![5, -1]);
    assert_eq!(r, Ok(vec![("a".to_string(), 5), ("b".to_string(), -1)]));
    assert_eq!(build_partition_specs(vec![], vec![]), Ok(vec![]));
    let r = build_partition_specs(vec![], vec![1, 2]);
    assert_eq!(
        r,
        Err("topics(0) 和 partitions(2) 长度必须一致".to_string())
    );
}

#[test]
fn numbers_keep_their_bits() {
    for n in [0u64, 1, i64::MAX as u64, i64::MAX as u64 + 1, u64::MAX] {
        assert_eq!(to_signed(n), n as i64);
        assert_eq!(to_unsigned(to_signed(n)), n);
    }
    for n in [
        0i64,
        -1,
        1 << 31,
        (1 << 32) - 1,
        1 << 32,
        i64::MIN,
        i64::MAX,
        -(1 << 31) - 1,
    ] {
        assert_eq!(to_low_u32(n), n as u32);
        assert_eq!(to_low_i32(n), n as i32);
        assert_eq!(to_unsigned(n), n as u64);
    }
}

#[test]
fn a_worker_is_ensured_step_by_step() {
    let mut cache = WorkerCache::new();
    let mut env = SocketEnv::new();
    let now = Some("/run/w.sock");
    let step = hi_kafka_ensure_worker(&mut cache, &mut env, None, now, EnsureEvent::Wanted);
    assert_eq!(
        step,
        EnsureWorkerStep::Start {
            socket: "/run/w.sock".to_string()
        }
    );
    let failed = EnsureEvent::Started(Err(SpawnError::ForkFailed("EAGAIN".to_string())));
    let step = hi_kafka_ensure_worker(&mut cache, &mut env, None, now, failed);
    assert_eq!(
        step,
        EnsureWorkerStep::Return(Err("ensure_worker: fork failed: EAGAIN".to_string()))
    );
    let started = EnsureEvent::Started(Ok(()));
    let step = hi_kafka_ensure_worker(&mut cache, &mut env, None, Some("/other"), started);
    assert_eq!(step, EnsureWorkerStep::Return(Ok(())));
    let step = hi_kafka_ensure_worker(&mut cache, &mut env, now, None, EnsureEvent::Wanted);
    assert_eq!(step, EnsureWorkerStep::Return(Ok(())));
}

#[test]
fn the_first_socket_of_the_environment_stands() {
    let mut env = SocketEnv::new();
    assert_eq!(env.resolve(Some("/a"), Some("/ignored")), "/a");
    assert_eq!(env.resolve(None, Some("/first")), "/first");
    assert_eq!(env.resolve(Some(""), Some("/second")), "/first");
    assert_eq!(env.resolve(None, None), "/first");
    assert_eq!(env.resolve(Some("/b"), Some("/third")), "/b");
    assert_eq!(env.settle(None, Some("/third")), Some("/first".to_string()));
    assert_eq!(env.settle(Some("/b"), Some("/third")), None);

    let mut unset = SocketEnv::new();
    assert_eq!(unset.resolve(None, None), "/tmp/hi-kafka.sock");
    assert_eq!(unset.resolve(None, Some("/late")), "/tmp/hi-kafka.sock");

    let mut empty = SocketEnv::new();
    assert_eq!(empty.resolve(None, Some("")), "");
    assert_eq!(empty.resolve(None, Some("/late")), "");
}

#[test]
fn headers_of_one_name_are_put_in_order() {
    let mut m = message(1);
    m.headers = vec![
        ("a".to_string(), Bytes::from_static(b"1")),
        ("a".to_string(), Bytes::from_static(b"2")),
    ];
    let shown = match messages_to_zval(vec![m]) {
        PhpValue::List(mut v) => v.remove(0),
        other => panic!("{other:?}"),
    };
    let entries = match shown {
        PhpValue::Assoc(entries) => entries,
        other => panic!("{other:?}"),
    };
    assert_eq!(
        entries[6],
        (
            "headers".to_string(),
            array(vec![
                ("a", PhpValue::Binary(b"1".to_vec())),
                ("a", PhpValue::Binary(b"2".to_vec())),
            ])
        )
    );
}

#[test]
fn a_cluster_is_registered() {
    let r = hi_kafka_register_cluster(
        "main",
        pairs(&[("bootstrap.servers", "k:9092")]),
        Some("/s"),
        Some(-5),
        &mut SocketEnv::new(),
        Some("/env"),
        |c: RegisterClusterCall| {
            assert_eq!(
                c,
                RegisterClusterCall {
                    socket: "/s".to_string(),
                    cluster: "main".to_string(),
                    config: pairs(&[("bootstrap.servers", "k:9092")]),
                    timeout_ms: 1,
                }
            );
            Err("refused".to_string())
        },
    );
    assert_eq!(r, Err("refused".to_string()));
}

#[test]
fn a_message_is_produced() {
    let mut env = SocketEnv::new();
    let expected = || ProduceCall {
        socket: "/env".to_string(),
        cluster: "main".to_string(),
        topic: "t".to_string(),
        key: "k".to_string(),
        value: "v".to_string(),
        options: build_options(Some(pairs(&[("h", "1")])), Some(3), None),
    };
    let r = hi_kafka_produce_fnf(
        "main",
        "t",
        "k",
        "v",
        Some(pairs(&[("h", "1")])),
        Some(3),
        None,
        None,
        &mut env,
        Some("/env"),
        |c: ProduceCall| {
            assert_eq!(c, expected());
            Ok(())
        },
    );
    assert_eq!(r, Ok(()));
    let ack = ProduceResp::Done(ProduceAck {
        partition: 3,
        offset: 8,
    });
    let r = hi_kafka_produce_sync(
        "main",
        "t",
        "k",
        "v",
        Some(pairs(&[("h", "1")])),
        Some(3),
        None,
        None,
        Some(""),
        &mut env,
        Some("/later"),
        |c: ProduceCall, timeout_ms: u64| {
            assert_eq!(c, expected());
            assert_eq!(timeout_ms, 5000);
            Ok(ProduceResp::Done(ProduceAck {
                partition: 3,
                offset: 8,
            }))
        },
    );
    assert_eq!(r, Ok(ack));
}

#[test]
fn a_subscription_leads_back_to_itself() {
    let subscribe = |c: SubscribeCall| {
        assert_eq!(
            c,
            SubscribeCall {
                socket: "/tmp/hi-kafka.sock".to_string(),
                cluster: "main".to_string(),
                group_id: "g".to_string(),
                topics: strings(&["a"]),
                config: vec![],
                timeout_ms: 5000,
            }
        );
        Ok(u64::MAX - 1)
    };
    let mut env = SocketEnv::new();
    let topics = strings(&["a"]);
    let handle =
        hi_kafka_subscribe("main", "g", topics, None, None, None, &mut env, None, subscribe)
            .unwrap();
    assert_eq!(env.resolve(None, Some("/late")), "/tmp/hi-kafka.sock");
    assert_eq!(handle, -2);
    let polled = hi_kafka_poll(handle, 10, 100, |req: PollReq| {
        assert_eq!(req.subscription_id, u64::MAX - 1);
        assert_eq!((req.max_messages, req.timeout_ms), (10, 100));
        Ok(vec![message(1)])
    });
    assert_eq!(polled, Ok(PhpValue::List(vec![shown_message(1)])));
    let committed = hi_kafka_commit(handle, Some(7), |req: CommitReq, timeout_ms: u64| {
        assert_eq!((req.subscription_id, timeout_ms), (u64::MAX - 1, 7));
        Ok(())
    });
    assert_eq!(committed, Ok(()));
    let ended = hi_kafka_unsubscribe(handle, |req: UnsubscribeReq| {
        assert_eq!(req.subscription_id, u64::MAX - 1);
        Err("gone".to_string())
    });
    assert_eq!(ended, Err("gone".to_string()));
}

#[test]
fn polls_are_bounded_from_below() {
    let r = hi_kafka_poll(1, -3, -4, |req: PollReq| {
        assert_eq!((req.max_messages, req.timeout_ms), (1, 0));
        Err("none".to_string())
    });
    assert_eq!(r, Err("none".to_string()));
    let r = hi_kafka_poll(1, (1 << 32) + 5, 1 << 32, |req: PollReq| {
        assert_eq!((req.max_messages, req.timeout_ms), (5, 0));
        Ok(vec![])
    });
    assert_eq!(r, Ok(PhpValue::List(vec![])));
}

#[test]
fn recoveries_are_counted() {
    let stats = RecoveryStats {
        attempts: 3,
        successes: 2,
        failures: u64::MAX,
    };
    let shown = array(vec![
        ("attempts", num(3)),
        ("successes", num(2)),
        ("failures", num(-1)),
    ]);
    assert_eq!(hi_kafka_retry_stats(stats), shown);
    assert_eq!(hi_kafka_resubscribe_stats(stats), shown);
}

#[test]
fn pool_counters_are_shown_by_socket() {
    let mut registry: PoolRegistry<u32> = PoolRegistry::new();
    let at = pool_for(&mut registry, "/a.sock", Some("2"));
    pool_for(&mut registry, "/b.sock", None);
    let pool = registry.pool(at);
    let mut one = pool.acquire(|_: &u32| true, |_: &str| Ok(1)).unwrap();
    let two = pool.acquire(|_: &u32| true, |_: &str| Ok(2)).unwrap();
    one.poison(pool);
    one.give_back(pool);
    two.give_back(pool);
    let shown = |max_idle, idle, acquires, misses, poisoned| {
        array(vec![
            ("max_idle", num(max_idle)),
            ("idle", num(idle)),
            ("acquires", num(acquires)),
            ("hits", num(0)),
            ("misses", num(misses)),
            ("closed", num(0)),
            ("poisoned", num(poisoned)),
        ])
    };
    assert_eq!(
        hi_kafka_pool_stats(&registry),
        array(vec![
            ("/a.sock", shown(2, 1, 2, 2, 1)),
            ("/b.sock", shown(16, 0, 0, 0, 0)),
        ])
    );
}

#[test]
fn runtimes_start_with_blocking() {
    assert_eq!(hi_kafka_runtime(|_: &str| false), strings(&["blocking"]));
    assert_eq!(
        hi_kafka_runtime(|f: &str| f == "swoole_version"),
        strings(&["blocking", "swoole"])
    );
    assert_eq!(
        hi_kafka_runtime(|f: &str| f == "swow\\version"),
        strings(&["blocking", "swow"])
    );
    assert_eq!(
        runtimes(true, true),
        strings(&["blocking", "swoole", "swow"])
    );
}

#[test]
fn numbers_and_lengths_for_drivers() {
    let mut cids = CidCounter::new();
    assert_eq!(hi_kafka_next_cid(&mut cids), 1);
    assert_eq!(hi_kafka_next_cid(&mut cids), 2);
    assert_eq!(hi_kafka_header_len(), 13);
}

#[test]
fn frames_are_encoded_for_drivers() {
    let mut cids = CidCounter::new();
    let encode = |m: &ProduceFnf| {
        let mut v = m.key.to_vec();
        v.extend_from_slice(&m.value);
        v.push(m.partition as u8);
        for (name, value) in &m.headers {
            v.extend_from_slice(name.as_bytes());
            v.extend_from_slice(value);
        }
        Ok(v)
    };
    let fnf = hi_kafka_encode_fnf_frame(
        "c",
        "t",
        "k",
        "v",
        Some(pairs(&[("h", "1")])),
        Some(4),
        None,
        encode,
        frame,
    );
    assert_eq!(
        fnf,
        Ok(PhpValue::Binary(b"ProduceFnf#0#kv\x04h1".to_vec()))
    );
    let shown = |cid, frame: &[u8]| {
        Ok(array(vec![
            ("cid", num(cid)),
            ("frame", PhpValue::Binary(frame.to_vec())),
        ]))
    };
    let req =
        hi_kafka_encode_req_frame(&mut cids, "c", "t", "k", "v", None, Some(4), None, encode, frame);
    assert_eq!(req, shown(1, b"ProduceReq#1#kv\x04"));
    let subscribe = hi_kafka_encode_subscribe_frame(
        &mut cids,
        "c",
        "g",
        strings(&["t"]),
        Some(pairs(&[("k", "v")])),
        |m| Ok(format!("{}{}{}{}", m.cluster, m.group_id, m.topics[0], m.config[0].1).into_bytes()),
        frame,
    );
    assert_eq!(subscribe, shown(2, b"SubscribeReq#2#cgtv"));
    let poll = hi_kafka_encode_poll_frame(
        &mut cids,
        -1,
        0,
        9,
        |m| Ok(format!("{},{},{}", m.subscription_id, m.max_messages, m.timeout_ms).into_bytes()),
        frame,
    );
    assert_eq!(poll, shown(3, b"PollReq#3#18446744073709551615,1,9"));
    let commit = hi_kafka_encode_commit_frame(
        &mut cids,
        5,
        |m| Ok(vec![m.subscription_id as u8]),
        frame,
    );
    assert_eq!(commit, shown(4, b"CommitReq#4#\x05"));
    let register = hi_kafka_encode_register_cluster_frame(
        &mut cids,
        "c",
        pairs(&[("k", "v")]),
        |m| Ok(format!("{}{}", m.cluster, m.config[0].0).into_bytes()),
        frame,
    );
    assert_eq!(register, shown(5, b"RegisterClusterReq#5#ck"));
    let unsubscribe =
        hi_kafka_encode_unsubscribe_frame(6, |m| Ok(vec![m.subscription_id as u8]), frame);
    assert_eq!(
        unsubscribe,
        Ok(PhpValue::Binary(b"Unsubscribe#0#\x06".to_vec()))
    );
    let failed = hi_kafka_encode_commit_frame(&mut cids, 5, |_| Err("odd".to_string()), frame);
    assert_eq!(failed, Err("encode CommitReq: odd".to_string()));
    let failed = hi_kafka_encode_unsubscribe_frame(6, |_| Err("odd".to_string()), frame);
    assert_eq!(failed, Err("encode UnsubscribeReq: odd".to_string()));
}

fn header(b: &[u8]) -> Result<FrameHeader, String> {
    Ok(FrameHeader {
        kind: match b[0] {
            1 => FrameKind::ProduceResp,
            2 => FrameKind::SubscribeResp,
            3 => FrameKind::PollResp,
            4 => FrameKind::CommitResp,
            5 => FrameKind::RegisterClusterResp,
            _ => return Err("unknown kind".to_string()),
        },
        kind_byte: b[0],
        cid: u64::MAX,
        payload_len: b[1] as u32,
    })
}

#[test]
fn headers_are_parsed_for_drivers() {
    let mut bytes = vec![0u8; 13];
    bytes[0] = 3;
    bytes[1] = 200;
    assert_eq!(
        hi_kafka_parse_header(&bytes, header),
        Ok(array(vec![
            ("kind", num(3)),
            ("cid", num(-1)),
            ("payload_len", num(200)),
        ]))
    );
    bytes[0] = 99;
    assert_eq!(
        hi_kafka_parse_header(&bytes, header),
        Err("decode header: unknown kind".to_string())
    );
    assert_eq!(
        hi_kafka_parse_header(&bytes[..5], header),
        Err("header too short: 5 < 13".to_string())
    );
}

#[test]
fn produce_answers_are_decoded_for_drivers() {
    let mut bytes = vec![0u8; 13];
    bytes[0] = 1;
    let done = hi_kafka_decode_resp_frame(&bytes, header, |_: &[u8]| {
        Ok(ProduceResp::Done(ProduceAck {
            partition: -1,
            offset: 77,
        }))
    });
    assert_eq!(
        done,
        Ok(array(vec![
            ("cid", num(-1)),
            ("ok", PhpValue::Bool(true)),
            ("partition", num(-1)),
            ("offset", num(77)),
        ]))
    );
    let failed = hi_kafka_decode_resp_frame(&bytes, header, |_: &[u8]| {
        Ok(ProduceResp::Failed(ProduceErr {
            code: -185,
            message: "timed out".to_string(),
            retryable: true,
        }))
    });
    assert_eq!(
        failed,
        Ok(array(vec![
            ("cid", num(-1)),
            ("ok", PhpValue::Bool(false)),
            ("code", num(-185)),
            ("message", text("timed out")),
            ("retryable", PhpValue::Bool(true)),
        ]))
    );
    let other = show_resp(Ok(ParsedFrame::Other {
        kind: FrameKind::PollResp,
        cid: 12,
        payload_len: 0,
    }));
    assert_eq!(other, Err("unexpected frame kind PollResp cid=12".to_string()));
}

#[test]
fn consumer_answers_are_decoded_for_drivers() {
    let decode = |kind: u8| {
        let mut bytes = vec![0u8; 13];
        bytes[0] = kind;
        hi_kafka_decode_consumer_resp(
            &bytes,
            header,
            |_: &[u8]| Ok(SubscribeResp::Done { subscription_id: 6 }),
            |_: &[u8]| {
                Ok(PollResp::Done {
                    messages: vec![message(3), message(4)],
                })
            },
            |_: &[u8]| Ok(CommitResp::Done),
            |_: &[u8]| Ok(RegisterClusterResp::Done),
        )
    };
    let head = |kind: &str, ok: bool| {
        vec![
            ("kind".to_string(), text(kind)),
            ("cid".to_string(), num(-1)),
            ("ok".to_string(), PhpValue::Bool(ok)),
        ]
    };
    let mut subscribe = head("subscribe", true);
    subscribe.push(("subscription_id".to_string(), num(6)));
    assert_eq!(decode(2), Ok(PhpValue::Assoc(subscribe)));
    let mut poll = head("poll", true);
    poll.push((
        "messages".to_string(),
        PhpValue::List(vec![shown_message(3), shown_message(4)]),
    ));
    assert_eq!(decode(3), Ok(PhpValue::Assoc(poll)));
    assert_eq!(decode(4), Ok(PhpValue::Assoc(head("commit", true))));
    assert_eq!(decode(5), Ok(PhpValue::Assoc(head("register_cluster", true))));
    assert_eq!(
        decode(1),
        Err("unexpected consumer frame kind: ProduceResp".to_string())
    );
}

#[test]
fn consumer_failures_carry_their_message() {
    let cid = 3;
    let m = || "no".to_string();
    for (kind, resp) in [
        ("subscribe", ConsumerResp::SubscribeErr { cid, message: m() }),
        ("poll", ConsumerResp::PollErr { cid, message: m() }),
        ("commit", ConsumerResp::CommitErr { cid, message: m() }),
        (
            "register_cluster",
            ConsumerResp::RegisterClusterErr { cid, message: m() },
        ),
    ] {
        assert_eq!(
            show_consumer(Ok(resp)),
            Ok(array(vec![
                ("kind", text(kind)),
                ("cid", num(3)),
                ("ok", PhpValue::Bool(false)),
                ("message", text("no")),
            ]))
        );
    }
}

#[test]
fn events_are_lists_of_arrays() {
    let parts = vec![("a".to_string(), 1), ("b".to_string(), -1)];
    let shown = PhpValue::List(vec![
        array(vec![("topic", text("a")), ("partition", num(1))]),
        array(vec![("topic", text("b")), ("partition", num(-1))]),
    ]);
    assert_eq!(partitions_to_zval(&parts), shown);
    let events = rebalance_events_to_zval(vec![
        RebalanceEvent::Assign {
            partitions: parts.clone(),
        },
        RebalanceEvent::Revoke { partitions: vec![] },
        RebalanceEvent::Error {
            message: "lost".to_string(),
        },
    ]);
    assert_eq!(
        events,
        PhpValue::List(vec![
            array(vec![("type", text("assign")), ("partitions", shown)]),
            array(vec![
                ("type", text("revoke")),
                ("partitions", PhpValue::List(vec![]))
            ]),
            array(vec![("type", text("error")), ("message", text("lost"))]),
        ])
    );
}

#[test]
fn strings_hold_any_bytes() {
    assert_eq!(
        bytes_to_php_string(&[0, 0xff]),
        PhpValue::Binary(vec![0, 0xff])
    );
    assert_eq!(messages_to_zval(vec![]), PhpValue::List(vec![]));
}
