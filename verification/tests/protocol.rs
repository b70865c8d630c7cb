use bytes::Bytes;
use hi_kafka::messages::{
    CommitResp, ConsumerMessage, PollReq, PollResp, ProduceAck, ProduceErr, ProduceFnf,
    ProduceResp, RegisterClusterResp, SubscribeReq, SubscribeResp,
};
use hi_kafka::protocol::{
    build_commit_frame, build_fnf_frame, build_poll_frame, build_register_cluster_frame,
    build_req_frame, build_subscribe_frame, build_unsubscribe_frame, header_len, next_cid,
    note_commit_answer, note_poll_answer, note_produce_answer, note_register_cluster_answer,
    note_subscribe_answer, parse_consumer_resp_frame, parse_header_only, parse_resp_frame,
    payload_of, CidCounter, ConsumerResp, FrameHeader, FrameKind, ParsedFrame, ParsedHeader,
    ProtocolError, HEADER_LEN,
};

fn kind_byte(kind: &FrameKind) -> u8 {
    match kind {
        FrameKind::ProduceFnf => 1,
        FrameKind::ProduceReq => 2,
        FrameKind::ProduceResp => 3,
        FrameKind::SubscribeReq => 4,
        FrameKind::SubscribeResp => 5,
        FrameKind::PollReq => 6,
        FrameKind::PollResp => 7,
        FrameKind::CommitReq => 8,
        FrameKind::CommitResp => 9,
        FrameKind::Unsubscribe => 10,
        FrameKind::RegisterClusterReq => 11,
        FrameKind::RegisterClusterResp => 12,
        FrameKind::Other(_) => 99,
    }
}

fn kind_of(byte: u8) -> FrameKind {
    match byte {
        1 => FrameKind::ProduceFnf,
        2 => FrameKind::ProduceReq,
        3 => FrameKind::ProduceResp,
        4 => FrameKind::SubscribeReq,
        5 => FrameKind::SubscribeResp,
        6 => FrameKind::PollReq,
        7 => FrameKind::PollResp,
        8 => FrameKind::CommitReq,
        9 => FrameKind::CommitResp,
        10 => FrameKind::Unsubscribe,
        11 => FrameKind::RegisterClusterReq,
        12 => FrameKind::RegisterClusterResp,
        _ => FrameKind::Other("Hello".to_string()),
    }
}

fn frame(kind: FrameKind, cid: u64, payload: &[u8]) -> Result<Vec<u8>, String> {
    let mut v = (payload.len() as u32).to_be_bytes().to_vec();
    v.push(kind_byte(&kind));
    v.extend_from_slice(&cid.to_be_bytes());
    v.extend_from_slice(payload);
    Ok(v)
}

fn header(b: &[u8]) -> Result<FrameHeader, String> {
    assert_eq!(b.len(), HEADER_LEN);
    if b[4] == 0 {
        return Err("bad kind".to_string());
    }
    Ok(FrameHeader {
        kind: kind_of(b[4]),
        kind_byte: b[4],
        cid: u64::from_be_bytes([b[5], b[6], b[7], b[8], b[9], b[10], b[11], b[12]]),
        payload_len: u32::from_be_bytes([b[0], b[1], b[2], b[3]]),
    })
}

fn produce(m: &ProduceFnf) -> Result<Vec<u8>, String> {
    let mut v = format!(
        "{}/{}/{}/{}/",
        m.cluster, m.topic, m.partition, m.timestamp_ms
    )
    .into_bytes();
    v.extend_from_slice(&m.key);
    v.extend_from_slice(&m.value);
    for (name, value) in &m.headers {
        v.extend_from_slice(name.as_bytes());
        v.extend_from_slice(value);
    }
    Ok(v)
}

fn refuse_frame(_: FrameKind, _: u64, _: &[u8]) -> Result<Vec<u8>, String> {
    Err("payload too large".to_string())
}

fn no_resp(_: &[u8]) -> Result<ProduceResp, String> {
    panic!("not to be read")
}

#[test]
fn test_fnf_frame_roundtrip_via_parse_header() {
    let bytes = build_fnf_frame("c", "t", b"k", b"v", vec![], -1, -1, produce, frame).unwrap();
    let h = parse_header_only(&bytes, header).unwrap();
    assert_eq!(h.kind_byte, kind_byte(&FrameKind::ProduceFnf));
    assert_eq!(h.cid, 0);
}

#[test]
fn test_req_frame_assigns_monotonic_cid() {
    let mut cids = CidCounter::new();
    let (cid1, _) =
        build_req_frame(&mut cids, "c", "t", b"k", b"v", vec![], -1, -1, produce, frame).unwrap();
    let (cid2, _) =
        build_req_frame(&mut cids, "c", "t", b"k", b"v", vec![], -1, -1, produce, frame).unwrap();
    assert!(cid2 > cid1);
}

#[test]
fn request_numbers_start_at_one() {
    let mut cids = CidCounter::new();
    assert_eq!(next_cid(&mut cids), 1);
    assert_eq!(next_cid(&mut cids), 2);
    assert_eq!(next_cid(&mut cids), 3);
}

#[test]
fn a_header_has_thirteen_bytes() {
    assert_eq!(header_len(), 13);
}

#[test]
fn the_message_reaches_the_encoder() {
    let headers = vec![("h".to_string(), Bytes::from_static(&[0xff]))];
    let bytes =
        build_fnf_frame("main", "orders", &[0, 1], b"v", headers, 3, 99, produce, frame).unwrap();
    let mut payload = b"main/orders/3/99/".to_vec();
    payload.extend_from_slice(&[0, 1, b'v', b'h', 0xff]);
    assert_eq!(bytes, frame(FrameKind::ProduceFnf, 0, &payload).unwrap());
}

#[test]
fn a_request_frame_carries_its_number() {
    let mut cids = CidCounter::new();
    next_cid(&mut cids);
    let (cid, bytes) =
        build_req_frame(&mut cids, "c", "t", b"", b"", vec![], -1, -1, produce, frame).unwrap();
    assert_eq!(cid, 2);
    assert_eq!(
        parse_header_only(&bytes, header).unwrap(),
        ParsedHeader {
            kind_byte: 2,
            cid: 2,
            payload_len: 10
        }
    );
}

#[test]
fn a_failed_payload_uses_no_number_and_a_failed_frame_does() {
    let mut cids = CidCounter::new();
    let bad = |_: &ProduceFnf| Err("field too large".to_string());
    assert_eq!(
        build_req_frame(&mut cids, "c", "t", b"", b"", vec![], -1, -1, bad, frame),
        Err(ProtocolError::Payload("field too large".to_string()))
    );
    assert_eq!(
        build_req_frame(&mut cids, "c", "t", b"", b"", vec![], -1, -1, produce, refuse_frame),
        Err(ProtocolError::Frame("payload too large".to_string()))
    );
    assert_eq!(next_cid(&mut cids), 2);
    assert_eq!(
        build_fnf_frame("c", "t", b"", b"", vec![], -1, -1, bad, frame),
        Err(ProtocolError::Payload("field too large".to_string()))
    );
}

#[test]
fn a_subscription_is_asked_for() {
    let mut cids = CidCounter::new();
    let encode = |m: &SubscribeReq| {
        assert_eq!(m.cluster, "main");
        assert_eq!(m.group_id, "g");
        assert_eq!(m.topics, vec!["a".to_string(), "b".to_string()]);
        assert_eq!(m.config, vec![("k".to_string(), "v".to_string())]);
        Ok(vec![1, 2])
    };
    let r = build_subscribe_frame(
        &mut cids,
        "main",
        "g",
        vec!["a".to_string(), "b".to_string()],
        vec![("k".to_string(), "v".to_string())],
        encode,
        frame,
    );
    assert_eq!(
        r,
        Ok((1, frame(FrameKind::SubscribeReq, 1, &[1, 2]).unwrap()))
    );
    let r = build_subscribe_frame(
        &mut cids,
        "main",
        "g",
        vec![],
        vec![],
        |_: &SubscribeReq| Err("too many".to_string()),
        frame,
    );
    assert_eq!(r.unwrap_err().message(), "encode SubscribeReq: too many");
}

#[test]
fn polls_commits_and_registrations_are_numbered() {
    let mut cids = CidCounter::new();
    let poll = build_poll_frame(
        &mut cids,
        7,
        100,
        250,
        |m: &PollReq| Ok(vec![m.subscription_id as u8, m.max_messages as u8, m.timeout_ms as u8]),
        frame,
    );
    assert_eq!(
        poll,
        Ok((1, frame(FrameKind::PollReq, 1, &[7, 100, 250]).unwrap()))
    );
    let commit = build_commit_frame(&mut cids, 8, |m| Ok(vec![m.subscription_id as u8]), frame);
    assert_eq!(
        commit,
        Ok((2, frame(FrameKind::CommitReq, 2, &[8]).unwrap()))
    );
    let register = build_register_cluster_frame(
        &mut cids,
        "main",
        vec![("bootstrap.servers".to_string(), "k:9092".to_string())],
        |m| Ok(format!("{}:{}={}", m.cluster, m.config[0].0, m.config[0].1).into_bytes()),
        frame,
    );
    assert_eq!(
        register,
        Ok((
            3,
            frame(
                FrameKind::RegisterClusterReq,
                3,
                b"main:bootstrap.servers=k:9092"
            )
            .unwrap()
        ))
    );
    assert_eq!(next_cid(&mut cids), 4);
}

#[test]
fn an_unsubscription_has_no_number() {
    assert_eq!(
        build_unsubscribe_frame(9, |m| Ok(vec![m.subscription_id as u8]), frame),
        frame(FrameKind::Unsubscribe, 0, &[9])
    .map_err(ProtocolError::Frame));
    let refused = build_unsubscribe_frame(9, |_| Err("no".to_string()), frame);
    assert_eq!(refused.unwrap_err().message(), "encode UnsubscribeReq: no");
}

#[test]
fn encoding_errors_name_the_request() {
    let mut cids = CidCounter::new();
    let poll = build_poll_frame(&mut cids, 1, 1, 1, |_| Err("x".to_string()), frame);
    assert_eq!(poll.unwrap_err().message(), "encode PollReq: x");
    let commit = build_commit_frame(&mut cids, 1, |_| Err("x".to_string()), frame);
    assert_eq!(commit.unwrap_err().message(), "encode CommitReq: x");
    let register =
        build_register_cluster_frame(&mut cids, "c", vec![], |_| Err("x".to_string()), frame);
    assert_eq!(
        register.unwrap_err().message(),
        "encode RegisterClusterReq: x"
    );
    assert_eq!(next_cid(&mut cids), 1);
}

#[test]
fn an_answer_to_a_produce_request_is_read() {
    let bytes = frame(FrameKind::ProduceResp, 5, &[42]).unwrap();
    let decode = |p: &[u8]| {
        Ok(ProduceResp::Done(ProduceAck {
            partition: 1,
            offset: p[0] as i64,
        }))
    };
    assert_eq!(
        parse_resp_frame(&bytes, header, decode),
        Ok(ParsedFrame::Resp {
            cid: 5,
            resp: ProduceResp::Done(ProduceAck {
                partition: 1,
                offset: 42
            })
        })
    );
    let failed = note_produce_answer(
        6,
        Ok(ProduceResp::Failed(ProduceErr {
            code: -1,
            message: "m".to_string(),
            retryable: true,
        })),
    );
    assert!(matches!(
        failed,
        Ok(ParsedFrame::Resp {
            cid: 6,
            resp: ProduceResp::Failed(_)
        })
    ));
}

#[test]
fn what_follows_a_frame_is_ignored() {
    let mut bytes = frame(FrameKind::ProduceResp, 5, &[42]).unwrap();
    bytes.extend_from_slice(&[1, 2, 3]);
    let decode = |p: &[u8]| {
        assert_eq!(p, &[42]);
        Ok(ProduceResp::Done(ProduceAck {
            partition: 0,
            offset: 0,
        }))
    };
    assert!(parse_resp_frame(&bytes, header, decode).is_ok());
}

#[test]
fn a_frame_of_another_kind_is_reported() {
    let bytes = frame(FrameKind::PollResp, 5, &[42, 43]).unwrap();
    assert_eq!(
        parse_resp_frame(&bytes, header, no_resp),
        Ok(ParsedFrame::Other {
            kind: FrameKind::PollResp,
            cid: 5,
            payload_len: 2
        })
    );
}

#[test]
fn faulty_frames_are_refused_in_words() {
    let short = parse_resp_frame(&[0; 12], header, no_resp).unwrap_err();
    assert_eq!(short, ProtocolError::FrameTooShort { len: 12 });
    assert_eq!(short.message(), "frame too short: 12 < 13");
    let short = parse_header_only(&[], header).unwrap_err();
    assert_eq!(short, ProtocolError::HeaderTooShort { len: 0 });
    assert_eq!(short.message(), "header too short: 0 < 13");
    let bad = parse_resp_frame(&[0; 13], header, no_resp).unwrap_err();
    assert_eq!(bad.message(), "decode header: bad kind");
    let mut cut = frame(FrameKind::ProduceResp, 5, &[1, 2, 3]).unwrap();
    cut.pop();
    let cut = parse_resp_frame(&cut, header, no_resp).unwrap_err();
    assert_eq!(cut, ProtocolError::Truncated { len: 15, need: 16 });
    assert_eq!(cut.message(), "payload truncated: 15 < 16");
    let bytes = frame(FrameKind::ProduceResp, 5, &[]).unwrap();
    let unread = parse_resp_frame(&bytes, header, |_: &[u8]| Err("odd".to_string()));
    assert_eq!(unread.unwrap_err().message(), "decode resp: odd");
    assert_eq!(
        ProtocolError::Frame("big".to_string()).message(),
        "encode frame: big"
    );
    assert_eq!(ProtocolError::Payload("p".to_string()).message(), "p");
}

#[test]
fn a_payload_length_may_be_the_largest() {
    assert_eq!(
        payload_of(&[0; 20], u32::MAX),
        Err(ProtocolError::Truncated {
            len: 20,
            need: 4_294_967_308
        })
    );
    assert_eq!(payload_of(&[7; 20], 7), Ok(&[7u8; 7][..]));
    assert_eq!(payload_of(&[7; 13], 0), Ok(&[][..]));
}

fn consumer(bytes: &[u8]) -> Result<ConsumerResp, ProtocolError> {
    parse_consumer_resp_frame(
        bytes,
        header,
        |p: &[u8]| match p[0] {
            0 => Ok(SubscribeResp::Failed {
                message: "denied".to_string(),
            }),
            1 => Err("cut".to_string()),
            n => Ok(SubscribeResp::Done {
                subscription_id: n as u64,
            }),
        },
        |p: &[u8]| match p[0] {
            0 => Ok(PollResp::Failed {
                message: "gone".to_string(),
            }),
            1 => Err("cut".to_string()),
            n => Ok(PollResp::Done {
                messages: vec![ConsumerMessage {
                    topic: "t".to_string(),
                    partition: n as i32,
                    offset: 0,
                    timestamp_ms: 0,
                    key: Bytes::new(),
                    value: Bytes::new(),
                    headers: vec![],
                }],
            }),
        },
        |p: &[u8]| match p[0] {
            0 => Ok(CommitResp::Failed {
                message: "late".to_string(),
            }),
            1 => Err("cut".to_string()),
            _ => Ok(CommitResp::Done),
        },
        |p: &[u8]| match p[0] {
            0 => Ok(RegisterClusterResp::Failed {
                message: "no servers".to_string(),
            }),
            1 => Err("cut".to_string()),
            _ => Ok(RegisterClusterResp::Done),
        },
    )
}

fn answered(kind: FrameKind, first: u8) -> Result<ConsumerResp, ProtocolError> {
    consumer(&frame(kind, 4, &[first]).unwrap())
}

#[test]
fn answers_to_a_consumer_are_told_apart() {
    assert_eq!(
        answered(FrameKind::SubscribeResp, 9),
        Ok(ConsumerResp::SubscribeOk {
            cid: 4,
            subscription_id: 9
        })
    );
    assert_eq!(
        answered(FrameKind::SubscribeResp, 0),
        Ok(ConsumerResp::SubscribeErr {
            cid: 4,
            message: "denied".to_string()
        })
    );
    assert!(matches!(
        answered(FrameKind::PollResp, 3),
        Ok(ConsumerResp::PollOk { cid: 4, messages }) if messages[0].partition == 3
    ));
    assert_eq!(
        answered(FrameKind::PollResp, 0),
        Ok(ConsumerResp::PollErr {
            cid: 4,
            message: "gone".to_string()
        })
    );
    assert_eq!(
        answered(FrameKind::CommitResp, 2),
        Ok(ConsumerResp::CommitOk { cid: 4 })
    );
    assert_eq!(
        answered(FrameKind::CommitResp, 0),
        Ok(ConsumerResp::CommitErr {
            cid: 4,
            message: "late".to_string()
        })
    );
    assert_eq!(
        answered(FrameKind::RegisterClusterResp, 2),
        Ok(ConsumerResp::RegisterClusterOk { cid: 4 })
    );
    assert_eq!(
        answered(FrameKind::RegisterClusterResp, 0),
        Ok(ConsumerResp::RegisterClusterErr {
            cid: 4,
            message: "no servers".to_string()
        })
    );
}

#[test]
fn faulty_answers_to_a_consumer_are_refused_in_words() {
    let text = |r: Result<ConsumerResp, ProtocolError>| r.unwrap_err().message();
    assert_eq!(
        text(answered(FrameKind::SubscribeResp, 1)),
        "decode SubscribeResp: cut"
    );
    assert_eq!(text(answered(FrameKind::PollResp, 1)), "decode PollResp: cut");
    assert_eq!(
        text(answered(FrameKind::CommitResp, 1)),
        "decode CommitResp: cut"
    );
    assert_eq!(
        text(answered(FrameKind::RegisterClusterResp, 1)),
        "decode RegisterClusterResp: cut"
    );
    assert_eq!(
        text(answered(FrameKind::ProduceResp, 1)),
        "unexpected consumer frame kind: ProduceResp"
    );
    assert_eq!(
        text(answered(FrameKind::Other(String::new()), 1)),
        "unexpected consumer frame kind: Hello"
    );
    assert_eq!(text(consumer(&[0; 3])), "frame too short: 3 < 13");
    assert_eq!(text(consumer(&[0; 13])), "decode header: bad kind");
    let cut = frame(FrameKind::PollResp, 1, &[1, 2]).unwrap();
    assert_eq!(text(consumer(&cut[..14])), "payload truncated: 14 < 15");
}

#[test]
fn decoded_answers_keep_their_number() {
    assert_eq!(
        note_subscribe_answer(u64::MAX, Ok(SubscribeResp::Done { subscription_id: 1 })),
        Ok(ConsumerResp::SubscribeOk {
            cid: u64::MAX,
            subscription_id: 1
        })
    );
    assert_eq!(
        note_poll_answer(0, Ok(PollResp::Done { messages: vec![] })),
        Ok(ConsumerResp::PollOk {
            cid: 0,
            messages: vec![]
        })
    );
    assert_eq!(
        note_commit_answer(3, Err("x".to_string())),
        Err(ProtocolError::Decode {
            what: "CommitResp",
            reason: "x".to_string()
        })
    );
    assert_eq!(
        note_register_cluster_answer(4, Ok(RegisterClusterResp::Done)),
        Ok(ConsumerResp::RegisterClusterOk { cid: 4 })
    );
}

#[test]
fn kinds_of_frames_have_names() {
    for n in 1..=12u8 {
        let kind = kind_of(n);
        assert_eq!(kind.name(), format!("{kind:?}"));
    }
    assert_eq!(FrameKind::Other("Hello".to_string()).name(), "Hello");
}
