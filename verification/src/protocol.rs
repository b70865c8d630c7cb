//! Building request frames and taking response frames apart.
//!
//! A frame is a header of [`HEADER_LEN`] bytes, which says what the frame is, which
//! request it belongs to and how long the payload is, and then the payload. Callers bring
//! the codec along: functions that write or read a header or a payload. What is decided
//! here is what they are called on, in which order, and what is made of their results.

use crate::messages::{
    CommitReq, CommitResp, ConsumerMessage, PollReq, PollResp, ProduceFnf, ProduceResp,
    RegisterClusterReq, RegisterClusterResp, SubscribeReq, SubscribeResp, UnsubscribeReq,
};
use crate::text::push_decimal;
use crate::wire::bytes_copy;
use bytes::Bytes;
use vstd::prelude::*;
use vstd::slice::slice_subrange;
use vstd::string::StringExecFns;

verus! {

broadcast use vstd::slice::group_slice_axioms;

/// The length of a frame header.
pub const HEADER_LEN: usize = 13;

/// What a frame is.
#[derive(Debug, PartialEq, Eq)]
pub enum FrameKind {
    ProduceFnf,
    ProduceReq,
    ProduceResp,
    SubscribeReq,
    SubscribeResp,
    PollReq,
    PollResp,
    CommitReq,
    CommitResp,
    Unsubscribe,
    RegisterClusterReq,
    RegisterClusterResp,
    /// Another kind, of this name.
    Other(String),
}

impl FrameKind {
    pub open spec fn label(self) -> Seq<char> {
        match self {
            FrameKind::ProduceFnf => "ProduceFnf"@,
            FrameKind::ProduceReq => "ProduceReq"@,
            FrameKind::ProduceResp => "ProduceResp"@,
            FrameKind::SubscribeReq => "SubscribeReq"@,
            FrameKind::SubscribeResp => "SubscribeResp"@,
            FrameKind::PollReq => "PollReq"@,
            FrameKind::PollResp => "PollResp"@,
            FrameKind::CommitReq => "CommitReq"@,
            FrameKind::CommitResp => "CommitResp"@,
            FrameKind::Unsubscribe => "Unsubscribe"@,
            FrameKind::RegisterClusterReq => "RegisterClusterReq"@,
            FrameKind::RegisterClusterResp => "RegisterClusterResp"@,
            FrameKind::Other(name) => name@,
        }
    }

    /// The name of the kind.
    pub fn name(&self) -> (r: &str)
        ensures
            r@ == self.label(),
    {
        match self {
            FrameKind::ProduceFnf => "ProduceFnf",
            FrameKind::ProduceReq => "ProduceReq",
            FrameKind::ProduceResp => "ProduceResp",
            FrameKind::SubscribeReq => "SubscribeReq",
            FrameKind::SubscribeResp => "SubscribeResp",
            FrameKind::PollReq => "PollReq",
            FrameKind::PollResp => "PollResp",
            FrameKind::CommitReq => "CommitReq",
            FrameKind::CommitResp => "CommitResp",
            FrameKind::Unsubscribe => "Unsubscribe",
            FrameKind::RegisterClusterReq => "RegisterClusterReq",
            FrameKind::RegisterClusterResp => "RegisterClusterResp",
            FrameKind::Other(name) => name.as_str(),
        }
    }
}

/// A frame header that was read.
#[derive(Debug, PartialEq, Eq)]
pub struct FrameHeader {
    pub kind: FrameKind,
    /// The byte that stands for the kind.
    pub kind_byte: u8,
    pub cid: u64,
    pub payload_len: u32,
}

/// Why a frame could not be built or taken apart.
#[derive(Debug, PartialEq, Eq)]
pub enum ProtocolError {
    /// The frame has only this many bytes, less than a header.
    FrameTooShort { len: usize },
    /// The header has only this many bytes.
    HeaderTooShort { len: usize },
    /// The header cannot be read, for this reason.
    Header(String),
    /// The frame has `len` bytes, and its header speaks of `need`.
    Truncated { len: usize, need: u64 },
    /// The message to be produced cannot be written, for this reason.
    Payload(String),
    /// A request cannot be written.
    Encode { what: &'static str, reason: String },
    /// A response cannot be read.
    Decode { what: &'static str, reason: String },
    /// The frame cannot be put together, for this reason.
    Frame(String),
    /// A frame of the kind of this name is no response to a consumer.
    UnexpectedKind(String),
}

impl ProtocolError {
    pub open spec fn text(self) -> Seq<char> {
        match self {
            ProtocolError::FrameTooShort { len } => "frame too short: "@ + crate::text::decimal(
                len as nat,
            ) + " < "@ + crate::text::decimal(HEADER_LEN as nat),
            ProtocolError::HeaderTooShort { len } => "header too short: "@ + crate::text::decimal(
                len as nat,
            ) + " < "@ + crate::text::decimal(HEADER_LEN as nat),
            ProtocolError::Header(reason) => "decode header: "@ + reason@,
            ProtocolError::Truncated { len, need } => "payload truncated: "@
                + crate::text::decimal(len as nat) + " < "@ + crate::text::decimal(need as nat),
            ProtocolError::Payload(reason) => reason@,
            ProtocolError::Encode { what, reason } => "encode "@ + what@ + ": "@ + reason@,
            ProtocolError::Decode { what, reason } => "decode "@ + what@ + ": "@ + reason@,
            ProtocolError::Frame(reason) => "encode frame: "@ + reason@,
            ProtocolError::UnexpectedKind(name) => "unexpected consumer frame kind: "@ + name@,
        }
    }

    /// The error in words.
    pub fn message(&self) -> (r: String)
        ensures
            r@ == self.text(),
    {
        match self {
            ProtocolError::FrameTooShort { len } => {
                let mut r = "frame too short: ".to_owned();
                push_decimal(&mut r, *len as u64);
                r.append(" < ");
                push_decimal(&mut r, HEADER_LEN as u64);
                r
            },
            ProtocolError::HeaderTooShort { len } => {
                let mut r = "header too short: ".to_owned();
                push_decimal(&mut r, *len as u64);
                r.append(" < ");
                push_decimal(&mut r, HEADER_LEN as u64);
                r
            },
            ProtocolError::Header(reason) => {
                let mut r = "decode header: ".to_owned();
                r.append(reason);
                r
            },
            ProtocolError::Truncated { len, need } => {
                let mut r = "payload truncated: ".to_owned();
                push_decimal(&mut r, *len as u64);
                r.append(" < ");
                push_decimal(&mut r, *need);
                r
            },
            ProtocolError::Payload(reason) => reason.clone(),
            ProtocolError::Encode { what, reason } => {
                let mut r = "encode ".to_owned();
                r.append(what);
                r.append(": ");
                r.append(reason);
                r
            },
            ProtocolError::Decode { what, reason } => {
                let mut r = "decode ".to_owned();
                r.append(what);
                r.append(": ");
                r.append(reason);
                r
            },
            ProtocolError::Frame(reason) => {
                let mut r = "encode frame: ".to_owned();
                r.append(reason);
                r
            },
            ProtocolError::UnexpectedKind(name) => {
                let mut r = "unexpected consumer frame kind: ".to_owned();
                r.append(name);
                r
            },
        }
    }
}

/// Gives out request numbers.
#[derive(Debug)]
pub struct CidCounter {
    next: u64,
}

/// The request number after `n`.
pub open spec fn cid_after(n: u64) -> u64 {
    if n == u64::MAX {
        0
    } else {
        (n + 1) as u64
    }
}

impl CidCounter {
    /// The number that is given out next.
    pub closed spec fn next(self) -> u64 {
        self.next
    }

    /// The first number is 1: 0 stands for frames that are not answered.
    pub fn new() -> (r: Self)
        ensures
            r.next() == 1,
    {
        CidCounter { next: 1 }
    }
}

/// A request number, for one request.
pub fn next_cid(counter: &mut CidCounter) -> (cid: u64)
    ensures
        cid == old(counter).next(),
        final(counter).next() == cid_after(old(counter).next()),
{
    let cid = counter.next;
    counter.next = cid.wrapping_add(1);
    cid
}

/// Request numbers ascend, so that no two requests have the same and none has that of a
/// frame without an answer, until all 64 bit numbers are used up.
pub proof fn law_cids_ascend(n: u64)
    requires
        n < u64::MAX,
    ensures
        cid_after(n) == n + 1,
        cid_after(n) != 0,
{
}

/// The request number that is given out next once `k` were, starting with `n`.
pub open spec fn cid_after_all(n: u64, k: nat) -> u64
    decreases k,
{
    if k == 0 {
        n
    } else {
        cid_after(cid_after_all(n, (k - 1) as nat))
    }
}

/// A new counter gives out 1, 2, 3 and so on, and never 0, until all 64 bit numbers are
/// used up.
pub proof fn law_cids_count_up(k: nat)
    requires
        k < u64::MAX,
    ensures
        cid_after_all(1, k) == k + 1,
        cid_after_all(1, k) != 0,
    decreases k,
{
    if k > 0 {
        law_cids_count_up((k - 1) as nat);
    }
}

/// The length of a frame header.
pub fn header_len() -> (r: usize)
    ensures
        r == HEADER_LEN,
{
    HEADER_LEN
}

/// What comes of putting a frame together with `frame`.
pub open spec fn framed<F: FnOnce(FrameKind, u64, &[u8]) -> Result<Vec<u8>, String>>(
    frame: F,
    kind: FrameKind,
    cid: u64,
    payload: Seq<u8>,
    r: Result<Vec<u8>, ProtocolError>,
) -> bool {
    exists|p: &[u8], f: Result<Vec<u8>, String>|
        p@ == payload && #[trigger] call_ensures(frame, (kind, cid, p), f) && r == (match f {
            Ok(bytes) => Ok::<Vec<u8>, ProtocolError>(bytes),
            Err(reason) => Err(ProtocolError::Frame(reason)),
        })
}

/// What comes of a frame that is not answered: its request number is 0.
pub open spec fn unnumbered<F: FnOnce(FrameKind, u64, &[u8]) -> Result<Vec<u8>, String>>(
    frame: F,
    kind: FrameKind,
    payload: Result<Vec<u8>, ProtocolError>,
    r: Result<Vec<u8>, ProtocolError>,
) -> bool {
    match payload {
        Ok(p) => framed(frame, kind, 0, p@, r),
        Err(e) => r == Err::<Vec<u8>, ProtocolError>(e),
    }
}

/// What comes of a frame that is answered. A number is used up once there is a payload.
pub open spec fn numbered<F: FnOnce(FrameKind, u64, &[u8]) -> Result<Vec<u8>, String>>(
    frame: F,
    kind: FrameKind,
    payload: Result<Vec<u8>, ProtocolError>,
    before: u64,
    after: u64,
    r: Result<(u64, Vec<u8>), ProtocolError>,
) -> bool {
    match payload {
        Ok(p) => after == cid_after(before) && exists|f: Result<Vec<u8>, ProtocolError>| #[trigger]
            framed(frame, kind, before, p@, f) && r == (match f {
                Ok(bytes) => Ok::<(u64, Vec<u8>), ProtocolError>((before, bytes)),
                Err(e) => Err(e),
            }),
        Err(e) => after == before && r == Err::<(u64, Vec<u8>), ProtocolError>(e),
    }
}

/// Puts a frame together.
fn make_frame<F: FnOnce(FrameKind, u64, &[u8]) -> Result<Vec<u8>, String>>(
    kind: FrameKind,
    cid: u64,
    payload: &[u8],
    frame: F,
) -> (r: Result<Vec<u8>, ProtocolError>)
    requires
        call_requires(frame, (kind, cid, payload)),
    ensures
        framed(frame, kind, cid, payload@, r),
{
    match frame(kind, cid, payload) {
        Ok(bytes) => Ok(bytes),
        Err(reason) => Err(ProtocolError::Frame(reason)),
    }
}

/// A frame that is not answered, from its payload.
pub fn unnumbered_frame<F: FnOnce(FrameKind, u64, &[u8]) -> Result<Vec<u8>, String>>(
    kind: FrameKind,
    payload: Result<Vec<u8>, ProtocolError>,
    frame: F,
) -> (r: Result<Vec<u8>, ProtocolError>)
    requires
        forall|p: &[u8]| #[trigger] call_requires(frame, (kind, 0u64, p)),
    ensures
        unnumbered(frame, kind, payload, r),
{
    match payload {
        Ok(p) => make_frame(kind, 0, p.as_slice(), frame),
        Err(e) => Err(e),
    }
}

/// A frame that is answered, from its payload, with its number.
pub fn numbered_frame<F: FnOnce(FrameKind, u64, &[u8]) -> Result<Vec<u8>, String>>(
    counter: &mut CidCounter,
    kind: FrameKind,
    payload: Result<Vec<u8>, ProtocolError>,
    frame: F,
) -> (r: Result<(u64, Vec<u8>), ProtocolError>)
    requires
        forall|p: &[u8]|
            #[trigger] call_requires(frame, (kind, old(counter).next(), p)),
    ensures
        numbered(frame, kind, payload, old(counter).next(), final(counter).next(), r),
{
    match payload {
        Ok(p) => {
            let cid = next_cid(counter);
            match make_frame(kind, cid, p.as_slice(), frame) {
                Ok(bytes) => Ok((cid, bytes)),
                Err(e) => Err(e),
            }
        },
        Err(e) => Err(e),
    }
}

/// The payload of a message to be produced, or why there is none.
pub open spec fn produced(p: Result<Vec<u8>, String>) -> Result<Vec<u8>, ProtocolError> {
    match p {
        Ok(bytes) => Ok(bytes),
        Err(reason) => Err(ProtocolError::Payload(reason)),
    }
}

/// The payload of another request, or why there is none.
pub open spec fn encoded(what: &'static str, p: Result<Vec<u8>, String>) -> Result<
    Vec<u8>,
    ProtocolError,
> {
    match p {
        Ok(bytes) => Ok(bytes),
        Err(reason) => Err(ProtocolError::Encode { what, reason }),
    }
}

fn note_encoded(what: &'static str, p: Result<Vec<u8>, String>) -> (r: Result<
    Vec<u8>,
    ProtocolError,
>)
    ensures
        r == encoded(what, p),
{
    match p {
        Ok(bytes) => Ok(bytes),
        Err(reason) => Err(ProtocolError::Encode { what, reason }),
    }
}

/// The payload that says that a message is to be produced.
fn build_payload<E: FnOnce(&ProduceFnf) -> Result<Vec<u8>, String>>(
    cluster: &str,
    topic: &str,
    key: &[u8],
    value: &[u8],
    headers: Vec<(String, Bytes)>,
    partition: i32,
    timestamp_ms: i64,
    encode: E,
) -> (r: Result<Vec<u8>, ProtocolError>)
    requires
        forall|m: &ProduceFnf| #[trigger] call_requires(encode, (m,)),
    ensures
        exists|m: ProduceFnf, p: Result<Vec<u8>, String>|
            m@ == (crate::messages::ProduceView {
                cluster: cluster@,
                topic: topic@,
                key: key@,
                value: value@,
                partition,
                timestamp_ms,
                headers: crate::messages::header_views(headers@),
            }) && #[trigger] call_ensures(encode, (&m,), p) && r == produced(p),
{
    let m = ProduceFnf {
        cluster: cluster.to_owned(),
        topic: topic.to_owned(),
        key: bytes_copy(key),
        value: bytes_copy(value),
        partition,
        timestamp_ms,
        headers,
    };
    match encode(&m) {
        Ok(bytes) => Ok(bytes),
        Err(reason) => Err(ProtocolError::Payload(reason)),
    }
}

/// What comes of a frame that has `message` produced and is not answered.
pub open spec fn fnf_built<
    E: FnOnce(&ProduceFnf) -> Result<Vec<u8>, String>,
    F: FnOnce(FrameKind, u64, &[u8]) -> Result<Vec<u8>, String>,
>(
    message: crate::messages::ProduceView,
    encode: E,
    frame: F,
    r: Result<Vec<u8>, ProtocolError>,
) -> bool {
    exists|m: ProduceFnf, p: Result<Vec<u8>, String>|
        m@ == message && #[trigger] call_ensures(encode, (&m,), p) && unnumbered(
            frame,
            FrameKind::ProduceFnf,
            produced(p),
            r,
        )
}

/// A frame that has a message produced and is not answered.
pub fn build_fnf_frame<
    E: FnOnce(&ProduceFnf) -> Result<Vec<u8>, String>,
    F: FnOnce(FrameKind, u64, &[u8]) -> Result<Vec<u8>, String>,
>(
    cluster: &str,
    topic: &str,
    key: &[u8],
    value: &[u8],
    headers: Vec<(String, Bytes)>,
    partition: i32,
    timestamp_ms: i64,
    encode: E,
    frame: F,
) -> (r: Result<Vec<u8>, ProtocolError>)
    requires
        forall|m: &ProduceFnf| #[trigger] call_requires(encode, (m,)),
        forall|p: &[u8]| #[trigger] call_requires(frame, (FrameKind::ProduceFnf, 0u64, p)),
    ensures
        fnf_built(
            (crate::messages::ProduceView {
                cluster: cluster@,
                topic: topic@,
                key: key@,
                value: value@,
                partition,
                timestamp_ms,
                headers: crate::messages::header_views(headers@),
            }),
            encode,
            frame,
            r,
        ),
{
    let payload = build_payload(
        cluster,
        topic,
        key,
        value,
        headers,
        partition,
        timestamp_ms,
        encode,
    );
    unnumbered_frame(FrameKind::ProduceFnf, payload, frame)
}

/// What comes of a frame that has `message` produced and is answered.
pub open spec fn req_built<
    E: FnOnce(&ProduceFnf) -> Result<Vec<u8>, String>,
    F: FnOnce(FrameKind, u64, &[u8]) -> Result<Vec<u8>, String>,
>(
    message: crate::messages::ProduceView,
    encode: E,
    frame: F,
    before: u64,
    after: u64,
    r: Result<(u64, Vec<u8>), ProtocolError>,
) -> bool {
    exists|m: ProduceFnf, p: Result<Vec<u8>, String>|
        m@ == message && #[trigger] call_ensures(encode, (&m,), p) && numbered(
            frame,
            FrameKind::ProduceReq,
            produced(p),
            before,
            after,
            r,
        )
}

/// A frame that has a message produced and is answered, with its number.
pub fn build_req_frame<
    E: FnOnce(&ProduceFnf) -> Result<Vec<u8>, String>,
    F: FnOnce(FrameKind, u64, &[u8]) -> Result<Vec<u8>, String>,
>(
    counter: &mut CidCounter,
    cluster: &str,
    topic: &str,
    key: &[u8],
    value: &[u8],
    headers: Vec<(String, Bytes)>,
    partition: i32,
    timestamp_ms: i64,
    encode: E,
    frame: F,
) -> (r: Result<(u64, Vec<u8>), ProtocolError>)
    requires
        forall|m: &ProduceFnf| #[trigger] call_requires(encode, (m,)),
        forall|p: &[u8]|
            #[trigger] call_requires(frame, (FrameKind::ProduceReq, old(counter).next(), p)),
    ensures
        req_built(
            (crate::messages::ProduceView {
                cluster: cluster@,
                topic: topic@,
                key: key@,
                value: value@,
                partition,
                timestamp_ms,
                headers: crate::messages::header_views(headers@),
            }),
            encode,
            frame,
            old(counter).next(),
            final(counter).next(),
            r,
        ),
{
    let payload = build_payload(
        cluster,
        topic,
        key,
        value,
        headers,
        partition,
        timestamp_ms,
        encode,
    );
    numbered_frame(counter, FrameKind::ProduceReq, payload, frame)
}

/// What comes of a frame that asks for a subscription.
pub open spec fn subscribe_built<
    E: FnOnce(&SubscribeReq) -> Result<Vec<u8>, String>,
    F: FnOnce(FrameKind, u64, &[u8]) -> Result<Vec<u8>, String>,
>(
    cluster: Seq<char>,
    group_id: Seq<char>,
    topics: Vec<String>,
    config: Vec<(String, String)>,
    encode: E,
    frame: F,
    before: u64,
    after: u64,
    r: Result<(u64, Vec<u8>), ProtocolError>,
) -> bool {
    exists|m: SubscribeReq, p: Result<Vec<u8>, String>|
        m.cluster@ == cluster && m.group_id@ == group_id && m.topics == topics && m.config
            == config && #[trigger] call_ensures(encode, (&m,), p) && numbered(
            frame,
            FrameKind::SubscribeReq,
            encoded("SubscribeReq", p),
            before,
            after,
            r,
        )
}

/// A frame that asks for a subscription, with its number.
pub fn build_subscribe_frame<
    E: FnOnce(&SubscribeReq) -> Result<Vec<u8>, String>,
    F: FnOnce(FrameKind, u64, &[u8]) -> Result<Vec<u8>, String>,
>(
    counter: &mut CidCounter,
    cluster: &str,
    group_id: &str,
    topics: Vec<String>,
    config: Vec<(String, String)>,
    encode: E,
    frame: F,
) -> (r: Result<(u64, Vec<u8>), ProtocolError>)
    requires
        forall|m: &SubscribeReq| #[trigger] call_requires(encode, (m,)),
        forall|p: &[u8]|
            #[trigger] call_requires(frame, (FrameKind::SubscribeReq, old(counter).next(), p)),
    ensures
        subscribe_built(
            cluster@,
            group_id@,
            topics,
            config,
            encode,
            frame,
            old(counter).next(),
            final(counter).next(),
            r,
        ),
{
    let m = SubscribeReq {
        cluster: cluster.to_owned(),
        group_id: group_id.to_owned(),
        topics,
        config,
    };
    let p = encode(&m);
    numbered_frame(counter, FrameKind::SubscribeReq, note_encoded("SubscribeReq", p), frame)
}

/// What comes of a frame that asks for messages.
pub open spec fn poll_built<
    E: FnOnce(&PollReq) -> Result<Vec<u8>, String>,
    F: FnOnce(FrameKind, u64, &[u8]) -> Result<Vec<u8>, String>,
>(
    req: PollReq,
    encode: E,
    frame: F,
    before: u64,
    after: u64,
    r: Result<(u64, Vec<u8>), ProtocolError>,
) -> bool {
    exists|p: Result<Vec<u8>, String>|
        #[trigger] call_ensures(encode, (&req,), p) && numbered(
            frame,
            FrameKind::PollReq,
            encoded("PollReq", p),
            before,
            after,
            r,
        )
}

/// A frame that asks for messages, with its number.
pub fn build_poll_frame<
    E: FnOnce(&PollReq) -> Result<Vec<u8>, String>,
    F: FnOnce(FrameKind, u64, &[u8]) -> Result<Vec<u8>, String>,
>(
    counter: &mut CidCounter,
    subscription_id: u64,
    max_messages: u32,
    timeout_ms: u32,
    encode: E,
    frame: F,
) -> (r: Result<(u64, Vec<u8>), ProtocolError>)
    requires
        forall|m: &PollReq| #[trigger] call_requires(encode, (m,)),
        forall|p: &[u8]|
            #[trigger] call_requires(frame, (FrameKind::PollReq, old(counter).next(), p)),
    ensures
        poll_built(
            (PollReq { subscription_id, max_messages, timeout_ms }),
            encode,
            frame,
            old(counter).next(),
            final(counter).next(),
            r,
        ),
{
    let m = PollReq { subscription_id, max_messages, timeout_ms };
    let p = encode(&m);
    numbered_frame(counter, FrameKind::PollReq, note_encoded("PollReq", p), frame)
}

/// What comes of a frame that asks for a commit.
pub open spec fn commit_built<
    E: FnOnce(&CommitReq) -> Result<Vec<u8>, String>,
    F: FnOnce(FrameKind, u64, &[u8]) -> Result<Vec<u8>, String>,
>(
    req: CommitReq,
    encode: E,
    frame: F,
    before: u64,
    after: u64,
    r: Result<(u64, Vec<u8>), ProtocolError>,
) -> bool {
    exists|p: Result<Vec<u8>, String>|
        #[trigger] call_ensures(encode, (&req,), p) && numbered(
            frame,
            FrameKind::CommitReq,
            encoded("CommitReq", p),
            before,
            after,
            r,
        )
}

/// A frame that asks for a commit, with its number.
pub fn build_commit_frame<
    E: FnOnce(&CommitReq) -> Result<Vec<u8>, String>,
    F: FnOnce(FrameKind, u64, &[u8]) -> Result<Vec<u8>, String>,
>(counter: &mut CidCounter, subscription_id: u64, encode: E, frame: F) -> (r: Result<
    (u64, Vec<u8>),
    ProtocolError,
>)
    requires
        forall|m: &CommitReq| #[trigger] call_requires(encode, (m,)),
        forall|p: &[u8]|
            #[trigger] call_requires(frame, (FrameKind::CommitReq, old(counter).next(), p)),
    ensures
        commit_built(
            (CommitReq { subscription_id }),
            encode,
            frame,
            old(counter).next(),
            final(counter).next(),
            r,
        ),
{
    let m = CommitReq { subscription_id };
    let p = encode(&m);
    numbered_frame(counter, FrameKind::CommitReq, note_encoded("CommitReq", p), frame)
}

/// What comes of a frame that ends a subscription.
pub open spec fn unsubscribe_built<
    E: FnOnce(&UnsubscribeReq) -> Result<Vec<u8>, String>,
    F: FnOnce(FrameKind, u64, &[u8]) -> Result<Vec<u8>, String>,
>(
    req: UnsubscribeReq,
    encode: E,
    frame: F,
    r: Result<Vec<u8>, ProtocolError>,
) -> bool {
    exists|p: Result<Vec<u8>, String>|
        #[trigger] call_ensures(encode, (&req,), p) && unnumbered(
            frame,
            FrameKind::Unsubscribe,
            encoded("UnsubscribeReq", p),
            r,
        )
}

/// A frame that ends a subscription. It is not answered.
pub fn build_unsubscribe_frame<
    E: FnOnce(&UnsubscribeReq) -> Result<Vec<u8>, String>,
    F: FnOnce(FrameKind, u64, &[u8]) -> Result<Vec<u8>, String>,
>(subscription_id: u64, encode: E, frame: F) -> (r: Result<Vec<u8>, ProtocolError>)
    requires
        forall|m: &UnsubscribeReq| #[trigger] call_requires(encode, (m,)),
        forall|p: &[u8]| #[trigger] call_requires(frame, (FrameKind::Unsubscribe, 0u64, p)),
    ensures
        unsubscribe_built(
            (UnsubscribeReq { subscription_id }),
            encode,
            frame,
            r,
        ),
{
    let m = UnsubscribeReq { subscription_id };
    let p = encode(&m);
    unnumbered_frame(FrameKind::Unsubscribe, note_encoded("UnsubscribeReq", p), frame)
}

/// What comes of a frame that makes a cluster known.
pub open spec fn register_cluster_built<
    E: FnOnce(&RegisterClusterReq) -> Result<Vec<u8>, String>,
    F: FnOnce(FrameKind, u64, &[u8]) -> Result<Vec<u8>, String>,
>(
    cluster: Seq<char>,
    config: Vec<(String, String)>,
    encode: E,
    frame: F,
    before: u64,
    after: u64,
    r: Result<(u64, Vec<u8>), ProtocolError>,
) -> bool {
    exists|m: RegisterClusterReq, p: Result<Vec<u8>, String>|
        m.cluster@ == cluster && m.config == config && #[trigger] call_ensures(encode, (&m,), p)
            && numbered(
            frame,
            FrameKind::RegisterClusterReq,
            encoded("RegisterClusterReq", p),
            before,
            after,
            r,
        )
}

/// A frame that makes a cluster known, with its number.
pub fn build_register_cluster_frame<
    E: FnOnce(&RegisterClusterReq) -> Result<Vec<u8>, String>,
    F: FnOnce(FrameKind, u64, &[u8]) -> Result<Vec<u8>, String>,
>(
    counter: &mut CidCounter,
    cluster: &str,
    config: Vec<(String, String)>,
    encode: E,
    frame: F,
) -> (r: Result<(u64, Vec<u8>), ProtocolError>)
    requires
        forall|m: &RegisterClusterReq| #[trigger] call_requires(encode, (m,)),
        forall|p: &[u8]|
            #[trigger] call_requires(
                frame,
                (FrameKind::RegisterClusterReq, old(counter).next(), p),
            ),
    ensures
        register_cluster_built(
            cluster@,
            config,
            encode,
            frame,
            old(counter).next(),
            final(counter).next(),
            r,
        ),
{
    let m = RegisterClusterReq { cluster: cluster.to_owned(), config };
    let p = encode(&m);
    numbered_frame(
        counter,
        FrameKind::RegisterClusterReq,
        note_encoded("RegisterClusterReq", p),
        frame,
    )
}

/// What comes of reading the header at the start of `bytes`.
pub open spec fn header_read<H: FnOnce(&[u8]) -> Result<FrameHeader, String>>(
    bytes: Seq<u8>,
    decode_header: H,
    too_short: ProtocolError,
    r: Result<FrameHeader, ProtocolError>,
) -> bool {
    if bytes.len() < HEADER_LEN {
        r == Err::<FrameHeader, ProtocolError>(too_short)
    } else {
        exists|b: &[u8], h: Result<FrameHeader, String>|
            b@ == bytes.take(HEADER_LEN as int) && #[trigger] call_ensures(decode_header, (b,), h)
                && r == (match h {
                Ok(header) => Ok::<FrameHeader, ProtocolError>(header),
                Err(reason) => Err(ProtocolError::Header(reason)),
            })
    }
}

/// The header at the start of `bytes`, or `too_short`.
fn read_header<H: FnOnce(&[u8]) -> Result<FrameHeader, String>>(
    bytes: &[u8],
    decode_header: H,
    too_short: ProtocolError,
) -> (r: Result<FrameHeader, ProtocolError>)
    requires
        forall|b: &[u8]| b@.len() == HEADER_LEN ==> #[trigger] call_requires(decode_header, (b,)),
    ensures
        header_read(bytes@, decode_header, too_short, r),
{
    if bytes.len() < HEADER_LEN {
        return Err(too_short);
    }
    let b = slice_subrange(bytes, 0, HEADER_LEN);
    assert(b@ == bytes@.take(HEADER_LEN as int));
    match decode_header(b) {
        Ok(header) => Ok(header),
        Err(reason) => Err(ProtocolError::Header(reason)),
    }
}

/// How long a frame with a payload of this length is.
pub open spec fn frame_len(payload_len: u32) -> int {
    HEADER_LEN + payload_len
}

/// The payload of a frame whose header speaks of this length.
pub open spec fn payload_in(bytes: Seq<u8>, payload_len: u32) -> Result<Seq<u8>, ProtocolError> {
    if bytes.len() < frame_len(payload_len) {
        Err(
            ProtocolError::Truncated {
                len: bytes.len() as usize,
                need: frame_len(payload_len) as u64,
            },
        )
    } else {
        Ok(bytes.subrange(HEADER_LEN as int, frame_len(payload_len)))
    }
}

/// The payload of the frame `bytes`, whose header speaks of this length.
pub fn payload_of(bytes: &[u8], payload_len: u32) -> (r: Result<&[u8], ProtocolError>)
    ensures
        match r {
            Ok(p) => payload_in(bytes@, payload_len) == Ok::<Seq<u8>, ProtocolError>(p@),
            Err(e) => payload_in(bytes@, payload_len) == Err::<Seq<u8>, ProtocolError>(e),
        },
{
    let need: u64 = HEADER_LEN as u64 + payload_len as u64;
    let len: usize = bytes.len();
    if (len as u64) < need {
        Err(ProtocolError::Truncated { len, need })
    } else {
        Ok(slice_subrange(bytes, HEADER_LEN, need as usize))
    }
}

/// What a frame that may answer a produce request says.
#[derive(Debug, PartialEq, Eq)]
pub enum ParsedFrame {
    /// The answer to the request `cid`.
    Resp { cid: u64, resp: ProduceResp },
    /// A frame of another kind.
    Other { kind: FrameKind, cid: u64, payload_len: u32 },
}

/// What is made of the answer to the produce request `cid`.
pub open spec fn produce_answer(cid: u64, d: Result<ProduceResp, String>) -> Result<
    ParsedFrame,
    ProtocolError,
> {
    match d {
        Ok(resp) => Ok(ParsedFrame::Resp { cid, resp }),
        Err(reason) => Err(ProtocolError::Decode { what: "resp", reason }),
    }
}

/// What is made of the answer to the produce request `cid`, once its payload is read.
pub fn note_produce_answer(cid: u64, d: Result<ProduceResp, String>) -> (r: Result<
    ParsedFrame,
    ProtocolError,
>)
    ensures
        r == produce_answer(cid, d),
{
    match d {
        Ok(resp) => Ok(ParsedFrame::Resp { cid, resp }),
        Err(reason) => Err(ProtocolError::Decode { what: "resp", reason }),
    }
}

/// What comes of a frame that may answer a produce request, once its header is read.
pub open spec fn resp_after_header<D: FnOnce(&[u8]) -> Result<ProduceResp, String>>(
    bytes: Seq<u8>,
    header: FrameHeader,
    decode: D,
    r: Result<ParsedFrame, ProtocolError>,
) -> bool {
    match payload_in(bytes, header.payload_len) {
        Err(e) => r == Err::<ParsedFrame, ProtocolError>(e),
        Ok(payload) => match header.kind {
            FrameKind::ProduceResp => exists|p: &[u8], d: Result<ProduceResp, String>|
                p@ == payload && #[trigger] call_ensures(decode, (p,), d) && r == produce_answer(
                    header.cid,
                    d,
                ),
            kind => r == Ok::<ParsedFrame, ProtocolError>(
                ParsedFrame::Other { kind, cid: header.cid, payload_len: header.payload_len },
            ),
        },
    }
}

/// What comes of a frame that may answer a produce request.
pub open spec fn resp_parsed<
    H: FnOnce(&[u8]) -> Result<FrameHeader, String>,
    D: FnOnce(&[u8]) -> Result<ProduceResp, String>,
>(bytes: Seq<u8>, decode_header: H, decode: D, r: Result<ParsedFrame, ProtocolError>) -> bool {
    exists|h: Result<FrameHeader, ProtocolError>| #[trigger]
        header_read(
            bytes,
            decode_header,
            ProtocolError::FrameTooShort { len: bytes.len() as usize },
            h,
        ) && match h {
            Ok(header) => resp_after_header(bytes, header, decode, r),
            Err(e) => r == Err::<ParsedFrame, ProtocolError>(e),
        }
}

/// Takes a frame apart that may answer a produce request.
pub fn parse_resp_frame<
    H: FnOnce(&[u8]) -> Result<FrameHeader, String>,
    D: FnOnce(&[u8]) -> Result<ProduceResp, String>,
>(bytes: &[u8], decode_header: H, decode: D) -> (r: Result<ParsedFrame, ProtocolError>)
    requires
        forall|b: &[u8]| b@.len() == HEADER_LEN ==> #[trigger] call_requires(decode_header, (b,)),
        forall|p: &[u8]| #[trigger] call_requires(decode, (p,)),
    ensures
        resp_parsed(bytes@, decode_header, decode, r),
{
    let too_short = ProtocolError::FrameTooShort { len: bytes.len() };
    let header = match read_header(bytes, decode_header, too_short) {
        Ok(header) => header,
        Err(e) => {
            return Err(e);
        },
    };
    let payload = match payload_of(bytes, header.payload_len) {
        Ok(payload) => payload,
        Err(e) => {
            return Err(e);
        },
    };
    match header.kind {
        FrameKind::ProduceResp => {
            let d = decode(payload);
            note_produce_answer(header.cid, d)
        },
        kind => Ok(
            ParsedFrame::Other { kind, cid: header.cid, payload_len: header.payload_len },
        ),
    }
}

/// What a header says, with the kind as its byte.
#[derive(Debug, Clone, Copy, PartialEq, Eq, Structural)]
pub struct ParsedHeader {
    pub kind_byte: u8,
    pub cid: u64,
    pub payload_len: u32,
}

/// What `h` says, with the kind as its byte.
pub open spec fn summary(h: FrameHeader) -> ParsedHeader {
    ParsedHeader { kind_byte: h.kind_byte, cid: h.cid, payload_len: h.payload_len }
}

/// What comes of taking the header at the start of `bytes` apart.
pub open spec fn header_parsed<H: FnOnce(&[u8]) -> Result<FrameHeader, String>>(
    bytes: Seq<u8>,
    decode_header: H,
    r: Result<ParsedHeader, ProtocolError>,
) -> bool {
    exists|h: Result<FrameHeader, ProtocolError>| #[trigger]
        header_read(
            bytes,
            decode_header,
            ProtocolError::HeaderTooShort { len: bytes.len() as usize },
            h,
        ) && r == (match h {
            Ok(header) => Ok::<ParsedHeader, ProtocolError>(summary(header)),
            Err(e) => Err(e),
        })
}

/// Takes the header at the start of `bytes` apart.
pub fn parse_header_only<H: FnOnce(&[u8]) -> Result<FrameHeader, String>>(
    bytes: &[u8],
    decode_header: H,
) -> (r: Result<ParsedHeader, ProtocolError>)
    requires
        forall|b: &[u8]| b@.len() == HEADER_LEN ==> #[trigger] call_requires(decode_header, (b,)),
    ensures
        header_parsed(bytes@, decode_header, r),
{
    let too_short = ProtocolError::HeaderTooShort { len: bytes.len() };
    assert(too_short == (ProtocolError::HeaderTooShort { len: bytes@.len() as usize }));
    let header = match read_header(bytes, decode_header, too_short) {
        Ok(header) => header,
        Err(e) => {
            return Err(e);
        },
    };
    Ok(
        ParsedHeader {
            kind_byte: header.kind_byte,
            cid: header.cid,
            payload_len: header.payload_len,
        },
    )
}

/// What a frame that answers a consumer says.
#[derive(Debug, PartialEq, Eq)]
pub enum ConsumerResp {
    SubscribeOk { cid: u64, subscription_id: u64 },
    SubscribeErr { cid: u64, message: String },
    PollOk { cid: u64, messages: Vec<ConsumerMessage> },
    PollErr { cid: u64, message: String },
    CommitOk { cid: u64 },
    CommitErr { cid: u64, message: String },
    RegisterClusterOk { cid: u64 },
    RegisterClusterErr { cid: u64, message: String },
}

/// What is made of the answer to the subscription request `cid`.
pub open spec fn subscribe_answer(cid: u64, d: Result<SubscribeResp, String>) -> Result<
    ConsumerResp,
    ProtocolError,
> {
    match d {
        Ok(SubscribeResp::Done { subscription_id }) => Ok(
            ConsumerResp::SubscribeOk { cid, subscription_id },
        ),
        Ok(SubscribeResp::Failed { message }) => Ok(ConsumerResp::SubscribeErr { cid, message }),
        Err(reason) => Err(ProtocolError::Decode { what: "SubscribeResp", reason }),
    }
}

/// What is made of the answer to the poll request `cid`.
pub open spec fn poll_answer(cid: u64, d: Result<PollResp, String>) -> Result<
    ConsumerResp,
    ProtocolError,
> {
    match d {
        Ok(PollResp::Done { messages }) => Ok(ConsumerResp::PollOk { cid, messages }),
        Ok(PollResp::Failed { message }) => Ok(ConsumerResp::PollErr { cid, message }),
        Err(reason) => Err(ProtocolError::Decode { what: "PollResp", reason }),
    }
}

/// What is made of the answer to the commit request `cid`.
pub open spec fn commit_answer(cid: u64, d: Result<CommitResp, String>) -> Result<
    ConsumerResp,
    ProtocolError,
> {
    match d {
        Ok(CommitResp::Done) => Ok(ConsumerResp::CommitOk { cid }),
        Ok(CommitResp::Failed { message }) => Ok(ConsumerResp::CommitErr { cid, message }),
        Err(reason) => Err(ProtocolError::Decode { what: "CommitResp", reason }),
    }
}

/// What is made of the answer to the cluster registration `cid`.
pub open spec fn register_cluster_answer(
    cid: u64,
    d: Result<RegisterClusterResp, String>,
) -> Result<ConsumerResp, ProtocolError> {
    match d {
        Ok(RegisterClusterResp::Done) => Ok(ConsumerResp::RegisterClusterOk { cid }),
        Ok(RegisterClusterResp::Failed { message }) => Ok(
            ConsumerResp::RegisterClusterErr { cid, message },
        ),
        Err(reason) => Err(ProtocolError::Decode { what: "RegisterClusterResp", reason }),
    }
}

/// What is made of the answer to the subscription request `cid`, once its payload is read.
pub fn note_subscribe_answer(cid: u64, d: Result<SubscribeResp, String>) -> (r: Result<
    ConsumerResp,
    ProtocolError,
>)
    ensures
        r == subscribe_answer(cid, d),
{
    match d {
        Ok(SubscribeResp::Done { subscription_id }) => Ok(
            ConsumerResp::SubscribeOk { cid, subscription_id },
        ),
        Ok(SubscribeResp::Failed { message }) => Ok(ConsumerResp::SubscribeErr { cid, message }),
        Err(reason) => Err(ProtocolError::Decode { what: "SubscribeResp", reason }),
    }
}

/// What is made of the answer to the poll request `cid`, once its payload is read.
pub fn note_poll_answer(cid: u64, d: Result<PollResp, String>) -> (r: Result<
    ConsumerResp,
    ProtocolError,
>)
    ensures
        r == poll_answer(cid, d),
{
    match d {
        Ok(PollResp::Done { messages }) => Ok(ConsumerResp::PollOk { cid, messages }),
        Ok(PollResp::Failed { message }) => Ok(ConsumerResp::PollErr { cid, message }),
        Err(reason) => Err(ProtocolError::Decode { what: "PollResp", reason }),
    }
}

/// What is made of the answer to the commit request `cid`, once its payload is read.
pub fn note_commit_answer(cid: u64, d: Result<CommitResp, String>) -> (r: Result<
    ConsumerResp,
    ProtocolError,
>)
    ensures
        r == commit_answer(cid, d),
{
    match d {
        Ok(CommitResp::Done) => Ok(ConsumerResp::CommitOk { cid }),
        Ok(CommitResp::Failed { message }) => Ok(ConsumerResp::CommitErr { cid, message }),
        Err(reason) => Err(ProtocolError::Decode { what: "CommitResp", reason }),
    }
}

/// What is made of the answer to the cluster registration `cid`, once its payload is read.
pub fn note_register_cluster_answer(cid: u64, d: Result<RegisterClusterResp, String>) -> (r: Result<
    ConsumerResp,
    ProtocolError,
>)
    ensures
        r == register_cluster_answer(cid, d),
{
    match d {
        Ok(RegisterClusterResp::Done) => Ok(ConsumerResp::RegisterClusterOk { cid }),
        Ok(RegisterClusterResp::Failed { message }) => Ok(
            ConsumerResp::RegisterClusterErr { cid, message },
        ),
        Err(reason) => Err(ProtocolError::Decode { what: "RegisterClusterResp", reason }),
    }
}

/// What comes of a frame that may answer a consumer, once its header is read.
pub open spec fn consumer_after_header<
    S: FnOnce(&[u8]) -> Result<SubscribeResp, String>,
    P: FnOnce(&[u8]) -> Result<PollResp, String>,
    C: FnOnce(&[u8]) -> Result<CommitResp, String>,
    R: FnOnce(&[u8]) -> Result<RegisterClusterResp, String>,
>(
    bytes: Seq<u8>,
    header: FrameHeader,
    subscribe: S,
    poll: P,
    commit: C,
    register_cluster: R,
    r: Result<ConsumerResp, ProtocolError>,
) -> bool {
    match payload_in(bytes, header.payload_len) {
        Err(e) => r == Err::<ConsumerResp, ProtocolError>(e),
        Ok(payload) => match header.kind {
            FrameKind::SubscribeResp => exists|p: &[u8], d: Result<SubscribeResp, String>|
                p@ == payload && #[trigger] call_ensures(subscribe, (p,), d) && r
                    == subscribe_answer(header.cid, d),
            FrameKind::PollResp => exists|p: &[u8], d: Result<PollResp, String>|
                p@ == payload && #[trigger] call_ensures(poll, (p,), d) && r == poll_answer(
                    header.cid,
                    d,
                ),
            FrameKind::CommitResp => exists|p: &[u8], d: Result<CommitResp, String>|
                p@ == payload && #[trigger] call_ensures(commit, (p,), d) && r == commit_answer(
                    header.cid,
                    d,
                ),
            FrameKind::RegisterClusterResp => exists|
                p: &[u8],
                d: Result<RegisterClusterResp, String>,
            |
                p@ == payload && #[trigger] call_ensures(register_cluster, (p,), d) && r
                    == register_cluster_answer(header.cid, d),
            kind => r matches Err(ProtocolError::UnexpectedKind(name)) && name@ == kind.label(),
        },
    }
}

/// What comes of a frame that may answer a consumer.
pub open spec fn consumer_parsed<
    H: FnOnce(&[u8]) -> Result<FrameHeader, String>,
    S: FnOnce(&[u8]) -> Result<SubscribeResp, String>,
    P: FnOnce(&[u8]) -> Result<PollResp, String>,
    C: FnOnce(&[u8]) -> Result<CommitResp, String>,
    R: FnOnce(&[u8]) -> Result<RegisterClusterResp, String>,
>(
    bytes: Seq<u8>,
    decode_header: H,
    subscribe: S,
    poll: P,
    commit: C,
    register_cluster: R,
    r: Result<ConsumerResp, ProtocolError>,
) -> bool {
    exists|h: Result<FrameHeader, ProtocolError>| #[trigger]
        header_read(
            bytes,
            decode_header,
            ProtocolError::FrameTooShort { len: bytes.len() as usize },
            h,
        ) && match h {
            Ok(header) => consumer_after_header(
                bytes,
                header,
                subscribe,
                poll,
                commit,
                register_cluster,
                r,
            ),
            Err(e) => r == Err::<ConsumerResp, ProtocolError>(e),
        }
}

/// Takes a frame apart that answers a consumer.
pub fn parse_consumer_resp_frame<
    H: FnOnce(&[u8]) -> Result<FrameHeader, String>,
    S: FnOnce(&[u8]) -> Result<SubscribeResp, String>,
    P: FnOnce(&[u8]) -> Result<PollResp, String>,
    C: FnOnce(&[u8]) -> Result<CommitResp, String>,
    R: FnOnce(&[u8]) -> Result<RegisterClusterResp, String>,
>(
    bytes: &[u8],
    decode_header: H,
    subscribe: S,
    poll: P,
    commit: C,
    register_cluster: R,
) -> (r: Result<ConsumerResp, ProtocolError>)
    requires
        forall|b: &[u8]| b@.len() == HEADER_LEN ==> #[trigger] call_requires(decode_header, (b,)),
        forall|p: &[u8]| #[trigger] call_requires(subscribe, (p,)),
        forall|p: &[u8]| #[trigger] call_requires(poll, (p,)),
        forall|p: &[u8]| #[trigger] call_requires(commit, (p,)),
        forall|p: &[u8]| #[trigger] call_requires(register_cluster, (p,)),
    ensures
        consumer_parsed(
            bytes@,
            decode_header,
            subscribe,
            poll,
            commit,
            register_cluster,
            r,
        ),
{
    let too_short = ProtocolError::FrameTooShort { len: bytes.len() };
    let header = match read_header(bytes, decode_header, too_short) {
        Ok(header) => header,
        Err(e) => {
            return Err(e);
        },
    };
    let payload = match payload_of(bytes, header.payload_len) {
        Ok(payload) => payload,
        Err(e) => {
            return Err(e);
        },
    };
    match header.kind {
        FrameKind::SubscribeResp => {
            let d = subscribe(payload);
            note_subscribe_answer(header.cid, d)
        },
        FrameKind::PollResp => {
            let d = poll(payload);
            note_poll_answer(header.cid, d)
        },
        FrameKind::CommitResp => {
            let d = commit(payload);
            note_commit_answer(header.cid, d)
        },
        FrameKind::RegisterClusterResp => {
            let d = register_cluster(payload);
            note_register_cluster_answer(header.cid, d)
        },
        kind => Err(ProtocolError::UnexpectedKind(kind.name().to_owned())),
    }
}

/// Whether a header reader says of a frame what it was made with. `kind_byte` is the byte
/// that stands for each kind.
pub open spec fn describes(
    h: Result<FrameHeader, String>,
    kind_byte: spec_fn(FrameKind) -> u8,
    kind: FrameKind,
    cid: u64,
    payload: Seq<u8>,
) -> bool {
    h matches Ok(x) && x.kind == kind && x.kind_byte == kind_byte(kind) && x.cid == cid
        && x.payload_len == payload.len()
}

/// A frame writer and a header reader fit together: a frame is a header and then the
/// payload, and reading that header gives back what the frame was made with. One byte
/// stands for each kind.
pub open spec fn codec_fits<
    F: FnOnce(FrameKind, u64, &[u8]) -> Result<Vec<u8>, String>,
    H: FnOnce(&[u8]) -> Result<FrameHeader, String>,
>(frame: F, decode_header: H, kind_byte: spec_fn(FrameKind) -> u8) -> bool {
    &&& forall|kind: FrameKind, cid: u64, payload: &[u8], made: Vec<u8>|
        #[trigger] call_ensures(frame, (kind, cid, payload), Ok(made)) ==> made@.len() == HEADER_LEN
            + payload@.len() && made@.skip(HEADER_LEN as int) == payload@
    &&& forall|
        kind: FrameKind,
        cid: u64,
        payload: &[u8],
        made: Vec<u8>,
        head: &[u8],
        h: Result<FrameHeader, String>,
    |
        #[trigger] call_ensures(frame, (kind, cid, payload), Ok(made)) && #[trigger] call_ensures(
            decode_header,
            (head,),
            h,
        ) && head@ == made@.take(HEADER_LEN as int) ==> describes(
            h,
            kind_byte,
            kind,
            cid,
            payload@,
        )
}

/// With a codec that fits together, a frame that was built is read back as the same kind
/// of frame, with the same number and the same payload.
pub proof fn law_frame_round_trip<
    F: FnOnce(FrameKind, u64, &[u8]) -> Result<Vec<u8>, String>,
    H: FnOnce(&[u8]) -> Result<FrameHeader, String>,
>(
    frame: F,
    decode_header: H,
    kind_byte: spec_fn(FrameKind) -> u8,
    kind: FrameKind,
    cid: u64,
    payload: Seq<u8>,
    made: Vec<u8>,
    too_short: ProtocolError,
    h: Result<FrameHeader, ProtocolError>,
)
    requires
        codec_fits(frame, decode_header, kind_byte),
        framed(frame, kind, cid, payload, Ok(made)),
        header_read(made@, decode_header, too_short, h),
    ensures
        h matches Ok(x) && x.kind == kind && x.kind_byte == kind_byte(kind) && x.cid == cid
            && payload_in(made@, x.payload_len) == Ok::<Seq<u8>, ProtocolError>(payload),
        made@.len() == HEADER_LEN + payload.len(),
        made@.skip(HEADER_LEN as int) == payload,
{
    assert(made@.skip(HEADER_LEN as int) =~= made@.subrange(
        HEADER_LEN as int,
        HEADER_LEN + payload.len(),
    )) by {
        assert(made@.len() == HEADER_LEN + payload.len());
    }
}

/// Whether `made` is a frame of this kind, number and payload, and `r` is what
/// [`parse_header_only`] says of it.
pub open spec fn read_back(
    made: Seq<u8>,
    r: Result<ParsedHeader, ProtocolError>,
    kind_byte: u8,
    cid: u64,
    payload: Seq<u8>,
) -> bool {
    &&& r matches Ok(x) && x.kind_byte == kind_byte && x.cid == cid && x.payload_len + HEADER_LEN
        == made.len()
    &&& made.len() == HEADER_LEN + payload.len()
    &&& made.skip(HEADER_LEN as int) == payload
}

/// With a codec that fits together, [`parse_header_only`] gives the byte that stands for the
/// kind of the frame, its number and the length of its payload.
pub proof fn law_header_reads_back<
    F: FnOnce(FrameKind, u64, &[u8]) -> Result<Vec<u8>, String>,
    H: FnOnce(&[u8]) -> Result<FrameHeader, String>,
>(
    frame: F,
    decode_header: H,
    kind_byte: spec_fn(FrameKind) -> u8,
    kind: FrameKind,
    cid: u64,
    payload: Seq<u8>,
    made: Vec<u8>,
    r: Result<ParsedHeader, ProtocolError>,
)
    requires
        codec_fits(frame, decode_header, kind_byte),
        framed(frame, kind, cid, payload, Ok(made)),
        header_parsed(made@, decode_header, r),
    ensures
        read_back(made@, r, kind_byte(kind), cid, payload),
{
    let too_short = ProtocolError::HeaderTooShort { len: made@.len() as usize };
    let h = choose|h: Result<FrameHeader, ProtocolError>|
        #[trigger] header_read(made@, decode_header, too_short, h) && r == (match h {
            Ok(header) => Ok::<ParsedHeader, ProtocolError>(summary(header)),
            Err(e) => Err(e),
        });
    law_frame_round_trip(frame, decode_header, kind_byte, kind, cid, payload, made, too_short, h);
}

/// With a codec that fits together, a frame that is not answered is read back with the
/// number 0.
pub proof fn law_unnumbered_reads_back<
    F: FnOnce(FrameKind, u64, &[u8]) -> Result<Vec<u8>, String>,
    H: FnOnce(&[u8]) -> Result<FrameHeader, String>,
>(
    frame: F,
    decode_header: H,
    kind_byte: spec_fn(FrameKind) -> u8,
    kind: FrameKind,
    payload: Result<Vec<u8>, ProtocolError>,
    made: Vec<u8>,
    r: Result<ParsedHeader, ProtocolError>,
)
    requires
        codec_fits(frame, decode_header, kind_byte),
        unnumbered(frame, kind, payload, Ok(made)),
        header_parsed(made@, decode_header, r),
    ensures
        payload matches Ok(p) && read_back(made@, r, kind_byte(kind), 0, p@),
{
    law_header_reads_back(frame, decode_header, kind_byte, kind, 0, payload->Ok_0@, made, r);
}

/// With a codec that fits together, a frame that is answered is read back with the number
/// that was given out with it.
pub proof fn law_numbered_reads_back<
    F: FnOnce(FrameKind, u64, &[u8]) -> Result<Vec<u8>, String>,
    H: FnOnce(&[u8]) -> Result<FrameHeader, String>,
>(
    frame: F,
    decode_header: H,
    kind_byte: spec_fn(FrameKind) -> u8,
    kind: FrameKind,
    payload: Result<Vec<u8>, ProtocolError>,
    before: u64,
    after: u64,
    cid: u64,
    made: Vec<u8>,
    r: Result<ParsedHeader, ProtocolError>,
)
    requires
        codec_fits(frame, decode_header, kind_byte),
        numbered(frame, kind, payload, before, after, Ok((cid, made))),
        header_parsed(made@, decode_header, r),
    ensures
        cid == before,
        after == cid_after(cid),
        payload matches Ok(p) && read_back(made@, r, kind_byte(kind), cid, p@),
{
    law_header_reads_back(frame, decode_header, kind_byte, kind, cid, payload->Ok_0@, made, r);
}

/// Whether what an encoder writes depends on the contents of the message alone.
pub open spec fn encodes_contents<E: FnOnce(&ProduceFnf) -> Result<Vec<u8>, String>>(
    encode: E,
) -> bool {
    forall|a: ProduceFnf, b: ProduceFnf, p: Result<Vec<u8>, String>, q: Result<Vec<u8>, String>|
        a@ == b@ && #[trigger] call_ensures(encode, (&a,), p) && #[trigger] call_ensures(
            encode,
            (&b,),
            q,
        ) ==> p.is_ok() == q.is_ok() && (p.is_ok() ==> p->Ok_0@ == q->Ok_0@)
}

/// With a codec that fits together, the two frames that have one message produced are read
/// back as what they are: one without a number, one with the number that was given out,
/// and both with the same payload.
pub proof fn law_produce_frames_read_back<
    E: FnOnce(&ProduceFnf) -> Result<Vec<u8>, String>,
    F: FnOnce(FrameKind, u64, &[u8]) -> Result<Vec<u8>, String>,
    H: FnOnce(&[u8]) -> Result<FrameHeader, String>,
>(
    message: crate::messages::ProduceView,
    encode: E,
    frame: F,
    decode_header: H,
    kind_byte: spec_fn(FrameKind) -> u8,
    fnf: Vec<u8>,
    fnf_header: Result<ParsedHeader, ProtocolError>,
    before: u64,
    after: u64,
    cid: u64,
    req: Vec<u8>,
    req_header: Result<ParsedHeader, ProtocolError>,
)
    requires
        codec_fits(frame, decode_header, kind_byte),
        encodes_contents(encode),
        fnf_built(message, encode, frame, Ok(fnf)),
        header_parsed(fnf@, decode_header, fnf_header),
        req_built(message, encode, frame, before, after, Ok((cid, req))),
        header_parsed(req@, decode_header, req_header),
    ensures
        cid == before,
        before != 0 ==> cid != 0,
        after == cid_after(before),
        req@.skip(HEADER_LEN as int) == fnf@.skip(HEADER_LEN as int),
        read_back(
            fnf@,
            fnf_header,
            kind_byte(FrameKind::ProduceFnf),
            0,
            fnf@.skip(HEADER_LEN as int),
        ),
        read_back(
            req@,
            req_header,
            kind_byte(FrameKind::ProduceReq),
            cid,
            fnf@.skip(HEADER_LEN as int),
        ),
{
    let (a, p) = choose|m: ProduceFnf, p: Result<Vec<u8>, String>|
        m@ == message && #[trigger] call_ensures(encode, (&m,), p) && unnumbered(
            frame,
            FrameKind::ProduceFnf,
            produced(p),
            Ok(fnf),
        );
    let (b, q) = choose|m: ProduceFnf, p: Result<Vec<u8>, String>|
        m@ == message && #[trigger] call_ensures(encode, (&m,), p) && numbered(
            frame,
            FrameKind::ProduceReq,
            produced(p),
            before,
            after,
            Ok((cid, req)),
        );
    law_unnumbered_reads_back(
        frame,
        decode_header,
        kind_byte,
        FrameKind::ProduceFnf,
        produced(p),
        fnf,
        fnf_header,
    );
    law_numbered_reads_back(
        frame,
        decode_header,
        kind_byte,
        FrameKind::ProduceReq,
        produced(q),
        before,
        after,
        cid,
        req,
        req_header,
    );
    assert(call_ensures(encode, (&a,), p) && call_ensures(encode, (&b,), q));
}

/// A message that cannot be written is an error, and uses up no number.
pub proof fn law_unwritten_uses_no_number<
    E: FnOnce(&ProduceFnf) -> Result<Vec<u8>, String>,
    F: FnOnce(FrameKind, u64, &[u8]) -> Result<Vec<u8>, String>,
>(
    message: crate::messages::ProduceView,
    encode: E,
    frame: F,
    before: u64,
    after: u64,
    r: Result<(u64, Vec<u8>), ProtocolError>,
)
    requires
        req_built(message, encode, frame, before, after, r),
        forall|m: ProduceFnf, p: Result<Vec<u8>, String>|
            m@ == message && #[trigger] call_ensures(encode, (&m,), p) ==> p is Err,
    ensures
        r matches Err(ProtocolError::Payload(_)),
        after == before,
{
}

/// Whether a decoder reads back what an encoder wrote.
pub open spec fn reads_unsubscribe<
    E: FnOnce(&UnsubscribeReq) -> Result<Vec<u8>, String>,
    D: FnOnce(&[u8]) -> Result<UnsubscribeReq, String>,
>(encode: E, decode: D) -> bool {
    forall|req: UnsubscribeReq, p: Vec<u8>, b: &[u8], d: Result<UnsubscribeReq, String>|
        #[trigger] call_ensures(encode, (&req,), Ok(p)) && b@ == p@ && #[trigger] call_ensures(
            decode,
            (b,),
            d,
        ) ==> d == Ok::<UnsubscribeReq, String>(req)
}

/// With a codec that fits together, the frame that ends a subscription is read back as such,
/// without a number. Its payload is what the encoder made of the request, so that a decoder
/// that reads back what the encoder wrote gives the request back.
pub proof fn law_unsubscribe_frame_reads_back<
    E: FnOnce(&UnsubscribeReq) -> Result<Vec<u8>, String>,
    F: FnOnce(FrameKind, u64, &[u8]) -> Result<Vec<u8>, String>,
    H: FnOnce(&[u8]) -> Result<FrameHeader, String>,
    D: FnOnce(&[u8]) -> Result<UnsubscribeReq, String>,
>(
    req: UnsubscribeReq,
    encode: E,
    frame: F,
    decode_header: H,
    decode: D,
    kind_byte: spec_fn(FrameKind) -> u8,
    made: Vec<u8>,
    r: Result<ParsedHeader, ProtocolError>,
)
    requires
        codec_fits(frame, decode_header, kind_byte),
        unsubscribe_built(req, encode, frame, Ok(made)),
        header_parsed(made@, decode_header, r),
    ensures
        read_back(
            made@,
            r,
            kind_byte(FrameKind::Unsubscribe),
            0,
            made@.skip(HEADER_LEN as int),
        ),
        exists|p: Vec<u8>|
            #[trigger] call_ensures(encode, (&req,), Ok(p)) && p@ == made@.skip(HEADER_LEN as int),
        reads_unsubscribe(encode, decode) ==> forall|b: &[u8], d: Result<UnsubscribeReq, String>|
            b@ == made@.skip(HEADER_LEN as int) && #[trigger] call_ensures(decode, (b,), d) ==> d
                == Ok::<UnsubscribeReq, String>(req),
{
    let p = choose|p: Result<Vec<u8>, String>|
        #[trigger] call_ensures(encode, (&req,), p) && unnumbered(
            frame,
            FrameKind::Unsubscribe,
            encoded("UnsubscribeReq", p),
            Ok(made),
        );
    law_unnumbered_reads_back(
        frame,
        decode_header,
        kind_byte,
        FrameKind::Unsubscribe,
        encoded("UnsubscribeReq", p),
        made,
        r,
    );
    assert(p == Ok::<Vec<u8>, String>(p->Ok_0));
    assert(call_ensures(encode, (&req,), Ok(p->Ok_0)));
}

/// With a codec whose output depends on its input alone, the frame that ends a subscription
/// is the same each time.
pub proof fn law_unsubscribe_frame_is_fixed<
    E: FnOnce(&UnsubscribeReq) -> Result<Vec<u8>, String>,
    F: FnOnce(FrameKind, u64, &[u8]) -> Result<Vec<u8>, String>,
>(req: UnsubscribeReq, encode: E, frame: F, one: Vec<u8>, other: Vec<u8>)
    requires
        forall|p: Vec<u8>, q: Vec<u8>|
            #[trigger] call_ensures(encode, (&req,), Ok(p)) && #[trigger] call_ensures(
                encode,
                (&req,),
                Ok(q),
            ) ==> p@ == q@,
        forall|p: &[u8], q: &[u8], v: Vec<u8>, w: Vec<u8>|
            p@ == q@ && #[trigger] call_ensures(frame, (FrameKind::Unsubscribe, 0u64, p), Ok(v))
                && #[trigger] call_ensures(frame, (FrameKind::Unsubscribe, 0u64, q), Ok(w)) ==> v@
                == w@,
        unsubscribe_built(req, encode, frame, Ok(one)),
        unsubscribe_built(req, encode, frame, Ok(other)),
    ensures
        one@ == other@,
{
}

/// What follows a frame is ignored.
pub proof fn law_rest_is_ignored(bytes: Seq<u8>, rest: Seq<u8>, payload_len: u32)
    requires
        payload_in(bytes, payload_len) is Ok,
    ensures
        payload_in(bytes + rest, payload_len) == payload_in(bytes, payload_len),
        (bytes + rest).take(HEADER_LEN as int) == bytes.take(HEADER_LEN as int),
{
    assert((bytes + rest).take(HEADER_LEN as int) =~= bytes.take(HEADER_LEN as int));
    assert((bytes + rest).subrange(HEADER_LEN as int, frame_len(payload_len)) =~= bytes.subrange(
        HEADER_LEN as int,
        frame_len(payload_len),
    ));
}

/// A frame that is not answered is put together with the number 0, from the whole payload;
/// what went wrong is passed on.
pub proof fn law_unnumbered_means<F: FnOnce(FrameKind, u64, &[u8]) -> Result<Vec<u8>, String>>(
    frame: F,
    kind: FrameKind,
    payload: Result<Vec<u8>, ProtocolError>,
    r: Result<Vec<u8>, ProtocolError>,
)
    requires
        unnumbered(frame, kind, payload, r),
    ensures
        payload matches Err(e) ==> r == Err::<Vec<u8>, ProtocolError>(e),
        payload matches Ok(p) ==> (exists|b: &[u8], f: Result<Vec<u8>, String>|
            b@ == p@ && #[trigger] call_ensures(frame, (kind, 0u64, b), f) && (f matches Ok(
                v,
            ) ==> r == Ok::<Vec<u8>, ProtocolError>(v)) && (f matches Err(e) ==> r == Err::<
                Vec<u8>,
                ProtocolError,
            >(ProtocolError::Frame(e)))),
{
}

/// A frame that is answered is put together with the number that comes next, from the whole
/// payload, and returned with it. The counter then goes on by one. Without a payload no number
/// is used up; what went wrong is passed on.
pub proof fn law_numbered_means<F: FnOnce(FrameKind, u64, &[u8]) -> Result<Vec<u8>, String>>(
    frame: F,
    kind: FrameKind,
    payload: Result<Vec<u8>, ProtocolError>,
    before: u64,
    after: u64,
    r: Result<(u64, Vec<u8>), ProtocolError>,
)
    requires
        numbered(frame, kind, payload, before, after, r),
    ensures
        payload matches Err(e) ==> after == before && r == Err::<(u64, Vec<u8>), ProtocolError>(e),
        payload matches Ok(p) ==> (after - before - 1) % 0x1_0000_0000_0000_0000 == 0 && (exists|
            b: &[u8],
            f: Result<Vec<u8>, String>,
        |
            b@ == p@ && #[trigger] call_ensures(frame, (kind, before, b), f) && (f matches Ok(
                v,
            ) ==> r == Ok::<(u64, Vec<u8>), ProtocolError>((before, v))) && (f matches Err(
                e,
            ) ==> r == Err::<(u64, Vec<u8>), ProtocolError>(ProtocolError::Frame(e)))),
{
    if payload is Ok {
        let f = choose|f: Result<Vec<u8>, ProtocolError>|
            #[trigger] framed(frame, kind, before, payload->Ok_0@, f) && r == (match f {
                Ok(bytes) => Ok::<(u64, Vec<u8>), ProtocolError>((before, bytes)),
                Err(e) => Err(e),
            });
        assert(framed(frame, kind, before, payload->Ok_0@, f));
    }
}

/// What an encoder wrote is the payload, as it is; its refusal is told with its words, and of
/// other requests than those that produce with the name of the request.
pub proof fn law_payload_is_what_was_written(what: &'static str, p: Vec<u8>, reason: String)
    ensures
        produced(Ok(p)) == Ok::<Vec<u8>, ProtocolError>(p),
        produced(Err(reason)) == Err::<Vec<u8>, ProtocolError>(ProtocolError::Payload(reason)),
        encoded(what, Ok(p)) == Ok::<Vec<u8>, ProtocolError>(p),
        encoded(what, Err(reason)) == Err::<Vec<u8>, ProtocolError>(
            ProtocolError::Encode { what, reason },
        ),
{
}

/// The frame that has a message produced, and is not answered, holds the whole message.
pub proof fn law_fnf_frame_holds_the_message<
    E: FnOnce(&ProduceFnf) -> Result<Vec<u8>, String>,
    F: FnOnce(FrameKind, u64, &[u8]) -> Result<Vec<u8>, String>,
>(
    message: crate::messages::ProduceView,
    encode: E,
    frame: F,
    r: Result<Vec<u8>, ProtocolError>,
)
    requires
        fnf_built(message, encode, frame, r),
    ensures
        exists|m: ProduceFnf, p: Result<Vec<u8>, String>|
            m.cluster@ == message.cluster && m.topic@ == message.topic && crate::wire::bytes_contents(
                m.key,
            ) == message.key && crate::wire::bytes_contents(m.value) == message.value && m.partition
                == message.partition && m.timestamp_ms == message.timestamp_ms && m.headers@.len()
                == message.headers.len() && (forall|i: int|
                0 <= i < m.headers@.len() ==> (#[trigger] m.headers@[i]).0@ == message.headers[i].0
                    && crate::wire::bytes_contents(m.headers@[i].1) == message.headers[i].1) && #[trigger] call_ensures(encode, (&m,), p) && unnumbered(
                frame,
                FrameKind::ProduceFnf,
                produced(p),
                r,
            ),
{
}

/// The frame that has a message produced, and is answered, holds the whole message.
pub proof fn law_req_frame_holds_the_message<
    E: FnOnce(&ProduceFnf) -> Result<Vec<u8>, String>,
    F: FnOnce(FrameKind, u64, &[u8]) -> Result<Vec<u8>, String>,
>(
    message: crate::messages::ProduceView,
    encode: E,
    frame: F,
    before: u64,
    after: u64,
    r: Result<(u64, Vec<u8>), ProtocolError>,
)
    requires
        req_built(message, encode, frame, before, after, r),
    ensures
        exists|m: ProduceFnf, p: Result<Vec<u8>, String>|
            m.cluster@ == message.cluster && m.topic@ == message.topic && crate::wire::bytes_contents(
                m.key,
            ) == message.key && crate::wire::bytes_contents(m.value) == message.value && m.partition
                == message.partition && m.timestamp_ms == message.timestamp_ms && m.headers@.len()
                == message.headers.len() && (forall|i: int|
                0 <= i < m.headers@.len() ==> (#[trigger] m.headers@[i]).0@ == message.headers[i].0
                    && crate::wire::bytes_contents(m.headers@[i].1) == message.headers[i].1) && #[trigger] call_ensures(encode, (&m,), p) && numbered(
                frame,
                FrameKind::ProduceReq,
                produced(p),
                before,
                after,
                r,
            ),
{
}

/// The frame that asks for a subscription holds the cluster, the group, all topics and all
/// settings.
pub proof fn law_subscribe_frame_holds_the_request<
    E: FnOnce(&SubscribeReq) -> Result<Vec<u8>, String>,
    F: FnOnce(FrameKind, u64, &[u8]) -> Result<Vec<u8>, String>,
>(
    cluster: Seq<char>,
    group_id: Seq<char>,
    topics: Vec<String>,
    config: Vec<(String, String)>,
    encode: E,
    frame: F,
    before: u64,
    after: u64,
    r: Result<(u64, Vec<u8>), ProtocolError>,
)
    requires
        subscribe_built(cluster, group_id, topics, config, encode, frame, before, after, r),
    ensures
        exists|m: SubscribeReq, p: Result<Vec<u8>, String>|
            m.cluster@ == cluster && m.group_id@ == group_id && m.topics@ == topics@ && m.config@
                == config@ && #[trigger] call_ensures(encode, (&m,), p) && numbered(
                frame,
                FrameKind::SubscribeReq,
                encoded("SubscribeReq", p),
                before,
                after,
                r,
            ),
{
}

/// The frame that asks for messages holds the subscription, their number and the time.
pub proof fn law_poll_frame_holds_the_request<
    E: FnOnce(&PollReq) -> Result<Vec<u8>, String>,
    F: FnOnce(FrameKind, u64, &[u8]) -> Result<Vec<u8>, String>,
>(
    req: PollReq,
    encode: E,
    frame: F,
    before: u64,
    after: u64,
    r: Result<(u64, Vec<u8>), ProtocolError>,
)
    requires
        poll_built(req, encode, frame, before, after, r),
    ensures
        exists|m: PollReq, p: Result<Vec<u8>, String>|
            m.subscription_id == req.subscription_id && m.max_messages == req.max_messages
                && m.timeout_ms == req.timeout_ms && #[trigger] call_ensures(encode, (&m,), p) && numbered(
                frame,
                FrameKind::PollReq,
                encoded("PollReq", p),
                before,
                after,
                r,
            ),
{
}

/// The frame that asks for a commit holds the subscription.
pub proof fn law_commit_frame_holds_the_request<
    E: FnOnce(&CommitReq) -> Result<Vec<u8>, String>,
    F: FnOnce(FrameKind, u64, &[u8]) -> Result<Vec<u8>, String>,
>(
    req: CommitReq,
    encode: E,
    frame: F,
    before: u64,
    after: u64,
    r: Result<(u64, Vec<u8>), ProtocolError>,
)
    requires
        commit_built(req, encode, frame, before, after, r),
    ensures
        exists|m: CommitReq, p: Result<Vec<u8>, String>|
            m.subscription_id == req.subscription_id && #[trigger] call_ensures(encode, (&m,), p) && numbered(
                frame,
                FrameKind::CommitReq,
                encoded("CommitReq", p),
                before,
                after,
                r,
            ),
{
}

/// The frame that ends a subscription holds the subscription.
pub proof fn law_unsubscribe_frame_holds_the_request<
    E: FnOnce(&UnsubscribeReq) -> Result<Vec<u8>, String>,
    F: FnOnce(FrameKind, u64, &[u8]) -> Result<Vec<u8>, String>,
>(
    req: UnsubscribeReq,
    encode: E,
    frame: F,
    r: Result<Vec<u8>, ProtocolError>,
)
    requires
        unsubscribe_built(req, encode, frame, r),
    ensures
        exists|m: UnsubscribeReq, p: Result<Vec<u8>, String>|
            m.subscription_id == req.subscription_id && #[trigger] call_ensures(encode, (&m,), p) && unnumbered(
                frame,
                FrameKind::Unsubscribe,
                encoded("UnsubscribeReq", p),
                r,
            ),
{
}

/// The frame that makes a cluster known holds its name and all settings.
pub proof fn law_register_frame_holds_the_request<
    E: FnOnce(&RegisterClusterReq) -> Result<Vec<u8>, String>,
    F: FnOnce(FrameKind, u64, &[u8]) -> Result<Vec<u8>, String>,
>(
    cluster: Seq<char>,
    config: Vec<(String, String)>,
    encode: E,
    frame: F,
    before: u64,
    after: u64,
    r: Result<(u64, Vec<u8>), ProtocolError>,
)
    requires
        register_cluster_built(cluster, config, encode, frame, before, after, r),
    ensures
        exists|m: RegisterClusterReq, p: Result<Vec<u8>, String>|
            m.cluster@ == cluster && m.config@ == config@ && #[trigger] call_ensures(encode, (&m,), p) && numbered(
                frame,
                FrameKind::RegisterClusterReq,
                encoded("RegisterClusterReq", p),
                before,
                after,
                r,
            ),
{
}

/// A header is read from the first 13 bytes, where there are as many; what went wrong is
/// told.
pub proof fn law_header_read_means<H: FnOnce(&[u8]) -> Result<FrameHeader, String>>(
    bytes: Seq<u8>,
    decode_header: H,
    too_short: ProtocolError,
    r: Result<FrameHeader, ProtocolError>,
)
    requires
        header_read(bytes, decode_header, too_short, r),
    ensures
        bytes.len() < 13 ==> r == Err::<FrameHeader, ProtocolError>(too_short),
        bytes.len() >= 13 ==> (exists|b: &[u8], h: Result<FrameHeader, String>|
            #[trigger] call_ensures(decode_header, (b,), h) && b@.len() == 13 && (forall|i: int|
                0 <= i < 13 ==> #[trigger] b@[i] == bytes[i]) && (h matches Ok(x) ==> r == Ok::<
                FrameHeader,
                ProtocolError,
            >(x)) && (h matches Err(e) ==> r == Err::<FrameHeader, ProtocolError>(
                ProtocolError::Header(e),
            ))),
{
    if bytes.len() >= 13 {
        let (b, h) = choose|b: &[u8], h: Result<FrameHeader, String>|
            b@ == bytes.take(HEADER_LEN as int) && #[trigger] call_ensures(decode_header, (b,), h)
                && r == (match h {
                Ok(header) => Ok::<FrameHeader, ProtocolError>(header),
                Err(reason) => Err(ProtocolError::Header(reason)),
            });
        assert(call_ensures(decode_header, (b,), h));
    }
}

/// The payload of a frame is exactly the bytes behind the first 13, as many as the header
/// speaks of. Where there are fewer, the frame is refused with both lengths.
pub proof fn law_payload_is_cut_out(bytes: Seq<u8>, payload_len: u32)
    requires
        bytes.len() <= usize::MAX,
    ensures
        bytes.len() >= 13 + payload_len ==> (payload_in(bytes, payload_len) matches Ok(p) && p.len()
            == payload_len && (forall|i: int|
            0 <= i < payload_len ==> #[trigger] p[i] == bytes[13 + i])),
        bytes.len() < 13 + payload_len ==> (payload_in(bytes, payload_len) matches Err(
            ProtocolError::Truncated { len, need },
        ) && len == bytes.len() && need == 13 + payload_len),
{
}

/// A header that was taken apart tells the byte of the kind, the number and the length as the
/// header reader gave them.
pub proof fn law_header_parsed_means<H: FnOnce(&[u8]) -> Result<FrameHeader, String>>(
    bytes: Seq<u8>,
    decode_header: H,
    r: Result<ParsedHeader, ProtocolError>,
)
    requires
        header_parsed(bytes, decode_header, r),
        bytes.len() <= usize::MAX,
    ensures
        bytes.len() < 13 ==> (r matches Err(ProtocolError::HeaderTooShort { len }) && len
            == bytes.len()),
        bytes.len() >= 13 ==> (exists|b: &[u8], h: Result<FrameHeader, String>|
            #[trigger] call_ensures(decode_header, (b,), h) && b@ == bytes.take(13) && (
            h matches Ok(x) ==> (r matches Ok(p) && p.kind_byte == x.kind_byte && p.cid == x.cid
                && p.payload_len == x.payload_len)) && (h matches Err(e) ==> r == Err::<
                ParsedHeader,
                ProtocolError,
            >(ProtocolError::Header(e)))),
{
    let too_short = ProtocolError::HeaderTooShort { len: bytes.len() as usize };
    let h = choose|h: Result<FrameHeader, ProtocolError>|
        #[trigger] header_read(bytes, decode_header, too_short, h) && r == (match h {
            Ok(header) => Ok::<ParsedHeader, ProtocolError>(summary(header)),
            Err(e) => Err(e),
        });
    law_header_read_means(bytes, decode_header, too_short, h);
    if bytes.len() >= 13 {
        let (b, d) = choose|b: &[u8], d: Result<FrameHeader, String>|
            #[trigger] call_ensures(decode_header, (b,), d) && b@.len() == 13 && (forall|i: int|
                0 <= i < 13 ==> #[trigger] b@[i] == bytes[i]) && (d matches Ok(x) ==> h == Ok::<
                FrameHeader,
                ProtocolError,
            >(x)) && (d matches Err(e) ==> h == Err::<FrameHeader, ProtocolError>(
                ProtocolError::Header(e),
            ));
        assert(b@ =~= bytes.take(13));
        assert(call_ensures(decode_header, (b,), d));
    }
}

/// The answer to a produce request is told with the number of the header, as it was read; its
/// payload is the one that was cut out. A frame of another kind is told as such, and not read.
pub proof fn law_resp_after_header_means<D: FnOnce(&[u8]) -> Result<ProduceResp, String>>(
    bytes: Seq<u8>,
    header: FrameHeader,
    decode: D,
    r: Result<ParsedFrame, ProtocolError>,
)
    requires
        resp_after_header(bytes, header, decode, r),
        bytes.len() <= usize::MAX,
    ensures
        bytes.len() < 13 + header.payload_len ==> (r matches Err(
            ProtocolError::Truncated { len, need },
        ) && len == bytes.len() && need == 13 + header.payload_len),
        bytes.len() >= 13 + header.payload_len && header.kind !is ProduceResp ==> r == Ok::<
            ParsedFrame,
            ProtocolError,
        >(
            ParsedFrame::Other {
                kind: header.kind,
                cid: header.cid,
                payload_len: header.payload_len,
            },
        ),
        bytes.len() >= 13 + header.payload_len && header.kind is ProduceResp ==> (exists|
            p: &[u8],
            d: Result<ProduceResp, String>,
        |
            #[trigger] call_ensures(decode, (p,), d) && p@ == bytes.subrange(
                13,
                13 + header.payload_len,
            ) && (d matches Ok(resp) ==> r == Ok::<ParsedFrame, ProtocolError>(
                ParsedFrame::Resp { cid: header.cid, resp },
            )) && (d matches Err(reason) ==> r == Err::<ParsedFrame, ProtocolError>(
                ProtocolError::Decode { what: "resp", reason },
            ))),
{
    law_payload_is_cut_out(bytes, header.payload_len);
    if bytes.len() >= 13 + header.payload_len && header.kind is ProduceResp {
        let payload = payload_in(bytes, header.payload_len)->Ok_0;
        assert(payload =~= bytes.subrange(13, 13 + header.payload_len));
        let (p, d) = choose|p: &[u8], d: Result<ProduceResp, String>|
            p@ == payload && #[trigger] call_ensures(decode, (p,), d) && r == produce_answer(
                header.cid,
                d,
            );
        assert(call_ensures(decode, (p,), d));
    }
}

/// Each answer to a consumer is told under the number of its request, with all that came.
pub proof fn law_consumer_answers(
    cid: u64,
    subscription_id: u64,
    messages: Vec<ConsumerMessage>,
    message: String,
)
    ensures
        subscribe_answer(cid, Ok(SubscribeResp::Done { subscription_id })) == Ok::<
            ConsumerResp,
            ProtocolError,
        >(ConsumerResp::SubscribeOk { cid, subscription_id }),
        subscribe_answer(cid, Ok(SubscribeResp::Failed { message })) == Ok::<
            ConsumerResp,
            ProtocolError,
        >(ConsumerResp::SubscribeErr { cid, message }),
        poll_answer(cid, Ok(PollResp::Done { messages })) == Ok::<ConsumerResp, ProtocolError>(
            ConsumerResp::PollOk { cid, messages },
        ),
        poll_answer(cid, Ok(PollResp::Failed { message })) == Ok::<ConsumerResp, ProtocolError>(
            ConsumerResp::PollErr { cid, message },
        ),
        commit_answer(cid, Ok(CommitResp::Done)) == Ok::<ConsumerResp, ProtocolError>(
            ConsumerResp::CommitOk { cid },
        ),
        commit_answer(cid, Ok(CommitResp::Failed { message })) == Ok::<ConsumerResp, ProtocolError>(
            ConsumerResp::CommitErr { cid, message },
        ),
        register_cluster_answer(cid, Ok(RegisterClusterResp::Done)) == Ok::<
            ConsumerResp,
            ProtocolError,
        >(ConsumerResp::RegisterClusterOk { cid }),
        register_cluster_answer(cid, Ok(RegisterClusterResp::Failed { message })) == Ok::<
            ConsumerResp,
            ProtocolError,
        >(ConsumerResp::RegisterClusterErr { cid, message }),
{
}

/// An answer to a consumer that cannot be read is refused with its name and the reason.
pub proof fn law_unread_consumer_answers(cid: u64, reason: String)
    ensures
        subscribe_answer(cid, Err(reason)) == Err::<ConsumerResp, ProtocolError>(
            ProtocolError::Decode { what: "SubscribeResp", reason },
        ),
        poll_answer(cid, Err(reason)) == Err::<ConsumerResp, ProtocolError>(
            ProtocolError::Decode { what: "PollResp", reason },
        ),
        commit_answer(cid, Err(reason)) == Err::<ConsumerResp, ProtocolError>(
            ProtocolError::Decode { what: "CommitResp", reason },
        ),
        register_cluster_answer(cid, Err(reason)) == Err::<ConsumerResp, ProtocolError>(
            ProtocolError::Decode { what: "RegisterClusterResp", reason },
        ),
{
}

/// An answer to a consumer is read by the decoder for its kind, from the payload that was cut
/// out, and told under the number of the header. A frame of any other kind is refused by the
/// name of its kind.
pub proof fn law_consumer_after_header_means<
    S: FnOnce(&[u8]) -> Result<SubscribeResp, String>,
    P: FnOnce(&[u8]) -> Result<PollResp, String>,
    C: FnOnce(&[u8]) -> Result<CommitResp, String>,
    R: FnOnce(&[u8]) -> Result<RegisterClusterResp, String>,
>(
    bytes: Seq<u8>,
    header: FrameHeader,
    subscribe: S,
    poll: P,
    commit: C,
    register_cluster: R,
    r: Result<ConsumerResp, ProtocolError>,
)
    requires
        consumer_after_header(bytes, header, subscribe, poll, commit, register_cluster, r),
        bytes.len() <= usize::MAX,
    ensures
        bytes.len() < 13 + header.payload_len ==> (r matches Err(
            ProtocolError::Truncated { len, need },
        ) && len == bytes.len() && need == 13 + header.payload_len),
        bytes.len() >= 13 + header.payload_len ==> ({
            let payload = bytes.subrange(13, 13 + header.payload_len);
            &&& header.kind is SubscribeResp ==> (exists|
                p: &[u8],
                d: Result<SubscribeResp, String>,
            |
                p@ == payload && #[trigger] call_ensures(subscribe, (p,), d) && r
                    == subscribe_answer(header.cid, d))
            &&& header.kind is PollResp ==> (exists|p: &[u8], d: Result<PollResp, String>|
                p@ == payload && #[trigger] call_ensures(poll, (p,), d) && r == poll_answer(
                    header.cid,
                    d,
                ))
            &&& header.kind is CommitResp ==> (exists|p: &[u8], d: Result<CommitResp, String>|
                p@ == payload && #[trigger] call_ensures(commit, (p,), d) && r == commit_answer(
                    header.cid,
                    d,
                ))
            &&& header.kind is RegisterClusterResp ==> (exists|
                p: &[u8],
                d: Result<RegisterClusterResp, String>,
            |
                p@ == payload && #[trigger] call_ensures(register_cluster, (p,), d) && r
                    == register_cluster_answer(header.cid, d))
            &&& !(header.kind is SubscribeResp || header.kind is PollResp
                || header.kind is CommitResp || header.kind is RegisterClusterResp) ==> (r matches Err(
                ProtocolError::UnexpectedKind(name),
            ) && name@ == header.kind.label())
        }),
{
    law_payload_is_cut_out(bytes, header.payload_len);
    if bytes.len() >= 13 + header.payload_len {
        assert(payload_in(bytes, header.payload_len)->Ok_0 =~= bytes.subrange(
            13,
            13 + header.payload_len,
        ));
    }
}

/// A frame that may be an answer is first held against the 13 bytes of a header, and then taken
/// apart by the header that was read.
pub proof fn law_frames_are_parsed_by_their_header<
    H: FnOnce(&[u8]) -> Result<FrameHeader, String>,
    D: FnOnce(&[u8]) -> Result<ProduceResp, String>,
    S: FnOnce(&[u8]) -> Result<SubscribeResp, String>,
    P: FnOnce(&[u8]) -> Result<PollResp, String>,
    C: FnOnce(&[u8]) -> Result<CommitResp, String>,
    R: FnOnce(&[u8]) -> Result<RegisterClusterResp, String>,
>(
    bytes: Seq<u8>,
    decode_header: H,
    decode: D,
    subscribe: S,
    poll: P,
    commit: C,
    register_cluster: R,
    a: Result<ParsedFrame, ProtocolError>,
    b: Result<ConsumerResp, ProtocolError>,
)
    requires
        bytes.len() <= usize::MAX,
        resp_parsed(bytes, decode_header, decode, a),
        consumer_parsed(bytes, decode_header, subscribe, poll, commit, register_cluster, b),
    ensures
        bytes.len() < 13 ==> (a matches Err(ProtocolError::FrameTooShort { len }) && len
            == bytes.len()) && (b matches Err(ProtocolError::FrameTooShort { len }) && len
            == bytes.len()),
        bytes.len() >= 13 ==> (exists|h: Result<FrameHeader, ProtocolError>|
            #[trigger] header_read(
                bytes,
                decode_header,
                ProtocolError::FrameTooShort { len: bytes.len() as usize },
                h,
            ) && (h matches Err(e) ==> a == Err::<ParsedFrame, ProtocolError>(e)) && (h matches Ok(
                x,
            ) ==> resp_after_header(bytes, x, decode, a))),
        bytes.len() >= 13 ==> (exists|h: Result<FrameHeader, ProtocolError>|
            #[trigger] header_read(
                bytes,
                decode_header,
                ProtocolError::FrameTooShort { len: bytes.len() as usize },
                h,
            ) && (h matches Err(e) ==> b == Err::<ConsumerResp, ProtocolError>(e)) && (h matches Ok(
                x,
            ) ==> consumer_after_header(
                bytes,
                x,
                subscribe,
                poll,
                commit,
                register_cluster,
                b,
            ))),
{
}

/// The words of an error hold the whole of its reason, or both lengths, and what it was about.
pub proof fn law_protocol_error_words(
    len: usize,
    need: u64,
    what: &'static str,
    reason: String,
)
    ensures
        (ProtocolError::FrameTooShort { len }).text() == "frame too short: "@
            + crate::text::decimal(len as nat) + " < "@ + crate::text::decimal(13),
        (ProtocolError::HeaderTooShort { len }).text() == "header too short: "@
            + crate::text::decimal(len as nat) + " < "@ + crate::text::decimal(13),
        ProtocolError::Header(reason).text() == "decode header: "@ + reason@,
        (ProtocolError::Truncated { len, need }).text() == "payload truncated: "@
            + crate::text::decimal(len as nat) + " < "@ + crate::text::decimal(need as nat),
        ProtocolError::Payload(reason).text() == reason@,
        (ProtocolError::Encode { what, reason }).text() == "encode "@ + what@ + ": "@ + reason@,
        (ProtocolError::Decode { what, reason }).text() == "decode "@ + what@ + ": "@ + reason@,
        ProtocolError::Frame(reason).text() == "encode frame: "@ + reason@,
        ProtocolError::UnexpectedKind(reason).text() == "unexpected consumer frame kind: "@
            + reason@,
{
}

/// A kind of frame without a name of its own here goes by the name that it brings along.
pub proof fn law_other_kinds_bring_their_name(name: String)
    ensures
        FrameKind::Other(name).label() == name@,
{
}

/// The kinds of frames go by their own names.
pub proof fn law_kinds_go_by_their_names()
    ensures
        FrameKind::ProduceFnf.label() == "ProduceFnf"@,
        FrameKind::ProduceReq.label() == "ProduceReq"@,
        FrameKind::ProduceResp.label() == "ProduceResp"@,
        FrameKind::SubscribeReq.label() == "SubscribeReq"@,
        FrameKind::SubscribeResp.label() == "SubscribeResp"@,
        FrameKind::PollReq.label() == "PollReq"@,
        FrameKind::PollResp.label() == "PollResp"@,
        FrameKind::CommitReq.label() == "CommitReq"@,
        FrameKind::CommitResp.label() == "CommitResp"@,
        FrameKind::Unsubscribe.label() == "Unsubscribe"@,
        FrameKind::RegisterClusterReq.label() == "RegisterClusterReq"@,
        FrameKind::RegisterClusterResp.label() == "RegisterClusterResp"@,
        HEADER_LEN == 13,
{
}

/// The next number is one more, and 0 behind the largest.
pub proof fn law_next_number(n: u64)
    ensures
        (cid_after(n) - n - 1) % 0x1_0000_0000_0000_0000 == 0,
{
}

} // verus!
