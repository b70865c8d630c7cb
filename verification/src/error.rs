//! The uniform error reply.
//!
//! When a handler in the worker fails, it answers with an error frame whose payload
//! is an [`ErrorResp`]: a machine readable [`ErrorKind`], whether a retry can help,
//! the native librdkafka code, and a message. On the wire:
//!
//! ```text
//! [u16 kind][u8 retryable][i32 native_code][u16 msg_len][msg]
//! ```
//!
//! All numbers are big-endian; `msg` is UTF-8.

use crate::wire::{
    buffer_to_vec, bytes_as_slice, copy_to_bytes, get_i32, get_u16, get_u8, new_buffer, put_i32,
    put_slice, put_u16, put_u8, string_from_utf8,
};
use vstd::prelude::*;

verus! {

broadcast use vstd::slice::group_slice_axioms;

/// Class of a failure, shared by the worker, the extension and PHP.
///
/// Sent as a `u16`. A number that is not in use reads as [`ErrorKind::Internal`], so
/// that a peer of an older version can still read the reply of a newer one.
#[derive(Debug, Clone, Copy, PartialEq, Eq, Structural)]
pub enum ErrorKind {
    /// Unclassified, or a fault inside the worker.
    Internal,
    /// The worker cannot be started or reached, or the retries are used up.
    WorkerUnavailable,
    /// An IPC or broker operation took too long.
    Timeout,
    /// The worker is shutting down and takes no new requests.
    WorkerDraining,
    /// The two sides disagree on the protocol.
    Protocol,
    /// The cluster has not been registered.
    ClusterNotRegistered,
    /// The caller passed an invalid argument.
    InvalidArgument,
    /// The cluster has no `transactional.id`.
    NotTransactional,
    /// The subscription does not exist.
    SubscriptionNotFound,
    /// A broker error that may go away.
    BrokerRetryable,
    /// The message exceeds a size limit.
    MessageTooLarge,
    /// Authentication or authorisation failed.
    AuthnAuthz,
    /// The target of a seek is invalid.
    OffsetInvalid,
    /// The transaction is in the wrong state.
    TxnState,
    /// The topic or the partition is unknown.
    UnknownTopicOrPartition,
}

impl ErrorKind {
    /// The number that stands for the kind on the wire.
    pub open spec fn code(self) -> u16 {
        match self {
            ErrorKind::Internal => 0,
            ErrorKind::WorkerUnavailable => 1,
            ErrorKind::Timeout => 2,
            ErrorKind::WorkerDraining => 3,
            ErrorKind::Protocol => 4,
            ErrorKind::ClusterNotRegistered => 5,
            ErrorKind::InvalidArgument => 6,
            ErrorKind::NotTransactional => 7,
            ErrorKind::SubscriptionNotFound => 8,
            ErrorKind::BrokerRetryable => 9,
            ErrorKind::MessageTooLarge => 10,
            ErrorKind::AuthnAuthz => 11,
            ErrorKind::OffsetInvalid => 12,
            ErrorKind::TxnState => 13,
            ErrorKind::UnknownTopicOrPartition => 14,
        }
    }

    /// Whether some kind is sent as `v`.
    pub open spec fn is_code(v: u16) -> bool {
        v <= 14
    }

    /// The kind that `v` reads as.
    pub open spec fn from_code(v: u16) -> ErrorKind {
        if Self::is_code(v) {
            choose|k: ErrorKind| #[trigger] k.code() == v
        } else {
            ErrorKind::Internal
        }
    }

    /// Whether a retry is worth trying by default.
    pub open spec fn retry_helps(self) -> bool {
        ||| self is WorkerUnavailable
        ||| self is Timeout
        ||| self is WorkerDraining
        ||| self is BrokerRetryable
    }

    /// The stable name of the kind.
    pub open spec fn name(self) -> Seq<char> {
        match self {
            ErrorKind::Internal => "INTERNAL"@,
            ErrorKind::WorkerUnavailable => "WORKER_UNAVAILABLE"@,
            ErrorKind::Timeout => "TIMEOUT"@,
            ErrorKind::WorkerDraining => "WORKER_DRAINING"@,
            ErrorKind::Protocol => "PROTOCOL"@,
            ErrorKind::ClusterNotRegistered => "CLUSTER_NOT_REGISTERED"@,
            ErrorKind::InvalidArgument => "INVALID_ARGUMENT"@,
            ErrorKind::NotTransactional => "NOT_TRANSACTIONAL"@,
            ErrorKind::SubscriptionNotFound => "SUBSCRIPTION_NOT_FOUND"@,
            ErrorKind::BrokerRetryable => "BROKER_RETRYABLE"@,
            ErrorKind::MessageTooLarge => "MESSAGE_TOO_LARGE"@,
            ErrorKind::AuthnAuthz => "AUTHN_AUTHZ"@,
            ErrorKind::OffsetInvalid => "OFFSET_INVALID"@,
            ErrorKind::TxnState => "TXN_STATE"@,
            ErrorKind::UnknownTopicOrPartition => "UNKNOWN_TOPIC_OR_PARTITION"@,
        }
    }

    pub fn as_u16(self) -> (v: u16)
        ensures
            v == self.code(),
    {
        match self {
            ErrorKind::Internal => 0,
            ErrorKind::WorkerUnavailable => 1,
            ErrorKind::Timeout => 2,
            ErrorKind::WorkerDraining => 3,
            ErrorKind::Protocol => 4,
            ErrorKind::ClusterNotRegistered => 5,
            ErrorKind::InvalidArgument => 6,
            ErrorKind::NotTransactional => 7,
            ErrorKind::SubscriptionNotFound => 8,
            ErrorKind::BrokerRetryable => 9,
            ErrorKind::MessageTooLarge => 10,
            ErrorKind::AuthnAuthz => 11,
            ErrorKind::OffsetInvalid => 12,
            ErrorKind::TxnState => 13,
            ErrorKind::UnknownTopicOrPartition => 14,
        }
    }

    /// The kind sent as `v`; [`ErrorKind::Internal`] where no kind is.
    pub fn from_u16(v: u16) -> (kind: Self)
        ensures
            kind == Self::from_code(v),
            Self::is_code(v) ==> kind.code() == v,
            !Self::is_code(v) ==> kind is Internal,
    {
        let kind = match v {
            1 => ErrorKind::WorkerUnavailable,
            2 => ErrorKind::Timeout,
            3 => ErrorKind::WorkerDraining,
            4 => ErrorKind::Protocol,
            5 => ErrorKind::ClusterNotRegistered,
            6 => ErrorKind::InvalidArgument,
            7 => ErrorKind::NotTransactional,
            8 => ErrorKind::SubscriptionNotFound,
            9 => ErrorKind::BrokerRetryable,
            10 => ErrorKind::MessageTooLarge,
            11 => ErrorKind::AuthnAuthz,
            12 => ErrorKind::OffsetInvalid,
            13 => ErrorKind::TxnState,
            14 => ErrorKind::UnknownTopicOrPartition,
            _ => ErrorKind::Internal,
        };
        proof {
            law_kind_round_trip(kind);
        }
        kind
    }

    /// Whether an error of this kind is worth a retry, unless said otherwise.
    pub fn default_retryable(self) -> (r: bool)
        ensures
            r == self.retry_helps(),
    {
        matches!(
            self,
            ErrorKind::WorkerUnavailable | ErrorKind::Timeout | ErrorKind::WorkerDraining
                | ErrorKind::BrokerRetryable
        )
    }

    /// The stable name of the kind, for PHP and for logs.
    pub fn as_str(self) -> (s: &'static str)
        ensures
            s@ == self.name(),
    {
        match self {
            ErrorKind::Internal => "INTERNAL",
            ErrorKind::WorkerUnavailable => "WORKER_UNAVAILABLE",
            ErrorKind::Timeout => "TIMEOUT",
            ErrorKind::WorkerDraining => "WORKER_DRAINING",
            ErrorKind::Protocol => "PROTOCOL",
            ErrorKind::ClusterNotRegistered => "CLUSTER_NOT_REGISTERED",
            ErrorKind::InvalidArgument => "INVALID_ARGUMENT",
            ErrorKind::NotTransactional => "NOT_TRANSACTIONAL",
            ErrorKind::SubscriptionNotFound => "SUBSCRIPTION_NOT_FOUND",
            ErrorKind::BrokerRetryable => "BROKER_RETRYABLE",
            ErrorKind::MessageTooLarge => "MESSAGE_TOO_LARGE",
            ErrorKind::AuthnAuthz => "AUTHN_AUTHZ",
            ErrorKind::OffsetInvalid => "OFFSET_INVALID",
            ErrorKind::TxnState => "TXN_STATE",
            ErrorKind::UnknownTopicOrPartition => "UNKNOWN_TOPIC_OR_PARTITION",
        }
    }
}

/// A kind survives the way over the wire.
pub proof fn law_kind_round_trip(kind: ErrorKind)
    ensures
        ErrorKind::is_code(kind.code()),
        ErrorKind::from_code(kind.code()) == kind,
{
    let k = choose|k: ErrorKind| #[trigger] k.code() == kind.code();
    assert(k.code() == kind.code());
}

/// No two kinds share a number.
pub proof fn law_kind_codes_differ(a: ErrorKind, b: ErrorKind)
    ensures
        a.code() == b.code() ==> a == b,
{
}

/// No two kinds share a name.
pub proof fn law_kind_names_differ(a: ErrorKind, b: ErrorKind)
    ensures
        a.name() == b.name() ==> a == b,
{
    reveal_strlit("INTERNAL");
    reveal_strlit("WORKER_UNAVAILABLE");
    reveal_strlit("TIMEOUT");
    reveal_strlit("WORKER_DRAINING");
    reveal_strlit("PROTOCOL");
    reveal_strlit("CLUSTER_NOT_REGISTERED");
    reveal_strlit("INVALID_ARGUMENT");
    reveal_strlit("NOT_TRANSACTIONAL");
    reveal_strlit("SUBSCRIPTION_NOT_FOUND");
    reveal_strlit("BROKER_RETRYABLE");
    reveal_strlit("MESSAGE_TOO_LARGE");
    reveal_strlit("AUTHN_AUTHZ");
    reveal_strlit("OFFSET_INVALID");
    reveal_strlit("TXN_STATE");
    reveal_strlit("UNKNOWN_TOPIC_OR_PARTITION");
    if a.name() == b.name() {
        assert(a.name().len() == b.name().len());
        assert(a.name()[0] == b.name()[0]);
    }
}

/// Why a payload cannot be written or read.
#[derive(Debug, Clone, Copy, PartialEq, Eq)]
pub enum PayloadError {
    /// The payload ends before the field does.
    Truncated,
    /// The field has this many bytes, more than its length prefix can say.
    FieldTooLarge(usize),
    /// The field is not UTF-8.
    InvalidUtf8 { field: &'static str },
}

/// Payload of an error frame.
#[derive(Debug, Clone, PartialEq, Eq)]
pub struct ErrorResp {
    pub kind: ErrorKind,
    pub retryable: bool,
    /// The `rd_kafka_resp_err_t` behind a broker error, else 0.
    pub native_code: i32,
    pub message: String,
}

/// An [`ErrorResp`] as a mathematical value.
pub struct ErrorRespView {
    pub kind: ErrorKind,
    pub retryable: bool,
    pub native_code: i32,
    pub message: Seq<char>,
}

impl View for ErrorResp {
    type V = ErrorRespView;

    open spec fn view(&self) -> ErrorRespView {
        ErrorRespView {
            kind: self.kind,
            retryable: self.retryable,
            native_code: self.native_code,
            message: self.message@,
        }
    }
}

/// Most bytes that a `u16` length prefix can announce.
pub const MAX_STR_LEN: usize = 65535;

/// Bytes in front of the message: kind, retryable and native code.
pub const FIXED_LEN: usize = 7;

/// A string behind its `u16` length.
pub open spec fn str_u16_wire(s: Seq<char>) -> Seq<u8> {
    let b = vstd::utf8::encode_utf8(s);
    crate::wire::be_u16(b.len() as u16) + b
}

/// What reading a string behind its `u16` length gives.
pub open spec fn str_u16_read(b: Seq<u8>, field: &'static str) -> Result<Seq<char>, PayloadError> {
    if b.len() < 2 {
        Err(PayloadError::Truncated)
    } else {
        let len = crate::wire::u16_from_be(b) as int;
        if b.len() - 2 < len {
            Err(PayloadError::Truncated)
        } else {
            let body = b.subrange(2, 2 + len);
            if vstd::utf8::valid_utf8(body) {
                Ok(vstd::utf8::decode_utf8(body))
            } else {
                Err(PayloadError::InvalidUtf8 { field })
            }
        }
    }
}

impl ErrorRespView {
    /// The fields in front of the message, as sent.
    pub open spec fn fixed_wire(self) -> Seq<u8> {
        crate::wire::be_u16(self.kind.code()).push(if self.retryable {
            1u8
        } else {
            0u8
        }) + crate::wire::be_i32(self.native_code)
    }

    /// The whole payload, as sent.
    pub open spec fn wire(self) -> Seq<u8> {
        self.fixed_wire() + str_u16_wire(self.message)
    }

    /// Whether the message fits behind its length prefix.
    pub open spec fn message_fits(self) -> bool {
        vstd::utf8::encode_utf8(self.message).len() <= MAX_STR_LEN
    }

    /// What the payload `b` says.
    pub open spec fn read(b: Seq<u8>) -> Result<ErrorRespView, PayloadError> {
        if b.len() < FIXED_LEN {
            Err(PayloadError::Truncated)
        } else {
            match str_u16_read(b.skip(FIXED_LEN as int), "error_message") {
                Err(e) => Err(e),
                Ok(message) => Ok(
                    ErrorRespView {
                        kind: ErrorKind::from_code(crate::wire::u16_from_be(b)),
                        retryable: b[2] != 0,
                        native_code: crate::wire::i32_from_be(b.skip(3)),
                        message,
                    },
                ),
            }
        }
    }
}

impl ErrorResp {
    /// An error with the default `retryable` of its kind and no native code.
    pub fn new(kind: ErrorKind, message: &str) -> (e: Self)
        ensures
            e.kind == kind,
            e.retryable == kind.retry_helps(),
            e.native_code == 0,
            e.message@ == message@,
    {
        ErrorResp {
            kind,
            retryable: kind.default_retryable(),
            native_code: 0,
            message: message.to_owned(),
        }
    }

    /// Appends the payload to `buf`.
    ///
    /// A message that is too long for its prefix is refused; the fields in front of it
    /// have been appended by then.
    pub fn encode(&self, buf: &mut bytes::BytesMut) -> (r: Result<(), PayloadError>)
        requires
            crate::wire::buffer_contents(*old(buf)).len() + FIXED_LEN + 2 + MAX_STR_LEN
                <= isize::MAX,
        ensures
            self@.message_fits() ==> r is Ok && crate::wire::buffer_contents(*final(buf))
                == crate::wire::buffer_contents(*old(buf)) + self@.wire(),
            !self@.message_fits() ==> r == Err::<(), PayloadError>(
                PayloadError::FieldTooLarge(
                    vstd::utf8::encode_utf8(self@.message).len() as usize,
                ),
            ) && crate::wire::buffer_contents(*final(buf)) == crate::wire::buffer_contents(
                *old(buf),
            ) + self@.fixed_wire(),
    {
        put_u16(buf, self.kind.as_u16());
        put_u8(
            buf,
            if self.retryable {
                1
            } else {
                0
            },
        );
        put_i32(buf, self.native_code);
        assert(crate::wire::buffer_contents(*buf) == crate::wire::buffer_contents(*old(buf))
            + self@.fixed_wire());
        write_str_u16(&self.message, buf)
    }

    /// The payload on its own.
    pub fn to_payload(&self) -> (r: Result<Vec<u8>, PayloadError>)
        ensures
            self@.message_fits() ==> r is Ok && r->Ok_0@ == self@.wire(),
            !self@.message_fits() ==> r == Err::<Vec<u8>, PayloadError>(
                PayloadError::FieldTooLarge(
                    vstd::utf8::encode_utf8(self@.message).len() as usize,
                ),
            ),
    {
        let mut buf = new_buffer();
        match self.encode(&mut buf) {
            Ok(()) => Ok(buffer_to_vec(&buf)),
            Err(e) => Err(e),
        }
    }

    /// Reads a payload. Bytes behind the message are ignored.
    pub fn decode(mut buf: &[u8]) -> (r: Result<Self, PayloadError>)
        ensures
            match r {
                Ok(e) => ErrorRespView::read(buf@) == Ok::<ErrorRespView, PayloadError>(e@),
                Err(e) => ErrorRespView::read(buf@) == Err::<ErrorRespView, PayloadError>(e),
            },
    {
        let ghost input = buf@;
        if buf.len() < FIXED_LEN {
            return Err(PayloadError::Truncated);
        }
        let kind = ErrorKind::from_u16(get_u16(&mut buf));
        let retryable = get_u8(&mut buf) != 0;
        assert(buf@ == input.skip(3));
        let native_code = get_i32(&mut buf);
        assert(buf@ == input.skip(7));
        match read_str_u16(&mut buf, "error_message") {
            Ok(message) => Ok(ErrorResp { kind, retryable, native_code, message }),
            Err(e) => Err(e),
        }
    }
}

/// Appends a string behind its `u16` length; appends nothing where it is too long.
fn write_str_u16(s: &str, buf: &mut bytes::BytesMut) -> (r: Result<(), PayloadError>)
    requires
        crate::wire::buffer_contents(*old(buf)).len() + 2 + MAX_STR_LEN <= isize::MAX,
    ensures
        vstd::utf8::encode_utf8(s@).len() <= MAX_STR_LEN ==> r is Ok && crate::wire::buffer_contents(
            *final(buf),
        ) == crate::wire::buffer_contents(*old(buf)) + str_u16_wire(s@),
        vstd::utf8::encode_utf8(s@).len() > MAX_STR_LEN ==> r == Err::<(), PayloadError>(
            PayloadError::FieldTooLarge(vstd::utf8::encode_utf8(s@).len() as usize),
        ) && crate::wire::buffer_contents(*final(buf)) == crate::wire::buffer_contents(*old(buf)),
{
    let body = s.as_bytes();
    let len = body.len();
    if len > MAX_STR_LEN {
        return Err(PayloadError::FieldTooLarge(len));
    }
    put_u16(buf, len as u16);
    put_slice(buf, body);
    assert(crate::wire::buffer_contents(*buf) == crate::wire::buffer_contents(*old(buf))
        + str_u16_wire(s@));
    Ok(())
}

/// Reads a string behind its `u16` length and moves `buf` past it.
fn read_str_u16(buf: &mut &[u8], field: &'static str) -> (r: Result<String, PayloadError>)
    ensures
        match r {
            Ok(s) => str_u16_read(old(buf)@, field) == Ok::<Seq<char>, PayloadError>(s@),
            Err(e) => str_u16_read(old(buf)@, field) == Err::<Seq<char>, PayloadError>(e),
        },
        r is Ok ==> final(buf)@ == old(buf)@.skip(2 + crate::wire::u16_from_be(old(buf)@)),
{
    if buf.len() < 2 {
        return Err(PayloadError::Truncated);
    }
    let len = get_u16(buf) as usize;
    if buf.len() < len {
        return Err(PayloadError::Truncated);
    }
    let body = copy_to_bytes(buf, len);
    let bytes = vstd::slice::slice_to_vec(bytes_as_slice(&body));
    assert(bytes@ == old(buf)@.subrange(2, 2 + len));
    match string_from_utf8(bytes) {
        Ok(s) => Ok(s),
        Err(_) => Err(PayloadError::InvalidUtf8 { field }),
    }
}

/// Reading what was written gives the error back, whatever follows it.
pub proof fn law_error_resp_round_trip(e: ErrorRespView, rest: Seq<u8>)
    requires
        e.message_fits(),
    ensures
        ErrorRespView::read(e.wire() + rest) == Ok::<ErrorRespView, PayloadError>(e),
{
    let b = e.wire() + rest;
    let body = vstd::utf8::encode_utf8(e.message);
    let tail = e.fixed_wire().skip(2) + str_u16_wire(e.message) + rest;
    assert(b == crate::wire::be_u16(e.kind.code()) + tail);
    crate::wire::law_u16_round_trip(e.kind.code(), tail);
    law_kind_round_trip(e.kind);
    let after_code = str_u16_wire(e.message) + rest;
    assert(b.skip(3) == crate::wire::be_i32(e.native_code) + after_code);
    crate::wire::law_i32_round_trip(e.native_code, after_code);
    assert(b.skip(7) == crate::wire::be_u16(body.len() as u16) + (body + rest));
    crate::wire::law_u16_round_trip(body.len() as u16, body + rest);
    assert(b.skip(7).subrange(2, 2 + body.len() as int) == body);
    vstd::utf8::encode_utf8_valid_utf8(e.message);
    vstd::utf8::encode_utf8_decode_utf8(e.message);
}

/// A reply whose kind is not in use reads as an internal error, not as a failure.
pub proof fn law_unknown_kind_is_internal(b: Seq<u8>)
    requires
        b.len() >= FIXED_LEN,
        !ErrorKind::is_code(crate::wire::u16_from_be(b)),
    ensures
        ErrorRespView::read(b) matches Ok(e) ==> e.kind is Internal,
        ErrorRespView::read(b) is Ok <==> str_u16_read(
            b.skip(FIXED_LEN as int),
            "error_message",
        ) is Ok,
{
}

/// The payload of an error has its fields where they belong: the number of the kind in the
/// first two bytes, then whether a retry can help, the native code in four bytes, the length of
/// the message in two, and then the UTF-8 bytes of the whole message.
pub proof fn law_error_resp_layout(e: ErrorRespView)
    requires
        e.message_fits(),
    ensures
        ({
            let b = e.wire();
            let message = vstd::utf8::encode_utf8(e.message);
            let code = b[3] * 0x100_0000 + b[4] * 0x1_0000 + b[5] * 0x100 + b[6];
            &&& b.len() == 9 + message.len()
            &&& b[0] * 256 + b[1] == e.kind.code()
            &&& b[2] == (if e.retryable {
                1int
            } else {
                0int
            })
            &&& (code - e.native_code) % 0x1_0000_0000 == 0
            &&& b[7] * 256 + b[8] == message.len()
            &&& forall|i: int| 0 <= i < message.len() ==> #[trigger] b[9 + i] == message[i]
        }),
{
    let b = e.wire();
    let u = crate::wire::i32_pattern(e.native_code);
    assert(u / 0x1_0000 == u / 0x100_0000 * 0x100 + u / 0x1_0000 % 0x100);
    assert(u / 0x100 == u / 0x1_0000 * 0x100 + u / 0x100 % 0x100);
    assert(u == u / 0x100 * 0x100 + u % 0x100);
    assert(b[3] == u / 0x100_0000);
    assert(b[4] == u / 0x1_0000 % 0x100);
    assert(b[5] == u / 0x100 % 0x100);
    assert(b[6] == u % 0x100);
    let message = vstd::utf8::encode_utf8(e.message);
    assert forall|i: int| 0 <= i < message.len() implies #[trigger] b[9 + i] == message[i] by {
        assert(b[9 + i] == str_u16_wire(e.message)[2 + i]);
    }
}

/// A payload is refused as cut exactly where it is too short for its own message, as not UTF-8
/// exactly where the message is not, and is else read field by field from where the fields
/// belong.
pub proof fn law_error_resp_is_read_by_place(b: Seq<u8>)
    ensures
        ({
            let r = ErrorRespView::read(b);
            let len = b[7] * 256 + b[8];
            let code = b[3] * 0x100_0000 + b[4] * 0x1_0000 + b[5] * 0x100 + b[6];
            let cut = b.len() < 9 || b.len() < 9 + len;
            let body = b.subrange(9, 9 + len);
            &&& cut ==> r == Err::<ErrorRespView, PayloadError>(PayloadError::Truncated)
            &&& !cut && !vstd::utf8::valid_utf8(body) ==> r == Err::<ErrorRespView, PayloadError>(
                PayloadError::InvalidUtf8 { field: "error_message" },
            )
            &&& !cut && vstd::utf8::valid_utf8(body) ==> (r matches Ok(e) && e.message
                == vstd::utf8::decode_utf8(body) && e.retryable == (b[2] != 0) && (e.native_code
                - code) % 0x1_0000_0000 == 0 && (b[0] * 256 + b[1] <= 14 ==> e.kind.code() == b[0]
                * 256 + b[1]) && (b[0] * 256 + b[1] > 14 ==> e.kind is Internal))
        }),
{
    if b.len() >= 7 {
        let tail = b.skip(7);
        if b.len() >= 9 {
            assert(tail[0] == b[7] && tail[1] == b[8]);
            let len = b[7] * 256 + b[8];
            if b.len() >= 9 + len {
                assert(tail.subrange(2, 2 + len) =~= b.subrange(9, 9 + len));
            }
        }
        assert(b.skip(3)[0] == b[3] && b.skip(3)[1] == b[4] && b.skip(3)[2] == b[5] && b.skip(3)[3]
            == b[6]);
        let v = crate::wire::u16_from_be(b);
        if v <= 14 {
            lemma_code_in_use(v);
        }
    }
}

proof fn lemma_code_in_use(v: u16)
    requires
        v <= 14,
    ensures
        ErrorKind::from_code(v).code() == v,
{
    let all = seq![
        ErrorKind::Internal,
        ErrorKind::WorkerUnavailable,
        ErrorKind::Timeout,
        ErrorKind::WorkerDraining,
        ErrorKind::Protocol,
        ErrorKind::ClusterNotRegistered,
        ErrorKind::InvalidArgument,
        ErrorKind::NotTransactional,
        ErrorKind::SubscriptionNotFound,
        ErrorKind::BrokerRetryable,
        ErrorKind::MessageTooLarge,
        ErrorKind::AuthnAuthz,
        ErrorKind::OffsetInvalid,
        ErrorKind::TxnState,
        ErrorKind::UnknownTopicOrPartition,
    ];
    assert(all[v as int].code() == v);
}

/// The number of a kind is its place in the list of the documented names, and its name is the
/// one at that place. A retry is worth trying by default for the kinds numbered 1, 2, 3 and 9.
pub proof fn law_kinds_by_number(kind: ErrorKind)
    ensures
        kind.code() < 15,
        kind.name() == seq![
            "INTERNAL"@,
            "WORKER_UNAVAILABLE"@,
            "TIMEOUT"@,
            "WORKER_DRAINING"@,
            "PROTOCOL"@,
            "CLUSTER_NOT_REGISTERED"@,
            "INVALID_ARGUMENT"@,
            "NOT_TRANSACTIONAL"@,
            "SUBSCRIPTION_NOT_FOUND"@,
            "BROKER_RETRYABLE"@,
            "MESSAGE_TOO_LARGE"@,
            "AUTHN_AUTHZ"@,
            "OFFSET_INVALID"@,
            "TXN_STATE"@,
            "UNKNOWN_TOPIC_OR_PARTITION"@,
        ][kind.code() as int],
        kind.retry_helps() <==> (1 <= kind.code() <= 3 || kind.code() == 9),
        kind is Internal <==> kind.code() == 0,
        kind is WorkerUnavailable <==> kind.code() == 1,
        kind is Timeout <==> kind.code() == 2,
        kind is WorkerDraining <==> kind.code() == 3,
        kind is Protocol <==> kind.code() == 4,
        kind is ClusterNotRegistered <==> kind.code() == 5,
        kind is InvalidArgument <==> kind.code() == 6,
        kind is NotTransactional <==> kind.code() == 7,
        kind is SubscriptionNotFound <==> kind.code() == 8,
        kind is BrokerRetryable <==> kind.code() == 9,
        kind is MessageTooLarge <==> kind.code() == 10,
        kind is AuthnAuthz <==> kind.code() == 11,
        kind is OffsetInvalid <==> kind.code() == 12,
        kind is TxnState <==> kind.code() == 13,
        kind is UnknownTopicOrPartition <==> kind.code() == 14,
{
}

/// A message fits exactly where its UTF-8 bytes can be counted in 16 bits.
pub proof fn law_message_fits(e: ErrorRespView)
    ensures
        e.message_fits() <==> vstd::utf8::encode_utf8(e.message).len() < 0x1_0000,
{
}

/// The contents of an error are all of its fields.
pub proof fn law_error_contents(e: ErrorResp)
    ensures
        e@.kind == e.kind,
        e@.retryable == e.retryable,
        e@.native_code == e.native_code,
        e@.message == e.message@,
{
}

} // verus!
