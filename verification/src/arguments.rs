//! What PHP callers pass, made ready for a request.

use crate::number::to_low_i32;
use crate::text::push_decimal;
use crate::wire::bytes_from_vec;
use bytes::Bytes;
use vstd::prelude::*;
use vstd::slice::slice_to_vec;
use vstd::string::StringExecFns;

verus! {

/// The socket of the worker where nothing else is said.
pub const DEFAULT_SOCKET: &'static str = "/tmp/hi-kafka.sock";

/// The environment variable that names the socket of the worker.
pub const ENV_SOCKET: &'static str = "HI_KAFKA_SOCKET";

/// How long a request may take where nothing else is said, in milliseconds.
pub const DEFAULT_TIMEOUT_MS: i64 = 5000;

/// The text of an argument, if there is one.
pub open spec fn text_of(s: Option<&str>) -> Option<Seq<char>> {
    match s {
        Some(s) => Some(s@),
        None => None,
    }
}

/// The socket to be used.
pub open spec fn socket_for(socket: Option<Seq<char>>, env: Option<Seq<char>>) -> Seq<char> {
    match (socket, env) {
        (Some(s), _) if s.len() > 0 => s,
        (_, Some(s)) => s,
        (_, None) => DEFAULT_SOCKET@,
    }
}

/// The socket to be used: the one that was passed, unless it is empty, else the one that
/// `env`, the value of [`ENV_SOCKET`], names, else [`DEFAULT_SOCKET`].
pub fn resolve_socket(socket: Option<&str>, env: Option<&str>) -> (r: String)
    ensures
        r@ == socket_for(text_of(socket), text_of(env)),
{
    match socket {
        Some(s) => if !s.is_empty() {
            return s.to_owned();
        },
        None => {},
    }
    match env {
        Some(s) => s.to_owned(),
        None => DEFAULT_SOCKET.to_owned(),
    }
}

/// Whether the socket that was passed leaves the choice to the environment.
pub open spec fn leaves_open(socket: Option<Seq<char>>) -> bool {
    match socket {
        Some(s) => s.len() == 0,
        None => true,
    }
}

/// What [`ENV_SOCKET`] held when a caller first left the choice to it. Later values do not
/// count.
#[derive(Debug)]
pub struct SocketEnv {
    first: Option<Option<String>>,
}

impl View for SocketEnv {
    type V = Option<Option<Seq<char>>>;

    closed spec fn view(&self) -> Option<Option<Seq<char>>> {
        match self.first {
            Some(Some(s)) => Some(Some(s@)),
            Some(None) => Some(None),
            None => None,
        }
    }
}

/// What is remembered of the environment, once a socket was resolved while it held `now`.
pub open spec fn settled(
    first: Option<Option<Seq<char>>>,
    socket: Option<Seq<char>>,
    now: Option<Seq<char>>,
) -> Option<Option<Seq<char>>> {
    if first is None && leaves_open(socket) {
        Some(now)
    } else {
        first
    }
}

/// What counts as the environment for this socket: nothing where one was passed.
pub open spec fn env_for(
    first: Option<Option<Seq<char>>>,
    socket: Option<Seq<char>>,
    now: Option<Seq<char>>,
) -> Option<Seq<char>> {
    if leaves_open(socket) {
        settled(first, socket, now)->0
    } else {
        None
    }
}

/// The socket to be used, where `first` is remembered of the environment and it holds `now`.
pub open spec fn resolved(
    first: Option<Option<Seq<char>>>,
    socket: Option<Seq<char>>,
    now: Option<Seq<char>>,
) -> Seq<char> {
    socket_for(socket, env_for(first, socket, now))
}

impl Clone for SocketEnv {
    fn clone(&self) -> (r: Self)
        ensures
            r@ == self@,
    {
        SocketEnv {
            first: match &self.first {
                Some(Some(s)) => Some(Some(s.clone())),
                Some(None) => Some(None),
                None => None,
            },
        }
    }
}

impl SocketEnv {
    /// Nothing is remembered yet.
    pub fn new() -> (r: Self)
        ensures
            r@ is None,
    {
        SocketEnv { first: None }
    }

    /// What counts as the environment for this socket, where it holds `now`.
    pub fn settle(&mut self, socket: Option<&str>, now: Option<&str>) -> (r: Option<String>)
        ensures
            final(self)@ == settled(old(self)@, text_of(socket), text_of(now)),
            match r {
                Some(s) => env_for(old(self)@, text_of(socket), text_of(now)) == Some(s@),
                None => env_for(old(self)@, text_of(socket), text_of(now)) is None,
            },
    {
        match socket {
            Some(s) => if !s.is_empty() {
                return None;
            },
            None => {},
        }
        match &self.first {
            Some(Some(s)) => Some(s.clone()),
            Some(None) => None,
            None => {
                match now {
                    Some(s) => {
                        self.first = Some(Some(s.to_owned()));
                        Some(s.to_owned())
                    },
                    None => {
                        self.first = Some(None);
                        None
                    },
                }
            },
        }
    }

    /// The socket to be used, where the environment holds `now`.
    pub fn resolve(&mut self, socket: Option<&str>, now: Option<&str>) -> (r: String)
        ensures
            r@ == resolved(old(self)@, text_of(socket), text_of(now)),
            final(self)@ == settled(old(self)@, text_of(socket), text_of(now)),
    {
        match self.settle(socket, now) {
            Some(s) => resolve_socket(socket, Some(s.as_str())),
            None => resolve_socket(socket, None),
        }
    }
}

/// A socket that was passed is used whatever the environment holds; else the environment
/// counts as it was when it first mattered, or the default where it named no socket.
pub proof fn law_resolved(
    first: Option<Option<Seq<char>>>,
    socket: Option<Seq<char>>,
    now: Option<Seq<char>>,
)
    ensures
        !leaves_open(socket) ==> Some(resolved(first, socket, now)) == socket,
        leaves_open(socket) ==> resolved(first, socket, now) == (match (match first {
            Some(env) => env,
            None => now,
        }) {
            Some(s) => s,
            None => DEFAULT_SOCKET@,
        }),
{
}

/// Once the environment was asked, what it holds later changes nothing: neither which socket
/// is used, nor what is remembered.
pub proof fn law_first_socket_stands(
    first: Option<Option<Seq<char>>>,
    asking: Option<Seq<char>>,
    then: Option<Seq<char>>,
    socket: Option<Seq<char>>,
    now: Option<Seq<char>>,
)
    requires
        leaves_open(asking),
    ensures
        ({
            let after = settled(first, asking, then);
            &&& after is Some
            &&& settled(after, socket, now) == after
            &&& resolved(after, socket, now) == resolved(after, socket, then)
            &&& first is None ==> resolved(after, socket, now) == socket_for(socket, then)
        }),
{
}

/// How long a request may take, in milliseconds.
pub open spec fn timeout_for(timeout_ms: Option<i64>) -> int {
    let ms = match timeout_ms {
        Some(ms) => ms,
        None => DEFAULT_TIMEOUT_MS,
    };
    if ms < 1 {
        1
    } else {
        ms as int
    }
}

/// How long a request may take, in milliseconds: at least one.
pub fn resolve_timeout(timeout_ms: Option<i64>) -> (r: u64)
    ensures
        r == timeout_for(timeout_ms),
{
    let ms = match timeout_ms {
        Some(ms) => ms,
        None => DEFAULT_TIMEOUT_MS,
    };
    if ms < 1 {
        1
    } else {
        ms as u64
    }
}

/// How a message is to be produced.
#[derive(Debug, PartialEq, Eq)]
pub struct ProduceOptions {
    pub headers: Vec<(String, Bytes)>,
    /// -1 leaves the choice to the partitioner.
    pub partition: i32,
    /// -1 stands for the time at which the message is sent.
    pub timestamp_ms: i64,
}

/// Header values as bytes.
pub open spec fn text_headers(headers: Option<Vec<(String, String)>>) -> Seq<
    (Seq<char>, Seq<u8>),
> {
    match headers {
        Some(v) => v@.map_values(
            |h: (String, String)| (h.0@, vstd::utf8::encode_utf8(h.1@)),
        ),
        None => Seq::empty(),
    }
}

/// The partition to be used: the nearest that there is, or -1 where none was passed.
pub open spec fn partition_for(partition: Option<i64>) -> int {
    match partition {
        None => -1,
        Some(p) => if p < i32::MIN {
            i32::MIN as int
        } else if p > i32::MAX {
            i32::MAX as int
        } else {
            p as int
        },
    }
}

/// The timestamp to be used, or -1 where none was passed.
pub open spec fn timestamp_for(timestamp_ms: Option<i64>) -> int {
    match timestamp_ms {
        Some(t) => t as int,
        None => -1,
    }
}

/// How a message is to be produced, by what was passed.
pub fn build_options(
    headers: Option<Vec<(String, String)>>,
    partition: Option<i64>,
    timestamp_ms: Option<i64>,
) -> (r: ProduceOptions)
    ensures
        crate::messages::header_views(r.headers@) == text_headers(headers),
        r.partition == partition_for(partition),
        r.timestamp_ms == timestamp_for(timestamp_ms),
{
    let mut out: Vec<(String, Bytes)> = Vec::new();
    match &headers {
        Some(v) => {
            let mut i: usize = 0;
            while i < v.len()
                invariant
                    i <= v@.len(),
                    crate::messages::header_views(out@) == v@.take(i as int).map_values(
                        |h: (String, String)| (h.0@, vstd::utf8::encode_utf8(h.1@)),
                    ),
                decreases v@.len() - i,
            {
                let ghost before = out@;
                out.push((v[i].0.clone(), bytes_from_vec(slice_to_vec(v[i].1.as_str().as_bytes()))));
                assert(v@.take(i + 1) =~= v@.take(i as int).push(v@[i as int]));
                assert(crate::messages::header_views(out@) =~= crate::messages::header_views(
                    before,
                ).push((v@[i as int].0@, vstd::utf8::encode_utf8(v@[i as int].1@))));
                i += 1;
            }
            assert(v@.take(i as int) =~= v@);
        },
        None => {},
    }
    ProduceOptions {
        headers: out,
        partition: match partition {
            None => -1,
            Some(p) => if p < i32::MIN as i64 {
                i32::MIN
            } else if p > i32::MAX as i64 {
                i32::MAX
            } else {
                p as i32
            },
        },
        timestamp_ms: match timestamp_ms {
            Some(t) => t,
            None => -1,
        },
    }
}

/// Says that three arrays differ in length.
pub open spec fn three_lengths(topics: nat, partitions: nat, offsets: nat) -> Seq<char> {
    "topics("@ + crate::text::decimal(topics) + "), partitions("@ + crate::text::decimal(
        partitions,
    ) + "), offsets("@ + crate::text::decimal(offsets) + ") 长度必须一致"@
}

/// Joins three arrays, which have to be of one length, to triples of topic, partition and
/// offset.
pub fn build_offset_targets(
    topics: Vec<String>,
    partitions: Vec<i64>,
    offsets: Vec<i64>,
) -> (r: Result<Vec<(String, i32, i64)>, String>)
    ensures
        match r {
            Ok(v) => topics@.len() == partitions@.len() == offsets@.len() && v@ == Seq::new(
                topics@.len(),
                |i: int| (topics@[i], crate::number::low_i32(partitions@[i]), offsets@[i]),
            ),
            Err(e) => !(topics@.len() == partitions@.len() == offsets@.len()) && e@
                == three_lengths(topics@.len(), partitions@.len(), offsets@.len()),
        },
{
    if topics.len() != partitions.len() || topics.len() != offsets.len() {
        let mut e = "topics(".to_owned();
        push_decimal(&mut e, topics.len() as u64);
        e.append("), partitions(");
        push_decimal(&mut e, partitions.len() as u64);
        e.append("), offsets(");
        push_decimal(&mut e, offsets.len() as u64);
        e.append(") 长度必须一致");
        return Err(e);
    }
    let mut v: Vec<(String, i32, i64)> = Vec::new();
    let mut i: usize = 0;
    while i < topics.len()
        invariant
            i <= topics@.len(),
            topics@.len() == partitions@.len() == offsets@.len(),
            v@ == Seq::new(
                i as nat,
                |j: int| (topics@[j], crate::number::low_i32(partitions@[j]), offsets@[j]),
            ),
        decreases topics@.len() - i,
    {
        v.push((topics[i].clone(), to_low_i32(partitions[i]), offsets[i]));
        i += 1;
    }
    Ok(v)
}

/// Says that two arrays of header names and values differ in length.
pub open spec fn header_lengths(names: nat, values: nat) -> Seq<char> {
    "header names("@ + crate::text::decimal(names) + ") 和 values("@ + crate::text::decimal(values)
        + ") 长度必须一致"@
}

/// Joins two arrays, which have to be of one length, to message headers.
pub fn build_binary_headers(names: Vec<String>, values: Vec<Vec<u8>>) -> (r: Result<
    Vec<(String, Bytes)>,
    String,
>)
    ensures
        match r {
            Ok(v) => names@.len() == values@.len() && crate::messages::header_views(v@)
                == Seq::new(names@.len(), |i: int| (names@[i]@, values@[i]@)),
            Err(e) => names@.len() != values@.len() && e@ == header_lengths(
                names@.len(),
                values@.len(),
            ),
        },
{
    if names.len() != values.len() {
        let mut e = "header names(".to_owned();
        push_decimal(&mut e, names.len() as u64);
        e.append(") 和 values(");
        push_decimal(&mut e, values.len() as u64);
        e.append(") 长度必须一致");
        return Err(e);
    }
    let mut v: Vec<(String, Bytes)> = Vec::new();
    let mut i: usize = 0;
    while i < names.len()
        invariant
            i <= names@.len(),
            names@.len() == values@.len(),
            crate::messages::header_views(v@) == Seq::new(
                i as nat,
                |j: int| (names@[j]@, values@[j]@),
            ),
        decreases names@.len() - i,
    {
        let ghost before = v@;
        v.push((names[i].clone(), bytes_from_vec(slice_to_vec(values[i].as_slice()))));
        assert(crate::messages::header_views(v@) =~= crate::messages::header_views(before).push(
            (names@[i as int]@, values@[i as int]@),
        ));
        i += 1;
    }
    Ok(v)
}

/// Says that two arrays of topics and partitions differ in length.
pub open spec fn two_lengths(topics: nat, partitions: nat) -> Seq<char> {
    "topics("@ + crate::text::decimal(topics) + ") 和 partitions("@ + crate::text::decimal(
        partitions,
    ) + ") 长度必须一致"@
}

/// Joins two arrays, which have to be of one length, to pairs of topic and partition. None
/// at all stand for all partitions that are read.
pub fn build_partition_specs(topics: Vec<String>, partitions: Vec<i64>) -> (r: Result<
    Vec<(String, i32)>,
    String,
>)
    ensures
        match r {
            Ok(v) => topics@.len() == partitions@.len() && v@ == Seq::new(
                topics@.len(),
                |i: int| (topics@[i], crate::number::low_i32(partitions@[i])),
            ),
            Err(e) => topics@.len() != partitions@.len() && e@ == two_lengths(
                topics@.len(),
                partitions@.len(),
            ),
        },
{
    if topics.len() != partitions.len() {
        let mut e = "topics(".to_owned();
        push_decimal(&mut e, topics.len() as u64);
        e.append(") 和 partitions(");
        push_decimal(&mut e, partitions.len() as u64);
        e.append(") 长度必须一致");
        return Err(e);
    }
    let mut v: Vec<(String, i32)> = Vec::new();
    let mut i: usize = 0;
    while i < topics.len()
        invariant
            i <= topics@.len(),
            topics@.len() == partitions@.len(),
            v@ == Seq::new(i as nat, |j: int| (topics@[j], crate::number::low_i32(partitions@[j]))),
        decreases topics@.len() - i,
    {
        v.push((topics[i].clone(), to_low_i32(partitions[i])));
        i += 1;
    }
    Ok(v)
}

/// An argument that is there counts with all its text.
pub proof fn law_text_of(s: &str)
    ensures
        text_of(Some(s)) == Some(s@),
        text_of(None) == None::<Seq<char>>,
{
}

/// A socket that was passed is used as it is; else the one that the environment names, even
/// an empty one, and else `/tmp/hi-kafka.sock`.
pub proof fn law_socket_in_order(socket: Option<Seq<char>>, env: Option<Seq<char>>)
    ensures
        socket is Some && socket->0.len() > 0 ==> socket_for(socket, env) == socket->0,
        (socket is None || socket->0.len() == 0) && env is Some ==> socket_for(socket, env)
            == env->0,
        (socket is None || socket->0.len() == 0) && env is None ==> socket_for(socket, env)
            == "/tmp/hi-kafka.sock"@,
{
    assert(DEFAULT_SOCKET@ == "/tmp/hi-kafka.sock"@);
}

/// Where several sockets are resolved in turn, each caller that passes one gets it, and all
/// others get what the environment held at the first of them.
pub proof fn law_sockets_in_turn(
    first: Option<Option<Seq<char>>>,
    socket: Option<Seq<char>>,
    now: Option<Seq<char>>,
)
    ensures
        socket is Some && socket->0.len() > 0 ==> resolved(first, socket, now) == socket->0
            && settled(first, socket, now) == first,
        (socket is None || socket->0.len() == 0) && first is None ==> settled(first, socket, now)
            == Some(now),
        (socket is None || socket->0.len() == 0) && first is Some ==> settled(first, socket, now)
            == first,
        (socket is None || socket->0.len() == 0) ==> ({
            let counts = if first is Some {
                first->0
            } else {
                now
            };
            &&& counts is Some ==> resolved(first, socket, now) == counts->0
            &&& counts is None ==> resolved(first, socket, now) == "/tmp/hi-kafka.sock"@
        }),
        env_for(first, socket, now) is Some ==> (socket is None || socket->0.len() == 0),
{
    assert(DEFAULT_SOCKET@ == "/tmp/hi-kafka.sock"@);
}

/// A timeout is the one that was passed, raised to a millisecond, or five seconds.
pub proof fn law_timeout(ms: i64)
    ensures
        timeout_for(None) == 5000,
        timeout_for(Some(ms)) >= 1,
        timeout_for(Some(ms)) >= ms,
        timeout_for(Some(ms)) == ms || (timeout_for(Some(ms)) == 1 && ms < 1),
{
}

/// All headers that were passed are there, in order: each with its name, and with the UTF-8
/// bytes of its text as its value. Where none were passed there are none.
pub proof fn law_text_headers_are_all_there(headers: Vec<(String, String)>)
    ensures
        text_headers(None).len() == 0,
        text_headers(Some(headers)).len() == headers@.len(),
        forall|i: int|
            0 <= i < headers@.len() ==> (#[trigger] text_headers(Some(headers))[i]).0
                == headers@[i].0@ && text_headers(Some(headers))[i].1 == vstd::utf8::encode_utf8(
                headers@[i].1@,
            ),
{
}

/// The options of a message hold every header that was passed, in order, and no other; the
/// value of each reads back as the text that was passed.
pub proof fn law_options_keep_the_headers(headers: Vec<(String, String)>, options: ProduceOptions)
    requires
        crate::messages::header_views(options.headers@) == text_headers(Some(headers)),
    ensures
        options.headers@.len() == headers@.len(),
        forall|i: int|
            0 <= i < headers@.len() ==> (#[trigger] options.headers@[i]).0@ == headers@[i].0@
                && crate::wire::bytes_contents(options.headers@[i].1) == vstd::utf8::encode_utf8(
                headers@[i].1@,
            ) && vstd::utf8::decode_utf8(crate::wire::bytes_contents(options.headers@[i].1))
                == headers@[i].1@,
{
    let views = crate::messages::header_views(options.headers@);
    crate::messages::law_headers_are_all_there(options.headers@);
    law_text_headers_are_all_there(headers);
    assert forall|i: int| 0 <= i < headers@.len() implies (#[trigger] options.headers@[i]).0@
        == headers@[i].0@ && crate::wire::bytes_contents(options.headers@[i].1)
        == vstd::utf8::encode_utf8(headers@[i].1@) && vstd::utf8::decode_utf8(
        crate::wire::bytes_contents(options.headers@[i].1),
    ) == headers@[i].1@ by {
        assert(views[i] == text_headers(Some(headers))[i]);
        vstd::utf8::encode_utf8_decode_utf8(headers@[i].1@);
    }
}

/// A partition that there can be is kept; one beyond is brought to the nearest bound; and -1
/// stands for none.
pub proof fn law_partition_is_nearest(p: i64)
    ensures
        partition_for(None) == -1,
        i32::MIN <= partition_for(Some(p)) <= i32::MAX,
        i32::MIN <= p <= i32::MAX ==> partition_for(Some(p)) == p,
        p < i32::MIN ==> partition_for(Some(p)) == i32::MIN,
        p > i32::MAX ==> partition_for(Some(p)) == i32::MAX,
{
}

/// A timestamp that was passed is kept, and -1 stands for none.
pub proof fn law_timestamp_is_kept(t: i64)
    ensures
        timestamp_for(None) == -1,
        timestamp_for(Some(t)) == t,
{
}

/// Arrays that differ in length are refused with all their lengths.
pub proof fn law_length_words(a: nat, b: nat, c: nat)
    ensures
        three_lengths(a, b, c) == "topics("@ + crate::text::decimal(a) + "), partitions("@
            + crate::text::decimal(b) + "), offsets("@ + crate::text::decimal(c)
            + ") 长度必须一致"@,
        header_lengths(a, b) == "header names("@ + crate::text::decimal(a) + ") 和 values("@
            + crate::text::decimal(b) + ") 长度必须一致"@,
        two_lengths(a, b) == "topics("@ + crate::text::decimal(a) + ") 和 partitions("@
            + crate::text::decimal(b) + ") 长度必须一致"@,
{
}

/// The socket goes by its documented variable and default.
pub proof fn law_documented_socket()
    ensures
        ENV_SOCKET@ == "HI_KAFKA_SOCKET"@,
        DEFAULT_SOCKET@ == "/tmp/hi-kafka.sock"@,
{
}

} // verus!
