//! What the extension and the worker say to each other.
//!
//! These are the contents of the messages. How they are written as bytes is the business
//! of the frame codec, which callers bring along.

use bytes::Bytes;
use vstd::prelude::*;

verus! {

/// A message to be produced.
#[derive(Debug)]
pub struct ProduceFnf {
    pub cluster: String,
    pub topic: String,
    pub key: Bytes,
    pub value: Bytes,
    /// -1 leaves the choice to the partitioner.
    pub partition: i32,
    /// -1 stands for the time at which the message is sent.
    pub timestamp_ms: i64,
    pub headers: Vec<(String, Bytes)>,
}

/// A [`ProduceFnf`] as a mathematical value.
pub struct ProduceView {
    pub cluster: Seq<char>,
    pub topic: Seq<char>,
    pub key: Seq<u8>,
    pub value: Seq<u8>,
    pub partition: i32,
    pub timestamp_ms: i64,
    pub headers: Seq<(Seq<char>, Seq<u8>)>,
}

/// The names and values of message headers.
pub open spec fn header_views(headers: Seq<(String, Bytes)>) -> Seq<(Seq<char>, Seq<u8>)> {
    headers.map_values(|h: (String, Bytes)| (h.0@, crate::wire::bytes_contents(h.1)))
}

impl View for ProduceFnf {
    type V = ProduceView;

    open spec fn view(&self) -> ProduceView {
        ProduceView {
            cluster: self.cluster@,
            topic: self.topic@,
            key: crate::wire::bytes_contents(self.key),
            value: crate::wire::bytes_contents(self.value),
            partition: self.partition,
            timestamp_ms: self.timestamp_ms,
            headers: header_views(self.headers@),
        }
    }
}

/// Where a message was stored.
#[derive(Debug, Clone, Copy, PartialEq, Eq, Structural)]
pub struct ProduceAck {
    pub partition: i32,
    pub offset: i64,
}

/// Why a message was not stored.
#[derive(Debug, PartialEq, Eq)]
pub struct ProduceErr {
    pub code: i32,
    pub message: String,
    pub retryable: bool,
}

/// The answer to a produce request.
#[derive(Debug, PartialEq, Eq)]
pub enum ProduceResp {
    Done(ProduceAck),
    Failed(ProduceErr),
}

/// Asks for a subscription of a consumer group to topics.
#[derive(Debug, PartialEq, Eq)]
pub struct SubscribeReq {
    pub cluster: String,
    pub group_id: String,
    pub topics: Vec<String>,
    pub config: Vec<(String, String)>,
}

/// The answer to a [`SubscribeReq`].
#[derive(Debug, PartialEq, Eq)]
pub enum SubscribeResp {
    Done { subscription_id: u64 },
    Failed { message: String },
}

/// Asks for messages of a subscription.
#[derive(Debug, Clone, Copy, PartialEq, Eq, Structural)]
pub struct PollReq {
    pub subscription_id: u64,
    pub max_messages: u32,
    pub timeout_ms: u32,
}

/// A message that was consumed.
#[derive(Debug, PartialEq, Eq)]
pub struct ConsumerMessage {
    pub topic: String,
    pub partition: i32,
    pub offset: i64,
    pub timestamp_ms: i64,
    pub key: Bytes,
    pub value: Bytes,
    pub headers: Vec<(String, Bytes)>,
}

/// The answer to a [`PollReq`].
#[derive(Debug, PartialEq, Eq)]
pub enum PollResp {
    Done { messages: Vec<ConsumerMessage> },
    Failed { message: String },
}

/// Asks that what a subscription has consumed be committed.
#[derive(Debug, Clone, Copy, PartialEq, Eq, Structural)]
pub struct CommitReq {
    pub subscription_id: u64,
}

/// The answer to a [`CommitReq`].
#[derive(Debug, PartialEq, Eq)]
pub enum CommitResp {
    Done,
    Failed { message: String },
}

/// Ends a subscription. It is not answered.
#[derive(Debug, Clone, Copy, PartialEq, Eq, Structural)]
pub struct UnsubscribeReq {
    pub subscription_id: u64,
}

/// Makes a Kafka cluster known under a name.
#[derive(Debug, PartialEq, Eq)]
pub struct RegisterClusterReq {
    pub cluster: String,
    pub config: Vec<(String, String)>,
}

/// The answer to a [`RegisterClusterReq`].
#[derive(Debug, PartialEq, Eq)]
pub enum RegisterClusterResp {
    Done,
    Failed { message: String },
}

/// A change in which partitions a subscription reads.
#[derive(Debug, PartialEq, Eq)]
pub enum RebalanceEvent {
    Assign { partitions: Vec<(String, i32)> },
    Revoke { partitions: Vec<(String, i32)> },
    Error { message: String },
}

/// The contents of a message are all of its fields, with each header, its name and its value,
/// in its place.
pub proof fn law_message_contents(m: ProduceFnf)
    ensures
        m@.cluster == m.cluster@,
        m@.topic == m.topic@,
        m@.key == crate::wire::bytes_contents(m.key),
        m@.value == crate::wire::bytes_contents(m.value),
        m@.partition == m.partition,
        m@.timestamp_ms == m.timestamp_ms,
        m@.headers.len() == m.headers@.len(),
        forall|i: int|
            0 <= i < m.headers@.len() ==> (#[trigger] m@.headers[i]).0 == m.headers@[i].0@
                && m@.headers[i].1 == crate::wire::bytes_contents(m.headers@[i].1),
{
}

/// No header is lost, and none is changed.
pub proof fn law_headers_are_all_there(headers: Seq<(String, Bytes)>)
    ensures
        header_views(headers).len() == headers.len(),
        forall|i: int|
            0 <= i < headers.len() ==> (#[trigger] header_views(headers)[i]).0 == headers[i].0@
                && header_views(headers)[i].1 == crate::wire::bytes_contents(headers[i].1),
{
}

} // verus!
