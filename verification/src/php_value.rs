//! Values that are handed to PHP.
//!
//! An array is given by what is put into it, in order: of two entries with one key, the
//! later replaces the earlier.

use crate::messages::{ConsumerMessage, RebalanceEvent};
use crate::wire::bytes_as_slice;
use bytes::Bytes;
use vstd::prelude::*;
use vstd::slice::slice_to_vec;

verus! {

/// A PHP value.
#[derive(Debug, PartialEq, Eq)]
pub enum PhpValue {
    Int(i64),
    Bool(bool),
    /// A string that is text.
    Text(String),
    /// A string of any bytes.
    Binary(Vec<u8>),
    /// An array with these keys.
    Assoc(Vec<(String, PhpValue)>),
    /// An array with the keys 0, 1, 2 and so on.
    List(Vec<PhpValue>),
}

/// A [`PhpValue`] as a mathematical value.
#[verifier::ext_equal]
pub enum PhpModel {
    Int(i64),
    Bool(bool),
    Text(Seq<char>),
    Binary(Seq<u8>),
    Assoc(Seq<(Seq<char>, PhpModel)>),
    List(Seq<PhpModel>),
}

impl PhpValue {
    pub open spec fn model(self) -> PhpModel
        decreases self,
    {
        match self {
            PhpValue::Int(n) => PhpModel::Int(n),
            PhpValue::Bool(b) => PhpModel::Bool(b),
            PhpValue::Text(s) => PhpModel::Text(s@),
            PhpValue::Binary(b) => PhpModel::Binary(b@),
            PhpValue::Assoc(v) => PhpModel::Assoc(
                Seq::new(
                    v@.len(),
                    |i: int|
                        if 0 <= i < v@.len() {
                            (v@[i].0@, v@[i].1.model())
                        } else {
                            arbitrary()
                        },
                ),
            ),
            PhpValue::List(v) => PhpModel::List(
                Seq::new(
                    v@.len(),
                    |i: int|
                        if 0 <= i < v@.len() {
                            v@[i].model()
                        } else {
                            arbitrary()
                        },
                ),
            ),
        }
    }
}

/// The entries of an array.
pub open spec fn entry_models(v: Seq<(String, PhpValue)>) -> Seq<(Seq<char>, PhpModel)> {
    Seq::new(v.len(), |i: int| (v[i].0@, v[i].1.model()))
}

/// The elements of a list.
pub open spec fn element_models(v: Seq<PhpValue>) -> Seq<PhpModel> {
    Seq::new(v.len(), |i: int| v[i].model())
}

/// What an array holds under a key: of the values that were put there, the last.
pub open spec fn lookup(entries: Seq<(Seq<char>, PhpModel)>, key: Seq<char>) -> Option<PhpModel>
    decreases entries.len(),
{
    if entries.len() == 0 {
        None
    } else if entries.last().0 == key {
        Some(entries.last().1)
    } else {
        lookup(entries.drop_last(), key)
    }
}

impl PhpModel {
    /// What the value holds under a key, where it is an array.
    pub open spec fn at(self, key: Seq<char>) -> Option<PhpModel> {
        match self {
            PhpModel::Assoc(entries) => lookup(entries, key),
            _ => None,
        }
    }
}

/// An array holds under a key what was put there last, and nothing where nothing was put.
pub proof fn law_last_entry_counts(
    entries: Seq<(Seq<char>, PhpModel)>,
    key: Seq<char>,
    i: int,
)
    requires
        -1 <= i < entries.len(),
        i >= 0 ==> entries[i].0 == key,
        forall|j: int| i < j < entries.len() ==> (#[trigger] entries[j]).0 != key,
    ensures
        lookup(entries, key) == (if i >= 0 {
            Some(entries[i].1)
        } else {
            None
        }),
    decreases entries.len(),
{
    if entries.len() > 0 && i < entries.len() - 1 {
        let before = entries.drop_last();
        assert forall|j: int| i < j < before.len() implies (#[trigger] before[j]).0 != key by {
            assert(before[j] == entries[j]);
        }
        law_last_entry_counts(before, key, i);
    }
}

/// Puts a value into an array under a key.
pub(crate) fn put(entries: &mut Vec<(String, PhpValue)>, key: &str, value: PhpValue)
    ensures
        entry_models(final(entries)@) == entry_models(old(entries)@).push((key@, value.model())),
{
    entries.push((key.to_owned(), value));
}

/// The array of these entries.
pub(crate) fn assoc(entries: Vec<(String, PhpValue)>) -> (r: PhpValue)
    ensures
        r.model() == PhpModel::Assoc(entry_models(entries@)),
{
    let r = PhpValue::Assoc(entries);
    assert(r.model()->Assoc_0 =~= entry_models(entries@));
    r
}

/// The list of these elements.
pub(crate) fn list(elements: Vec<PhpValue>) -> (r: PhpValue)
    ensures
        r.model() == PhpModel::List(element_models(elements@)),
{
    let r = PhpValue::List(elements);
    assert(r.model()->List_0 =~= element_models(elements@));
    r
}

/// The bytes as a PHP string. PHP strings hold any bytes.
pub fn bytes_to_php_string(bytes: &[u8]) -> (r: PhpValue)
    ensures
        r.model() == PhpModel::Binary(bytes@),
{
    PhpValue::Binary(slice_to_vec(bytes))
}

pub open spec fn partition_model(p: (String, i32)) -> PhpModel {
    PhpModel::Assoc(
        seq![("topic"@, PhpModel::Text(p.0@)), ("partition"@, PhpModel::Int(p.1 as i64))],
    )
}

pub open spec fn partitions_model(parts: Seq<(String, i32)>) -> PhpModel {
    PhpModel::List(parts.map_values(|p: (String, i32)| partition_model(p)))
}

/// A list of partitions, each with the keys `topic` and `partition`.
pub fn partitions_to_zval(parts: &Vec<(String, i32)>) -> (r: PhpValue)
    ensures
        r.model() == partitions_model(parts@),
{
    let mut elements: Vec<PhpValue> = Vec::new();
    let mut i: usize = 0;
    while i < parts.len()
        invariant
            i <= parts@.len(),
            element_models(elements@) == parts@.take(i as int).map_values(
                |p: (String, i32)| partition_model(p),
            ),
        decreases parts@.len() - i,
    {
        let ghost before = elements@;
        let mut entries: Vec<(String, PhpValue)> = Vec::new();
        put(&mut entries, "topic", PhpValue::Text(parts[i].0.clone()));
        put(&mut entries, "partition", PhpValue::Int(parts[i].1 as i64));
        assert(entry_models(entries@) =~= seq![
            ("topic"@, PhpModel::Text(parts@[i as int].0@)),
            ("partition"@, PhpModel::Int(parts@[i as int].1 as i64)),
        ]);
        elements.push(assoc(entries));
        assert(element_models(elements@) =~= element_models(before).push(
            partition_model(parts@[i as int]),
        ));
        assert(parts@.take(i + 1) =~= parts@.take(i as int).push(parts@[i as int]));
        i += 1;
    }
    assert(parts@.take(i as int) =~= parts@);
    list(elements)
}

pub open spec fn event_model(e: RebalanceEvent) -> PhpModel {
    match e {
        RebalanceEvent::Assign { partitions } => PhpModel::Assoc(
            seq![
                ("type"@, PhpModel::Text("assign"@)),
                ("partitions"@, partitions_model(partitions@)),
            ],
        ),
        RebalanceEvent::Revoke { partitions } => PhpModel::Assoc(
            seq![
                ("type"@, PhpModel::Text("revoke"@)),
                ("partitions"@, partitions_model(partitions@)),
            ],
        ),
        RebalanceEvent::Error { message } => PhpModel::Assoc(
            seq![("type"@, PhpModel::Text("error"@)), ("message"@, PhpModel::Text(message@))],
        ),
    }
}

/// One event, with its `type` and then its `partitions` or its `message`.
fn event_to_zval(event: &RebalanceEvent) -> (r: PhpValue)
    ensures
        r.model() == event_model(*event),
{
    let mut entries: Vec<(String, PhpValue)> = Vec::new();
    match event {
        RebalanceEvent::Assign { partitions } => {
            put(&mut entries, "type", PhpValue::Text("assign".to_owned()));
            put(&mut entries, "partitions", partitions_to_zval(partitions));
        },
        RebalanceEvent::Revoke { partitions } => {
            put(&mut entries, "type", PhpValue::Text("revoke".to_owned()));
            put(&mut entries, "partitions", partitions_to_zval(partitions));
        },
        RebalanceEvent::Error { message } => {
            put(&mut entries, "type", PhpValue::Text("error".to_owned()));
            put(&mut entries, "message", PhpValue::Text(message.clone()));
        },
    }
    assert(PhpModel::Assoc(entry_models(entries@)) == event_model(*event)) by {
        assert(entry_models(entries@) =~= event_model(*event)->Assoc_0);
    }
    assoc(entries)
}

/// A list of rebalance events.
pub fn rebalance_events_to_zval(events: Vec<RebalanceEvent>) -> (r: PhpValue)
    ensures
        r.model() == PhpModel::List(events@.map_values(|e: RebalanceEvent| event_model(e))),
{
    let mut elements: Vec<PhpValue> = Vec::new();
    let mut i: usize = 0;
    while i < events.len()
        invariant
            i <= events@.len(),
            element_models(elements@) == events@.take(i as int).map_values(
                |e: RebalanceEvent| event_model(e),
            ),
        decreases events@.len() - i,
    {
        let ghost before = elements@;
        elements.push(event_to_zval(&events[i]));
        assert(element_models(elements@) =~= element_models(before).push(
            event_model(events@[i as int]),
        ));
        assert(events@.take(i + 1) =~= events@.take(i as int).push(events@[i as int]));
        i += 1;
    }
    assert(events@.take(i as int) =~= events@);
    list(elements)
}

pub open spec fn headers_model(headers: Seq<(String, Bytes)>) -> PhpModel {
    PhpModel::Assoc(
        headers.map_values(
            |h: (String, Bytes)| (h.0@, PhpModel::Binary(crate::wire::bytes_contents(h.1))),
        ),
    )
}

/// Message headers, each value under its name.
fn headers_to_zval(headers: &Vec<(String, Bytes)>) -> (r: PhpValue)
    ensures
        r.model() == headers_model(headers@),
{
    let mut entries: Vec<(String, PhpValue)> = Vec::new();
    let mut i: usize = 0;
    while i < headers.len()
        invariant
            i <= headers@.len(),
            entry_models(entries@) == headers_model(headers@.take(i as int))->Assoc_0,
        decreases headers@.len() - i,
    {
        put(
            &mut entries,
            headers[i].0.as_str(),
            bytes_to_php_string(bytes_as_slice(&headers[i].1)),
        );
        assert(headers@.take(i + 1) =~= headers@.take(i as int).push(headers@[i as int]));
        i += 1;
    }
    assert(headers@.take(i as int) =~= headers@);
    assoc(entries)
}

pub open spec fn message_model(m: ConsumerMessage) -> PhpModel {
    PhpModel::Assoc(
        seq![
            ("topic"@, PhpModel::Text(m.topic@)),
            ("partition"@, PhpModel::Int(m.partition as i64)),
            ("offset"@, PhpModel::Int(m.offset)),
            ("timestamp_ms"@, PhpModel::Int(m.timestamp_ms)),
            ("key"@, PhpModel::Binary(crate::wire::bytes_contents(m.key))),
            ("value"@, PhpModel::Binary(crate::wire::bytes_contents(m.value))),
            ("headers"@, headers_model(m.headers@)),
        ],
    )
}

pub open spec fn messages_model(messages: Seq<ConsumerMessage>) -> PhpModel {
    PhpModel::List(messages.map_values(|m: ConsumerMessage| message_model(m)))
}

/// One consumed message.
fn message_to_zval(m: &ConsumerMessage) -> (r: PhpValue)
    ensures
        r.model() == message_model(*m),
{
    let mut entries: Vec<(String, PhpValue)> = Vec::new();
    put(&mut entries, "topic", PhpValue::Text(m.topic.clone()));
    put(&mut entries, "partition", PhpValue::Int(m.partition as i64));
    put(&mut entries, "offset", PhpValue::Int(m.offset));
    put(&mut entries, "timestamp_ms", PhpValue::Int(m.timestamp_ms));
    put(&mut entries, "key", bytes_to_php_string(bytes_as_slice(&m.key)));
    put(&mut entries, "value", bytes_to_php_string(bytes_as_slice(&m.value)));
    put(&mut entries, "headers", headers_to_zval(&m.headers));
    assert(entry_models(entries@) =~= message_model(*m)->Assoc_0);
    assoc(entries)
}

/// A list of consumed messages.
pub fn messages_to_zval(messages: Vec<ConsumerMessage>) -> (r: PhpValue)
    ensures
        r.model() == messages_model(messages@),
{
    let mut elements: Vec<PhpValue> = Vec::new();
    let mut i: usize = 0;
    while i < messages.len()
        invariant
            i <= messages@.len(),
            element_models(elements@) == messages@.take(i as int).map_values(
                |m: ConsumerMessage| message_model(m),
            ),
        decreases messages@.len() - i,
    {
        let ghost before = elements@;
        elements.push(message_to_zval(&messages[i]));
        assert(element_models(elements@) =~= element_models(before).push(
            message_model(messages@[i as int]),
        ));
        assert(messages@.take(i + 1) =~= messages@.take(i as int).push(messages@[i as int]));
        i += 1;
    }
    assert(messages@.take(i as int) =~= messages@);
    list(elements)
}

/// PHP sees of a message, under the name of a header, the value of the last header of that
/// name, and nothing under a name that no header has.
pub proof fn law_last_header_counts(m: ConsumerMessage, name: Seq<char>, i: int)
    requires
        -1 <= i < m.headers@.len(),
        i >= 0 ==> m.headers@[i].0@ == name,
        forall|j: int| i < j < m.headers@.len() ==> (#[trigger] m.headers@[j]).0@ != name,
    ensures
        message_model(m).at("headers"@) matches Some(headers) && headers.at(name) == (if i >= 0 {
            Some(PhpModel::Binary(crate::wire::bytes_contents(m.headers@[i].1)))
        } else {
            None
        }),
{
    let entries = headers_model(m.headers@)->Assoc_0;
    assert forall|j: int| i < j < entries.len() implies (#[trigger] entries[j]).0 != name by {
        assert(entries[j].0 == m.headers@[j].0@);
    }
    law_last_entry_counts(entries, name, i);
    assert(message_model(m)->Assoc_0.last() == ("headers"@, headers_model(m.headers@)));
}

/// Whether two keys differ in their length or in their first character.
pub open spec fn apart(a: Seq<char>, b: Seq<char>) -> bool {
    a.len() != b.len() || (a.len() > 0 && a[0] != b[0])
}

/// An entry whose key no later entry has is what an array holds under that key.
pub proof fn lemma_entry_counts(entries: Seq<(Seq<char>, PhpModel)>, i: int)
    requires
        0 <= i < entries.len(),
        forall|j: int| i < j < entries.len() ==> apart(entries[i].0, (#[trigger] entries[j]).0),
    ensures
        PhpModel::Assoc(entries).at(entries[i].0) == Some(entries[i].1),
{
    assert forall|j: int| i < j < entries.len() implies (#[trigger] entries[j]).0
        != entries[i].0 by {
        assert(apart(entries[i].0, entries[j].0));
    }
    law_last_entry_counts(entries, entries[i].0, i);
}

/// What PHP sees is what the value holds: numbers, truth values and strings as they are, and
/// of an array every entry, of a list every element, in order.
pub proof fn law_values_are_seen_whole(
    n: i64,
    b: bool,
    text: String,
    bytes: Vec<u8>,
    entries: Vec<(String, PhpValue)>,
    elements: Vec<PhpValue>,
)
    ensures
        PhpValue::Int(n).model() == PhpModel::Int(n),
        PhpValue::Bool(b).model() == PhpModel::Bool(b),
        PhpValue::Text(text).model() == PhpModel::Text(text@),
        PhpValue::Binary(bytes).model() == PhpModel::Binary(bytes@),
        PhpValue::Assoc(entries).model() matches PhpModel::Assoc(seen) && seen.len()
            == entries@.len() && (forall|i: int|
            0 <= i < entries@.len() ==> (#[trigger] seen[i]).0 == entries@[i].0@ && seen[i].1
                == entries@[i].1.model()),
        PhpValue::List(elements).model() matches PhpModel::List(seen) && seen.len()
            == elements@.len() && (forall|i: int|
            0 <= i < elements@.len() ==> #[trigger] seen[i] == elements@[i].model()),
{
}

/// PHP sees of one message its topic, partition, offset, timestamp, key and value under these
/// names.
pub proof fn law_message_is_seen_whole(m: ConsumerMessage)
    ensures
        message_model(m).at("topic"@) == Some(PhpModel::Text(m.topic@)),
        message_model(m).at("partition"@) == Some(PhpModel::Int(m.partition as i64)),
        message_model(m).at("offset"@) == Some(PhpModel::Int(m.offset)),
        message_model(m).at("timestamp_ms"@) == Some(PhpModel::Int(m.timestamp_ms)),
        message_model(m).at("key"@) == Some(PhpModel::Binary(crate::wire::bytes_contents(m.key))),
        message_model(m).at("value"@) == Some(
            PhpModel::Binary(crate::wire::bytes_contents(m.value)),
        ),
        message_model(m).at("headers"@) matches Some(PhpModel::Assoc(seen)) && seen.len()
            == m.headers@.len() && (forall|i: int|
            0 <= i < m.headers@.len() ==> (#[trigger] seen[i]).0 == m.headers@[i].0@ && seen[i].1
                == PhpModel::Binary(crate::wire::bytes_contents(m.headers@[i].1))),
{
    reveal_strlit("topic");
    reveal_strlit("partition");
    reveal_strlit("offset");
    reveal_strlit("timestamp_ms");
    reveal_strlit("key");
    reveal_strlit("value");
    reveal_strlit("headers");
    let e = message_model(m)->Assoc_0;
    assert(e[0].0.len() == 5 && e[0].0[0] == 't');
    assert(e[1].0.len() == 9);
    assert(e[2].0.len() == 6);
    assert(e[3].0.len() == 12);
    assert(e[4].0.len() == 3);
    assert(e[5].0.len() == 5 && e[5].0[0] == 'v');
    assert(e[6].0.len() == 7);
    lemma_entry_counts(e, 0);
    lemma_entry_counts(e, 1);
    lemma_entry_counts(e, 2);
    lemma_entry_counts(e, 3);
    lemma_entry_counts(e, 4);
    lemma_entry_counts(e, 5);
    lemma_entry_counts(e, 6);
}

/// PHP sees exactly as many messages as there are, each in its place and with its own topic,
/// partition, offset, timestamp, key and value.
pub proof fn law_messages_are_all_seen(messages: Seq<ConsumerMessage>)
    ensures
        messages_model(messages) matches PhpModel::List(seen) && seen.len() == messages.len() && (
        forall|i: int|
            0 <= i < messages.len() ==> {
                let m = messages[i];
                &&& (#[trigger] seen[i]).at("topic"@) == Some(PhpModel::Text(m.topic@))
                &&& seen[i].at("partition"@) == Some(PhpModel::Int(m.partition as i64))
                &&& seen[i].at("offset"@) == Some(PhpModel::Int(m.offset))
                &&& seen[i].at("timestamp_ms"@) == Some(PhpModel::Int(m.timestamp_ms))
                &&& seen[i].at("key"@) == Some(
                    PhpModel::Binary(crate::wire::bytes_contents(m.key)),
                )
                &&& seen[i].at("value"@) == Some(
                    PhpModel::Binary(crate::wire::bytes_contents(m.value)),
                )
            }),
{
    let seen = messages_model(messages)->List_0;
    assert forall|i: int| 0 <= i < messages.len() implies #[trigger] seen[i] == message_model(
        messages[i],
    ) by {}
    assert forall|i: int| 0 <= i < messages.len() implies {
        let m = messages[i];
        &&& (#[trigger] seen[i]).at("topic"@) == Some(PhpModel::Text(m.topic@))
        &&& seen[i].at("partition"@) == Some(PhpModel::Int(m.partition as i64))
        &&& seen[i].at("offset"@) == Some(PhpModel::Int(m.offset))
        &&& seen[i].at("timestamp_ms"@) == Some(PhpModel::Int(m.timestamp_ms))
        &&& seen[i].at("key"@) == Some(PhpModel::Binary(crate::wire::bytes_contents(m.key)))
        &&& seen[i].at("value"@) == Some(PhpModel::Binary(crate::wire::bytes_contents(m.value)))
    } by {
        law_message_is_seen_whole(messages[i]);
    }
}

/// A further message at the end is seen as one more element, and those before it as before.
pub proof fn law_one_more_message(messages: Seq<ConsumerMessage>, m: ConsumerMessage)
    ensures
        messages_model(messages.push(m)) == PhpModel::List(
            messages_model(messages)->List_0.push(message_model(m)),
        ),
        messages_model(Seq::empty()) == PhpModel::List(Seq::empty()),
{
    assert(messages_model(messages.push(m))->List_0 =~= messages_model(messages)->List_0.push(
        message_model(m),
    ));
    assert(messages_model(Seq::empty())->List_0 =~= Seq::<PhpModel>::empty());
}

/// PHP sees exactly as many partitions as there are, each in its place, with its topic and its
/// number.
pub proof fn law_partitions_are_all_seen(parts: Seq<(String, i32)>)
    ensures
        partitions_model(parts) matches PhpModel::List(seen) && seen.len() == parts.len() && (
        forall|i: int|
            0 <= i < parts.len() ==> (#[trigger] seen[i]).at("topic"@) == Some(
                PhpModel::Text(parts[i].0@),
            ) && seen[i].at("partition"@) == Some(PhpModel::Int(parts[i].1 as i64))),
{
    reveal_strlit("topic");
    reveal_strlit("partition");
    let seen = partitions_model(parts)->List_0;
    assert forall|i: int| 0 <= i < parts.len() implies (#[trigger] seen[i]).at("topic"@) == Some(
        PhpModel::Text(parts[i].0@),
    ) && seen[i].at("partition"@) == Some(PhpModel::Int(parts[i].1 as i64)) by {
        let e = partition_model(parts[i])->Assoc_0;
        assert(seen[i] == partition_model(parts[i]));
        assert(e[0].0.len() == 5 && e[1].0.len() == 9);
        lemma_entry_counts(e, 0);
        lemma_entry_counts(e, 1);
    }
}

/// PHP sees of an event which of the three kinds it is, and then all its partitions, or its
/// message.
pub proof fn law_event_is_seen_whole(partitions: Vec<(String, i32)>, message: String)
    ensures
        ({
            let assign = event_model(RebalanceEvent::Assign { partitions });
            let revoke = event_model(RebalanceEvent::Revoke { partitions });
            let error = event_model(RebalanceEvent::Error { message });
            &&& assign.at("type"@) == Some(PhpModel::Text("assign"@))
            &&& revoke.at("type"@) == Some(PhpModel::Text("revoke"@))
            &&& error.at("type"@) == Some(PhpModel::Text("error"@))
            &&& error.at("message"@) == Some(PhpModel::Text(message@))
            &&& assign.at("partitions"@) matches Some(PhpModel::List(seen)) && seen.len()
                == partitions@.len() && (forall|i: int|
                0 <= i < partitions@.len() ==> (#[trigger] seen[i]).at("topic"@) == Some(
                    PhpModel::Text(partitions@[i].0@),
                ) && seen[i].at("partition"@) == Some(PhpModel::Int(partitions@[i].1 as i64)))
            &&& revoke.at("partitions"@) == assign.at("partitions"@)
        }),
{
    reveal_strlit("type");
    reveal_strlit("partitions");
    reveal_strlit("message");
    law_partitions_are_all_seen(partitions@);
    let assign = event_model(RebalanceEvent::Assign { partitions })->Assoc_0;
    let revoke = event_model(RebalanceEvent::Revoke { partitions })->Assoc_0;
    let error = event_model(RebalanceEvent::Error { message })->Assoc_0;
    assert(assign[0].0.len() == 4 && assign[1].0.len() == 10);
    assert(revoke[0].0.len() == 4 && revoke[1].0.len() == 10);
    assert(error[0].0.len() == 4 && error[1].0.len() == 7);
    lemma_entry_counts(assign, 0);
    lemma_entry_counts(assign, 1);
    lemma_entry_counts(revoke, 0);
    lemma_entry_counts(revoke, 1);
    lemma_entry_counts(error, 0);
    lemma_entry_counts(error, 1);
}

} // verus!
