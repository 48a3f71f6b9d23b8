//! The record data model: an immutable, addressable message.

use vstd::prelude::*;

verus! {

/// A producer-assigned ("create time") or broker-assigned ("log append
/// time") record time, in milliseconds since the epoch.
#[derive(Clone, Copy, PartialEq, Eq, Structural, Debug)]
pub enum Timestamp {
    CreateTime(i64),
    LogAppendTime(i64),
}

/// One addressable record: where it came from (topic, partition, offset),
/// when it was produced, and what it carries (headers, key, payload).
///
/// Records are immutable once constructed; an empty byte sequence and an
/// absent one are distinct values.
#[derive(Clone, PartialEq, Eq, Debug)]
pub struct Message {
    pub(crate) topic: String,
    pub(crate) partition: i32,
    pub(crate) offset: i64,
    pub(crate) timestamp: Option<Timestamp>,
    pub(crate) headers: Option<Vec<(String, Vec<u8>)>>,
    pub(crate) key: Option<Vec<u8>>,
    pub(crate) payload: Option<Vec<u8>>,
}

/// The mathematical value of a [`Message`]: every field as a plain
/// mathematical object.
pub struct MessageV {
    pub topic: Seq<char>,
    pub partition: i32,
    pub offset: i64,
    pub timestamp: Option<Timestamp>,
    pub headers: Option<Seq<(Seq<char>, Seq<u8>)>>,
    pub key: Option<Seq<u8>>,
    pub payload: Option<Seq<u8>>,
}

/// The value of an optional header list: each entry as (key, value).
pub open spec fn headers_view(h: Option<Vec<(String, Vec<u8>)>>) -> Option<
    Seq<(Seq<char>, Seq<u8>)>,
> {
    match h {
        Option::None => Option::None,
        Option::Some(v) => Option::Some(v@.map_values(|p: (String, Vec<u8>)| (p.0@, p.1@))),
    }
}

/// The value of an optional byte buffer.
pub open spec fn bytes_view(b: Option<Vec<u8>>) -> Option<Seq<u8>> {
    match b {
        Option::None => Option::None,
        Option::Some(v) => Option::Some(v@),
    }
}

/// Strict lexicographic order on key text, character by character.  For
/// Unicode text this coincides with the byte order of its UTF-8 form,
/// the order the on-disk map encoding uses.
pub open spec fn lex_lt(a: Seq<char>, b: Seq<char>) -> bool
    decreases a.len(),
{
    if b.len() == 0 {
        false
    } else if a.len() == 0 {
        true
    } else if (a[0] as u32) < (b[0] as u32) {
        true
    } else if (a[0] as u32) > (b[0] as u32) {
        false
    } else {
        lex_lt(a.drop_first(), b.drop_first())
    }
}

/// The in-memory header model: an ordered-by-key mapping holding at most
/// one value per key — the keys strictly ascend.
pub open spec fn headers_wf(h: Option<Seq<(Seq<char>, Seq<u8>)>>) -> bool {
    match h {
        Option::None => true,
        Option::Some(entries) => forall|i: int, j: int|
            0 <= i < j < entries.len() ==> lex_lt(#[trigger] entries[i].0, #[trigger] entries[j].0),
    }
}

impl View for Message {
    type V = MessageV;

    closed spec fn view(&self) -> MessageV {
        MessageV {
            topic: self.topic@,
            partition: self.partition,
            offset: self.offset,
            timestamp: self.timestamp,
            headers: headers_view(self.headers),
            key: bytes_view(self.key),
            payload: bytes_view(self.payload),
        }
    }
}

impl Message {
    /// The record's headers satisfy the data model: ordered by key, at
    /// most one value per key.
    pub open spec fn wf(&self) -> bool {
        headers_wf(self@.headers)
    }

    /// Build a record from its parts.  Headers come ordered by key with
    /// no key repeated, as an ordered map holds them.
    pub fn new(
        topic: String,
        partition: i32,
        offset: i64,
        timestamp: Option<Timestamp>,
        headers: Option<Vec<(String, Vec<u8>)>>,
        key: Option<Vec<u8>>,
        payload: Option<Vec<u8>>,
    ) -> (r: Message)
        requires
            headers_wf(headers_view(headers)),
        ensures
            r.wf(),
            r@ == (MessageV {
                topic: topic@,
                partition,
                offset,
                timestamp,
                headers: headers_view(headers),
                key: bytes_view(key),
                payload: bytes_view(payload),
            }),
    {
        Message { topic, partition, offset, timestamp, headers, key, payload }
    }

    /// Get the message offset.
    pub fn offset(&self) -> (r: i64)
        ensures
            r == self@.offset,
    {
        self.offset
    }

    /// Get a reference to the message's topic.
    pub fn topic(&self) -> (r: &str)
        ensures
            r@ == self@.topic,
    {
        self.topic.as_str()
    }

    /// Get the message's partition.
    pub fn partition(&self) -> (r: i32)
        ensures
            r == self@.partition,
    {
        self.partition
    }

    /// Get a reference to the message's timestamp.
    pub fn timestamp(&self) -> (r: Option<&Timestamp>)
        ensures
            match r {
                Option::Some(t) => self@.timestamp == Option::Some(*t),
                Option::None => self@.timestamp is None,
            },
    {
        self.timestamp.as_ref()
    }

    /// Get a reference to the message's headers.
    pub fn headers(&self) -> (r: Option<&Vec<(String, Vec<u8>)>>)
        ensures
            match r {
                Option::Some(h) => self@.headers == headers_view(Option::Some(*h)),
                Option::None => self@.headers is None,
            },
    {
        self.headers.as_ref()
    }

    /// Get a reference to the message's key.
    pub fn key(&self) -> (r: Option<&Vec<u8>>)
        ensures
            match r {
                Option::Some(k) => self@.key == Option::Some(k@),
                Option::None => self@.key is None,
            },
    {
        self.key.as_ref()
    }

    /// Get a reference to the message's payload.
    pub fn payload(&self) -> (r: Option<&Vec<u8>>)
        ensures
            match r {
                Option::Some(p) => self@.payload == Option::Some(p@),
                Option::None => self@.payload is None,
            },
    {
        self.payload.as_ref()
    }
}

/// The values of a sequence of records.
pub open spec fn msgs_view(s: Seq<Message>) -> Seq<MessageV> {
    s.map_values(|m: Message| m@)
}

} // verus!
