//! Binary file framing codec.
//!
//! On disk a record stream is a sequence of frames, each an 8-byte
//! little-endian unsigned length prefix followed by exactly that many bytes
//! of serialized record payload.  There is no file header, footer or index:
//! the stream is readable only by sequential scan.  A declared length is
//! bounds-checked against [`MAX_MSG_SIZE`] before any byte of the payload is
//! touched, so a corrupted or adversarial length field never causes a large
//! allocation.
//!
//! The serialized payload itself is produced and restored by `bincode`; its
//! bytes are named by the uninterpreted functions [`encoding_of`] and
//! [`decoding_of`], and the framing around it is verified.

use vstd::prelude::*;

use vstd::bytes::lemma_auto_spec_u64_to_from_le_bytes;
use vstd::bytes::spec_u64_from_le_bytes;
use vstd::bytes::spec_u64_to_le_bytes;
use vstd::bytes::u64_from_le_bytes;
use vstd::bytes::u64_to_le_bytes;

use crate::message::Message;
use crate::message::MessageV;
use crate::message::Timestamp;
use crate::message::msgs_view;

verus! {

/// Limit messages read from files to a maximum size of 1024 MiB each.
///
/// This prevents a malicious file from allocating TBs of memory.
pub const MAX_MSG_SIZE: u64 = 1024 * 1024 * 1024;

/// How decoding a record stream can fail.
///
/// `Eof` is the normal "no more records" termination when a stream ends at a
/// frame boundary; every other variant is fatal for the affected stream.
#[derive(Clone, Copy, PartialEq, Eq, Structural, Debug)]
pub enum CodecError {
    /// The stream ended cleanly at a frame boundary.
    Eof,
    /// The stream ended inside a length prefix or inside a payload.
    Truncated,
    /// A declared payload length exceeds [`MAX_MSG_SIZE`].
    Oversized,
    /// The payload bytes do not decode to a record.
    Serialisation,
}

/// The serialized payload bytes of a record, as `bincode::serialize`
/// produces them.
pub uninterp spec fn encoding_of(m: MessageV) -> Seq<u8>;

/// The record that `bincode::deserialize` restores from a byte sequence,
/// or `None` where deserialization fails.
pub uninterp spec fn decoding_of(b: Seq<u8>) -> Option<MessageV>;

/// The UTF-8 byte length of one character.
pub open spec fn utf8_char_len(c: char) -> int {
    if (c as u32) < 0x80 {
        1
    } else if (c as u32) < 0x800 {
        2
    } else if (c as u32) < 0x10000 {
        3
    } else {
        4
    }
}

/// The UTF-8 byte length of a text.
pub open spec fn utf8_len(s: Seq<char>) -> int
    decreases s.len(),
{
    if s.len() == 0 {
        0
    } else {
        utf8_char_len(s[0]) + utf8_len(s.drop_first())
    }
}

/// A text occupies at least one and at most four bytes per character.
pub proof fn lemma_utf8_len_bounds(s: Seq<char>)
    ensures
        s.len() <= utf8_len(s) <= 4 * s.len(),
    decreases s.len(),
{
    if s.len() > 0 {
        lemma_utf8_len_bounds(s.drop_first());
    }
}

/// The bytes one header entry occupies in a serialized record: each of
/// the key text and the value bytes behind an 8-byte length.
pub open spec fn header_entry_size(e: (Seq<char>, Seq<u8>)) -> int {
    8 + utf8_len(e.0) + 8 + e.1.len() as int
}

/// The bytes a header list occupies in a serialized record.
pub open spec fn headers_size(h: Seq<(Seq<char>, Seq<u8>)>) -> int
    decreases h.len(),
{
    if h.len() == 0 {
        0
    } else {
        header_entry_size(h[0]) + headers_size(h.drop_first())
    }
}

/// The serialized payload size of a record, in bytes, under the
/// serializer's fixed-width layout: an 8-byte length before each text or
/// byte sequence, a 1-byte presence tag before each optional field, a
/// 4-byte variant index with an 8-byte value for a present timestamp,
/// 4 bytes of partition and 8 of offset.
pub open spec fn encoded_size_of(m: MessageV) -> int {
    8 + utf8_len(m.topic) + 4 + 8 + 1 + (if m.timestamp is Some {
        12int
    } else {
        0int
    }) + 1 + (match m.headers {
        Option::Some(h) => 8 + headers_size(h),
        Option::None => 0int,
    }) + 1 + (match m.key {
        Option::Some(k) => 8 + k.len() as int,
        Option::None => 0int,
    }) + 1 + (match m.payload {
        Option::Some(p) => 8 + p.len() as int,
        Option::None => 0int,
    })
}

/// Relies on `bincode::serialize`: serializing a record into a growable
/// buffer has no failure path, the bytes are a function of the record's
/// value alone, `bincode::deserialize` of exactly those bytes restores
/// the same value, and the fixed-width layout occupies exactly
/// [`encoded_size_of`] bytes.
#[verifier::external_body]
fn bincode_encode(msg: &Message) -> (r: Vec<u8>)
    ensures
        r@ == encoding_of(msg@),
        decoding_of(r@) == Option::Some(msg@),
        r@.len() == encoded_size_of(msg@),
{
    let ts = msg.timestamp.as_ref().map(|t| match t {
        Timestamp::CreateTime(v) => Ok(*v),
        Timestamp::LogAppendTime(v) => Err(*v),
    });
    bincode::serialize(&(&msg.topic, msg.partition, msg.offset, ts, &msg.headers, &msg.key, &msg.payload))
        .expect("serializing a record into a buffer cannot fail")
}

/// Relies on `bincode::deserialize`: whether a byte sequence decodes, and
/// to which record, is a function of the bytes alone.
#[verifier::external_body]
fn bincode_decode(b: &[u8]) -> (r: Option<Message>)
    ensures
        match decoding_of(b@) {
            Option::Some(m) => r matches Some(msg) && msg@ == m,
            Option::None => r is None,
        },
{
    let w: (String, i32, i64, Option<Result<i64, i64>>, Option<Vec<(String, Vec<u8>)>>, Option<Vec<u8>>, Option<Vec<u8>>) =
        bincode::deserialize(b).ok()?;
    Some(Message {
        topic: w.0, partition: w.1, offset: w.2,
        timestamp: w.3.map(|t| match t { Ok(v) => Timestamp::CreateTime(v), Err(v) => Timestamp::LogAppendTime(v) }),
        headers: w.4, key: w.5, payload: w.6,
    })
}

/// One frame: the payload length as an 8-byte little-endian prefix,
/// followed by the payload.
pub open spec fn frame_of(m: MessageV) -> Seq<u8> {
    spec_u64_to_le_bytes(encoding_of(m).len() as u64) + encoding_of(m)
}

/// A record sequence framed back to back, with no header or footer.
pub open spec fn frames_of(s: Seq<MessageV>) -> Seq<u8>
    decreases s.len(),
{
    if s.len() == 0 {
        Seq::empty()
    } else {
        frame_of(s[0]) + frames_of(s.drop_first())
    }
}

/// Decoding one frame at the front of a byte stream: the record and the
/// number of bytes consumed, or how it fails.
pub open spec fn frame_step(rest: Seq<u8>) -> Result<(MessageV, int), CodecError> {
    if rest.len() == 0 {
        Result::Err(CodecError::Eof)
    } else if rest.len() < 8 {
        Result::Err(CodecError::Truncated)
    } else {
        let len = spec_u64_from_le_bytes(rest.take(8));
        if len > MAX_MSG_SIZE {
            Result::Err(CodecError::Oversized)
        } else if rest.len() - 8 < len {
            Result::Err(CodecError::Truncated)
        } else {
            match decoding_of(rest.subrange(8, 8 + len as int)) {
                Option::None => Result::Err(CodecError::Serialisation),
                Option::Some(m) => Result::Ok((m, 8 + len as int)),
            }
        }
    }
}

/// Decoding a whole byte stream into the record sequence it frames.
///
/// An empty stream is the normal termination and decodes to the empty
/// sequence; any mid-frame failure is fatal for the stream.
pub open spec fn decode_frames(b: Seq<u8>) -> Result<Seq<MessageV>, CodecError>
    decreases b.len(),
{
    if b.len() == 0 {
        Result::Ok(Seq::empty())
    } else {
        match frame_step(b) {
            Result::Err(e) => Result::Err(e),
            Result::Ok((m, used)) => match decode_frames(b.skip(used)) {
                Result::Ok(rest) => Result::Ok(seq![m] + rest),
                Result::Err(e) => Result::Err(e),
            },
        }
    }
}

/// Encode one record as a length-prefixed frame.  Encoding cannot fail;
/// the frame holds [`encoded_size_of`] payload bytes behind its prefix,
/// and decoding the payload restores the record.
pub fn encode_frame(msg: &Message) -> (r: Vec<u8>)
    ensures
        r@ == frame_of(msg@),
        decoding_of(encoding_of(msg@)) == Option::Some(msg@),
        encoding_of(msg@).len() == encoded_size_of(msg@),
{
    let body = bincode_encode(msg);
    let mut out = u64_to_le_bytes(body.len() as u64);
    let mut body = body;
    out.append(&mut body);
    proof {
        assert(out@ =~= frame_of(msg@));
    }
    out
}

/// Encode a record sequence as a stream of back-to-back frames.
/// Encoding cannot fail, and each record's payload is exactly its
/// [`encoded_size_of`] bytes and decodes back to the record.
pub fn encode_all(msgs: &Vec<Message>) -> (r: Vec<u8>)
    ensures
        r@ == frames_of(msgs_view(msgs@)),
        forall|i: int|
            0 <= i < msgs@.len() ==> #[trigger] decoding_of(encoding_of(msgs@[i]@)) == Option::Some(
                msgs@[i]@,
            ),
        forall|i: int|
            0 <= i < msgs@.len() ==> #[trigger] encoding_of(msgs@[i]@).len() == encoded_size_of(
                msgs@[i]@,
            ),
{
    let mut out: Vec<u8> = Vec::new();
    let mut i: usize = 0;
    while i < msgs.len()
        invariant
            i <= msgs@.len(),
            out@ == frames_of(msgs_view(msgs@.take(i as int))),
            forall|j: int|
                0 <= j < i ==> #[trigger] decoding_of(encoding_of(msgs@[j]@)) == Option::Some(
                    msgs@[j]@,
                ),
            forall|j: int|
                0 <= j < i ==> #[trigger] encoding_of(msgs@[j]@).len() == encoded_size_of(
                    msgs@[j]@,
                ),
        decreases msgs@.len() - i,
    {
        let mut frame = encode_frame(&msgs[i]);
        out.append(&mut frame);
        proof {
            assert(msgs_view(msgs@.take(i + 1 as int)) =~= msgs_view(
                msgs@.take(i as int),
            ).push(msgs@[i as int]@));
            lemma_frames_of_push(msgs_view(msgs@.take(i as int)), msgs@[i as int]@);
        }
        i = i + 1;
    }
    proof {
        assert(msgs@.take(msgs@.len() as int) =~= msgs@);
    }
    out
}

/// Read the length prefix of a frame and bounds-check it, before any
/// payload buffer is allocated.
pub fn frame_len(header: &[u8]) -> (r: Result<u64, CodecError>)
    requires
        header@.len() == 8,
    ensures
        ({
            let len = spec_u64_from_le_bytes(header@);
            if len > MAX_MSG_SIZE {
                r == Result::<u64, CodecError>::Err(CodecError::Oversized)
            } else {
                r == Result::<u64, CodecError>::Ok(len)
            }
        }),
{
    let len = u64_from_le_bytes(header);
    if len > MAX_MSG_SIZE {
        Err(CodecError::Oversized)
    } else {
        Ok(len)
    }
}

/// Decode one frame's payload into a record.
pub fn decode_body(body: &[u8]) -> (r: Result<Message, CodecError>)
    ensures
        match decoding_of(body@) {
            Option::Some(m) => r matches Ok(msg) && msg@ == m,
            Option::None => r == Result::<Message, CodecError>::Err(CodecError::Serialisation),
        },
{
    match bincode_decode(body) {
        Option::Some(msg) => Ok(msg),
        Option::None => Err(CodecError::Serialisation),
    }
}

/// Decode the frame that starts at `pos`, returning the record and the
/// position just past it.
pub fn decode_frame(buf: &[u8], pos: usize) -> (r: Result<(Message, usize), CodecError>)
    requires
        pos <= buf@.len(),
    ensures
        match frame_step(buf@.skip(pos as int)) {
            Result::Ok((m, used)) => r matches Ok(p) && p.0@ == m && p.1 == pos + used,
            Result::Err(e) => r matches Err(e2) && e2 == e,
        },
{
    let n = buf.len();
    if pos == n {
        return Err(CodecError::Eof);
    }
    if n - pos < 8 {
        return Err(CodecError::Truncated);
    }
    let header: &[u8] = &buf[pos..pos + 8];
    proof {
        assert(header@ =~= buf@.skip(pos as int).take(8));
    }
    let len_u64 = u64_from_le_bytes(header);
    if len_u64 > MAX_MSG_SIZE {
        return Err(CodecError::Oversized);
    }
    let avail = n - pos - 8;
    if (avail as u64) < len_u64 {
        return Err(CodecError::Truncated);
    }
    let len = len_u64 as usize;
    let body: &[u8] = &buf[pos + 8..pos + 8 + len];
    proof {
        assert(body@ =~= buf@.skip(pos as int).subrange(8, 8 + len_u64 as int));
    }
    match bincode_decode(body) {
        Option::Some(msg) => Ok((msg, pos + 8 + len)),
        Option::None => Err(CodecError::Serialisation),
    }
}

/// Decode a whole byte stream, stopping cleanly at its end.
pub fn decode_all(buf: &[u8]) -> (r: Result<Vec<Message>, CodecError>)
    ensures
        match r {
            Result::Ok(v) => decode_frames(buf@) == Result::<Seq<MessageV>, CodecError>::Ok(
                msgs_view(v@),
            ),
            Result::Err(e) => decode_frames(buf@) == Result::<Seq<MessageV>, CodecError>::Err(e),
        },
{
    let mut out: Vec<Message> = Vec::new();
    let mut pos: usize = 0;
    proof {
        assert(buf@.skip(0) =~= buf@);
    }
    loop
        invariant
            pos <= buf@.len(),
            match decode_frames(buf@.skip(pos as int)) {
                Result::Ok(rest) => decode_frames(buf@) == Result::<Seq<MessageV>, CodecError>::Ok(
                    msgs_view(out@) + rest,
                ),
                Result::Err(e) => decode_frames(buf@) == Result::<Seq<MessageV>, CodecError>::Err(
                    e,
                ),
            },
        decreases buf@.len() - pos,
    {
        let ghost rest = buf@.skip(pos as int);
        match decode_frame(buf, pos) {
            Result::Ok(p) => {
                let (msg, next) = p;
                proof {
                    assert(rest.skip((next - pos) as int) =~= buf@.skip(next as int));
                    assert(msgs_view(out@.push(msg)) =~= msgs_view(out@).push(msg@));
                    match decode_frames(buf@.skip(next as int)) {
                        Result::Ok(tail) => {
                            assert(msgs_view(out@) + (seq![msg@] + tail) =~= msgs_view(
                                out@,
                            ).push(msg@) + tail);
                        },
                        Result::Err(_) => {},
                    }
                }
                out.push(msg);
                pos = next;
            },
            Result::Err(e) => {
                match e {
                    CodecError::Eof => {
                        proof {
                            assert(msgs_view(out@) + Seq::<MessageV>::empty() =~= msgs_view(out@));
                        }
                        return Ok(out);
                    },
                    _ => {
                        return Err(e);
                    },
                }
            },
        }
    }
}

proof fn lemma_frames_of_push(s: Seq<MessageV>, m: MessageV)
    ensures
        frames_of(s.push(m)) == frames_of(s) + frame_of(m),
    decreases s.len(),
{
    if s.len() == 0 {
        assert(s.push(m).drop_first() =~= Seq::<MessageV>::empty());
        assert(frames_of(Seq::<MessageV>::empty()) == Seq::<u8>::empty());
        assert(s.push(m)[0] == m);
        assert(frames_of(s.push(m)) == frame_of(m) + Seq::<u8>::empty());
        assert(frame_of(m) + Seq::<u8>::empty() =~= frames_of(s) + frame_of(m));
    } else {
        lemma_frames_of_push(s.drop_first(), m);
        assert(s.push(m).drop_first() =~= s.drop_first().push(m));
        assert(s.push(m)[0] == s[0]);
        assert(frames_of(s.push(m)) == frame_of(s[0]) + (frames_of(s.drop_first()) + frame_of(m)));
        assert(frame_of(s[0]) + (frames_of(s.drop_first()) + frame_of(m)) =~= (frame_of(s[0])
            + frames_of(s.drop_first())) + frame_of(m));
    }
}

/// The codec round trip: a record sequence framed by [`frames_of`] decodes
/// back to exactly the same sequence, including empty-versus-absent
/// optional fields, as long as each record's payload fits the frame's
/// size bound.
///
/// The last two premises are exactly what [`encode_frame`] and
/// [`encode_all`] ensure of every record they encode; the first bounds
/// the record's encoded size, a plain function of its field lengths.
pub proof fn lemma_codec_round_trip(msgs: Seq<MessageV>)
    requires
        forall|i: int| 0 <= i < msgs.len() ==> #[trigger] encoded_size_of(msgs[i])
            <= MAX_MSG_SIZE,
        forall|i: int| 0 <= i < msgs.len() ==> #[trigger] encoding_of(msgs[i]).len()
            == encoded_size_of(msgs[i]),
        forall|i: int| 0 <= i < msgs.len() ==> #[trigger] decoding_of(encoding_of(msgs[i]))
            == Option::Some(msgs[i]),
    ensures
        decode_frames(frames_of(msgs)) == Result::<Seq<MessageV>, CodecError>::Ok(msgs),
    decreases msgs.len(),
{
    lemma_auto_spec_u64_to_from_le_bytes();
    if msgs.len() == 0 {
        assert(msgs =~= Seq::<MessageV>::empty());
    } else {
        let m0 = msgs[0];
        let enc = encoding_of(m0);
        let b = frames_of(msgs);
        let tail = frames_of(msgs.drop_first());
        assert(b == frame_of(m0) + tail);
        assert(b.take(8) =~= spec_u64_to_le_bytes(enc.len() as u64));
        assert(spec_u64_from_le_bytes(b.take(8)) == enc.len() as u64);
        assert(b.subrange(8, 8 + enc.len() as int) =~= enc);
        assert(b.skip(8 + enc.len() as int) =~= tail);
        assert(forall|i: int|
            0 <= i < msgs.drop_first().len() ==> msgs.drop_first()[i] == msgs[i + 1]);
        lemma_codec_round_trip(msgs.drop_first());
        assert(frame_step(b) == Result::<(MessageV, int), CodecError>::Ok(
            (m0, 8 + enc.len() as int),
        ));
        assert(seq![m0] + msgs.drop_first() =~= msgs);
    }
}

} // verus!
