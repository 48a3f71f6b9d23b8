//! JSON shape of a record, used for display.
//!
//! Fields that may hold arbitrary bytes — the key, the payload and each
//! header value — are carried as base64 text, so a serializer outside the
//! library can print the record as plain JSON.

use base64::Engine;

use vstd::prelude::*;

use crate::message::Message;
use crate::message::Timestamp;

verus! {

/// The base64 text of a byte sequence, as the standard alphabet with
/// padding encodes it.
pub uninterp spec fn base64_of(b: Seq<u8>) -> Seq<char>;

/// Relies on `base64::Engine::encode` with the `STANDARD` engine: the
/// encoded text is a function of the bytes alone, four characters for
/// every three bytes, padded.
#[verifier::external_body]
fn b64_encode(b: &[u8]) -> (r: String)
    ensures
        r@ == base64_of(b@),
        r@.len() == 4 * ((b@.len() + 2) / 3),
{
    base64::engine::general_purpose::STANDARD.encode(b)
}

/// A record shaped for JSON display: binary fields as base64 text.
#[derive(Debug, PartialEq, Eq, Clone)]
pub struct JsonMessage {
    pub topic: String,
    pub partition: i32,
    pub offset: i64,
    pub timestamp: Option<Timestamp>,
    pub headers: Option<Vec<(String, String)>>,
    pub key: Option<String>,
    pub payload: Option<String>,
}

/// The JSON shape of an optional byte field.
pub open spec fn b64_opt(b: Option<Seq<u8>>) -> Option<Seq<char>> {
    match b {
        Option::Some(v) => Option::Some(base64_of(v)),
        Option::None => Option::None,
    }
}

/// The JSON shape of the header list: each value base64.
pub open spec fn b64_headers(h: Option<Seq<(Seq<char>, Seq<u8>)>>) -> Option<
    Seq<(Seq<char>, Seq<char>)>,
> {
    match h {
        Option::Some(v) => Option::Some(
            v.map_values(|p: (Seq<char>, Seq<u8>)| (p.0, base64_of(p.1))),
        ),
        Option::None => Option::None,
    }
}

/// The value of an optional text field.
pub open spec fn opt_str_view(o: Option<String>) -> Option<Seq<char>> {
    match o {
        Option::Some(s) => Option::Some(s@),
        Option::None => Option::None,
    }
}

/// The value of an encoded header list.
pub open spec fn enc_headers_view(h: Option<Vec<(String, String)>>) -> Option<
    Seq<(Seq<char>, Seq<char>)>,
> {
    match h {
        Option::Some(v) => Option::Some(v@.map_values(|p: (String, String)| (p.0@, p.1@))),
        Option::None => Option::None,
    }
}

impl JsonMessage {
    /// Shape a record for JSON display: addressing fields verbatim,
    /// binary fields base64-encoded, an absent field staying absent.
    pub fn from_message(m: &Message) -> (r: JsonMessage)
        ensures
            r.topic@ == m@.topic,
            r.partition == m@.partition,
            r.offset == m@.offset,
            r.timestamp == m@.timestamp,
            enc_headers_view(r.headers) == b64_headers(m@.headers),
            opt_str_view(r.key) == b64_opt(m@.key),
            opt_str_view(r.payload) == b64_opt(m@.payload),
    {
        let headers: Option<Vec<(String, String)>> = match m.headers() {
            Option::Some(h) => {
                let mut enc: Vec<(String, String)> = Vec::new();
                let mut i: usize = 0;
                while i < h.len()
                    invariant
                        i <= h@.len(),
                        enc@.len() == i,
                        forall|j: int|
                            0 <= j < i ==> #[trigger] enc@[j].0@ == h@[j].0@ && enc@[j].1@
                                == base64_of(h@[j].1@),
                    decreases h@.len() - i,
                {
                    let k = h[i].0.clone();
                    let v = b64_encode(h[i].1.as_slice());
                    enc.push((k, v));
                    i = i + 1;
                }
                proof {
                    assert(enc@.map_values(|p: (String, String)| (p.0@, p.1@)) =~~= h@.map_values(
                        |p: (String, Vec<u8>)| (p.0@, p.1@),
                    ).map_values(|p: (Seq<char>, Seq<u8>)| (p.0, base64_of(p.1))));
                }
                Some(enc)
            },
            Option::None => None,
        };
        let key = match m.key() {
            Option::Some(k) => Some(b64_encode(k.as_slice())),
            Option::None => None,
        };
        let payload = match m.payload() {
            Option::Some(p) => Some(b64_encode(p.as_slice())),
            Option::None => None,
        };
        let timestamp = match m.timestamp() {
            Option::Some(t) => Some(*t),
            Option::None => None,
        };
        JsonMessage {
            topic: m.topic().to_owned(),
            partition: m.partition(),
            offset: m.offset(),
            timestamp,
            headers,
            key,
            payload,
        }
    }
}

} // verus!
