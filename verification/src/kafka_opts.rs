//! Client options shared by every log command, and the configuration
//! pairs built from them.
//!
//! The library computes the configuration as plain key/value pairs; the
//! code that owns the log client applies them in order, so later pairs
//! override earlier ones.

use vstd::prelude::*;

use crate::numbers::parse_u64;
use crate::numbers::parse_u64_spec;
use crate::strutil::join_str;
use crate::strutil::join_with;
use crate::strutil::pieces_view;
use crate::strutil::split_on;
use crate::strutil::split_str;

verus! {

/// One client tuning parameter, as `key=value`.
#[derive(Debug, PartialEq, Eq, Clone)]
pub struct KeyValueConfig {
    pub key: String,
    pub value: String,
}

/// How parsing a `key=value` parameter fails.
#[derive(Debug, PartialEq, Eq, Structural, Clone, Copy)]
pub enum KeyValueError {
    /// Not exactly one `=` separator.
    Malformed,
}

impl KeyValueConfig {
    /// What parsing `key=value` accepts: exactly one separator, each
    /// side taken verbatim (either may be empty).
    pub open spec fn from_str_spec(s: Seq<char>) -> Result<(Seq<char>, Seq<char>), KeyValueError> {
        let parts = split_on(s, '=');
        if parts.len() == 2 {
            Result::Ok((parts[0], parts[1]))
        } else {
            Result::Err(KeyValueError::Malformed)
        }
    }

    /// Parse a `key=value` parameter.
    pub fn from_str(s: &str) -> (r: Result<KeyValueConfig, KeyValueError>)
        ensures
            match r {
                Result::Ok(kv) => Self::from_str_spec(s@) == Result::<
                    (Seq<char>, Seq<char>),
                    KeyValueError,
                >::Ok((kv.key@, kv.value@)),
                Result::Err(e) => Self::from_str_spec(s@) == Result::<
                    (Seq<char>, Seq<char>),
                    KeyValueError,
                >::Err(e),
            },
    {
        let mut parts = split_str(s, '=');
        if parts.len() != 2 {
            return Err(KeyValueError::Malformed);
        }
        let value = parts.pop().unwrap();
        let key = parts.pop().unwrap();
        Ok(KeyValueConfig { key, value })
    }
}

/// Client options shared by every log command.
#[derive(Debug, Clone)]
pub struct KafkaOpts {
    /// Seconds to wait for an acknowledgement before timing out.
    pub timeout_secs: u64,
    /// The consumer group identifier.
    pub group: String,
    /// Arbitrary client parameters, applied before the fixed ones.
    pub additional_args: Vec<KeyValueConfig>,
}

/// The value of a parameter list.
pub open spec fn kv_view(v: Seq<KeyValueConfig>) -> Seq<(Seq<char>, Seq<char>)> {
    v.map_values(|kv: KeyValueConfig| (kv.key@, kv.value@))
}

/// The value of a built pair list.
pub open spec fn pairs_view(v: Seq<(String, String)>) -> Seq<(Seq<char>, Seq<char>)> {
    v.map_values(|p: (String, String)| (p.0@, p.1@))
}

/// The configuration pairs for a command: the user's parameters first,
/// then the fixed behaviour (no auto-commit, no partition-EOF events,
/// reads from the earliest offset), then the broker list and the group
/// identifier.  Applied in order, later pairs win.
pub open spec fn config_pairs_spec(
    args: Seq<(Seq<char>, Seq<char>)>,
    group: Seq<char>,
    brokers: Seq<Seq<char>>,
) -> Seq<(Seq<char>, Seq<char>)> {
    args + seq![
        ("enable.auto.commit"@, "false"@),
        ("enable.partition.eof"@, "false"@),
        ("auto.offset.reset"@, "earliest"@),
        ("bootstrap.servers"@, join_with(brokers, ","@)),
        ("group.id"@, group),
    ]
}

impl KafkaOpts {
    /// Build the client configuration pairs for a broker list.
    pub fn new_kafka_config(&self, brokers: Vec<String>) -> (r: Vec<(String, String)>)
        ensures
            pairs_view(r@) == config_pairs_spec(
                kv_view(self.additional_args@),
                self.group@,
                pieces_view(brokers@),
            ),
    {
        let mut out: Vec<(String, String)> = Vec::new();
        let mut i: usize = 0;
        while i < self.additional_args.len()
            invariant
                i <= self.additional_args@.len(),
                pairs_view(out@) == kv_view(self.additional_args@.take(i as int)),
            decreases self.additional_args@.len() - i,
        {
            let kv = &self.additional_args[i];
            let pair = (kv.key.clone(), kv.value.clone());
            proof {
                assert(pairs_view(out@.push((kv.key, kv.value))) =~~= pairs_view(out@).push(
                    (kv.key@, kv.value@),
                ));
                assert(kv_view(self.additional_args@.take(i + 1 as int)) =~~= kv_view(
                    self.additional_args@.take(i as int),
                ).push((kv.key@, kv.value@)));
            }
            out.push(pair);
            i = i + 1;
        }
        proof {
            assert(self.additional_args@.take(self.additional_args@.len() as int)
                =~= self.additional_args@);
        }
        out.push(("enable.auto.commit".to_owned(), "false".to_owned()));
        out.push(("enable.partition.eof".to_owned(), "false".to_owned()));
        out.push(("auto.offset.reset".to_owned(), "earliest".to_owned()));
        out.push(("bootstrap.servers".to_owned(), join_str(&brokers, ",")));
        out.push(("group.id".to_owned(), self.group.clone()));
        proof {
            assert(pairs_view(out@) =~~= config_pairs_spec(
                kv_view(self.additional_args@),
                self.group@,
                pieces_view(brokers@),
            ));
        }
        out
    }
}

/// Parse a timeout given in whole seconds.
pub fn parse_seconds(s: &str) -> (r: Option<u64>)
    ensures
        r == parse_u64_spec(s@),
{
    parse_u64(s)
}

} // verus!
