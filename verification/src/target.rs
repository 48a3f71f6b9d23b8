//! Target addresses: where a record stream comes from or goes to.
//!
//! A bare path denotes a file endpoint.  `kafka://broker[,broker...]/topic`
//! with an optional `/partition` denotes a log endpoint; the broker list
//! and the topic must be non-empty, the partition must be a non-negative
//! integer, and trailing `/` separators are ignored.  A malformed address
//! is rejected before any connection attempt.

use vstd::prelude::*;

use crate::numbers::parse_i64;
use crate::numbers::parse_i64_spec;
use crate::strutil::pieces_view;
use crate::strutil::split_on;
use crate::strutil::split_str;
use crate::strutil::trim_trailing;
use crate::strutil::trim_trailing_str;

verus! {

broadcast use vstd::string::group_string_axioms;

/// How parsing a target address can fail, or why a copy request between
/// two addresses is refused.
#[derive(Debug, PartialEq, Eq, Structural, Clone, Copy)]
pub enum TargetError {
    /// The partition component is not a non-negative 32-bit decimal.
    ParseInt,
    /// The address shape is wrong: empty broker list, empty topic, or the
    /// wrong number of components.
    Invalid,
    /// Source and sink resolve to the identical address.
    SelfCopy,
}

/// One endpoint: a log partition or a local file.
#[derive(Debug, PartialEq, Eq, Clone)]
pub enum Target {
    Kafka { brokers: Vec<String>, topic: String, partition: Option<i32> },
    Path(String),
}

/// The mathematical value of a [`Target`].
pub enum TargetV {
    Kafka { brokers: Seq<Seq<char>>, topic: Seq<char>, partition: Option<i32> },
    Path(Seq<char>),
}

impl View for Target {
    type V = TargetV;

    open spec fn view(&self) -> TargetV {
        match self {
            Target::Kafka { brokers, topic, partition } => TargetV::Kafka {
                brokers: pieces_view(brokers@),
                topic: topic@,
                partition: *partition,
            },
            Target::Path(p) => TargetV::Path(p@),
        }
    }
}

/// A partition component: a non-negative decimal that fits in 32 bits.
pub open spec fn parse_partition(s: Seq<char>) -> Option<i32> {
    match parse_i64_spec(s) {
        Option::Some(v) => if 0 <= v <= i32::MAX {
            Option::Some(v as i32)
        } else {
            Option::None
        },
        Option::None => Option::None,
    }
}

/// Parse a target address.  Anything without the `kafka://` scheme is a
/// file path; with it, the address must name brokers and a topic, with an
/// optional partition, and trailing separators are ignored.
pub open spec fn from_str_spec(s: Seq<char>) -> Result<TargetV, TargetError> {
    if s.len() >= 8 && s.subrange(0, 8) == "kafka://"@ {
        let addr = trim_trailing(s.skip(8), '/');
        let parts = split_on(addr, '/');
        if parts.len() == 2 && parts[0].len() > 0 && parts[1].len() > 0 {
            Result::Ok(TargetV::Kafka {
                brokers: split_on(parts[0], ','),
                topic: parts[1],
                partition: Option::None,
            })
        } else if parts.len() == 3 && parts[0].len() > 0 && parts[1].len() > 0 {
            match parse_partition(parts[2]) {
                Option::Some(p) => Result::Ok(TargetV::Kafka {
                    brokers: split_on(parts[0], ','),
                    topic: parts[1],
                    partition: Option::Some(p),
                }),
                Option::None => Result::Err(TargetError::ParseInt),
            }
        } else {
            Result::Err(TargetError::Invalid)
        }
    } else {
        Result::Ok(TargetV::Path(s))
    }
}

/// The string starts with the log scheme `kafka://`.
fn has_kafka_prefix(s: &str) -> (r: bool)
    ensures
        r == (s@.len() >= 8 && s@.subrange(0, 8) == "kafka://"@),
{
    let n = s.unicode_len();
    if n < 8 {
        return false;
    }
    let c0 = s.get_char(0);
    let c1 = s.get_char(1);
    let c2 = s.get_char(2);
    let c3 = s.get_char(3);
    let c4 = s.get_char(4);
    let c5 = s.get_char(5);
    let c6 = s.get_char(6);
    let c7 = s.get_char(7);
    let r = c0 == 'k' && c1 == 'a' && c2 == 'f' && c3 == 'k' && c4 == 'a' && c5 == ':' && c6 == '/'
        && c7 == '/';
    proof {
        reveal_strlit("kafka://");
        assert("kafka://"@.len() == 8);
        assert(forall|j: int| 0 <= j < 8 ==> #[trigger] s@.subrange(0, 8)[j] == s@[j]);
        if r {
            assert(s@.subrange(0, 8) =~= "kafka://"@);
        } else {
            assert(s@[0] != 'k' || s@[1] != 'a' || s@[2] != 'f' || s@[3] != 'k' || s@[4] != 'a'
                || s@[5] != ':' || s@[6] != '/' || s@[7] != '/');
            if s@.subrange(0, 8) == "kafka://"@ {
                assert(s@[0] == s@.subrange(0, 8)[0]);
                assert(s@[1] == s@.subrange(0, 8)[1]);
                assert(s@[2] == s@.subrange(0, 8)[2]);
                assert(s@[3] == s@.subrange(0, 8)[3]);
                assert(s@[4] == s@.subrange(0, 8)[4]);
                assert(s@[5] == s@.subrange(0, 8)[5]);
                assert(s@[6] == s@.subrange(0, 8)[6]);
                assert(s@[7] == s@.subrange(0, 8)[7]);
                assert(false);
            }
        }
    }
    r
}

impl Target {
    /// Parse a target address: a bare path, or
    /// `kafka://brokers/topic[/partition]`.
    pub fn from_str(s: &str) -> (r: Result<Target, TargetError>)
        ensures
            match r {
                Result::Ok(t) => from_str_spec(s@) == Result::<TargetV, TargetError>::Ok(t@),
                Result::Err(e) => from_str_spec(s@) == Result::<TargetV, TargetError>::Err(e),
            },
    {
        let n = s.unicode_len();
        if !has_kafka_prefix(s) {
            return Ok(Target::Path(s.to_owned()));
        }
        let addr_full = s.substring_char(8, n);
        proof {
            assert(addr_full@ == s@.skip(8));
        }
        let addr = trim_trailing_str(addr_full, '/');
        let parts = split_str(addr, '/');
        if parts.len() == 2 || parts.len() == 3 {
            let brokers_s = parts[0].as_str();
            let topic_s = parts[1].as_str();
            if brokers_s.is_empty() || topic_s.is_empty() {
                return Err(TargetError::Invalid);
            }
            let brokers = split_str(brokers_s, ',');
            let topic = topic_s.to_owned();
            if parts.len() == 2 {
                return Ok(Target::Kafka { brokers, topic, partition: None });
            }
            let p_s = parts[2].as_str();
            match parse_i64(p_s) {
                Some(v) => {
                    if 0 <= v && v <= 2147483647 {
                        return Ok(Target::Kafka { brokers, topic, partition: Some(v as i32) });
                    }
                    return Err(TargetError::ParseInt);
                },
                None => {
                    return Err(TargetError::ParseInt);
                },
            }
        }
        Err(TargetError::Invalid)
    }
}

/// String lists with the same contents.
fn vec_str_eq(a: &Vec<String>, b: &Vec<String>) -> (r: bool)
    ensures
        r == (pieces_view(a@) == pieces_view(b@)),
{
    if a.len() != b.len() {
        return false;
    }
    let mut i: usize = 0;
    while i < a.len()
        invariant
            i <= a@.len(),
            a@.len() == b@.len(),
            forall|j: int| 0 <= j < i ==> #[trigger] a@[j]@ == b@[j]@,
        decreases a@.len() - i,
    {
        if !(a[i] == b[i]) {
            proof {
                assert(pieces_view(a@)[i as int] != pieces_view(b@)[i as int]);
            }
            return false;
        }
        i = i + 1;
    }
    proof {
        assert(pieces_view(a@) =~= pieces_view(b@));
    }
    true
}

/// Two addresses name the identical endpoint: the same file path, or the
/// same broker list, topic and partition.
pub fn same_target(a: &Target, b: &Target) -> (r: bool)
    ensures
        r == (a@ == b@),
{
    match (a, b) {
        (Target::Path(p1), Target::Path(p2)) => {
            let r = *p1 == *p2;
            proof {
                assert(a@ == TargetV::Path(p1@));
                assert(b@ == TargetV::Path(p2@));
            }
            r
        },
        (
            Target::Kafka { brokers: b1, topic: t1, partition: p1 },
            Target::Kafka { brokers: b2, topic: t2, partition: p2 },
        ) => {
            proof {
                assert(a@ == (TargetV::Kafka {
                    brokers: pieces_view(b1@),
                    topic: t1@,
                    partition: *p1,
                }));
                assert(b@ == (TargetV::Kafka {
                    brokers: pieces_view(b2@),
                    topic: t2@,
                    partition: *p2,
                }));
            }
            if !(*t1 == *t2) {
                return false;
            }
            let parts_equal = match (p1, p2) {
                (Some(x), Some(y)) => *x == *y,
                (None, None) => true,
                _ => false,
            };
            if !parts_equal {
                return false;
            }
            vec_str_eq(b1, b2)
        },
        _ => false,
    }
}

/// Reject a copy request whose source and sink are the identical address.
/// This is a configuration check on the parsed addresses alone: it runs
/// before any file is opened or any connection is attempted.
pub fn check_self_copy(from: &Target, to: &Target) -> (r: Result<(), TargetError>)
    ensures
        r is Err <==> from@ == to@,
        r matches Err(e) ==> e == TargetError::SelfCopy,
{
    if same_target(from, to) {
        Err(TargetError::SelfCopy)
    } else {
        Ok(())
    }
}

} // verus!
