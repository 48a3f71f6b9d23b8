//! The range filter: restricting a record stream to an offset or time
//! window.
//!
//! A window is compared three-way against each record: `Less` means the
//! record lies before the window (it is skipped with a visible warning),
//! `Equal` means it lies in the window (it is yielded), `Greater` means it
//! lies after the window (it terminates the stream, offsets and times being
//! non-decreasing within a partition).  A time window held against a record
//! without a timestamp compares as `None`: an explicit, fatal
//! misconfiguration rather than a silent pass-through.

use core::cmp::Ordering;

use vstd::prelude::*;

use crate::message::Message;
use crate::message::MessageV;
use crate::message::Timestamp;
use crate::message::msgs_view;
use crate::numbers::parse_i64;
use crate::numbers::parse_i64_spec;
use crate::strutil::pieces_view;
use crate::strutil::split_on;
use crate::strutil::split_str;

verus! {

/// How parsing a range string can fail.
#[derive(Debug, PartialEq, Eq, Structural, Clone, Copy)]
pub enum OffsetError {
    /// A range component is not a valid 64-bit decimal integer.
    ParseInt,
    /// More than one `:` separator.
    TooManyParts,
    /// A time window was held against a record that carries no timestamp.
    Incomparable,
}

impl OffsetError {
    /// A short description of the error.
    pub fn describe(&self) -> (r: &'static str)
        ensures
            r@ == match *self {
                OffsetError::ParseInt => "invalid offset"@,
                OffsetError::TooManyParts => (
                "invalid offset range format (expected 'start', or 'start:end')"
                )@,
                OffsetError::Incomparable => "cannot compare offset"@,
            },
    {
        match self {
            OffsetError::ParseInt => "invalid offset",
            OffsetError::TooManyParts => "invalid offset range format (expected 'start', or 'start:end')",
            OffsetError::Incomparable => "cannot compare offset",
        }
    }
}

/// An inclusive window over record offsets.  A negative `start` is tail
/// semantics: it is resolved against the high watermark once, at source
/// construction, before any comparison happens here.
#[derive(Debug, PartialEq, Eq, Clone, Copy)]
pub struct OffsetRange {
    pub start: i64,
    pub end: Option<i64>,
}

impl OffsetRange {
    /// The three-way verdict of the window on a record, by its offset.
    pub open spec fn cmp_spec(self, m: MessageV) -> Option<Ordering> {
        if m.offset < self.start {
            Option::Some(Ordering::Less)
        } else if self.end matches Some(e) && m.offset > e {
            Option::Some(Ordering::Greater)
        } else {
            Option::Some(Ordering::Equal)
        }
    }

    /// Classify a record against the window: `Less` before it, `Equal`
    /// inside it, `Greater` past its end.
    pub fn cmp(&self, msg: &Message) -> (r: Option<Ordering>)
        ensures
            r == self.cmp_spec(msg@),
    {
        if msg.offset() < self.start {
            return Some(Ordering::Less);
        }
        if let Some(end) = self.end {
            if msg.offset() > end {
                return Some(Ordering::Greater);
            }
        }
        Some(Ordering::Equal)
    }
}

impl Default for OffsetRange {
    /// The unrestricted window: everything from offset zero up.
    fn default() -> (r: Self)
        ensures
            r == (OffsetRange { start: 0, end: Option::None }),
    {
        OffsetRange { start: 0, end: None }
    }
}

/// The plain milliseconds of a timestamp, whichever kind assigned it.
pub open spec fn ts_value(t: Timestamp) -> i64 {
    match t {
        Timestamp::CreateTime(v) => v,
        Timestamp::LogAppendTime(v) => v,
    }
}

/// An inclusive window over record timestamps, compared as plain integers
/// whether the time is producer- or broker-assigned.
#[derive(Debug, PartialEq, Eq, Clone, Copy)]
pub struct TimeRange {
    pub start: i64,
    pub end: Option<i64>,
}

impl TimeRange {
    /// The three-way verdict of the window on a record, by its timestamp;
    /// `None` where the record has no timestamp at all.
    pub open spec fn cmp_spec(self, m: MessageV) -> Option<Ordering> {
        match m.timestamp {
            Option::None => Option::None,
            Option::Some(t) => {
                let v = ts_value(t);
                if v < self.start {
                    Option::Some(Ordering::Less)
                } else if self.end matches Some(e) && v > e {
                    Option::Some(Ordering::Greater)
                } else {
                    Option::Some(Ordering::Equal)
                }
            },
        }
    }

    /// Classify a record against the window, or report that the record
    /// carries nothing to compare.
    pub fn cmp(&self, msg: &Message) -> (r: Option<Ordering>)
        ensures
            r == self.cmp_spec(msg@),
    {
        let created_at = match msg.timestamp() {
            Option::Some(t) => match t {
                Timestamp::CreateTime(v) => *v,
                Timestamp::LogAppendTime(v) => *v,
            },
            Option::None => {
                return None;
            },
        };
        if created_at < self.start {
            return Some(Ordering::Less);
        }
        if let Some(end) = self.end {
            if created_at > end {
                return Some(Ordering::Greater);
            }
        }
        Some(Ordering::Equal)
    }
}

/// The configured restriction of a read: at most one of an offset window
/// and a time window.
#[derive(Debug, Clone, Copy)]
pub struct OffsetClap {
    pub offset: Option<OffsetRange>,
    pub time_range: Option<TimeRange>,
}

impl OffsetClap {
    /// The two windows are mutually exclusive.
    pub open spec fn wf(self) -> bool {
        !(self.offset is Some && self.time_range is Some)
    }

    /// Build a restriction; the two windows are mutually exclusive.
    pub fn new(offset: Option<OffsetRange>, time_range: Option<TimeRange>) -> (r: Self)
        requires
            !(offset is Some && time_range is Some),
        ensures
            r == (OffsetClap { offset, time_range }),
            r.wf(),
    {
        OffsetClap { offset, time_range }
    }

    /// The verdict of whichever window is configured; no window at all
    /// acts as the default (unrestricted) offset window.
    pub open spec fn cmp_spec(self, m: MessageV) -> Option<Ordering> {
        match self.time_range {
            Option::Some(tr) => tr.cmp_spec(m),
            Option::None => match self.offset {
                Option::Some(r) => r.cmp_spec(m),
                Option::None => (OffsetRange { start: 0, end: Option::None }).cmp_spec(m),
            },
        }
    }

    /// Classify a record against the configured restriction.
    pub fn cmp(&self, msg: &Message) -> (r: Option<Ordering>)
        requires
            self.wf(),
        ensures
            r == self.cmp_spec(msg@),
    {
        if let Some(range) = self.time_range {
            return range.cmp(msg);
        }
        let range = match self.offset {
            Some(r) => r,
            None => OffsetRange::default(),
        };
        range.cmp(msg)
    }

    /// The minimum offset to read, if an offset window gives one.
    pub fn start_offset(&self) -> (r: Option<i64>)
        ensures
            r == match self.offset {
                Option::Some(o) => Option::Some(o.start),
                Option::None => Option::None::<i64>,
            },
    {
        if let Some(offset) = self.offset {
            return Some(offset.start);
        }
        None
    }

    /// Limit a record stream to this restriction, eagerly: skip records
    /// before the window, stop at the first record past it, fail on the
    /// first record the window cannot classify.
    pub fn wrap_iter(&self, items: Vec<Message>) -> (r: Result<Vec<Message>, OffsetError>)
        requires
            self.wf(),
        ensures
            match r {
                Result::Ok(v) => filtered(*self, msgs_view(items@)) == Result::<
                    Seq<MessageV>,
                    OffsetError,
                >::Ok(msgs_view(v@)),
                Result::Err(e) => filtered(*self, msgs_view(items@)) == Result::<
                    Seq<MessageV>,
                    OffsetError,
                >::Err(e),
            },
    {
        let ghost all = msgs_view(items@);
        let mut pending = items;
        let mut out: Vec<Message> = Vec::new();
        let ghost i: int = 0;
        proof {
            assert(all.skip(0) =~= all);
            assert(msgs_view(out@) + all =~= all);
        }
        while pending.len() > 0
            invariant
                self.wf(),
                0 <= i,
                all == msgs_view(items@),
                i + pending@.len() == all.len(),
                msgs_view(pending@) =~= all.skip(i),
                match filtered(*self, all.skip(i)) {
                    Result::Ok(rest) => filtered(*self, all) == Result::<
                        Seq<MessageV>,
                        OffsetError,
                    >::Ok(msgs_view(out@) + rest),
                    Result::Err(e) => filtered(*self, all) == Result::<
                        Seq<MessageV>,
                        OffsetError,
                    >::Err(e),
                },
            decreases pending@.len(),
        {
            let ghost items_before = pending@;
            let msg = pending.remove(0);
            proof {
                assert(msg@ == all.skip(i)[0]);
                assert(pending@ =~= items_before.drop_first());
                assert(msgs_view(pending@) =~= msgs_view(items_before).drop_first());
                assert(msgs_view(items_before).drop_first() =~= all.skip(i).drop_first());
                assert(all.skip(i).drop_first() =~= all.skip(i + 1));
                assert(msgs_view(pending@) =~= all.skip(i + 1));
            }
            match self.cmp(&msg) {
                Option::None => {
                    return Err(OffsetError::Incomparable);
                },
                Option::Some(Ordering::Greater) => {
                    proof {
                        assert(msgs_view(out@) + Seq::<MessageV>::empty() =~= msgs_view(out@));
                    }
                    return Ok(out);
                },
                Option::Some(Ordering::Less) => {
                },
                Option::Some(Ordering::Equal) => {
                    proof {
                        assert(msgs_view(out@.push(msg)) =~= msgs_view(out@).push(msg@));
                        match filtered(*self, all.skip(i + 1)) {
                            Result::Ok(rest) => {
                                assert(msgs_view(out@) + (seq![msg@] + rest) =~= msgs_view(
                                    out@,
                                ).push(msg@) + rest);
                            },
                            Result::Err(_) => {},
                        }
                    }
                    out.push(msg);
                },
            }
            proof {
                i = i + 1;
            }
        }
        proof {
            assert(all.skip(i).len() == 0);
            assert(msgs_view(out@) + Seq::<MessageV>::empty() =~= msgs_view(out@));
        }
        Ok(out)
    }
}

/// What the lazy range-filtered stream yields: records before the window
/// are dropped, the first record past the window ends the stream (no
/// later record is yielded, even one whose position is back inside the
/// window), and an unclassifiable record aborts it.
pub open spec fn filtered(c: OffsetClap, s: Seq<MessageV>) -> Result<Seq<MessageV>, OffsetError>
    decreases s.len(),
{
    if s.len() == 0 {
        Result::Ok(Seq::empty())
    } else {
        match c.cmp_spec(s[0]) {
            Option::None => Result::Err(OffsetError::Incomparable),
            Option::Some(Ordering::Greater) => Result::Ok(Seq::empty()),
            Option::Some(Ordering::Less) => filtered(c, s.drop_first()),
            Option::Some(Ordering::Equal) => match filtered(c, s.drop_first()) {
                Result::Ok(rest) => Result::Ok(seq![s[0]] + rest),
                Result::Err(e) => Result::Err(e),
            },
        }
    }
}

/// Parse a range string: `"start"`, `"start:end"`, `":end"` or the empty
/// string, each side an optional signed decimal.  A missing start is 0, a
/// missing end is unbounded; a component that is not an integer is a
/// parse error, and more than one `:` is a format error.
pub open spec fn parse_spec(s: Seq<char>) -> Result<(i64, Option<i64>), OffsetError> {
    let parts = split_on(s, ':');
    if !range_parts_ok(parts) {
        Result::Err(OffsetError::ParseInt)
    } else if parts.len() > 2 {
        Result::Err(OffsetError::TooManyParts)
    } else if parts.len() == 1 {
        if parts[0].len() == 0 {
            Result::Ok((0, Option::None))
        } else {
            Result::Ok((parse_i64_spec(parts[0])->0, Option::None))
        }
    } else {
        let start = if parts[0].len() == 0 {
            0
        } else {
            parse_i64_spec(parts[0])->0
        };
        let end = if parts[1].len() == 0 {
            Option::None
        } else {
            Option::Some(parse_i64_spec(parts[1])->0)
        };
        Result::Ok((start, end))
    }
}

/// Every range component is empty or a valid signed decimal.
pub open spec fn range_parts_ok(parts: Seq<Seq<char>>) -> bool {
    forall|i: int|
        0 <= i < parts.len() ==> (parts[i].len() == 0 || parse_i64_spec(#[trigger] parts[i])
            is Some)
}

/// Parse a range string into its inclusive start and optional end.
pub fn parse(s: &str) -> (r: Result<(i64, Option<i64>), OffsetError>)
    ensures
        r == parse_spec(s@),
{
    let parts = split_str(s, ':');
    let ghost views = pieces_view(parts@);
    let mut i: usize = 0;
    while i < parts.len()
        invariant
            i <= parts@.len(),
            views == pieces_view(parts@),
            views == split_on(s@, ':'),
            forall|j: int|
                0 <= j < i ==> (views[j].len() == 0 || parse_i64_spec(#[trigger] views[j])
                    is Some),
        decreases parts@.len() - i,
    {
        let p = parts[i].as_str();
        if !p.is_empty() {
            if parse_i64(p).is_none() {
                proof {
                    assert(views[i as int].len() != 0 && parse_i64_spec(views[i as int]) is None);
                    assert(!range_parts_ok(views));
                }
                return Err(OffsetError::ParseInt);
            }
        }
        i = i + 1;
    }
    if parts.len() > 2 {
        return Err(OffsetError::TooManyParts);
    }
    if parts.len() == 1 {
        let p0 = parts[0].as_str();
        if p0.is_empty() {
            return Ok((0, None));
        }
        match parse_i64(p0) {
            Some(v) => {
                return Ok((v, None));
            },
            None => {
                return vstd::pervasive::unreached();
            },
        }
    }
    let p0 = parts[0].as_str();
    let start = if p0.is_empty() {
        0
    } else {
        match parse_i64(p0) {
            Some(v) => v,
            None => {
                return vstd::pervasive::unreached();
            },
        }
    };
    let p1 = parts[1].as_str();
    let end = if p1.is_empty() {
        None
    } else {
        match parse_i64(p1) {
            Some(v) => Some(v),
            None => {
                return vstd::pervasive::unreached();
            },
        }
    };
    Ok((start, end))
}

/// The empty range string parses to the unrestricted offset window, and
/// that window classifies every record at a non-negative offset — that
/// is, every record a partition can hold — as in range.
pub proof fn lemma_empty_range_unrestricted(m: MessageV)
    requires
        m.offset >= 0,
    ensures
        parse_spec(Seq::<char>::empty()) == Result::<(i64, Option<i64>), OffsetError>::Ok(
            (0, Option::None),
        ),
        (OffsetRange { start: 0, end: Option::None }).cmp_spec(m) == Option::Some(Ordering::Equal),
{
    let parts = split_on(Seq::<char>::empty(), ':');
    assert(parts == seq![Seq::<char>::empty()]);
    assert(parts[0].len() == 0);
}

/// A restriction with no window at all classifies every record at a
/// non-negative offset as in range: nothing is skipped, nothing stops
/// the stream.
pub proof fn lemma_unset_range_in_range(c: OffsetClap, m: MessageV)
    requires
        c.offset is None,
        c.time_range is None,
        m.offset >= 0,
    ensures
        c.cmp_spec(m) == Option::Some(Ordering::Equal),
{
}

/// Stream form of the unrestricted classification: with no window
/// configured, filtering passes a stream of records at non-negative
/// offsets through unchanged.
pub proof fn lemma_unset_range_filters_nothing(c: OffsetClap, s: Seq<MessageV>)
    requires
        c.offset is None,
        c.time_range is None,
        forall|i: int| 0 <= i < s.len() ==> #[trigger] s[i].offset >= 0,
    ensures
        filtered(c, s) == Result::<Seq<MessageV>, OffsetError>::Ok(s),
    decreases s.len(),
{
    if s.len() == 0 {
        assert(s =~= Seq::<MessageV>::empty());
    } else {
        lemma_unset_range_in_range(c, s[0]);
        assert(forall|i: int| 0 <= i < s.drop_first().len() ==> #[trigger] s.drop_first()[i].offset
            >= 0);
        lemma_unset_range_filters_nothing(c, s.drop_first());
        assert(seq![s[0]] + s.drop_first() =~= s);
    }
}

} // verus!
