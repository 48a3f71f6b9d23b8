//! Log source resolution rules: which partition to read and where to
//! start, settled once at source construction, before any record flows.

use vstd::prelude::*;

verus! {

/// How a log source seeks its starting record.
#[derive(Debug, PartialEq, Eq, Structural, Clone, Copy)]
pub enum SeekPosition {
    /// Start at the earliest available record.
    Beginning,
    /// Start at this absolute offset.
    Offset(i64),
    /// Start this many records before the high watermark.
    OffsetTail(i64),
}

/// Why a log source cannot be configured.
#[derive(Debug, PartialEq, Eq, Structural, Clone, Copy)]
pub enum SourceError {
    /// The topic has several partitions and none was specified.
    AmbiguousPartition,
}

impl SourceError {
    /// A short description of the error.
    pub fn describe(&self) -> (r: &'static str)
        ensures
            r@ == "topic has more than one partition - please specify a partition to consume from"@,
    {
        "topic has more than one partition - please specify a partition to consume from"
    }
}

/// Resolve the partition to read.  An explicit choice wins; with none, a
/// topic with at most one partition defaults to partition 0, and several
/// partitions are a fatal configuration error, never a guess.
pub fn resolve_partition(requested: Option<i32>, n_partitions: usize) -> (r: Result<
    i32,
    SourceError,
>)
    ensures
        requested matches Some(p) ==> r == Result::<i32, SourceError>::Ok(p),
        requested is None && n_partitions <= 1 ==> r == Result::<i32, SourceError>::Ok(0),
        requested is None && n_partitions > 1 ==> r == Result::<i32, SourceError>::Err(
            SourceError::AmbiguousPartition,
        ),
{
    match requested {
        Some(p) => Ok(p),
        None => {
            if n_partitions > 1 {
                Err(SourceError::AmbiguousPartition)
            } else {
                Ok(0)
            }
        },
    }
}

/// Resolve the starting position against the partition watermarks, once,
/// at source construction — never re-resolved afterward.  An explicit
/// non-negative offset seeks there; a negative offset `v` is tail
/// semantics, `-v` records before the high watermark; no offset starts
/// at the earliest available record.  Returns the first offset that will
/// be read and the seek to hand to the log client.
pub fn resolve_start(requested: Option<i64>, low: i64, high: i64) -> (r: (i64, SeekPosition))
    requires
        0 <= low,
        low <= high,
        match requested {
            Option::Some(v) => v < 0 ==> v != i64::MIN,
            Option::None => true,
        },
    ensures
        match requested {
            Option::Some(v) => if v < 0 {
                r == (((high + v) as i64, SeekPosition::OffsetTail((-v) as i64)))
            } else {
                r == ((v, SeekPosition::Offset(v)))
            },
            Option::None => r == ((low, SeekPosition::Beginning)),
        },
{
    match requested {
        Some(v) => {
            if v < 0 {
                (high + v, SeekPosition::OffsetTail(-v))
            } else {
                (v, SeekPosition::Offset(v))
            }
        },
        None => (low, SeekPosition::Beginning),
    }
}

/// The remaining-records hint for progress display: the distance from
/// the starting offset to the high watermark, clamped at zero.  It is an
/// approximate upper bound for display only, never used for correctness.
pub fn remaining_hint(start: i64, high: i64) -> (r: u64)
    ensures
        r == if high > start {
            (high - start) as u64
        } else {
            0u64
        },
{
    if high > start {
        ((high as i128) - (start as i128)) as u64
    } else {
        0
    }
}

} // verus!
