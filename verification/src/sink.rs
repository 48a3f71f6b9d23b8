//! The sink capability: accept one record at a time, flush on demand.

use vstd::prelude::*;

use crate::message::Message;

verus! {

/// Accepts one record at a time and supports an explicit, blocking
/// flush.  A file sink appends one framed record per write and flushes
/// its buffered writer; a log sink enqueues each record asynchronously
/// and blocks on flush until every enqueued write is acknowledged or has
/// failed.  Implementations live with their I/O, outside the library;
/// the copy pipeline treats each write's outcome as an event.
pub trait Sink: Send {
    /// Write one record, or report a failure to be retried.
    fn write(&mut self, msg: &Message) -> Result<(), String>;

    /// Block until every accepted record is durable or has failed.
    fn flush(&mut self) -> Result<(), String>;
}

} // verus!
