//! Verified core of a record-copying tool.
//!
//! The library moves discrete records between a partition of an append-only
//! log and a local binary-framed file.  It contains the verified logic of the
//! tool: the record data model, the binary file framing codec, the offset and
//! time range filter, the target-address parser, the partition and offset
//! resolution rules for a log source, and the two-stage copy pipeline with
//! its bounded buffer, backpressure and retry accounting.
//!
//! I/O, command-line handling and the log client itself live outside the
//! library; they hand plain values in and take plain values back.

pub mod file_codec;
pub mod json_output;
pub mod kafka_opts;
pub mod message;
pub mod numbers;
pub mod pipeline;
pub mod range;
pub mod sink;
pub mod source;
pub mod strutil;
pub mod target;
