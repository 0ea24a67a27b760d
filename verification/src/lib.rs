//! A verified core for a TCP round-trip latency monitor.
//!
//! One side listens and echoes timestamped probes; the other sends probes,
//! measures elapsed time, classifies it against severity thresholds, and
//! periodically reports aggregate statistics. This crate holds the verified
//! logic: the wire codec for probes, the statistics accumulator with
//! snapshot-and-reset semantics, the latency classification, the reconnect
//! state machine, the periodic reporter's per-tick decisions, and the
//! configuration parsers. Socket I/O, threads, and log output live outside,
//! in a thin unverified shell.

use vstd::prelude::*;

pub mod codec;
pub mod parse;
pub mod reporter;
pub mod round;
pub mod stat;
pub mod supervisor;
pub mod text;

verus! {

} // verus!
