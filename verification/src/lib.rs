//! A verified core for a small DNS latency benchmarker.
//!
//! `encoder` builds the wire bytes of a single standard DNS query (type A,
//! class IN) from a transaction id and a hostname. `flags` packs the header
//! flag fields into their two wire bytes. `bench` classifies the outcome of
//! each timed attempt and aggregates per-target statistics. The sockets and
//! clocks that feed the benchmark live outside this crate; everything here is
//! a pure function of its arguments.

pub mod bench;
pub mod encoder;
pub mod flags;
