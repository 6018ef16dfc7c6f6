//! A load-generation engine for a WebSocket-based real-time protocol.
//!
//! The library holds everything the benchmark decides and computes: the
//! ramped launch schedule, the per-connection protocol state machine, the
//! framing of outbound messages, the correlation of asynchronous responses
//! with the requests that caused them, and the aggregation of latency,
//! throughput and error statistics. The surrounding runtime contributes
//! only transport I/O, task scheduling and clock readings, and feeds their
//! outcomes back in as plain values.

pub mod config;
pub mod coordinator;
pub mod engine;
pub mod frames;
pub mod ids;
pub mod metrics;
pub mod tracker;
pub mod worker;
