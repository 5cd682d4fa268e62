//! Verified core of a TCP port monitoring service.
//!
//! A fleet of devices, each with one or more IP addresses and a list of
//! port checks, is probed once per round. This library holds the logic
//! that is worth proving: aggregation of probe outcomes into check and
//! device results, the alert state machine with cooldown gating and
//! silent recovery, the retry policy and report rendering of the
//! notifier, and the per-round decisions of the orchestrator. The
//! surrounding process (TCP probes, HTTP delivery, configuration
//! loading, logging) performs I/O only and hands this library plain
//! values.

pub mod alert;
pub mod config;
pub mod evaluate;
pub mod limiter;
pub mod notify;
pub mod report;
pub mod round;
pub mod text;
