//! Verified core of a pool-mining coordinator: proof-of-work search with
//! target comparison, a stratum-style line-JSON protocol codec and session,
//! a per-device scheduler, and a statistics aggregator.

pub mod algorithms;
pub mod client;
pub mod clock;
pub mod config;
pub mod devices;
pub mod digest;
pub mod encoding;
pub mod engine;
pub mod error;
pub mod json;
pub mod stats;
pub mod stratum;
pub mod types;
