//! Health-probe core for a blockchain-node dashboard.
//!
//! The library holds the verified logic of the dashboard: collecting
//! round-trip latency samples (with a fixed penalty standing in for failed
//! probes), computing nearest-rank percentiles over them, classifying the
//! 95th percentile into a three-level health status, parsing the hexadecimal
//! block number that the node reports, and assembling the JSON-RPC request
//! envelope. All durations are carried as whole nanoseconds. The surrounding
//! process (HTTP routes, templating, the actual network calls) stays outside
//! and hands the library plain values.

pub mod block;
pub mod health;
pub mod hex;
pub mod percentile;
pub mod rpc;
pub mod sampling;
