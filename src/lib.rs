//! CheckMate: a status-aggregation service. Watchers report the outcome of
//! local checks to a server, queriers read the aggregated failures.
//!
//! This crate holds the verified core: the wire codec, argument parsing,
//! watcher output classification and the server's per-connection logic.
pub mod common;
pub mod client;
pub mod server;
