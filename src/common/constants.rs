//! Default settings of the client and the server.
use vstd::prelude::*;

verus! {

pub const DEFAULT_PORT: u16 = 10005;

pub const DEFAULT_CONNECTION_BACKOFF_MS: u64 = 500;

pub const DEFAULT_MAXIMUM_SERVER_CONNECTION_ATTEMPTS: u32 = 0;

pub const DEFAULT_WATCH_INTERVAL_MS: u64 = 1000;

pub const DEFAULT_WATCH_DELAY_MS: u64 = 0;

pub const DEFAULT_INCLUDE_NAMES: bool = false;

pub const DEFAULT_SHELL: bool = false;

pub const DEFAULT_LOG_EVERY_STATUS: bool = false;

} // verus!
