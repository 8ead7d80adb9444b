//! Timeouts, lifetimes and limits shared by the relay and the forwarder.

use vstd::prelude::*;

verus! {

/// Longest a channel may live before the forwarder reconnects, in seconds.
pub const MAX_CONNECTION_LIFETIME_SECS: i64 = 7200;

/// How long a channel record lives, in seconds.
pub const CONNECTION_TTL_SECS: i64 = 7200;

/// Interval between the forwarder's heartbeats, in seconds.
pub const HEARTBEAT_INTERVAL_SECS: u64 = 300;

/// The transport's idle timeout, in seconds.
pub const WEBSOCKET_IDLE_TIMEOUT_SECS: u64 = 600;

/// How long the relay waits for an agent's answer, in seconds; under the
/// frontend's own 29-second limit.
pub const REQUEST_TIMEOUT_SECS: u64 = 25;

/// How long a pending record lives, in seconds.
pub const PENDING_REQUEST_TTL_SECS: i64 = 30;

/// Largest request or response body, in bytes (2 MiB).
pub const MAX_BODY_SIZE_BYTES: usize = 2097152;

/// First delay before reconnecting, in milliseconds.
pub const RECONNECT_MIN_DELAY_MS: u64 = 1000;

/// Largest delay before reconnecting, in milliseconds.
pub const RECONNECT_MAX_DELAY_MS: u64 = 60000;

/// Factor by which the reconnect delay grows.
pub const RECONNECT_MULTIPLIER: u64 = 2;

/// First interval between polls of a pending record, in milliseconds.
pub const POLL_INITIAL_INTERVAL_MS: u64 = 50;

/// Largest interval between polls, in milliseconds.
pub const POLL_MAX_INTERVAL_MS: u64 = 500;

/// Factor by which the poll interval grows.
pub const POLL_BACKOFF_MULTIPLIER: u32 = 2;

/// Capacity of the forwarder's outbound queue.
pub const OUTBOUND_QUEUE_CAPACITY: usize = 100;

} // verus!
