//! Verified core of a session-pooling daemon: named shell sessions that a
//! client can create, reattach to, and stream bytes through, with a framed
//! control protocol, an exclusive-ownership session registry, and a pair of
//! cooperatively cancelled byte-forwarding loops.

use vstd::prelude::*;

pub mod codec;
pub mod motd;
pub mod protocol;
pub mod pump;
pub mod registry;
pub mod spawn;

verus! {

/// Fixed buffer size for both pump loops, reused per iteration.
pub const BUF_SIZE: usize = 16384;

/// Bounded timeout, in milliseconds, for socket reads and writes around the
/// connection handshake.
pub const SOCK_STREAM_TIMEOUT_MS: u64 = 200;

/// Poll timeout, in milliseconds, for each bounded I/O attempt inside the
/// pump, so cancellation is observed within one interval.
pub const PIPE_POLL_MS: u64 = 200;

/// Interval, in milliseconds, at which the supervising routine polls the two
/// forwarding loops for completion.
pub const JOIN_POLL_MS: u64 = 100;

/// Reserved keep-alive interval, in milliseconds. A stub for future
/// heartbeat traffic; nothing sends heartbeats yet.
pub const HEARTBEAT_MS: u64 = 500;

} // verus!
