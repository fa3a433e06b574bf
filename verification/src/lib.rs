//! MaxBW: a point-to-point bus protocol connecting a compute-side initiator
//! (the client) to a memory-side responder (the server).
//!
//! The crate models the transaction-tracking and flow-control core shared by
//! both sides of the link: an 8-bit header codec, a bounded sliding window of
//! outstanding reads keyed by tag, out-of-order completions reconciled through
//! a signed relative delta, and two interchangeable flow-control strategies
//! (explicit byte credits, or coarse pause/resume), all reset by a Sync/Synced
//! handshake.

use vstd::prelude::*;

pub mod client;
pub mod codec;
pub mod endpoint;
pub mod flow;
pub mod messages;
pub mod server;

verus! {

/// Greatest number of reads either side may have outstanding at once.
pub const WINDOW_SIZE: usize = 16;

/// Bytes an address occupies on the wire.
pub const ADDR_BYTES: u64 = 8;

} // verus!
