//! The values exchanged over the link, and the protocol's error taxonomy.

use vstd::prelude::*;

verus! {

/// A command carried initiator to responder: one header byte on the wire,
/// optionally followed by address and data bytes.
#[derive(Clone, Debug, PartialEq, Eq)]
pub enum Command {
    /// No work this cycle.
    Idle,
    /// Ask the responder to reset to a known-empty state.
    Sync,
    /// A read of `width` bytes at `address`.
    Read { width: u8, address: u64 },
    /// A write of `data` at `address`; no completion is expected.
    Write { address: u64, data: Vec<u8> },
    /// Ends the responder's loop; simulation-only, never seen on real wires.
    EndSim,
}

/// A reply carried responder to initiator. The credit fields ride along on
/// `Idle` and `Synced` under the credit-accounting strategy; a pause/resume
/// session carries zero there.
#[derive(Clone, Debug, PartialEq, Eq)]
pub enum Reply {
    /// No completion this cycle; reports freshly replenished back-credits.
    Idle(u8),
    /// Acknowledges a `Sync`; reports the re-seeded credit pool.
    Synced(u8),
    /// Coarse flow control: stop issuing reads and writes.
    Pause,
    /// Coarse flow control: issuing may continue.
    Resume,
    /// A completion: the completed tag relative to the next expected
    /// in-order completion, and the data read.
    Data(i8, Vec<u8>),
}

/// A workload item the initiator is asked to issue next.
#[derive(Clone, Debug, PartialEq, Eq)]
pub enum Request {
    /// Issue a read of `width` bytes.
    Read { width: u8, address: u64 },
    /// Issue a write of `data`.
    Write { address: u64, data: Vec<u8> },
}

/// A contract violation, fatal to the session: continuing would process
/// against unreliable state. The only sanctioned recovery is the
/// Sync/Synced handshake.
#[derive(Clone, Copy, Debug, PartialEq, Eq, Structural)]
pub enum ProtocolFault {
    /// A completion referenced a tag with no pending read.
    UnknownTag,
    /// A completion's delta pointed before the start of the tag sequence.
    DeltaRange,
    /// A read arrived with the window already at its bound: the peer
    /// violated flow control.
    WindowOverflow,
    /// A transaction arrived costing more bytes than the free-credit pool
    /// holds: the peer violated flow control.
    CreditShortfall,
}

/// An expected steady-state flow-control refusal, not an error: the correct
/// response is to substitute Idle and retry later, never to drop the
/// transaction.
#[derive(Clone, Copy, Debug, PartialEq, Eq, Structural)]
pub enum Refusal {
    /// No Sync/Synced handshake has completed yet.
    Unsynced,
    /// The window already holds [`crate::WINDOW_SIZE`] unresolved reads.
    WindowFull,
    /// The responder signalled Pause and has not yet signalled Resume.
    Paused,
}

/// Bytes a transaction occupies in the responder's buffer: one header byte,
/// the address, and any data payload.
pub open spec fn wire_cost(data_len: int) -> int {
    1 + crate::ADDR_BYTES + data_len
}

} // verus!
