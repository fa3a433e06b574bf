//! Flow control: the two interchangeable strategies that keep the initiator
//! from overrunning the responder's buffer.
//!
//! Credit Accounting tracks an explicit byte budget seeded to the
//! responder's capacity: every accepted transaction consumes its wire cost
//! from the free pool into the in-buffer (held) pool; draining moves held
//! bytes to the back pool at a bounded rate; reporting hands the back pool
//! to the initiator and returns it to the free pool. Pause/Resume instead
//! signals a coarse binary stop/go with no byte accounting. Exactly one
//! strategy is active per session; both reset cleanly on Sync.

use vstd::prelude::*;
use crate::messages::Reply;

verus! {

/// Which flow-control strategy a session runs.
#[derive(Clone, Copy, Debug, PartialEq, Eq, Structural)]
pub enum FlowStrategy {
    /// Explicit byte budget, consumed and replenished.
    Credit,
    /// Binary stop/go, no byte accounting.
    PauseResume,
}

/// Responder-side credit accounting: a byte budget partitioned into three
/// pools that always sum to the buffer capacity.
#[derive(Clone, Copy)]
pub struct CreditBook {
    capacity: u64,
    free: u64,
    back: u64,
    held: u64,
}

impl CreditBook {
    /// The buffer capacity this book was seeded with.
    pub closed spec fn cap(self) -> int {
        self.capacity as int
    }

    /// Bytes of buffer the initiator may still commit.
    pub closed spec fn free_pool(self) -> int {
        self.free as int
    }

    /// Bytes drained from the buffer but not yet reported back.
    pub closed spec fn back_pool(self) -> int {
        self.back as int
    }

    /// Bytes committed by accepted transactions and still in the buffer.
    pub closed spec fn held_bytes(self) -> int {
        self.held as int
    }

    /// Credit invariant: the three pools partition the capacity, and the
    /// capacity fits the 8-bit credit fields of the wire format.
    pub closed spec fn wf(self) -> bool {
        &&& self.free_pool() + self.back_pool() + self.held_bytes() == self.cap()
        &&& self.cap() <= 255
    }

    /// A full budget: everything free, nothing held, nothing to report.
    pub fn new(capacity: u8) -> (b: CreditBook)
        ensures
            b.wf(),
            b.cap() == capacity,
            b.free_pool() == capacity,
            b.back_pool() == 0,
            b.held_bytes() == 0,
    {
        CreditBook { capacity: capacity as u64, free: capacity as u64, back: 0, held: 0 }
    }

    /// Commits `cost` bytes of buffer if the free pool covers them; refuses
    /// without change otherwise.
    pub fn try_consume(&mut self, cost: u64) -> (ok: bool)
        requires
            old(self).wf(),
        ensures
            final(self).wf(),
            ok == (cost <= old(self).free_pool()),
            final(self).cap() == old(self).cap(),
            final(self).back_pool() == old(self).back_pool(),
            ok ==> final(self).free_pool() == old(self).free_pool() - cost
                && final(self).held_bytes() == old(self).held_bytes() + cost,
            !ok ==> *final(self) == *old(self),
    {
        if cost <= self.free {
            self.free = self.free - cost;
            self.held = self.held + cost;
            true
        } else {
            false
        }
    }

    /// Models the downstream sink draining up to `amount` held bytes out of
    /// the buffer this cycle; they become back-credits awaiting report.
    pub fn drain(&mut self, amount: u64) -> (moved: u64)
        requires
            old(self).wf(),
        ensures
            final(self).wf(),
            final(self).cap() == old(self).cap(),
            final(self).free_pool() == old(self).free_pool(),
            moved == (if amount <= old(self).held_bytes() {
                amount as int
            } else {
                old(self).held_bytes()
            }),
            final(self).back_pool() == old(self).back_pool() + moved,
            final(self).held_bytes() == old(self).held_bytes() - moved,
    {
        let moved = if amount <= self.held {
            amount
        } else {
            self.held
        };
        self.held = self.held - moved;
        self.back = self.back + moved;
        moved
    }

    /// Takes the accumulated back-credits for reporting to the initiator,
    /// returning them to the free pool on this side.
    pub fn take_report(&mut self) -> (credits: u8)
        requires
            old(self).wf(),
        ensures
            final(self).wf(),
            final(self).cap() == old(self).cap(),
            credits == old(self).back_pool(),
            final(self).back_pool() == 0,
            final(self).free_pool() == old(self).free_pool() + old(self).back_pool(),
            final(self).held_bytes() == old(self).held_bytes(),
    {
        let credits = self.back;
        self.back = 0;
        self.free = self.free + credits;
        credits as u8
    }

    /// Re-seeds the budget to full capacity: the Sync recovery path.
    pub fn reseed(&mut self)
        requires
            old(self).wf(),
        ensures
            final(self).wf(),
            final(self).cap() == old(self).cap(),
            final(self).free_pool() == old(self).cap(),
            final(self).back_pool() == 0,
            final(self).held_bytes() == 0,
    {
        self.free = self.capacity;
        self.back = 0;
        self.held = 0;
    }

    /// The free pool, as an 8-bit credit report.
    pub fn report_free(&self) -> (credits: u8)
        requires
            self.wf(),
        ensures
            credits == self.free_pool(),
    {
        self.free as u8
    }

    /// The buffer capacity.
    pub fn capacity(&self) -> (c: u64)
        ensures
            c == self.cap(),
    {
        self.capacity
    }
}

/// Credit invariant, as a law: the free pool is never negative, and free,
/// back and outstanding committed bytes always sum to the capacity.
pub proof fn lemma_credit_conservation(b: CreditBook)
    requires
        b.wf(),
    ensures
        0 <= b.free_pool() <= b.cap(),
        0 <= b.back_pool() <= b.cap(),
        0 <= b.held_bytes() <= b.cap(),
        b.free_pool() + b.back_pool() + b.held_bytes() == b.cap(),
        b.cap() <= 255,
{
}

/// Responder-side pause/resume control: remembers which signal was sent
/// last, so the strategy alternates Pause and Resume.
#[derive(Clone, Copy)]
pub struct PauseCtl {
    engaged: bool,
}

impl PauseCtl {
    /// Whether the initiator was last told to pause.
    pub closed spec fn engaged(self) -> bool {
        self.engaged
    }

    /// Initially the initiator is free to issue.
    pub fn new() -> (p: PauseCtl)
        ensures
            !p.engaged(),
    {
        PauseCtl { engaged: false }
    }

    /// Flips the throttle and returns the signal to send.
    pub fn toggle(&mut self) -> (r: Reply)
        ensures
            final(self).engaged() == !old(self).engaged(),
            r == (if old(self).engaged() {
                Reply::Resume
            } else {
                Reply::Pause
            }),
    {
        if self.engaged {
            self.engaged = false;
            Reply::Resume
        } else {
            self.engaged = true;
            Reply::Pause
        }
    }

    /// Clears the throttle: the Sync recovery path.
    pub fn reset(&mut self)
        ensures
            !final(self).engaged(),
    {
        self.engaged = false;
    }
}

/// Initiator-side flow-control state: the local credit balance under Credit
/// Accounting, or nothing under Pause/Resume (the pause flag lives with the
/// tracker, since the responder may signal Pause under either strategy).
#[derive(Clone, Copy, Debug)]
pub enum ClientFlow {
    /// Local mirror of the credits the responder has granted.
    Credit { available: u64 },
    /// No byte accounting.
    PauseResume,
}

/// Whether the initiator-side flow control admits a transaction of the
/// given byte cost.
pub open spec fn flow_admits(f: ClientFlow, cost: int) -> bool {
    match f {
        ClientFlow::Credit { available } => cost <= available,
        ClientFlow::PauseResume => true,
    }
}

/// The initiator-side balance after receiving a credit report, saturating
/// only at the machine limit.
pub open spec fn flow_credited(f: ClientFlow, amount: int) -> ClientFlow {
    match f {
        ClientFlow::Credit { available } => ClientFlow::Credit {
            available: if available + amount <= u64::MAX {
                (available + amount) as u64
            } else {
                u64::MAX
            },
        },
        ClientFlow::PauseResume => ClientFlow::PauseResume,
    }
}

/// The initiator-side balance after paying for an admitted transaction.
pub open spec fn flow_debited(f: ClientFlow, cost: int) -> ClientFlow
    recommends
        flow_admits(f, cost),
        cost >= 0,
{
    match f {
        ClientFlow::Credit { available } => ClientFlow::Credit {
            available: (available - cost) as u64,
        },
        ClientFlow::PauseResume => ClientFlow::PauseResume,
    }
}

/// Responder-side flow-control state for the session's strategy.
#[derive(Clone, Copy)]
pub enum ServerFlow {
    /// Explicit byte budget.
    Credit(CreditBook),
    /// Binary stop/go.
    PauseResume(PauseCtl),
}

impl ServerFlow {
    /// Well-formedness of whichever strategy is active.
    pub open spec fn wf(self) -> bool {
        match self {
            ServerFlow::Credit(book) => book.wf(),
            ServerFlow::PauseResume(_) => true,
        }
    }
}

/// Whether the responder-side flow control admits a transaction of the
/// given byte cost: under Credit, the free pool must cover it; under
/// Pause/Resume there is no byte accounting.
pub open spec fn server_admits(f: ServerFlow, cost: int) -> bool {
    match f {
        ServerFlow::Credit(book) => cost <= book.free_pool(),
        ServerFlow::PauseResume(_) => true,
    }
}

/// The responder-side flow state after accepting a transaction of the given
/// byte cost: under Credit the cost moves from the free pool into the
/// buffer; under Pause/Resume nothing changes.
pub open spec fn server_flow_consumed(pre: ServerFlow, post: ServerFlow, cost: int) -> bool {
    match (pre, post) {
        (ServerFlow::Credit(b0), ServerFlow::Credit(b1)) => {
            &&& b1.cap() == b0.cap()
            &&& b1.free_pool() == b0.free_pool() - cost
            &&& b1.held_bytes() == b0.held_bytes() + cost
            &&& b1.back_pool() == b0.back_pool()
        },
        (ServerFlow::PauseResume(ctl0), ServerFlow::PauseResume(ctl1)) => ctl1 == ctl0,
        _ => false,
    }
}

} // verus!
