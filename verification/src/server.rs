//! The responder side: the server transaction tracker, mirroring the
//! client's, and the session logic that accepts commands and emits replies.

use vstd::prelude::*;
use vstd::arithmetic::div_mod::lemma_mod_division_less_than_divisor;
use crate::codec::valid_width;
use crate::endpoint::{
    lemma_in_flight_positioned, lemma_pending_between_split, lemma_pending_in_window,
    lemma_window_bounds, pending_between, Endpoint, Entry,
};
use crate::flow::{
    lemma_credit_conservation, server_admits, server_flow_consumed, ServerFlow,
};
use crate::messages::{wire_cost, Command, ProtocolFault, Reply};

verus! {

/// Server transaction tracker: records accepted reads keyed by an
/// internally assigned tag, lets a pluggable policy pick a pending read to
/// complete out of order, and computes the signed delta a completion
/// carries.
pub struct ServerTracker {
    win: Endpoint,
}

impl ServerTracker {
    /// The tracked window of accepted, uncompleted reads.
    pub closed spec fn window(self) -> Endpoint {
        self.win
    }

    /// Well-formedness: the window invariant holds.
    pub open spec fn wf(self) -> bool {
        self.window().wf()
    }

    /// A fresh tracker with an empty window.
    pub fn new() -> (s: ServerTracker)
        ensures
            s.wf(),
            s.window().at_start(),
    {
        ServerTracker { win: Endpoint::new() }
    }

    /// Whether the window is at its bound: accepting another read would
    /// overflow it.
    pub fn window_full(&self) -> (r: bool)
        requires
            self.wf(),
        ensures
            r == (self.window().issued() - self.window().oldest() == crate::WINDOW_SIZE),
    {
        self.win.is_full()
    }

    /// Number of reads accepted and not yet completed.
    pub fn outstanding(&self) -> (r: usize)
        ensures
            r as int == self.window().in_flight(),
    {
        self.win.pending_len()
    }

    /// Tag the next accepted read will take.
    pub fn next_read_tag(&self) -> (r: u64)
        ensures
            r as int == self.window().issued(),
    {
        self.win.next_read_tag()
    }

    /// Records an accepted read under the next tag in acceptance order.
    /// A full window is a protocol fault — flow control should have kept
    /// the command out — and leaves the state unchanged.
    pub fn accept_read(&mut self, width: u8, address: u64) -> (r: Result<u64, ProtocolFault>)
        requires
            old(self).wf(),
            valid_width(width),
            old(self).window().issued() < u64::MAX,
        ensures
            final(self).wf(),
            r is Ok <==> old(self).window().issued() - old(self).window().oldest()
                < crate::WINDOW_SIZE,
            r is Err ==> *final(self) == *old(self) && r == Err::<u64, ProtocolFault>(
                ProtocolFault::WindowOverflow,
            ),
            r is Ok ==> {
                let tag = r->Ok_0;
                &&& tag as int == old(self).window().issued()
                &&& final(self).window().issued() == old(self).window().issued() + 1
                &&& final(self).window().resolved() == old(self).window().resolved()
                &&& final(self).window().oldest() == old(self).window().oldest()
                &&& final(self).window().in_flight() == old(self).window().in_flight() + 1
                &&& final(self).window().live(tag as int) == Some(
                    Entry { width, address },
                )
                &&& (forall|t: int|
                    t != tag as int ==> final(self).window().live(t) == old(self).window().live(t))
            },
    {
        proof {
            lemma_window_bounds(old(self).window());
        }
        if self.win.is_full() {
            return Err(ProtocolFault::WindowOverflow);
        }
        Ok(self.win.insert(Entry { width, address }))
    }

    /// The out-of-order selection policy: picks the `choice % count`-th
    /// pending read, counting up from the oldest. `choice` is supplied by
    /// the caller — a random source, a priority rule, or zero for FIFO —
    /// so the policy is pluggable without changing the wire contract.
    /// Returns `None` exactly when nothing is pending.
    pub fn select_completion(&self, choice: usize) -> (r: Option<u64>)
        requires
            self.wf(),
        ensures
            r is None <==> self.window().in_flight() == 0,
            r matches Some(tag) ==> self.window().is_pending(tag as int),
    {
        proof {
            lemma_window_bounds(self.window());
            lemma_in_flight_positioned(self.window());
        }
        let count = self.win.pending_len();
        if count == 0 {
            return None;
        }
        let target = choice % count;
        proof {
            lemma_mod_division_less_than_divisor(choice as int, count as int);
        }
        let oldest = self.win.oldest_unresolved();
        let read_tag = self.win.next_read_tag();
        let span = read_tag - oldest;
        let mut j: u64 = 0;
        let mut seen: usize = 0;
        while j < span
            invariant
                self.wf(),
                count as int == self.window().in_flight(),
                count == pending_between(self.window(), oldest as int, read_tag as int),
                oldest as int == self.window().oldest(),
                read_tag as int == self.window().issued(),
                span == read_tag - oldest,
                0 <= j <= span,
                seen == pending_between(self.window(), oldest as int, oldest as int + j),
                seen <= target < count,
            decreases span - j,
        {
            let tag = oldest + j;
            proof {
                lemma_pending_between_split(self.window(), oldest as int, tag as int, tag as int
                    + 1);
            }
            if self.win.lookup(tag).is_some() {
                if seen == target {
                    return Some(tag);
                }
                seen = seen + 1;
            }
            j = j + 1;
        }
        // The whole window has been walked: every pending read was counted,
        // so the target index was reached inside the loop.
        proof {
            assert(seen == pending_between(self.window(), oldest as int, read_tag as int));
            assert(false);
        }
        None
    }

    /// Completes the pending read with tag `tag`: removes its entry,
    /// advances `data_tag`, and returns the signed delta to put on the
    /// wire, `tag - data_tag`. An unknown tag is a protocol fault and
    /// leaves the state unchanged; the window invariant keeps the delta of
    /// any pending tag inside the encodable range, which is re-checked at
    /// run time all the same.
    pub fn complete(&mut self, tag: u64) -> (r: Result<(i8, Entry), ProtocolFault>)
        requires
            old(self).wf(),
        ensures
            final(self).wf(),
            r is Ok <==> old(self).window().is_pending(tag as int),
            r is Err ==> *final(self) == *old(self) && r == Err::<(i8, Entry), ProtocolFault>(
                ProtocolFault::UnknownTag,
            ),
            r is Ok ==> {
                let (delta, entry) = r->Ok_0;
                &&& delta as int == tag - old(self).window().resolved()
                &&& -(crate::WINDOW_SIZE - 1) <= delta <= crate::WINDOW_SIZE - 1
                &&& Some(entry) == old(self).window().live(tag as int)
                &&& final(self).window().issued() == old(self).window().issued()
                &&& final(self).window().resolved() == old(self).window().resolved() + 1
                &&& final(self).window().in_flight() == old(self).window().in_flight() - 1
                &&& final(self).window().live(tag as int) is None
                &&& (forall|u: int|
                    u != tag as int ==> final(self).window().live(u) == old(self).window().live(u))
                &&& old(self).window().oldest() <= final(self).window().oldest()
                &&& (forall|u: int|
                    old(self).window().oldest() <= u < final(self).window().oldest()
                        ==> !final(self).window().is_pending(u))
            },
    {
        let data_tag = self.win.next_data_tag();
        if self.win.lookup(tag).is_none() {
            return Err(ProtocolFault::UnknownTag);
        }
        proof {
            lemma_pending_in_window(old(self).window(), tag as int);
        }
        let delta: i8 = if tag >= data_tag {
            let d = tag - data_tag;
            if d > (crate::WINDOW_SIZE as u64 - 1) {
                // Unreachable given the window invariant; kept as a
                // debug-time check on the encodable range.
                return Err(ProtocolFault::DeltaRange);
            }
            d as i8
        } else {
            let d = data_tag - tag;
            if d > (crate::WINDOW_SIZE as u64 - 1) {
                return Err(ProtocolFault::DeltaRange);
            }
            -(d as i8)
        };
        match self.win.resolve(tag) {
            Some(entry) => Ok((delta, entry)),
            None => Err(ProtocolFault::UnknownTag),
        }
    }

    /// Discards all pending reads and resets both tag sequences: the Sync
    /// recovery path. Previously pending reads are never drained.
    pub fn on_sync(&mut self)
        ensures
            final(self).wf(),
            final(self).window().at_start(),
    {
        self.win.reset();
    }

    /// The pending entry recorded for `tag`, without removing it.
    pub fn lookup(&self, tag: u64) -> (r: Option<Entry>)
        requires
            self.wf(),
        ensures
            r == self.window().live(tag as int),
    {
        self.win.lookup(tag)
    }
}

/// What the responder does with a command once tracker and flow control
/// have processed it.
#[derive(Clone, Debug, PartialEq, Eq)]
pub enum ServerStep {
    /// A reply is owed at once (a `Synced` acknowledgement).
    Reply(Reply),
    /// The exchange is open: the responder may now complete a pending read
    /// or idle, via [`Server::emit_reply`].
    Open,
    /// The simulation ends; the responder's loop returns.
    Stop,
}

/// A full responder session: tracker plus flow-control state, with the
/// per-cycle decision logic of the server loop.
pub struct Server {
    /// Transaction tracking for accepted reads.
    pub tracker: ServerTracker,
    /// Flow-control state for the session's strategy.
    pub flow: ServerFlow,
}

impl Server {
    /// Well-formedness: window invariant and credit invariant both hold.
    pub open spec fn wf(self) -> bool {
        self.tracker.wf() && self.flow.wf()
    }

    /// A fresh session under the given flow-control state.
    pub fn new(flow: ServerFlow) -> (s: Server)
        requires
            flow.wf(),
        ensures
            s.wf(),
            s.tracker.window().at_start(),
            s.flow == flow,
    {
        Server { tracker: ServerTracker::new(), flow }
    }

    /// Consumes one command. Sync resets everything and owes a `Synced`
    /// reply reporting the re-seeded credits; reads are admitted against
    /// the window bound and the credit pool, writes against the credit pool
    /// alone; a command that flow control should have kept out is a
    /// protocol fault and leaves the state unchanged.
    pub fn handle_command(&mut self, cmd: &Command) -> (r: Result<ServerStep, ProtocolFault>)
        requires
            old(self).wf(),
            cmd matches Command::Read { width, address } ==> valid_width(*width),
            old(self).tracker.window().issued() < u64::MAX,
        ensures
            final(self).wf(),
            *cmd == Command::Idle ==> r == Ok::<ServerStep, ProtocolFault>(ServerStep::Open)
                && *final(self) == *old(self),
            *cmd == Command::EndSim ==> r == Ok::<ServerStep, ProtocolFault>(ServerStep::Stop)
                && *final(self) == *old(self),
            *cmd == Command::Sync ==> {
                &&& final(self).tracker.window().at_start()
                &&& (match (old(self).flow, final(self).flow) {
                    (ServerFlow::Credit(b0), ServerFlow::Credit(b1)) => {
                        &&& b1.cap() == b0.cap()
                        &&& b1.free_pool() == b0.cap()
                        &&& b1.back_pool() == 0
                        &&& b1.held_bytes() == 0
                        &&& r == Ok::<ServerStep, ProtocolFault>(ServerStep::Reply(
                            Reply::Synced(b0.cap() as u8),
                        ))
                    },
                    (ServerFlow::PauseResume(_), ServerFlow::PauseResume(ctl1)) => !ctl1.engaged() && r
                        == Ok::<ServerStep, ProtocolFault>(ServerStep::Reply(Reply::Synced(0))),
                    _ => false,
                })
            },
            cmd matches Command::Read { width, address } ==> {
                let full = old(self).tracker.window().issued() - old(self).tracker.window().oldest()
                    >= crate::WINDOW_SIZE;
                &&& full ==> r == Err::<ServerStep, ProtocolFault>(ProtocolFault::WindowOverflow)
                    && *final(self) == *old(self)
                &&& !full && !server_admits(old(self).flow, wire_cost(0)) ==> r == Err::<
                    ServerStep,
                    ProtocolFault,
                >(ProtocolFault::CreditShortfall) && *final(self) == *old(self)
                &&& !full && server_admits(old(self).flow, wire_cost(0)) ==> {
                    &&& r == Ok::<ServerStep, ProtocolFault>(ServerStep::Open)
                    &&& server_flow_consumed(old(self).flow, final(self).flow, wire_cost(0))
                    &&& final(self).tracker.window().issued() == old(self).tracker.window().issued() + 1
                    &&& final(self).tracker.window().resolved() == old(self).tracker.window().resolved()
                    &&& final(self).tracker.window().oldest() == old(self).tracker.window().oldest()
                    &&& final(self).tracker.window().in_flight() == old(self).tracker.window().in_flight() + 1
                    &&& final(self).tracker.window().live(old(self).tracker.window().issued())
                        == Some(Entry { width: *width, address: *address })
                    &&& (forall|t: int|
                        t != old(self).tracker.window().issued() ==> final(self).tracker.window().live(t) == old(self).tracker.window().live(t))
                }
            },
            cmd matches Command::Write { address, data } ==> final(self).tracker == old(self).tracker && {
                let cost = wire_cost(data@.len() as int);
                &&& !server_admits(old(self).flow, cost) ==> r == Err::<ServerStep, ProtocolFault>(
                    ProtocolFault::CreditShortfall,
                ) && final(self).flow == old(self).flow
                &&& server_admits(old(self).flow, cost) ==> r == Ok::<ServerStep, ProtocolFault>(
                    ServerStep::Open,
                ) && server_flow_consumed(old(self).flow, final(self).flow, cost)
            },
    {
        match cmd {
            Command::Idle => Ok(ServerStep::Open),
            Command::EndSim => Ok(ServerStep::Stop),
            Command::Sync => {
                self.tracker.on_sync();
                match self.flow {
                    ServerFlow::Credit(book) => {
                        let mut b = book;
                        b.reseed();
                        let credits = b.report_free();
                        self.flow = ServerFlow::Credit(b);
                        Ok(ServerStep::Reply(Reply::Synced(credits)))
                    },
                    ServerFlow::PauseResume(ctl) => {
                        let mut c = ctl;
                        c.reset();
                        self.flow = ServerFlow::PauseResume(c);
                        Ok(ServerStep::Reply(Reply::Synced(0)))
                    },
                }
            },
            Command::Read { width, address } => {
                proof {
                    lemma_window_bounds(old(self).tracker.window());
                }
                if self.tracker.window_full() {
                    return Err(ProtocolFault::WindowOverflow);
                }
                let cost: u64 = 1 + crate::ADDR_BYTES;
                match self.flow {
                    ServerFlow::Credit(book) => {
                        let mut b = book;
                        if !b.try_consume(cost) {
                            return Err(ProtocolFault::CreditShortfall);
                        }
                        self.flow = ServerFlow::Credit(b);
                    },
                    ServerFlow::PauseResume(_) => {},
                }
                match self.tracker.accept_read(*width, *address) {
                    Ok(_tag) => Ok(ServerStep::Open),
                    Err(fault) => {
                        // Unreachable: the window was checked above.
                        proof {
                            assert(false);
                        }
                        Err(fault)
                    },
                }
            },
            Command::Write { address: _, data } => {
                let len = data.len();
                match self.flow {
                    ServerFlow::Credit(book) => {
                        let mut b = book;
                        proof {
                            lemma_credit_conservation(b);
                        }
                        if len > 246 {
                            // Costs more than any 8-bit capacity can cover.
                            return Err(ProtocolFault::CreditShortfall);
                        }
                        let cost: u64 = 1 + crate::ADDR_BYTES + (len as u64);
                        if !b.try_consume(cost) {
                            return Err(ProtocolFault::CreditShortfall);
                        }
                        self.flow = ServerFlow::Credit(b);
                        Ok(ServerStep::Open)
                    },
                    ServerFlow::PauseResume(_) => Ok(ServerStep::Open),
                }
            },
        }
    }

    /// Models the downstream sink draining up to `amount` buffered bytes
    /// this cycle; under Pause/Resume nothing is accounted.
    pub fn replenish(&mut self, amount: u64)
        requires
            old(self).wf(),
        ensures
            final(self).wf(),
            final(self).tracker == old(self).tracker,
            (match (old(self).flow, final(self).flow) {
                (ServerFlow::Credit(b0), ServerFlow::Credit(b1)) => {
                    let moved = if amount <= b0.held_bytes() {
                        amount as int
                    } else {
                        b0.held_bytes()
                    };
                    &&& b1.cap() == b0.cap()
                    &&& b1.free_pool() == b0.free_pool()
                    &&& b1.back_pool() == b0.back_pool() + moved
                    &&& b1.held_bytes() == b0.held_bytes() - moved
                },
                (ServerFlow::PauseResume(ctl0), ServerFlow::PauseResume(ctl1)) => ctl1 == ctl0,
                _ => false,
            }),
    {
        match self.flow {
            ServerFlow::Credit(book) => {
                let mut b = book;
                let _moved = b.drain(amount);
                self.flow = ServerFlow::Credit(b);
            },
            ServerFlow::PauseResume(_) => {},
        }
    }

    /// Under Pause/Resume, flips the throttle when the caller's policy says
    /// so and returns the signal to send; under Credit there is nothing to
    /// signal.
    pub fn pause_step(&mut self, toggle: bool) -> (r: Option<Reply>)
        requires
            old(self).wf(),
        ensures
            final(self).wf(),
            final(self).tracker == old(self).tracker,
            !toggle ==> r is None && *final(self) == *old(self),
            toggle ==> (match (old(self).flow, final(self).flow) {
                (ServerFlow::Credit(b0), ServerFlow::Credit(b1)) => b1 == b0 && r is None,
                (ServerFlow::PauseResume(ctl0), ServerFlow::PauseResume(ctl1)) => {
                    &&& ctl1.engaged() == !ctl0.engaged()
                    &&& r == Some(
                        if ctl0.engaged() {
                            Reply::Resume
                        } else {
                            Reply::Pause
                        },
                    )
                },
                _ => false,
            }),
    {
        if !toggle {
            return None;
        }
        match self.flow {
            ServerFlow::Credit(_) => None,
            ServerFlow::PauseResume(ctl) => {
                let mut c = ctl;
                let signal = c.toggle();
                self.flow = ServerFlow::PauseResume(c);
                Some(signal)
            },
        }
    }

    /// Closes the exchange: either completes a pending read chosen by the
    /// caller's policy — emitting its delta and a zero payload of the
    /// read's width — or idles, reporting any back-credits.
    pub fn emit_reply(&mut self, try_complete: bool, choice: usize) -> (rep: Reply)
        requires
            old(self).wf(),
        ensures
            final(self).wf(),
            !(try_complete && old(self).tracker.window().in_flight() > 0) ==> {
                &&& final(self).tracker == old(self).tracker
                &&& (match (old(self).flow, final(self).flow) {
                    (ServerFlow::Credit(b0), ServerFlow::Credit(b1)) => {
                        &&& rep == Reply::Idle(b0.back_pool() as u8)
                        &&& b1.cap() == b0.cap()
                        &&& b1.back_pool() == 0
                        &&& b1.free_pool() == b0.free_pool() + b0.back_pool()
                        &&& b1.held_bytes() == b0.held_bytes()
                    },
                    (ServerFlow::PauseResume(ctl0), ServerFlow::PauseResume(ctl1)) => ctl1 == ctl0 && rep
                        == Reply::Idle(0),
                    _ => false,
                })
            },
            try_complete && old(self).tracker.window().in_flight() > 0 ==> {
                &&& final(self).flow == old(self).flow
                &&& rep matches Reply::Data(delta, payload) && {
                    let t = old(self).tracker.window().resolved() + delta;
                    &&& old(self).tracker.window().is_pending(t)
                    &&& payload@.len() == old(self).tracker.window().live(t)->Some_0.width
                    &&& (forall|i: int| 0 <= i < payload@.len() ==> payload@[i] == 0)
                    &&& final(self).tracker.window().issued() == old(self).tracker.window().issued()
                    &&& final(self).tracker.window().resolved() == old(self).tracker.window().resolved() + 1
                    &&& final(self).tracker.window().in_flight() == old(self).tracker.window().in_flight() - 1
                    &&& final(self).tracker.window().live(t) is None
                    &&& (forall|u: int|
                        u != t ==> final(self).tracker.window().live(u) == old(self).tracker.window().live(u))
                }
            },
    {
        if try_complete && self.tracker.outstanding() > 0 {
            match self.tracker.select_completion(choice) {
                Some(tag) => {
                    match self.tracker.complete(tag) {
                        Ok((delta, entry)) => {
                            let payload = zero_payload(entry.width);
                            return Reply::Data(delta, payload);
                        },
                        Err(_) => {
                            // Unreachable: the selected tag is pending.
                            proof {
                                assert(false);
                            }
                        },
                    }
                },
                None => {
                    // Unreachable: the window is not empty.
                    proof {
                        assert(false);
                    }
                },
            }
        }
        match self.flow {
            ServerFlow::Credit(book) => {
                let mut b = book;
                let credits = b.take_report();
                self.flow = ServerFlow::Credit(b);
                Reply::Idle(credits)
            },
            ServerFlow::PauseResume(_) => Reply::Idle(0),
        }
    }
}

/// A zeroed payload of the given width: the simulated memory returns zero
/// bytes for every read.
fn zero_payload(width: u8) -> (v: Vec<u8>)
    ensures
        v@.len() == width,
        forall|i: int| 0 <= i < v@.len() ==> v@[i] == 0,
{
    let mut v: Vec<u8> = Vec::new();
    let mut i: u8 = 0;
    while i < width
        invariant
            i <= width,
            v@.len() == i,
            forall|k: int| 0 <= k < i ==> v@[k] == 0,
        decreases width - i,
    {
        v.push(0);
        i = i + 1;
    }
    v
}

} // verus!
