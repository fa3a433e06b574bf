//! The initiator side: the client transaction tracker and the session logic
//! that decides, each cycle, what command to put on the wire and how to
//! consume each reply.

use vstd::prelude::*;
use crate::codec::{is_valid_width, valid_width};
use crate::endpoint::{Endpoint, Entry};
use crate::flow::{flow_admits, flow_credited, flow_debited, ClientFlow, FlowStrategy};
use crate::messages::{wire_cost, Command, ProtocolFault, Refusal, Reply, Request};

verus! {

/// The client's handshake state: issuing reads or writes is illegal until a
/// Sync has been answered by Synced.
#[derive(Clone, Copy, Debug, PartialEq, Eq, Structural)]
pub enum SyncState {
    /// No handshake has completed; only Idle and Sync may be sent.
    Unsynced,
    /// A Synced reply established a known-empty baseline.
    Synced,
}

/// Client transaction tracker: assigns each outstanding read a tag, keeps
/// the bounded window of unresolved reads, and reconstructs a completion's
/// tag from its signed relative delta.
pub struct ClientTracker {
    win: Endpoint,
    state: SyncState,
    pause_flag: bool,
}

impl ClientTracker {
    /// The tracked window of outstanding reads.
    pub closed spec fn window(self) -> Endpoint {
        self.win
    }

    /// Whether the Sync/Synced handshake has completed.
    pub closed spec fn synced(self) -> bool {
        self.state == SyncState::Synced
    }

    /// Whether the responder has this side paused.
    pub closed spec fn paused(self) -> bool {
        self.pause_flag
    }

    /// Well-formedness: the window invariant holds.
    pub open spec fn wf(self) -> bool {
        self.window().wf()
    }

    /// A fresh tracker: unsynced, unpaused, empty window.
    pub fn new() -> (c: ClientTracker)
        ensures
            c.wf(),
            !c.synced(),
            !c.paused(),
            c.window().at_start(),
    {
        ClientTracker { win: Endpoint::new(), state: SyncState::Unsynced, pause_flag: false }
    }

    /// Issues a read if the session is synced, not paused, and the window is
    /// not full: allocates the next `read_tag`, records the entry, and
    /// returns the tag. Refuses without change otherwise; the caller must
    /// send Idle and may retry later.
    pub fn issue_read(&mut self, width: u8, address: u64) -> (r: Result<u64, Refusal>)
        requires
            old(self).wf(),
            valid_width(width),
            old(self).window().issued() < u64::MAX,
        ensures
            final(self).wf(),
            final(self).synced() == old(self).synced(),
            final(self).paused() == old(self).paused(),
            !old(self).synced() ==> r == Err::<u64, Refusal>(Refusal::Unsynced),
            old(self).synced() && old(self).paused() ==> r == Err::<u64, Refusal>(Refusal::Paused),
            old(self).synced() && !old(self).paused() && old(self).window().issued() - old(self).window().oldest() >= crate::WINDOW_SIZE ==> r == Err::<u64, Refusal>(
                Refusal::WindowFull,
            ),
            r is Err ==> *final(self) == *old(self),
            r is Ok <==> old(self).synced() && !old(self).paused() && old(self).window().issued()
                - old(self).window().oldest() < crate::WINDOW_SIZE,
            r is Ok ==> {
                let tag = r->Ok_0;
                &&& tag as int == old(self).window().issued()
                &&& final(self).window().issued() == old(self).window().issued() + 1
                &&& final(self).window().resolved() == old(self).window().resolved()
                &&& final(self).window().oldest() == old(self).window().oldest()
                &&& final(self).window().in_flight() == old(self).window().in_flight() + 1
                &&& final(self).window().live(tag as int) == Some(
                    Entry { width, address },
                )
                &&& (forall|t: int|
                    t != tag as int ==> final(self).window().live(t) == old(self).window().live(t))
            },
    {
        proof {
            crate::endpoint::lemma_window_bounds(old(self).window());
        }
        if !matches!(self.state, SyncState::Synced) {
            return Err(Refusal::Unsynced);
        }
        if self.pause_flag {
            return Err(Refusal::Paused);
        }
        if self.win.is_full() {
            return Err(Refusal::WindowFull);
        }
        let tag = self.win.insert(Entry { width, address });
        Ok(tag)
    }

    /// Write issuance is a pass-through, not tracked: no completion is
    /// expected. It is gated all the same: illegal while unsynced, refused
    /// while paused.
    pub fn issue_write(&self) -> (r: Result<(), Refusal>)
        ensures
            !self.synced() ==> r == Err::<(), Refusal>(Refusal::Unsynced),
            self.synced() && self.paused() ==> r == Err::<(), Refusal>(Refusal::Paused),
            r is Ok <==> self.synced() && !self.paused(),
    {
        if !matches!(self.state, SyncState::Synced) {
            return Err(Refusal::Unsynced);
        }
        if self.pause_flag {
            return Err(Refusal::Paused);
        }
        Ok(())
    }

    /// Consumes a completion: reconstructs the completed tag as
    /// `data_tag + delta`, removes its entry, advances `data_tag`, and
    /// advances the oldest-unresolved marker through any now-contiguous
    /// resolved run. A delta pointing before the start of the tag sequence
    /// or at a tag with no pending read is a protocol fault — a responder
    /// bug, not recoverable locally — and leaves the state unchanged.
    pub fn on_completion(&mut self, delta: i8) -> (r: Result<(u64, Entry), ProtocolFault>)
        requires
            old(self).wf(),
        ensures
            final(self).wf(),
            final(self).synced() == old(self).synced(),
            final(self).paused() == old(self).paused(),
            r is Ok <==> old(self).window().is_pending(old(self).window().resolved() + delta),
            old(self).window().resolved() + delta < 0 ==> r == Err::<(u64, Entry), ProtocolFault>(
                ProtocolFault::DeltaRange,
            ),
            old(self).window().resolved() + delta >= 0 && !old(self).window().is_pending(
                old(self).window().resolved() + delta,
            ) ==> r == Err::<(u64, Entry), ProtocolFault>(ProtocolFault::UnknownTag),
            r is Err ==> *final(self) == *old(self),
            r is Ok ==> {
                let t = old(self).window().resolved() + delta;
                let (tag, entry) = r->Ok_0;
                &&& tag as int == t
                &&& Some(entry) == old(self).window().live(t)
                &&& final(self).window().issued() == old(self).window().issued()
                &&& final(self).window().resolved() == old(self).window().resolved() + 1
                &&& final(self).window().in_flight() == old(self).window().in_flight() - 1
                &&& final(self).window().live(t) is None
                &&& (forall|u: int|
                    u != t ==> final(self).window().live(u) == old(self).window().live(u))
                &&& old(self).window().oldest() <= final(self).window().oldest()
                &&& (forall|u: int|
                    old(self).window().oldest() <= u < final(self).window().oldest()
                        ==> !final(self).window().is_pending(u))
            },
    {
        let data_tag = self.win.next_data_tag();
        let tag: u64 = if delta >= 0 {
            match data_tag.checked_add(delta as u64) {
                Some(t) => t,
                None => {
                    // The target would lie beyond any issuable tag, so no
                    // read can be pending there.
                    proof {
                        if old(self).window().is_pending(old(self).window().resolved() + delta) {
                            crate::endpoint::lemma_pending_in_window(
                                old(self).window(),
                                old(self).window().resolved() + delta,
                            );
                            crate::endpoint::lemma_window_bounds(old(self).window());
                        }
                    }
                    return Err(ProtocolFault::UnknownTag);
                },
            }
        } else {
            let magnitude = (-(delta as i64)) as u64;
            if magnitude > data_tag {
                // The target tag would be negative: nothing can be pending
                // there.
                proof {
                    if old(self).window().is_pending(old(self).window().resolved() + delta) {
                        crate::endpoint::lemma_pending_in_window(
                            old(self).window(),
                            old(self).window().resolved() + delta,
                        );
                        crate::endpoint::lemma_window_bounds(old(self).window());
                    }
                }
                return Err(ProtocolFault::DeltaRange);
            }
            data_tag - magnitude
        };
        match self.win.resolve(tag) {
            Some(entry) => Ok((tag, entry)),
            None => Err(ProtocolFault::UnknownTag),
        }
    }

    /// Consumes a Synced reply: clears all entries, resets both tag
    /// sequences and the oldest marker to zero, clears Pause, and enters
    /// the Synced state.
    pub fn on_sync_ack(&mut self)
        ensures
            final(self).wf(),
            final(self).synced(),
            !final(self).paused(),
            final(self).window().at_start(),
    {
        self.win.reset();
        self.state = SyncState::Synced;
        self.pause_flag = false;
    }

    /// Consumes a Pause signal.
    pub fn on_pause(&mut self)
        ensures
            final(self).window() == old(self).window(),
            final(self).synced() == old(self).synced(),
            final(self).paused(),
    {
        self.pause_flag = true;
    }

    /// Consumes a Resume signal.
    pub fn on_resume(&mut self)
        ensures
            final(self).window() == old(self).window(),
            final(self).synced() == old(self).synced(),
            !final(self).paused(),
    {
        self.pause_flag = false;
    }

    /// Number of reads outstanding.
    pub fn outstanding(&self) -> (r: usize)
        ensures
            r as int == self.window().in_flight(),
    {
        self.win.pending_len()
    }

    /// Tag the next issued read will take.
    pub fn next_read_tag(&self) -> (r: u64)
        ensures
            r as int == self.window().issued(),
    {
        self.win.next_read_tag()
    }

    /// Whether the handshake has completed.
    pub fn is_synced(&self) -> (r: bool)
        ensures
            r == self.synced(),
    {
        matches!(self.state, SyncState::Synced)
    }

    /// Whether the responder has this side paused.
    pub fn is_paused(&self) -> (r: bool)
        ensures
            r == self.paused(),
    {
        self.pause_flag
    }

    /// The pending entry recorded for `tag`, without removing it.
    pub fn lookup(&self, tag: u64) -> (r: Option<Entry>)
        requires
            self.wf(),
        ensures
            r == self.window().live(tag as int),
    {
        self.win.lookup(tag)
    }
}

/// A full initiator session: tracker plus flow-control state, with the
/// per-cycle decision logic of the client loop.
pub struct Client {
    /// Transaction tracking and handshake state.
    pub tracker: ClientTracker,
    /// Flow-control state for the session's strategy.
    pub flow: ClientFlow,
    /// Whether the session waits for the window to drain before ending the
    /// simulation; the alternative ends with reads still pending.
    pub drain_before_stop: bool,
}

/// Whether the client may put a read on the wire: synced, not paused,
/// window not full, and flow control covering the read's wire cost.
pub open spec fn read_admitted(c: Client, width: u8) -> bool {
    &&& c.tracker.synced()
    &&& !c.tracker.paused()
    &&& valid_width(width)
    &&& c.tracker.window().issued() - c.tracker.window().oldest() < crate::WINDOW_SIZE
    &&& flow_admits(c.flow, wire_cost(0))
}

/// Whether the client may put a write on the wire: synced, not paused, a
/// supported payload width, and flow control covering its wire cost.
pub open spec fn write_admitted(c: Client, data_len: int) -> bool {
    &&& c.tracker.synced()
    &&& !c.tracker.paused()
    &&& (data_len == 1 || data_len == 2 || data_len == 4 || data_len == 8)
    &&& flow_admits(c.flow, wire_cost(data_len))
}

/// How a consumed completion changes the tracker: the entry at `t` is gone,
/// `data_tag` advanced, everything else untouched, and the oldest marker
/// moved only past resolved tags.
pub open spec fn completion_applied(pre: ClientTracker, post: ClientTracker, t: int) -> bool {
    &&& post.synced() == pre.synced()
    &&& post.paused() == pre.paused()
    &&& post.window().issued() == pre.window().issued()
    &&& post.window().resolved() == pre.window().resolved() + 1
    &&& post.window().in_flight() == pre.window().in_flight() - 1
    &&& post.window().live(t) is None
    &&& (forall|u: int| u != t ==> post.window().live(u) == pre.window().live(u))
    &&& pre.window().oldest() <= post.window().oldest()
    &&& (forall|u: int|
        pre.window().oldest() <= u < post.window().oldest() ==> !post.window().is_pending(u))
}

impl Client {
    /// Well-formedness: the tracker's window invariant holds.
    pub open spec fn wf(self) -> bool {
        self.tracker.wf()
    }

    /// A fresh session under the given strategy: unsynced, empty window,
    /// no credit granted yet, draining before stop.
    pub fn new(strategy: FlowStrategy) -> (c: Client)
        ensures
            c.wf(),
            !c.tracker.synced(),
            !c.tracker.paused(),
            c.tracker.window().at_start(),
            c.flow == (match strategy {
                FlowStrategy::Credit => ClientFlow::Credit { available: 0u64 },
                FlowStrategy::PauseResume => ClientFlow::PauseResume,
            }),
            c.drain_before_stop,
    {
        let flow = match strategy {
            FlowStrategy::Credit => ClientFlow::Credit { available: 0 },
            FlowStrategy::PauseResume => ClientFlow::PauseResume,
        };
        Client { tracker: ClientTracker::new(), flow, drain_before_stop: true }
    }

    /// Decides the command for this cycle. An unsynced session asks to
    /// sync. A workload request is issued if tracker and flow control admit
    /// it, and degrades to Idle otherwise — never dropped, the caller
    /// retries later. With the workload exhausted, the session idles until
    /// the window drains (unless configured otherwise), then ends the
    /// simulation.
    pub fn next_command(&mut self, req: Option<Request>) -> (c: Command)
        requires
            old(self).wf(),
            old(self).tracker.window().issued() < u64::MAX,
        ensures
            final(self).wf(),
            final(self).drain_before_stop == old(self).drain_before_stop,
            !old(self).tracker.synced() ==> c == Command::Sync && *final(self) == *old(self),
            old(self).tracker.synced() && req is None ==> *final(self) == *old(self) && c == (
            if old(self).tracker.window().in_flight() == 0 || !old(self).drain_before_stop {
                Command::EndSim
            } else {
                Command::Idle
            }),
            req matches Some(Request::Read { width, address }) ==> {
                &&& old(self).tracker.synced() && !read_admitted(*old(self), width) ==> c
                    == Command::Idle && *final(self) == *old(self)
                &&& old(self).tracker.synced() && read_admitted(*old(self), width) ==> {
                &&& c == (Command::Read { width, address })
                &&& final(self).flow == flow_debited(old(self).flow, wire_cost(0))
                &&& final(self).tracker.synced()
                &&& !final(self).tracker.paused()
                &&& final(self).tracker.window().issued() == old(self).tracker.window().issued()
                    + 1
                &&& final(self).tracker.window().resolved() == old(self).tracker.window().resolved()
                &&& final(self).tracker.window().oldest() == old(self).tracker.window().oldest()
                &&& final(self).tracker.window().in_flight() == old(self).tracker.window().in_flight() + 1
                &&& final(self).tracker.window().live(old(self).tracker.window().issued()) == Some(
                    Entry { width, address },
                )
                &&& (forall|t: int|
                    t != old(self).tracker.window().issued() ==> final(self).tracker.window().live(
                        t,
                    ) == old(self).tracker.window().live(t))
                }
            },
            req matches Some(Request::Write { address, data }) ==> old(self).tracker.synced()
                ==> final(self).tracker == old(self).tracker && (if write_admitted(
                *old(self),
                data@.len() as int,
            ) {
                c == (Command::Write { address, data }) && final(self).flow == flow_debited(
                    old(self).flow,
                    wire_cost(data@.len() as int),
                )
            } else {
                c == Command::Idle && final(self).flow == old(self).flow
            }),
    {
        if !self.tracker.is_synced() {
            return Command::Sync;
        }
        match req {
            None => {
                if self.tracker.outstanding() == 0 || !self.drain_before_stop {
                    Command::EndSim
                } else {
                    Command::Idle
                }
            },
            Some(Request::Read { width, address }) => {
                if !is_valid_width(width) {
                    return Command::Idle;
                }
                let cost: u64 = 1 + crate::ADDR_BYTES;
                match self.flow {
                    ClientFlow::Credit { available } => {
                        if available < cost {
                            return Command::Idle;
                        }
                    },
                    ClientFlow::PauseResume => {},
                }
                match self.tracker.issue_read(width, address) {
                    Ok(_tag) => {
                        match self.flow {
                            ClientFlow::Credit { available } => {
                                self.flow = ClientFlow::Credit { available: available - cost };
                            },
                            ClientFlow::PauseResume => {},
                        }
                        Command::Read { width, address }
                    },
                    Err(_refusal) => Command::Idle,
                }
            },
            Some(Request::Write { address, data }) => {
                let len = data.len();
                if !(len == 1 || len == 2 || len == 4 || len == 8) {
                    return Command::Idle;
                }
                if self.tracker.issue_write().is_err() {
                    return Command::Idle;
                }
                let cost: u64 = 1 + crate::ADDR_BYTES + (len as u64);
                match self.flow {
                    ClientFlow::Credit { available } => {
                        if available < cost {
                            return Command::Idle;
                        }
                        self.flow = ClientFlow::Credit { available: available - cost };
                        Command::Write { address, data }
                    },
                    ClientFlow::PauseResume => Command::Write { address, data },
                }
            },
        }
    }

    /// Consumes one reply, updating tracker and flow-control state. A
    /// completion resolves to its tag, entry and payload; control replies
    /// yield nothing. A completion that matches no pending read is a
    /// protocol fault and leaves the session unchanged.
    pub fn handle_reply(&mut self, reply: Reply) -> (r: Result<
        Option<(u64, Entry, Vec<u8>)>,
        ProtocolFault,
    >)
        requires
            old(self).wf(),
        ensures
            final(self).wf(),
            final(self).drain_before_stop == old(self).drain_before_stop,
            reply matches Reply::Idle(credits) ==> {
                &&& r is Ok
                &&& r->Ok_0 is None
                &&& final(self).tracker == old(self).tracker
                &&& final(self).flow == flow_credited(old(self).flow, credits as int)
            },
            reply matches Reply::Synced(credits) ==> {
                &&& r is Ok
                &&& r->Ok_0 is None
                &&& final(self).tracker.synced()
                &&& !final(self).tracker.paused()
                &&& final(self).tracker.window().at_start()
                &&& final(self).flow == (match old(self).flow {
                    ClientFlow::Credit { available } => ClientFlow::Credit {
                        available: credits as u64,
                    },
                    ClientFlow::PauseResume => ClientFlow::PauseResume,
                })
            },
            reply == Reply::Pause ==> r is Ok && r->Ok_0 is None && final(self).flow == old(self).flow && final(self).tracker.window() == old(self).tracker.window() && final(self).tracker.synced() == old(self).tracker.synced() && final(self).tracker.paused(),
            reply == Reply::Resume ==> r is Ok && r->Ok_0 is None && final(self).flow == old(self).flow && final(self).tracker.window() == old(self).tracker.window() && final(self).tracker.synced() == old(self).tracker.synced() && !final(self).tracker.paused(),
            reply matches Reply::Data(delta, payload) ==> {
                let t = old(self).tracker.window().resolved() + delta;
                &&& final(self).flow == old(self).flow
                &&& (r is Ok <==> old(self).tracker.window().is_pending(t))
                &&& (r is Err ==> *final(self) == *old(self))
                &&& (t < 0 ==> r == Err::<Option<(u64, Entry, Vec<u8>)>, ProtocolFault>(
                    ProtocolFault::DeltaRange,
                ))
                &&& (t >= 0 && !old(self).tracker.window().is_pending(t) ==> r == Err::<
                    Option<(u64, Entry, Vec<u8>)>,
                    ProtocolFault,
                >(ProtocolFault::UnknownTag))
                &&& (r is Ok ==> {
                    let resolved = r->Ok_0->Some_0;
                    &&& r->Ok_0 is Some
                    &&& resolved.0 as int == t
                    &&& Some(resolved.1) == old(self).tracker.window().live(t)
                    &&& resolved.2 == payload
                    &&& completion_applied(old(self).tracker, final(self).tracker, t)
                })
            },
    {
        match reply {
            Reply::Idle(credits) => {
                match self.flow {
                    ClientFlow::Credit { available } => {
                        let added = if available <= u64::MAX - (credits as u64) {
                            available + (credits as u64)
                        } else {
                            u64::MAX
                        };
                        self.flow = ClientFlow::Credit { available: added };
                    },
                    ClientFlow::PauseResume => {},
                }
                Ok(None)
            },
            Reply::Synced(credits) => {
                self.tracker.on_sync_ack();
                match self.flow {
                    ClientFlow::Credit { available: _ } => {
                        self.flow = ClientFlow::Credit { available: credits as u64 };
                    },
                    ClientFlow::PauseResume => {},
                }
                Ok(None)
            },
            Reply::Pause => {
                self.tracker.on_pause();
                Ok(None)
            },
            Reply::Resume => {
                self.tracker.on_resume();
                Ok(None)
            },
            Reply::Data(delta, payload) => {
                match self.tracker.on_completion(delta) {
                    Ok((tag, entry)) => Ok(Some((tag, entry, payload))),
                    Err(fault) => Err(fault),
                }
            },
        }
    }
}

} // verus!
