//! Per-side transaction tracking: the bounded sliding window of outstanding
//! reads that each endpoint of the link maintains.
//!
//! Both sides keep the same mirrored state. Tags are conceptually unbounded
//! counters: `read_tag` numbers each issued (or accepted) read, `data_tag`
//! counts completions. A pending read lives in a 16-slot ring indexed by its
//! tag modulo [`crate::WINDOW_SIZE`], from issuance until its completion is
//! processed. `oldest_tag` marks the oldest unresolved read; out-of-order
//! completions leave holes, and the marker only advances through a contiguous
//! resolved run, since the window-full check depends on the oldest
//! *unresolved* tag.

use vstd::prelude::*;
use vstd::arithmetic::div_mod::{
    lemma_fundamental_div_mod, lemma_mod_add_multiples_vanish,
    lemma_mod_division_less_than_divisor, lemma_small_mod,
};

verus! {

/// A pending read: what must be remembered between issuance and completion.
#[derive(Clone, Copy, Debug, PartialEq, Eq, Structural)]
pub struct Entry {
    /// Transfer width in bytes: 1, 2, 4 or 8.
    pub width: u8,
    /// Target address of the read.
    pub address: u64,
}

/// Number of ring slots holding `Some` entry for a tag in `[lo, hi)`.
pub open spec fn count_live(s: Seq<Option<Entry>>, lo: int, hi: int) -> int
    decreases hi - lo,
{
    if lo >= hi {
        0
    } else {
        count_live(s, lo, hi - 1) + (if s[(hi - 1) % 16] is Some {
            1int
        } else {
            0int
        })
    }
}

/// Transaction-tracking state owned by one endpoint of the link.
pub struct Endpoint {
    slots: Vec<Option<Entry>>,
    live_count: usize,
    oldest_tag: u64,
    read_tag: u64,
    data_tag: u64,
}

impl Endpoint {
    /// Tag the next issued read will take; every tag below it has been
    /// issued already.
    pub closed spec fn issued(self) -> int {
        self.read_tag as int
    }

    /// Number of completions processed so far; also the tag the next
    /// in-order completion would resolve.
    pub closed spec fn resolved(self) -> int {
        self.data_tag as int
    }

    /// Oldest tag whose read is still unresolved (or `issued()` if none is).
    pub closed spec fn oldest(self) -> int {
        self.oldest_tag as int
    }

    /// Number of reads issued and not yet resolved.
    pub closed spec fn in_flight(self) -> int {
        self.live_count as int
    }

    spec fn slot(self, t: int) -> Option<Entry> {
        self.slots@[t % 16]
    }

    /// The pending entry recorded for tag `t`, if that read is outstanding.
    pub closed spec fn live(self, t: int) -> Option<Entry> {
        if self.oldest() <= t < self.issued() {
            self.slot(t)
        } else {
            None
        }
    }

    /// Whether the read with tag `t` is outstanding.
    pub open spec fn is_pending(self, t: int) -> bool {
        self.live(t) is Some
    }

    /// Well-formedness: the window invariant. Entries between the oldest
    /// unresolved tag and `read_tag` never exceed [`crate::WINDOW_SIZE`];
    /// every issued read is either resolved or pending; slots outside the
    /// window are empty; the oldest marker sits on a pending read or at the
    /// window's end.
    pub closed spec fn wf(self) -> bool {
        &&& self.slots@.len() == crate::WINDOW_SIZE
        &&& self.oldest() <= self.issued()
        &&& self.issued() - self.oldest() <= crate::WINDOW_SIZE
        &&& self.in_flight() == count_live(self.slots@, self.oldest(), self.issued())
        &&& self.resolved() == self.issued() - self.in_flight()
        &&& (forall|t: int|
            self.issued() <= t < self.oldest() + crate::WINDOW_SIZE ==> self.slot(t) is None)
        &&& (self.oldest() == self.issued() || self.slot(self.oldest()) is Some)
    }

    /// Observational equality of two windows: same tags and same pending
    /// entries everywhere.
    pub open spec fn same_window(self, other: Endpoint) -> bool {
        &&& self.issued() == other.issued()
        &&& self.resolved() == other.resolved()
        &&& self.oldest() == other.oldest()
        &&& self.in_flight() == other.in_flight()
        &&& (forall|t: int| self.live(t) == other.live(t))
    }

    /// The empty, zeroed state a session starts in and returns to on Sync.
    pub open spec fn at_start(self) -> bool {
        &&& self.issued() == 0
        &&& self.resolved() == 0
        &&& self.oldest() == 0
        &&& self.in_flight() == 0
        &&& (forall|t: int| !self.is_pending(t))
    }
}

impl Endpoint {
    /// An empty window with both tag sequences at zero.
    pub fn new() -> (ep: Endpoint)
        ensures
            ep.wf(),
            ep.at_start(),
    {
        let mut slots: Vec<Option<Entry>> = Vec::new();
        let mut i: usize = 0;
        while i < crate::WINDOW_SIZE
            invariant
                i <= crate::WINDOW_SIZE,
                slots@.len() == i,
                forall|k: int| 0 <= k < i ==> slots@[k] is None,
            decreases crate::WINDOW_SIZE - i,
        {
            slots.push(None);
            i += 1;
        }
        let ep = Endpoint { slots, live_count: 0, oldest_tag: 0, read_tag: 0, data_tag: 0 };
        proof {
            assert forall|t: int| 0 <= t < crate::WINDOW_SIZE implies ep.slot(t) is None by {
                lemma_small_mod(t as nat, 16);
            };
        }
        ep
    }

    /// Whether the window is at its bound, so that no new read may be issued.
    pub fn is_full(&self) -> (r: bool)
        requires
            self.wf(),
        ensures
            r == (self.issued() - self.oldest() == crate::WINDOW_SIZE),
    {
        self.read_tag - self.oldest_tag == crate::WINDOW_SIZE as u64
    }

    /// Records a new pending read under the next tag and returns that tag.
    pub fn insert(&mut self, entry: Entry) -> (tag: u64)
        requires
            old(self).wf(),
            old(self).issued() - old(self).oldest() < crate::WINDOW_SIZE,
            old(self).issued() < u64::MAX,
        ensures
            final(self).wf(),
            tag as int == old(self).issued(),
            final(self).issued() == old(self).issued() + 1,
            final(self).resolved() == old(self).resolved(),
            final(self).oldest() == old(self).oldest(),
            final(self).in_flight() == old(self).in_flight() + 1,
            final(self).live(tag as int) == Some(entry),
            forall|t: int| t != tag as int ==> final(self).live(t) == old(self).live(t),
    {
        proof {
            lemma_mod_division_less_than_divisor(old(self).read_tag as int, 16);
            lemma_count_bounds(old(self).slots@, old(self).oldest(), old(self).issued());
        }
        let tag = self.read_tag;
        let idx = (tag % 16) as usize;
        self.slots.set(idx, Some(entry));
        self.read_tag = self.read_tag + 1;
        self.live_count = self.live_count + 1;
        proof {
            let s1 = old(self).slots@;
            let s2 = self.slots@;
            let t0 = tag as int;
            // Every tag of the old window keeps its slot: none shares the
            // ring index of the inserted tag.
            assert forall|t: int| old(self).oldest() <= t < t0 implies #[trigger] s1[t % 16] == s2[t % 16] by {
                lemma_slot_distinct(t, t0);
            };
            lemma_count_frame(s1, s2, old(self).oldest(), t0);
            // The new dead zone keeps its empty slots for the same reason.
            assert forall|t: int| self.issued() <= t < self.oldest() + crate::WINDOW_SIZE implies #[trigger] s2[t
                % 16] is None by {
                lemma_slot_distinct(t0, t);
                lemma_mod_division_less_than_divisor(t, 16);
                assert(old(self).slot(t) is None);
            };
            if old(self).oldest() < t0 {
                lemma_slot_distinct(old(self).oldest(), t0);
            }
        }
        tag
    }

    /// Removes the pending read with tag `tag`, counts its completion, and
    /// advances the oldest-unresolved marker through any now-contiguous
    /// resolved run. Returns the entry, or `None` when no such read is
    /// outstanding, in which case nothing changes.
    pub fn resolve(&mut self, tag: u64) -> (r: Option<Entry>)
        requires
            old(self).wf(),
        ensures
            final(self).wf(),
            r == old(self).live(tag as int),
            r is None ==> *final(self) == *old(self),
            r is Some ==> final(self).issued() == old(self).issued(),
            r is Some ==> final(self).resolved() == old(self).resolved() + 1,
            r is Some ==> final(self).in_flight() == old(self).in_flight() - 1,
            r is Some ==> final(self).live(tag as int) is None,
            forall|t: int| t != tag as int ==> final(self).live(t) == old(self).live(t),
            old(self).oldest() <= final(self).oldest() <= final(self).issued(),
            forall|t: int|
                old(self).oldest() <= t < final(self).oldest() ==> !final(self).is_pending(t),
    {
        if !(self.oldest_tag <= tag && tag < self.read_tag) {
            return None;
        }
        proof {
            lemma_mod_division_less_than_divisor(tag as int, 16);
        }
        let idx = (tag % 16) as usize;
        if self.slots[idx].is_none() {
            return None;
        }
        let entry = self.slots[idx].unwrap();
        proof {
            lemma_count_positive(old(self).slots@, old(self).oldest(), old(self).issued(),
                tag as int);
            lemma_count_bounds(old(self).slots@, old(self).oldest(), old(self).issued());
        }
        self.slots.set(idx, None);
        self.live_count = self.live_count - 1;
        self.data_tag = self.data_tag + 1;
        proof {
            let s1 = old(self).slots@;
            let s2 = self.slots@;
            let t0 = tag as int;
            let lo = old(self).oldest();
            let hi = old(self).issued();
            assert forall|t: int| lo <= t < hi && t != t0 implies #[trigger] s1[t % 16] == s2[t % 16] by {
                if t < t0 {
                    lemma_slot_distinct(t, t0);
                } else {
                    lemma_slot_distinct(t0, t);
                }
            };
            lemma_count_split(s1, lo, t0, hi);
            lemma_count_split(s1, t0, t0 + 1, hi);
            lemma_count_split(s2, lo, t0, hi);
            lemma_count_split(s2, t0, t0 + 1, hi);
            lemma_count_frame(s1, s2, lo, t0);
            lemma_count_frame(s1, s2, t0 + 1, hi);
            assert(count_live(s1, t0, t0) == 0);
            assert(count_live(s2, t0, t0) == 0);
            assert(count_live(s1, t0, t0 + 1) == 1);
            assert(count_live(s2, t0, t0 + 1) == 0);
            // The dead zone's slots stay empty: a dead tag never shares the
            // resolved tag's ring index.
            assert forall|t: int| hi <= t < lo + crate::WINDOW_SIZE implies #[trigger] s2[t % 16] is None by {
                lemma_slot_distinct(t0, t);
                lemma_mod_division_less_than_divisor(t, 16);
                assert(old(self).slot(t) is None);
            };
        }
        let ghost s2 = self.slots@;
        let ghost lo0 = self.oldest_tag as int;
        let ghost read = self.read_tag;
        let ghost dtag = self.data_tag;
        let ghost cnt = self.live_count;
        while self.oldest_tag < self.read_tag && self.slots[(self.oldest_tag % 16) as usize].is_none()
            invariant
                self.slots@ == s2,
                self.slots@.len() == crate::WINDOW_SIZE,
                self.read_tag == read,
                self.data_tag == dtag,
                self.live_count == cnt,
                lo0 <= self.oldest_tag <= self.read_tag,
                self.read_tag - self.oldest_tag <= crate::WINDOW_SIZE,
                cnt == count_live(s2, self.oldest_tag as int, self.read_tag as int),
                forall|t: int| lo0 <= t < self.oldest_tag ==> #[trigger] s2[t % 16] is None,
                forall|t: int|
                    self.read_tag <= t < self.oldest_tag + crate::WINDOW_SIZE ==> #[trigger] s2[t
                        % 16] is None,
            decreases self.read_tag - self.oldest_tag,
        {
            proof {
                lemma_mod_division_less_than_divisor(self.oldest_tag as int, 16);
                lemma_count_split(s2, self.oldest_tag as int, self.oldest_tag as int + 1,
                    self.read_tag as int);
                assert(count_live(s2, self.oldest_tag as int, self.oldest_tag as int) == 0);
                assert(count_live(s2, self.oldest_tag as int, self.oldest_tag as int + 1) == 0);
                lemma_mod_add_multiples_vanish(self.oldest_tag as int, 16);
                assert(s2[(self.oldest_tag as int + 16) % 16] is None);
            }
            self.oldest_tag = self.oldest_tag + 1;
        }
        proof {
            lemma_mod_division_less_than_divisor(self.oldest_tag as int, 16);
            let t0 = tag as int;
            assert forall|t: int| t != t0 implies final(self).live(t) == old(self).live(t) by {
                if old(self).oldest() <= t < final(self).oldest() {
                    lemma_mod_division_less_than_divisor(t, 16);
                    assert(s2[t % 16] is None);
                    if t < t0 {
                        lemma_slot_distinct(t, t0);
                    } else if t0 < t {
                        lemma_slot_distinct(t0, t);
                    }
                } else if final(self).oldest() <= t < final(self).issued() && t != t0 {
                    lemma_mod_division_less_than_divisor(t, 16);
                    if t < t0 {
                        lemma_slot_distinct(t, t0);
                    } else if t0 < t {
                        lemma_slot_distinct(t0, t);
                    }
                }
            };
        }
        Some(entry)
    }

    /// Discards all pending reads and returns both tag sequences and the
    /// oldest marker to zero: the Sync recovery path.
    pub fn reset(&mut self)
        ensures
            final(self).wf(),
            final(self).at_start(),
    {
        *self = Endpoint::new();
    }

    /// Tag the next issued read will take.
    pub fn next_read_tag(&self) -> (r: u64)
        ensures
            r as int == self.issued(),
    {
        self.read_tag
    }

    /// Tag the next in-order completion would resolve.
    pub fn next_data_tag(&self) -> (r: u64)
        ensures
            r as int == self.resolved(),
    {
        self.data_tag
    }

    /// Oldest tag whose read is still unresolved.
    pub fn oldest_unresolved(&self) -> (r: u64)
        ensures
            r as int == self.oldest(),
    {
        self.oldest_tag
    }

    /// Number of reads outstanding.
    pub fn pending_len(&self) -> (r: usize)
        ensures
            r as int == self.in_flight(),
    {
        self.live_count
    }

    /// The pending entry recorded for `tag`, without removing it.
    pub fn lookup(&self, tag: u64) -> (r: Option<Entry>)
        requires
            self.wf(),
        ensures
            r == self.live(tag as int),
    {
        if !(self.oldest_tag <= tag && tag < self.read_tag) {
            return None;
        }
        proof {
            lemma_mod_division_less_than_divisor(tag as int, 16);
        }
        self.slots[(tag % 16) as usize]
    }
}

/// Number of pending reads with a tag in `[lo, hi)`.
pub open spec fn pending_between(e: Endpoint, lo: int, hi: int) -> int
    decreases hi - lo,
{
    if lo >= hi {
        0
    } else {
        pending_between(e, lo, hi - 1) + (if e.is_pending(hi - 1) {
            1int
        } else {
            0int
        })
    }
}

/// Every in-flight read has its tag between the oldest marker and
/// `read_tag`: the count of pending tags there is exactly `in_flight()`.
pub proof fn lemma_in_flight_positioned(e: Endpoint)
    requires
        e.wf(),
    ensures
        e.in_flight() == pending_between(e, e.oldest(), e.issued()),
{
    lemma_counts_agree(e, e.oldest(), e.issued());
}

/// A pending count over a tag range splits at any point inside it.
pub proof fn lemma_pending_between_split(e: Endpoint, lo: int, mid: int, hi: int)
    requires
        lo <= mid <= hi,
    ensures
        pending_between(e, lo, hi) == pending_between(e, lo, mid) + pending_between(e, mid, hi),
    decreases hi - mid,
{
    if mid < hi {
        lemma_pending_between_split(e, lo, mid, hi - 1);
    }
}

/// Inside the window, counting pending tags agrees with counting live ring
/// slots.
proof fn lemma_counts_agree(e: Endpoint, lo: int, hi: int)
    requires
        e.oldest() <= lo,
        hi <= e.issued(),
    ensures
        pending_between(e, lo, hi) == count_live(e.slots@, lo, hi),
    decreases hi - lo,
{
    if lo < hi {
        lemma_counts_agree(e, lo, hi - 1);
    }
}

/// Window invariant: at every point of execution, a well-formed endpoint
/// keeps the span from the oldest unresolved tag to `read_tag`, and with it
/// the number of in-flight reads, within [`crate::WINDOW_SIZE`]; and
/// completions never outrun issues, `data_tag <= read_tag`.
pub proof fn lemma_window_bounds(e: Endpoint)
    requires
        e.wf(),
    ensures
        0 <= e.oldest() <= e.resolved() <= e.issued() <= u64::MAX,
        e.issued() - e.oldest() <= crate::WINDOW_SIZE,
        e.in_flight() == e.issued() - e.resolved(),
        0 <= e.in_flight() <= crate::WINDOW_SIZE,
{
    lemma_count_bounds_pub(e);
}

/// A pending tag lies in the window, and its distance from `data_tag` — the
/// delta a completion would carry — is strictly inside the window bound, so
/// it fits the wire's signed delta field with room to spare.
pub proof fn lemma_pending_in_window(e: Endpoint, t: int)
    requires
        e.wf(),
        e.is_pending(t),
    ensures
        e.oldest() <= t < e.issued(),
        1 <= e.in_flight(),
        -(crate::WINDOW_SIZE - 1) <= t - e.resolved() <= crate::WINDOW_SIZE - 1,
{
    lemma_count_positive(e.slots@, e.oldest(), e.issued(), t);
    lemma_count_bounds_pub(e);
}

/// Delta round trip: whenever a completed tag and `data_tag` are within the
/// window bound of each other, the delta `tag - data_tag` fits the 5-bit
/// signed wire field (and a fortiori an 8-bit signed value), and adding it
/// back to `data_tag` recovers the tag exactly.
pub proof fn lemma_delta_round_trip(tag: int, data_tag: int)
    requires
        -(crate::WINDOW_SIZE as int) < tag - data_tag < crate::WINDOW_SIZE as int,
    ensures
        -16 <= tag - data_tag < 16,
        i8::MIN <= tag - data_tag <= i8::MAX,
        data_tag + (tag - data_tag) == tag,
{
}

/// No orphaned completions: if the two sides' windows mirror each other —
/// as they do when both have processed the same issue/complete sequence —
/// then for any pending read the responder may choose to complete, the delta
/// it emits is encodable, and the initiator's window holds a matching entry
/// at `data_tag + delta`: the very same entry.
pub proof fn lemma_completion_matches(client: Endpoint, server: Endpoint, t: int)
    requires
        client.wf(),
        server.wf(),
        client.same_window(server),
        server.is_pending(t),
    ensures
        -(crate::WINDOW_SIZE - 1) <= t - server.resolved() <= crate::WINDOW_SIZE - 1,
        client.is_pending(client.resolved() + (t - server.resolved())),
        client.live(client.resolved() + (t - server.resolved())) == server.live(t),
{
    lemma_pending_in_window(server, t);
}

/// The oldest-unresolved marker sits on a pending read, or at the window's
/// end when nothing is pending.
pub proof fn lemma_oldest_marker(e: Endpoint)
    requires
        e.wf(),
    ensures
        e.oldest() == e.issued() || e.is_pending(e.oldest()),
{
}

/// Mirrored windows stay mirrored when both sides record the same read:
/// the client on issuing it, the server on accepting it. The hypotheses
/// are what [`Endpoint::insert`] ensures on each side.
pub proof fn lemma_mirror_preserved_by_issue(
    a0: Endpoint,
    a1: Endpoint,
    b0: Endpoint,
    b1: Endpoint,
    e: Entry,
)
    requires
        a0.same_window(b0),
        a1.issued() == a0.issued() + 1,
        a1.resolved() == a0.resolved(),
        a1.oldest() == a0.oldest(),
        a1.in_flight() == a0.in_flight() + 1,
        a1.live(a0.issued()) == Some(e),
        forall|t: int| t != a0.issued() ==> a1.live(t) == a0.live(t),
        b1.issued() == b0.issued() + 1,
        b1.resolved() == b0.resolved(),
        b1.oldest() == b0.oldest(),
        b1.in_flight() == b0.in_flight() + 1,
        b1.live(b0.issued()) == Some(e),
        forall|t: int| t != b0.issued() ==> b1.live(t) == b0.live(t),
    ensures
        a1.same_window(b1),
{
    assert forall|t: int| a1.live(t) == b1.live(t) by {
        if t != a0.issued() {
            assert(a1.live(t) == a0.live(t));
            assert(b1.live(t) == b0.live(t));
        }
    };
}

/// Mirrored windows stay mirrored when both sides process the same
/// completion: the server on emitting it, the client on consuming it. The
/// hypotheses are what [`Endpoint::resolve`] ensures on each side; in
/// particular both oldest markers advance to the same tag, the first one
/// still pending.
pub proof fn lemma_mirror_preserved_by_completion(
    a0: Endpoint,
    a1: Endpoint,
    b0: Endpoint,
    b1: Endpoint,
    t: int,
)
    requires
        a0.same_window(b0),
        a1.wf(),
        b1.wf(),
        a1.issued() == a0.issued(),
        a1.resolved() == a0.resolved() + 1,
        a1.in_flight() == a0.in_flight() - 1,
        a1.live(t) is None,
        forall|u: int| u != t ==> a1.live(u) == a0.live(u),
        a0.oldest() <= a1.oldest(),
        forall|u: int| a0.oldest() <= u < a1.oldest() ==> !a1.is_pending(u),
        b1.issued() == b0.issued(),
        b1.resolved() == b0.resolved() + 1,
        b1.in_flight() == b0.in_flight() - 1,
        b1.live(t) is None,
        forall|u: int| u != t ==> b1.live(u) == b0.live(u),
        b0.oldest() <= b1.oldest(),
        forall|u: int| b0.oldest() <= u < b1.oldest() ==> !b1.is_pending(u),
    ensures
        a1.same_window(b1),
{
    assert forall|u: int| a1.live(u) == b1.live(u) by {
        if u != t {
            assert(a1.live(u) == a0.live(u));
            assert(b1.live(u) == b0.live(u));
        }
    };
    lemma_window_bounds(a1);
    lemma_window_bounds(b1);
    lemma_oldest_marker(a1);
    lemma_oldest_marker(b1);
    if a1.oldest() < b1.oldest() {
        assert(!b1.is_pending(a1.oldest()));
        assert(!a1.is_pending(a1.oldest()));
        assert(a1.oldest() == a1.issued());
    }
    if b1.oldest() < a1.oldest() {
        assert(!a1.is_pending(b1.oldest()));
        assert(!b1.is_pending(b1.oldest()));
        assert(b1.oldest() == b1.issued());
    }
}

/// Sync idempotence: one reset or two, with or without reads outstanding,
/// the window is observably the empty, zeroed state of session start.
pub proof fn lemma_sync_idempotent(a: Endpoint, b: Endpoint)
    requires
        a.at_start(),
        b.at_start(),
    ensures
        a.same_window(b),
{
    assert forall|t: int| a.live(t) == b.live(t) by {
        assert(!a.is_pending(t));
        assert(!b.is_pending(t));
    };
}

/// Helper restating the count bounds for an endpoint's own range.
proof fn lemma_count_bounds_pub(e: Endpoint)
    requires
        e.oldest() <= e.issued(),
    ensures
        0 <= count_live(e.slots@, e.oldest(), e.issued()) <= e.issued() - e.oldest(),
{
    lemma_count_bounds(e.slots@, e.oldest(), e.issued());
}

/// Two tags less than a window apart never share a ring slot.
proof fn lemma_slot_distinct(t1: int, t2: int)
    requires
        t1 < t2 < t1 + 16,
    ensures
        t1 % 16 != t2 % 16,
{
    lemma_fundamental_div_mod(t1, 16);
    lemma_fundamental_div_mod(t2, 16);
    lemma_mod_division_less_than_divisor(t1, 16);
    lemma_mod_division_less_than_divisor(t2, 16);
    if t1 % 16 == t2 % 16 {
        assert(t2 - t1 == 16 * (t2 / 16) - 16 * (t1 / 16));
        assert(t2 - t1 == 16 * (t2 / 16 - t1 / 16));
    }
}

/// A count over a tag range is between 0 and the range's length.
proof fn lemma_count_bounds(s: Seq<Option<Entry>>, lo: int, hi: int)
    requires
        lo <= hi,
    ensures
        0 <= count_live(s, lo, hi) <= hi - lo,
    decreases hi - lo,
{
    if lo < hi {
        lemma_count_bounds(s, lo, hi - 1);
    }
}

/// Counting only looks at the slots the range maps to.
proof fn lemma_count_frame(s1: Seq<Option<Entry>>, s2: Seq<Option<Entry>>, lo: int, hi: int)
    requires
        forall|t: int| lo <= t < hi ==> #[trigger] s1[t % 16] == s2[t % 16],
    ensures
        count_live(s1, lo, hi) == count_live(s2, lo, hi),
    decreases hi - lo,
{
    if lo < hi {
        lemma_count_frame(s1, s2, lo, hi - 1);
    }
}

/// A count over a range splits at any point inside it.
proof fn lemma_count_split(s: Seq<Option<Entry>>, lo: int, mid: int, hi: int)
    requires
        lo <= mid <= hi,
    ensures
        count_live(s, lo, hi) == count_live(s, lo, mid) + count_live(s, mid, hi),
    decreases hi - mid,
{
    if mid < hi {
        lemma_count_split(s, lo, mid, hi - 1);
    }
}

/// A range holding one live slot counts at least one.
proof fn lemma_count_positive(s: Seq<Option<Entry>>, lo: int, hi: int, t: int)
    requires
        lo <= t < hi,
        s[t % 16] is Some,
    ensures
        count_live(s, lo, hi) >= 1,
{
    lemma_count_split(s, lo, t, hi);
    lemma_count_split(s, t, t + 1, hi);
    lemma_count_bounds(s, lo, t);
    lemma_count_bounds(s, t + 1, hi);
    assert(count_live(s, t, t) == 0);
    assert(count_live(s, t, t + 1) == 1);
}

} // verus!
