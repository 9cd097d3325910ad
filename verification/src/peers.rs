//! Overlay membership: the peer table.
//!
//! Owned by the dissemination layer; peers are merged in from discovery
//! exchanges with `Discovered` state, promoted on successful contact,
//! downgraded to `Unreachable` after too many consecutive failed contacts,
//! and evicted once stale for longer than the staleness window. The table
//! keeps one record per peer id.

use vstd::prelude::*;

verus! {

/// Lifecycle state of a known peer.
#[derive(Debug, Clone, Copy, PartialEq, Eq, Structural)]
pub enum PeerState {
    Discovered,
    Connected,
    Unreachable,
}

/// One entry of the membership table.
#[derive(Debug, Clone)]
pub struct PeerRecord {
    pub peer_id: u64,
    pub addresses: Vec<String>,
    pub last_seen_micros: i64,
    pub state: PeerState,
    pub failed_contacts: u32,
}

/// The peer ids of the connected records of `s`, in table order.
pub open spec fn connected_ids_of(s: Seq<PeerRecord>) -> Seq<u64>
    decreases s.len(),
{
    if s.len() == 0 {
        Seq::empty()
    } else {
        connected_ids_of(s.drop_last()) + if s.last().state == PeerState::Connected {
            seq![s.last().peer_id]
        } else {
            Seq::empty()
        }
    }
}

/// The records of `s` whose last contact is within `window` of `now`.
pub open spec fn retained_after(s: Seq<PeerRecord>, now: int, window: int) -> Seq<PeerRecord>
    decreases s.len(),
{
    if s.len() == 0 {
        Seq::empty()
    } else {
        retained_after(s.drop_last(), now, window) + if now - s.last().last_seen_micros <= window {
            seq![s.last()]
        } else {
            Seq::empty()
        }
    }
}

/// The membership table: one record per peer id.
#[derive(Debug)]
pub struct PeerTable {
    records: Vec<PeerRecord>,
}

impl View for PeerTable {
    type V = Seq<PeerRecord>;

    closed spec fn view(&self) -> Seq<PeerRecord> {
        self.records@
    }
}

impl PeerTable {
    /// No two records share a peer id.
    pub open spec fn wf(&self) -> bool {
        forall|i: int, j: int|
            0 <= i < j < self@.len() ==> self@[i].peer_id != self@[j].peer_id
    }

    /// Some record has this peer id.
    pub open spec fn has_peer(&self, id: u64) -> bool {
        exists|i: int| 0 <= i < self@.len() && self@[i].peer_id == id
    }

    pub fn new() -> (r: PeerTable)
        ensures
            r@ == Seq::<PeerRecord>::empty(),
            r.wf(),
    {
        PeerTable { records: Vec::new() }
    }

    pub fn len(&self) -> (r: usize)
        ensures
            r == self@.len(),
    {
        self.records.len()
    }

    /// The record at a table index, for inspection.
    pub fn record_at(&self, i: usize) -> (r: &PeerRecord)
        requires
            i < self@.len(),
        ensures
            *r == self@[i as int],
    {
        &self.records[i]
    }

    /// The table index holding `id`, if any.
    fn find_index(&self, id: u64) -> (r: Option<usize>)
        ensures
            r matches Some(i) ==> i < self@.len() && self@[i as int].peer_id == id,
            r is None ==> !self.has_peer(id),
    {
        let n = self.records.len();
        let mut i: usize = 0;
        while i < n
            invariant
                n == self@.len(),
                i <= n,
                forall|k: int| 0 <= k < i ==> self@[k].peer_id != id,
            decreases n - i,
        {
            if self.records[i].peer_id == id {
                return Some(i);
            }
            i += 1;
        }
        None
    }

    pub fn contains(&self, id: u64) -> (r: bool)
        ensures
            r == self.has_peer(id),
    {
        match self.find_index(id) {
            Some(i) => {
                proof {
                    assert(self.has_peer(id));
                }
                true
            }
            None => false,
        }
    }

    /// Merges a discovery response: every id not yet known is appended as a
    /// fresh `Discovered` record seen `now`; records already present are
    /// left exactly as they were.
    pub fn merge_discovered(&mut self, ids: &Vec<u64>, now_micros: i64)
        requires
            old(self).wf(),
        ensures
            final(self).wf(),
            old(self)@.len() <= final(self)@.len(),
            forall|i: int| 0 <= i < old(self)@.len() ==> final(self)@[i] == old(self)@[i],
            forall|j: int| 0 <= j < ids@.len() ==> final(self).has_peer(ids@[j]),
            forall|i: int|
                old(self)@.len() <= i < final(self)@.len() ==> ids@.contains(
                    final(self)@[i].peer_id,
                ) && final(self)@[i].state == PeerState::Discovered && final(self)@[
                    i
                ].last_seen_micros == now_micros && final(self)@[i].failed_contacts == 0,
    {
        let n = ids.len();
        let mut j: usize = 0;
        while j < n
            invariant
                n == ids@.len(),
                j <= n,
                self.wf(),
                old(self)@.len() <= self@.len(),
                forall|i: int| 0 <= i < old(self)@.len() ==> self@[i] == old(self)@[i],
                forall|k: int| 0 <= k < j ==> self.has_peer(ids@[k]),
                forall|i: int|
                    old(self)@.len() <= i < self@.len() ==> ids@.contains(self@[i].peer_id)
                        && self@[i].state == PeerState::Discovered && self@[i].last_seen_micros
                        == now_micros && self@[i].failed_contacts == 0,
            decreases n - j,
        {
            let id = ids[j];
            let ghost before = self@;
            if !self.contains(id) {
                self.records.push(
                    PeerRecord {
                        peer_id: id,
                        addresses: Vec::new(),
                        last_seen_micros: now_micros,
                        state: PeerState::Discovered,
                        failed_contacts: 0,
                    },
                );
                proof {
                    assert(self@[before.len() as int].peer_id == id);
                    assert(self.has_peer(id));
                    assert forall|k: int| 0 <= k < j implies self.has_peer(ids@[k]) by {
                        let w = choose|w: int|
                            0 <= w < before.len() && before[w].peer_id == ids@[k];
                        assert(self@[w].peer_id == ids@[k]);
                    }
                }
            }
            j += 1;
        }
    }

    /// Marks a successful contact: that record becomes `Connected`, its
    /// failure count clears and its last-seen time advances; every other
    /// record, and a table that does not know `id`, is unchanged.
    pub fn record_success(&mut self, id: u64, now_micros: i64)
        requires
            old(self).wf(),
        ensures
            final(self).wf(),
            final(self)@.len() == old(self)@.len(),
            forall|i: int|
                0 <= i < old(self)@.len() && old(self)@[i].peer_id != id ==> final(self)@[i]
                    == old(self)@[i],
            forall|i: int|
                0 <= i < old(self)@.len() && old(self)@[i].peer_id == id ==> final(self)@[
                    i
                ].peer_id == id && final(self)@[i].state == PeerState::Connected && final(self)@[i].failed_contacts == 0 && final(self)@[i].last_seen_micros == now_micros
                    && final(self)@[i].addresses == old(self)@[i].addresses,
            !old(self).has_peer(id) ==> final(self)@ == old(self)@,
    {
        match self.find_index(id) {
            Some(i) => {
                self.records[i].state = PeerState::Connected;
                self.records[i].failed_contacts = 0;
                self.records[i].last_seen_micros = now_micros;
            }
            None => {}
        }
    }

    /// Marks a failed contact attempt: that record's failure count rises by
    /// one (saturating), and once it reaches `threshold` consecutive
    /// failures the record becomes `Unreachable`. Other records unchanged.
    pub fn record_failure(&mut self, id: u64, threshold: u32)
        requires
            old(self).wf(),
        ensures
            final(self).wf(),
            final(self)@.len() == old(self)@.len(),
            forall|i: int|
                0 <= i < old(self)@.len() && old(self)@[i].peer_id != id ==> final(self)@[i]
                    == old(self)@[i],
            forall|i: int|
                0 <= i < old(self)@.len() && old(self)@[i].peer_id == id ==> final(self)@[
                    i
                ].peer_id == id && final(self)@[i].failed_contacts == (if old(self)@[
                    i
                ].failed_contacts < u32::MAX {
                    old(self)@[i].failed_contacts + 1
                } else {
                    old(self)@[i].failed_contacts as int
                }) && final(self)@[i].state == (if final(self)@[i].failed_contacts >= threshold {
                    PeerState::Unreachable
                } else {
                    old(self)@[i].state
                }) && final(self)@[i].last_seen_micros == old(self)@[i].last_seen_micros
                    && final(self)@[i].addresses == old(self)@[i].addresses,
            !old(self).has_peer(id) ==> final(self)@ == old(self)@,
    {
        match self.find_index(id) {
            Some(i) => {
                let failed = self.records[i].failed_contacts;
                let bumped = if failed < u32::MAX {
                    failed + 1
                } else {
                    failed
                };
                self.records[i].failed_contacts = bumped;
                if bumped >= threshold {
                    self.records[i].state = PeerState::Unreachable;
                }
            }
            None => {}
        }
    }

    /// Evicts every record whose last successful contact lies further than
    /// `window_micros` before `now_micros`; the rest keep their order.
    pub fn evict_stale(&mut self, now_micros: i64, window_micros: i64)
        requires
            old(self).wf(),
        ensures
            final(self).wf(),
            final(self)@ == retained_after(old(self)@, now_micros as int, window_micros as int),
    {
        let ghost orig = self@;
        let ghost now = now_micros as int;
        let ghost window = window_micros as int;
        let mut i: usize = 0;
        let ghost mut k: int = 0;
        while i < self.records.len()
            invariant
                0 <= k <= orig.len(),
                i as int == retained_after(orig.subrange(0, k), now, window).len(),
                self@ =~= retained_after(orig.subrange(0, k), now, window) + orig.subrange(
                    k,
                    orig.len() as int,
                ),
                i <= self@.len(),
                now == now_micros as int,
                window == window_micros as int,
            decreases orig.len() - k,
        {
            proof {
                assert(orig.subrange(0, k + 1).drop_last() =~= orig.subrange(0, k));
                assert(self@[i as int] == orig[k]);
            }
            let stale = (now_micros as i128 - self.records[i].last_seen_micros as i128) > (
            window_micros as i128);
            if stale {
                self.records.remove(i);
                proof {
                    assert(self@ =~= retained_after(orig.subrange(0, k + 1), now, window)
                        + orig.subrange(k + 1, orig.len() as int));
                }
            } else {
                i += 1;
                proof {
                    assert(retained_after(orig.subrange(0, k + 1), now, window) =~= retained_after(
                        orig.subrange(0, k),
                        now,
                        window,
                    ) + seq![orig[k]]);
                    assert(self@ =~= retained_after(orig.subrange(0, k + 1), now, window)
                        + orig.subrange(k + 1, orig.len() as int));
                }
            }
            proof {
                k = k + 1;
            }
        }
        proof {
            assert(orig.subrange(0, orig.len() as int) =~= orig);
            assert(orig.subrange(orig.len() as int, orig.len() as int) =~= Seq::<
                PeerRecord,
            >::empty());
            assert(k == orig.len()) by {
                if k < orig.len() {
                    assert(self@.len() > i);
                }
            }
            assert(self@ =~= retained_after(orig, now, window));
            lemma_retained_unique(orig, now, window);
        }
    }

    /// The ids of the currently connected peers, in table order.
    pub fn connected_ids(&self) -> (r: Vec<u64>)
        ensures
            r@ == connected_ids_of(self@),
    {
        let n = self.records.len();
        let mut out: Vec<u64> = Vec::new();
        let mut i: usize = 0;
        while i < n
            invariant
                n == self@.len(),
                i <= n,
                out@ == connected_ids_of(self@.subrange(0, i as int)),
            decreases n - i,
        {
            proof {
                assert(self@.subrange(0, i + 1 as int).drop_last() =~= self@.subrange(0, i as int));
            }
            if matches!(self.records[i].state, PeerState::Connected) {
                out.push(self.records[i].peer_id);
            }
            i += 1;
        }
        proof {
            assert(self@.subrange(0, n as int) =~= self@);
        }
        out
    }
}

/// The retained records keep distinct peer ids, and every retained id
/// comes from the original table.
pub proof fn lemma_retained_unique(s: Seq<PeerRecord>, now: int, window: int)
    requires
        forall|i: int, j: int| 0 <= i < j < s.len() ==> s[i].peer_id != s[j].peer_id,
    ensures
        forall|i: int, j: int|
            0 <= i < j < retained_after(s, now, window).len() ==> retained_after(
                s,
                now,
                window,
            )[i].peer_id != retained_after(s, now, window)[j].peer_id,
        forall|i: int|
            0 <= i < retained_after(s, now, window).len() ==> exists|j: int|
                0 <= j < s.len() && s[j].peer_id == #[trigger] retained_after(
                    s,
                    now,
                    window,
                )[i].peer_id,
    decreases s.len(),
{
    if s.len() > 0 {
        let prefix = s.drop_last();
        lemma_retained_unique(prefix, now, window);
        let r = retained_after(s, now, window);
        let rp = retained_after(prefix, now, window);
        assert forall|i: int|
            0 <= i < r.len() implies exists|j: int|
            0 <= j < s.len() && s[j].peer_id == #[trigger] r[i].peer_id by {
            if i < rp.len() {
                let w = choose|j: int| 0 <= j < prefix.len() && prefix[j].peer_id == rp[i].peer_id;
                assert(s[w].peer_id == r[i].peer_id);
            } else {
                assert(s[s.len() - 1].peer_id == r[i].peer_id);
            }
        }
        assert forall|i: int, j: int|
            0 <= i < j < r.len() implies r[i].peer_id != r[j].peer_id by {
            if j < rp.len() {
            } else {
                if j >= rp.len() && i < rp.len() {
                    let w = choose|w: int|
                        0 <= w < prefix.len() && prefix[w].peer_id == rp[i].peer_id;
                    assert(s[w].peer_id != s[s.len() - 1].peer_id);
                }
            }
        }
    }
}

} // verus!
