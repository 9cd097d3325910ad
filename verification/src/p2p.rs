//! The dissemination node: flood-with-suppression gossip over the peer
//! table.
//!
//! Publishing wraps a payload in an envelope whose message id is derived
//! from the content, records the id in the seen-set, and hands back the
//! connected peers to send it to. Receiving delivers a fresh envelope to
//! the local consumer exactly once, then re-forwards it with the hop count
//! raised by one to every connected peer but the sender — unless the hop
//! count has already met the configured maximum. A duplicate id is dropped
//! silently: no delivery, no forward. The network I/O itself happens
//! outside the library; this type decides, its caller performs.

use vstd::prelude::*;
use crate::gossip::{GossipEnvelope, SeenSet, compute_message_id, fnv1a64};
use crate::peers::{PeerRecord, PeerTable, connected_ids_of};

verus! {

/// A dissemination layer misconfiguration, rejected at construction.
#[derive(Debug, Clone, Copy, PartialEq, Eq, Structural)]
pub enum P2PError {
    InvalidConfig,
}

/// What one received envelope led to: at most one local delivery, and at
/// most one envelope to re-forward to the listed peers.
pub struct GossipOutcome {
    pub delivered: Option<Vec<u8>>,
    pub forward: Option<GossipEnvelope>,
    pub forward_to: Vec<u64>,
}

/// The ids of `ids` with every occurrence of `ex` removed.
pub open spec fn ids_except(ids: Seq<u64>, ex: u64) -> Seq<u64>
    decreases ids.len(),
{
    if ids.len() == 0 {
        Seq::empty()
    } else {
        ids_except(ids.drop_last(), ex) + if ids.last() == ex {
            Seq::empty()
        } else {
            seq![ids.last()]
        }
    }
}

/// One overlay node: membership table plus gossip duplicate suppression.
#[derive(Debug)]
pub struct P2PNode {
    local_peer_id: u64,
    max_hops: u32,
    peers: PeerTable,
    seen: SeenSet,
}

impl P2PNode {
    /// This node's stable identifier.
    pub closed spec fn local_id(&self) -> u64 {
        self.local_peer_id
    }

    /// The configured hop-count bound.
    pub closed spec fn max_hops_spec(&self) -> u32 {
        self.max_hops
    }

    /// The membership table, as a value.
    pub closed spec fn peers_of(&self) -> PeerTable {
        self.peers
    }

    /// The duplicate-suppression set, as a value.
    pub closed spec fn seen_set(&self) -> SeenSet {
        self.seen
    }

    /// The message ids remembered by the duplicate-suppression set.
    pub open spec fn seen_ids(&self) -> Seq<u64> {
        self.seen_set().ids_seq()
    }

    /// Whether a message id has been seen already.
    pub open spec fn seen_has(&self, id: u64) -> bool {
        self.seen_ids().contains(id)
    }

    /// Membership table and seen-set both well formed.
    pub open spec fn wf(&self) -> bool {
        self.peers_of().wf() && self.seen_set().wf() && self.max_hops_spec() >= 1
    }

    /// Builds a node. Fails with `InvalidConfig` exactly when the hop
    /// bound or the seen-set capacity is zero: either would break the
    /// propagation or the duplicate-suppression guarantee outright.
    pub fn new(local_peer_id: u64, max_hops: u32, seen_capacity: usize) -> (r: Result<
        P2PNode,
        P2PError,
    >)
        ensures
            r is Err <==> (max_hops == 0 || seen_capacity == 0),
            r is Err ==> r == Result::<P2PNode, P2PError>::Err(P2PError::InvalidConfig),
            r matches Ok(node) ==> node.wf() && node.local_id() == local_peer_id
                && node.max_hops_spec() == max_hops && node.peers_of()@ == Seq::<
                PeerRecord,
            >::empty() && node.seen_ids() == Seq::<u64>::empty(),
    {
        if max_hops == 0 || seen_capacity == 0 {
            Err(P2PError::InvalidConfig)
        } else {
            Ok(
                P2PNode {
                    local_peer_id,
                    max_hops,
                    peers: PeerTable::new(),
                    seen: SeenSet::new(seen_capacity),
                },
            )
        }
    }

    /// The membership table, for discovery and reachability bookkeeping;
    /// gossip state and configuration are untouched by whatever the caller
    /// does with it.
    pub fn peers_mut(&mut self) -> (r: &mut PeerTable)
        ensures
            *r == old(self).peers_of(),
            final(self).peers_of() == *final(r),
            final(self).seen_ids() == old(self).seen_ids(),
            final(self).local_id() == old(self).local_id(),
            final(self).max_hops_spec() == old(self).max_hops_spec(),
            final(self).seen_set() == old(self).seen_set(),
    {
        &mut self.peers
    }

    /// The membership table, read-only.
    pub fn peers(&self) -> (r: &PeerTable)
        ensures
            *r == self.peers_of(),
    {
        &self.peers
    }

    /// Publishes a payload: wraps it in an envelope with the
    /// content-derived message id, hop count zero and this node as origin,
    /// records the id as seen, and names the connected peers to send it
    /// to. Re-publishing content whose id is still in the seen-set is
    /// suppressed entirely.
    pub fn publish_measurement(&mut self, data: Vec<u8>) -> (r: Option<(GossipEnvelope, Vec<u64>)>)
        requires
            old(self).wf(),
        ensures
            final(self).wf(),
            final(self).peers_of() == old(self).peers_of(),
            final(self).local_id() == old(self).local_id(),
            final(self).max_hops_spec() == old(self).max_hops_spec(),
            old(self).seen_has(fnv1a64(data@)) ==> r is None && final(self).seen_ids() == old(
                self,
            ).seen_ids(),
            !old(self).seen_has(fnv1a64(data@)) ==> (r matches Some((env, to)) && env.message_id
                == fnv1a64(data@) && env.origin_peer_id == old(self).local_id() && env.hop_count
                == 0 && env.payload@ == data@ && to@ == connected_ids_of(old(self).peers_of()@)
                && final(self).seen_has(fnv1a64(data@))),
    {
        let id = compute_message_id(data.as_slice());
        if self.seen.contains(id) {
            return None;
        }
        self.seen.insert(id);
        let env = GossipEnvelope {
            message_id: id,
            origin_peer_id: self.local_peer_id,
            hop_count: 0,
            payload: data,
        };
        let to = self.peers.connected_ids();
        Some((env, to))
    }

    /// Handles one received envelope.
    ///
    /// A message id already seen is dropped silently: nothing is delivered,
    /// nothing is forwarded, nothing changes. A fresh envelope is delivered
    /// to the local consumer exactly once and its id recorded; it is then
    /// re-forwarded with the hop count raised by one to every connected
    /// peer except the sender — but never once its hop count has met the
    /// configured maximum.
    pub fn handle_envelope(&mut self, sender_id: u64, env: GossipEnvelope) -> (r: GossipOutcome)
        requires
            old(self).wf(),
        ensures
            final(self).wf(),
            final(self).peers_of() == old(self).peers_of(),
            final(self).local_id() == old(self).local_id(),
            final(self).max_hops_spec() == old(self).max_hops_spec(),
            old(self).seen_has(env.message_id) ==> r.delivered is None && r.forward is None
                && r.forward_to@ == Seq::<u64>::empty() && final(self).seen_ids() == old(
                self,
            ).seen_ids(),
            !old(self).seen_has(env.message_id) ==> (r.delivered matches Some(p) && p@
                == env.payload@) && final(self).seen_has(env.message_id),
            env.hop_count >= old(self).max_hops_spec() ==> r.forward is None && r.forward_to@
                == Seq::<u64>::empty(),
            !old(self).seen_has(env.message_id) && env.hop_count < old(self).max_hops_spec() ==> (
            r.forward matches Some(f) && f.message_id == env.message_id && f.origin_peer_id
                == env.origin_peer_id && f.hop_count == env.hop_count + 1 && f.payload@
                == env.payload@ && r.forward_to@ == ids_except(
                connected_ids_of(old(self).peers_of()@),
                sender_id,
            )),
    {
        if self.seen.contains(env.message_id) {
            return GossipOutcome { delivered: None, forward: None, forward_to: Vec::new() };
        }
        self.seen.insert(env.message_id);
        let delivered = Some(copy_bytes(&env.payload));
        if env.hop_count < self.max_hops {
            let all = self.peers.connected_ids();
            let n = all.len();
            let mut to: Vec<u64> = Vec::new();
            let mut i: usize = 0;
            while i < n
                invariant
                    n == all@.len(),
                    i <= n,
                    to@ == ids_except(all@.subrange(0, i as int), sender_id),
                decreases n - i,
            {
                proof {
                    assert(all@.subrange(0, i + 1 as int).drop_last() =~= all@.subrange(
                        0,
                        i as int,
                    ));
                }
                if all[i] != sender_id {
                    to.push(all[i]);
                }
                i += 1;
            }
            proof {
                assert(all@.subrange(0, n as int) =~= all@);
            }
            let forward = GossipEnvelope {
                message_id: env.message_id,
                origin_peer_id: env.origin_peer_id,
                hop_count: env.hop_count + 1,
                payload: env.payload,
            };
            GossipOutcome { delivered, forward: Some(forward), forward_to: to }
        } else {
            GossipOutcome { delivered, forward: None, forward_to: Vec::new() }
        }
    }
}

/// A fresh vector with the same bytes.
fn copy_bytes(v: &Vec<u8>) -> (r: Vec<u8>)
    ensures
        r@ == v@,
{
    let n = v.len();
    let mut out: Vec<u8> = Vec::new();
    let mut i: usize = 0;
    while i < n
        invariant
            n == v@.len(),
            i <= n,
            out@ == v@.subrange(0, i as int),
        decreases n - i,
    {
        out.push(v[i]);
        proof {
            assert(out@ =~= v@.subrange(0, i + 1 as int));
        }
        i += 1;
    }
    proof {
        assert(v@.subrange(0, n as int) =~= v@);
    }
    out
}

} // verus!
