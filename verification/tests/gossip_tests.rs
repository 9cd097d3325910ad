//! Gossip dissemination: message ids, duplicate suppression, hop bound,
//! framing, and the three-node relay scenario.

use netpulse::{compute_message_id, GossipEnvelope, P2PError, P2PNode, SeenSet};

fn connected_node(local: u64, peers: &[u64], max_hops: u32) -> P2PNode {
    let mut node = P2PNode::new(local, max_hops, 64).unwrap();
    let table = node.peers_mut();
    table.merge_discovered(&peers.to_vec(), 1_000);
    for &p in peers {
        table.record_success(p, 2_000);
    }
    node
}

#[test]
fn message_id_is_deterministic_in_content() {
    assert_eq!(compute_message_id(b""), 0xcbf29ce484222325);
    assert_eq!(compute_message_id(b"a"), 0xaf63dc4c8601ec8c);
    assert_eq!(compute_message_id(b"abc"), 0xe71fa2190541574b);
    assert_eq!(compute_message_id(b"abc"), compute_message_id(b"abc"));
    assert_ne!(compute_message_id(b"abc"), compute_message_id(b"abd"));
}

#[test]
fn seen_set_deduplicates_and_evicts_oldest() {
    let mut seen = SeenSet::new(2);
    seen.insert(1);
    seen.insert(1);
    seen.insert(2);
    assert!(seen.contains(1));
    assert!(seen.contains(2));
    seen.insert(3);
    assert!(!seen.contains(1));
    assert!(seen.contains(2));
    assert!(seen.contains(3));
}

#[test]
fn seen_set_duplicate_while_full_changes_nothing() {
    let mut seen = SeenSet::new(2);
    seen.insert(1);
    seen.insert(2);
    // Re-inserting a present id evicts nothing, even at capacity.
    seen.insert(1);
    assert!(seen.contains(1));
    assert!(seen.contains(2));
}

#[test]
fn frame_roundtrip() {
    let payload = b"privatized record".to_vec();
    let env = GossipEnvelope {
        message_id: compute_message_id(&payload),
        origin_peer_id: 7,
        hop_count: 3,
        payload,
    };
    let bytes = env.encode();
    let back = GossipEnvelope::decode(&bytes).unwrap();
    assert_eq!(back.message_id, env.message_id);
    assert_eq!(back.origin_peer_id, 7);
    assert_eq!(back.hop_count, 3);
    assert_eq!(back.payload, env.payload);
}

#[test]
fn malformed_frames_dropped_silently() {
    assert!(GossipEnvelope::decode(b"short").is_none());
    let payload = b"payload".to_vec();
    let env = GossipEnvelope {
        message_id: compute_message_id(&payload),
        origin_peer_id: 1,
        hop_count: 0,
        payload,
    };
    let mut bytes = env.encode();
    // Corrupt one payload byte: the content no longer matches the id.
    let last = bytes.len() - 1;
    bytes[last] ^= 0xFF;
    assert!(GossipEnvelope::decode(&bytes).is_none());
}

#[test]
fn invalid_node_config_rejected() {
    assert_eq!(P2PNode::new(1, 0, 16).unwrap_err(), P2PError::InvalidConfig);
    assert_eq!(P2PNode::new(1, 4, 0).unwrap_err(), P2PError::InvalidConfig);
}

#[test]
fn publishing_same_content_twice_is_suppressed_at_origin() {
    let mut a = connected_node(1, &[2], 8);
    let first = a.publish_measurement(b"same content".to_vec());
    assert!(first.is_some());
    let (env, to) = first.unwrap();
    assert_eq!(env.hop_count, 0);
    assert_eq!(env.origin_peer_id, 1);
    assert_eq!(to, vec![2]);
    // Same content: same message id, already seen, nothing goes out.
    assert!(a.publish_measurement(b"same content".to_vec()).is_none());
}

#[test]
fn envelope_echoed_back_to_origin_is_dropped() {
    let mut a = connected_node(1, &[2], 8);
    let (env, _) = a.publish_measurement(b"mine".to_vec()).unwrap();
    // The origin already has the id in its seen-set: an echo from a peer
    // is neither delivered nor forwarded again.
    let echoed = a.handle_envelope(2, env);
    assert!(echoed.delivered.is_none());
    assert!(echoed.forward.is_none());
}

#[test]
fn duplicate_relay_delivers_once() {
    // Peers 2 and 3 both relay the same envelope to node 1: exactly one
    // local delivery.
    let mut c = connected_node(1, &[2, 3], 8);
    let payload = b"record".to_vec();
    let env = GossipEnvelope {
        message_id: compute_message_id(&payload),
        origin_peer_id: 9,
        hop_count: 1,
        payload,
    };
    let first = c.handle_envelope(2, env.clone());
    assert_eq!(first.delivered.as_deref(), Some(b"record".as_slice()));
    let second = c.handle_envelope(3, env);
    assert!(second.delivered.is_none());
    assert!(second.forward.is_none());
    assert!(second.forward_to.is_empty());
}

#[test]
fn hop_count_bound_stops_forwarding() {
    let mut node = connected_node(1, &[2, 3], 4);
    let payload = b"far travelled".to_vec();
    let env = GossipEnvelope {
        message_id: compute_message_id(&payload),
        origin_peer_id: 9,
        hop_count: 4,
        payload,
    };
    let out = node.handle_envelope(2, env);
    // Still delivered locally, but never forwarded once the hop count
    // meets the configured maximum.
    assert!(out.delivered.is_some());
    assert!(out.forward.is_none());
    assert!(out.forward_to.is_empty());
}

#[test]
fn three_node_chain_delivers_once_via_the_middle() {
    // A - B - C, no direct A - C link; max hops 2.
    let a_id = 10u64;
    let b_id = 20u64;
    let c_id = 30u64;
    let mut a = connected_node(a_id, &[b_id], 2);
    let mut b = connected_node(b_id, &[a_id, c_id], 2);
    let mut c = connected_node(c_id, &[b_id], 2);

    let (env_a, to_a) = a.publish_measurement(b"one measurement".to_vec()).unwrap();
    assert_eq!(to_a, vec![b_id]);
    assert_eq!(env_a.hop_count, 0);

    let at_b = b.handle_envelope(a_id, env_a);
    assert_eq!(at_b.delivered.as_deref(), Some(b"one measurement".as_slice()));
    let env_b = at_b.forward.unwrap();
    assert_eq!(env_b.hop_count, 1);
    assert_eq!(at_b.forward_to, vec![c_id]);

    let at_c = c.handle_envelope(b_id, env_b.clone());
    // Delivered exactly once at C, received via B, two hops from A.
    assert_eq!(at_c.delivered.as_deref(), Some(b"one measurement".as_slice()));
    let env_c = at_c.forward.unwrap();
    assert_eq!(env_c.hop_count, 2);
    assert_eq!(at_c.forward_to, Vec::<u64>::new());

    // A second copy of the same envelope at C is dropped silently.
    let again = c.handle_envelope(b_id, env_b);
    assert!(again.delivered.is_none());
}
