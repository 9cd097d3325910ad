//! Gossip plumbing: content-derived message ids, the bounded seen-set that
//! suppresses duplicates, and the envelope byte framing.
//!
//! A message id is a pure function of the payload bytes (FNV-1a), so
//! re-sending the same content always yields the same id and the seen-set
//! can drop it. The frame is `[message id][origin id][hop count][payload]`
//! in little-endian; a frame whose id does not match its payload is
//! malformed and is dropped silently by the receiver.

use vstd::prelude::*;

verus! {

/// FNV-1a 64-bit offset basis.
pub const FNV_OFFSET: u64 = 0xcbf29ce484222325;

/// FNV-1a 64-bit prime.
pub const FNV_PRIME: u64 = 0x100000001b3;

/// One FNV-1a step: xor the byte in, multiply by the prime mod 2^64.
pub open spec fn fnv1a_step(h: u64, b: u8) -> u64 {
    (((h ^ b as u64) as int * FNV_PRIME as int) % 0x1_0000_0000_0000_0000) as u64
}

/// The FNV-1a 64-bit hash of `bytes`: the message id of a payload.
pub open spec fn fnv1a64(bytes: Seq<u8>) -> u64
    decreases bytes.len(),
{
    if bytes.len() == 0 {
        FNV_OFFSET
    } else {
        fnv1a_step(fnv1a64(bytes.drop_last()), bytes.last())
    }
}

/// The message id of a payload: deterministic in the content alone, so the
/// same content re-sent always carries the same id.
#[verifier::rlimit(50)]
pub fn compute_message_id(payload: &[u8]) -> (r: u64)
    ensures
        r == fnv1a64(payload@),
{
    let n = payload.len();
    let mut h: u64 = FNV_OFFSET;
    let mut i: usize = 0;
    while i < n
        invariant
            n == payload@.len(),
            i <= n,
            h == fnv1a64(payload@.subrange(0, i as int)),
        decreases n - i,
    {
        proof {
            assert(payload@.subrange(0, i + 1 as int).drop_last() =~= payload@.subrange(
                0,
                i as int,
            ));
        }
        proof {
            assert(payload@.subrange(0, i + 1 as int).last() == payload@[i as int]);
        }
        let mixed: u64 = h ^ (payload[i] as u64);
        let ghost h_before = h;
        let wide: u128 = mixed as u128 * FNV_PRIME as u128;
        let reduced: u128 = wide % 0x1_0000_0000_0000_0000u128;
        h = reduced as u64;
        proof {
            assert(h == fnv1a_step(h_before, payload@[i as int]));
        }
        i += 1;
    }
    proof {
        assert(payload@.subrange(0, n as int) =~= payload@);
    }
    h
}

/// The bounded set of message ids already seen: suppresses duplicate
/// delivery and re-broadcast. When full, the oldest entry is evicted.
#[derive(Debug)]
pub struct SeenSet {
    ids: Vec<u64>,
    capacity: usize,
}

impl SeenSet {
    /// The ids currently remembered, oldest first.
    pub closed spec fn ids_seq(&self) -> Seq<u64> {
        self.ids@
    }

    /// The configured bound.
    pub closed spec fn cap(&self) -> int {
        self.capacity as int
    }

    /// No duplicates, and never more entries than the bound.
    pub open spec fn wf(&self) -> bool {
        self.cap() >= 1 && self.ids_seq().len() <= self.cap() && (forall|i: int, j: int|
            0 <= i < j < self.ids_seq().len() ==> self.ids_seq()[i] != self.ids_seq()[j])
    }

    /// Whether `id` is remembered.
    pub open spec fn has(&self, id: u64) -> bool {
        self.ids_seq().contains(id)
    }

    pub fn new(capacity: usize) -> (r: SeenSet)
        requires
            capacity >= 1,
        ensures
            r.wf(),
            r.cap() == capacity,
            r.ids_seq() == Seq::<u64>::empty(),
    {
        SeenSet { ids: Vec::new(), capacity }
    }

    pub fn contains(&self, id: u64) -> (r: bool)
        ensures
            r == self.has(id),
    {
        let n = self.ids.len();
        let mut i: usize = 0;
        while i < n
            invariant
                n == self.ids_seq().len(),
                i <= n,
                forall|k: int| 0 <= k < i ==> self.ids_seq()[k] != id,
            decreases n - i,
        {
            if self.ids[i] == id {
                proof {
                    assert(self.ids_seq()[i as int] == id);
                }
                return true;
            }
            i += 1;
        }
        false
    }

    /// Records `id`. An id already present leaves the set unchanged; a new
    /// id is appended, evicting the oldest entry first if the set is full.
    /// Nothing but possibly the oldest entry is forgotten.
    pub fn insert(&mut self, id: u64)
        requires
            old(self).wf(),
        ensures
            final(self).wf(),
            final(self).cap() == old(self).cap(),
            final(self).has(id),
            old(self).has(id) ==> final(self).ids_seq() == old(self).ids_seq(),
            !old(self).has(id) && old(self).ids_seq().len() < old(self).cap() ==> final(self).ids_seq() == old(self).ids_seq().push(id),
            !old(self).has(id) && old(self).ids_seq().len() == old(self).cap() ==> final(self).ids_seq() == old(self).ids_seq().drop_first().push(id),
    {
        if self.contains(id) {
            return ;
        }
        if self.ids.len() >= self.capacity {
            self.ids.remove(0);
            proof {
                assert(self.ids_seq() =~= old(self).ids_seq().drop_first());
            }
        }
        self.ids.push(id);
        proof {
            assert(self.ids_seq().last() == id);
            assert(self.has(id));
        }
    }
}

/// One gossip frame: a payload wrapped with its content-derived message id,
/// the id of the node that first published it, and how many hops it has
/// taken so far.
#[derive(Debug, Clone)]
pub struct GossipEnvelope {
    pub message_id: u64,
    pub origin_peer_id: u64,
    pub hop_count: u32,
    pub payload: Vec<u8>,
}

/// The eight little-endian bytes of `v`.
pub open spec fn le64_bytes(v: u64) -> Seq<u8> {
    seq![
        (v & 0xFF) as u8,
        ((v >> 8) & 0xFF) as u8,
        ((v >> 16) & 0xFF) as u8,
        ((v >> 24) & 0xFF) as u8,
        ((v >> 32) & 0xFF) as u8,
        ((v >> 40) & 0xFF) as u8,
        ((v >> 48) & 0xFF) as u8,
        ((v >> 56) & 0xFF) as u8,
    ]
}

/// The four little-endian bytes of `v`.
pub open spec fn le32_bytes(v: u32) -> Seq<u8> {
    seq![(v & 0xFF) as u8, ((v >> 8) & 0xFF) as u8, ((v >> 16) & 0xFF) as u8, ((v >> 24)
        & 0xFF) as u8]
}

/// The u64 read little-endian from `s` at offset `off`.
pub open spec fn read_le64(s: Seq<u8>, off: int) -> u64
    recommends
        0 <= off,
        off + 8 <= s.len(),
{
    (s[off] as u64) | (s[off + 1] as u64) << 8 | (s[off + 2] as u64) << 16 | (s[off + 3] as u64)
        << 24 | (s[off + 4] as u64) << 32 | (s[off + 5] as u64) << 40 | (s[off + 6] as u64) << 48
        | (s[off + 7] as u64) << 56
}

/// The u32 read little-endian from `s` at offset `off`.
pub open spec fn read_le32(s: Seq<u8>, off: int) -> u32
    recommends
        0 <= off,
        off + 4 <= s.len(),
{
    (s[off] as u32) | (s[off + 1] as u32) << 8 | (s[off + 2] as u32) << 16 | (s[off + 3] as u32)
        << 24
}

/// Number of header bytes before the payload in a frame.
pub const FRAME_HEADER_LEN: usize = 20;

/// The byte frame of an envelope.
pub open spec fn encoded_frame(env: GossipEnvelope) -> Seq<u8> {
    le64_bytes(env.message_id) + le64_bytes(env.origin_peer_id) + le32_bytes(env.hop_count)
        + env.payload@
}

/// A byte string is a well-formed frame when it has a full header and its
/// message id matches its payload: anything else is malformed gossip and
/// is dropped silently.
pub open spec fn well_formed_frame(bytes: Seq<u8>) -> bool {
    bytes.len() >= FRAME_HEADER_LEN && read_le64(bytes, 0) == fnv1a64(
        bytes.subrange(FRAME_HEADER_LEN as int, bytes.len() as int),
    )
}

impl GossipEnvelope {
    /// Serializes the envelope for one peer connection.
    pub fn encode(&self) -> (r: Vec<u8>)
        ensures
            r@ == encoded_frame(*self),
    {
        let mut out: Vec<u8> = Vec::new();
        push_le64(&mut out, self.message_id);
        push_le64(&mut out, self.origin_peer_id);
        push_le32(&mut out, self.hop_count);
        out.extend_from_slice(self.payload.as_slice());
        proof {
            assert(out@ =~= encoded_frame(*self));
        }
        out
    }

    /// Parses one received frame. Returns `None` — the frame is dropped
    /// silently, per the malformed-gossip policy — exactly when the header
    /// is short or the message id does not match the payload.
    pub fn decode(bytes: &[u8]) -> (r: Option<GossipEnvelope>)
        ensures
            r is Some <==> well_formed_frame(bytes@),
            r matches Some(env) ==> env.message_id == read_le64(bytes@, 0)
                && env.origin_peer_id == read_le64(bytes@, 8) && env.hop_count == read_le32(
                bytes@,
                16,
            ) && env.payload@ == bytes@.subrange(FRAME_HEADER_LEN as int, bytes@.len() as int)
                && env.message_id == fnv1a64(env.payload@),
    {
        if bytes.len() < FRAME_HEADER_LEN {
            return None;
        }
        let message_id = get_le64(bytes, 0);
        let origin_peer_id = get_le64(bytes, 8);
        let hop_count = get_le32(bytes, 16);
        let payload_slice = vstd::slice::slice_subrange(bytes, FRAME_HEADER_LEN, bytes.len());
        let check = compute_message_id(payload_slice);
        if check != message_id {
            return None;
        }
        let payload = vstd::slice::slice_to_vec(payload_slice);
        Some(GossipEnvelope { message_id, origin_peer_id, hop_count, payload })
    }
}

/// Appends the eight little-endian bytes of `v`.
fn push_le64(out: &mut Vec<u8>, v: u64)
    ensures
        final(out)@ == old(out)@ + le64_bytes(v),
{
    let ghost before = out@;
    out.push((v & 0xFF) as u8);
    out.push(((v >> 8) & 0xFF) as u8);
    out.push(((v >> 16) & 0xFF) as u8);
    out.push(((v >> 24) & 0xFF) as u8);
    out.push(((v >> 32) & 0xFF) as u8);
    out.push(((v >> 40) & 0xFF) as u8);
    out.push(((v >> 48) & 0xFF) as u8);
    out.push(((v >> 56) & 0xFF) as u8);
    proof {
        assert(out@ =~= before + le64_bytes(v));
    }
}

/// Appends the four little-endian bytes of `v`.
fn push_le32(out: &mut Vec<u8>, v: u32)
    ensures
        final(out)@ == old(out)@ + le32_bytes(v),
{
    let ghost before = out@;
    out.push((v & 0xFF) as u8);
    out.push(((v >> 8) & 0xFF) as u8);
    out.push(((v >> 16) & 0xFF) as u8);
    out.push(((v >> 24) & 0xFF) as u8);
    proof {
        assert(out@ =~= before + le32_bytes(v));
    }
}

/// Reads a u64 little-endian at `off`.
fn get_le64(bytes: &[u8], off: usize) -> (r: u64)
    requires
        off + 8 <= bytes@.len(),
    ensures
        r == read_le64(bytes@, off as int),
{
    (bytes[off] as u64) | (bytes[off + 1] as u64) << 8 | (bytes[off + 2] as u64) << 16 | (bytes[off
        + 3] as u64) << 24 | (bytes[off + 4] as u64) << 32 | (bytes[off + 5] as u64) << 40 | (
    bytes[off + 6] as u64) << 48 | (bytes[off + 7] as u64) << 56
}

/// Reads a u32 little-endian at `off`.
fn get_le32(bytes: &[u8], off: usize) -> (r: u32)
    requires
        off + 4 <= bytes@.len(),
    ensures
        r == read_le32(bytes@, off as int),
{
    (bytes[off] as u32) | (bytes[off + 1] as u32) << 8 | (bytes[off + 2] as u32) << 16 | (bytes[off
        + 3] as u32) << 24
}

/// Encoding then decoding is the identity: a frame built by `encode` from
/// an envelope whose id matches its payload is well formed, and every
/// header field and the payload read back unchanged.
#[verifier::rlimit(100)]
pub proof fn lemma_frame_roundtrip(env: GossipEnvelope)
    requires
        env.message_id == fnv1a64(env.payload@),
    ensures
        well_formed_frame(encoded_frame(env)),
        read_le64(encoded_frame(env), 0) == env.message_id,
        read_le64(encoded_frame(env), 8) == env.origin_peer_id,
        read_le32(encoded_frame(env), 16) == env.hop_count,
        encoded_frame(env).subrange(
            FRAME_HEADER_LEN as int,
            encoded_frame(env).len() as int,
        ) == env.payload@,
{
    let e = encoded_frame(env);
    assert(e.subrange(FRAME_HEADER_LEN as int, e.len() as int) =~= env.payload@);
    lemma_le64_roundtrip(env.message_id);
    lemma_le32_roundtrip(env.hop_count);
    lemma_le64_roundtrip(env.origin_peer_id);
    assert forall|i: int| 0 <= i < 8 implies e[i] == le64_bytes(env.message_id)[i] by {}
    assert forall|i: int| 0 <= i < 8 implies e[8 + i] == le64_bytes(env.origin_peer_id)[i] by {}
    assert forall|i: int| 0 <= i < 4 implies e[16 + i] == le32_bytes(env.hop_count)[i] by {}
    assert(read_le64(e, 0) == read_le64(le64_bytes(env.message_id), 0));
    assert(read_le64(e, 8) == read_le64(le64_bytes(env.origin_peer_id), 0));
    assert(read_le32(e, 16) == read_le32(le32_bytes(env.hop_count), 0));
}

/// Reading back the eight little-endian bytes of `v` yields `v`.
pub proof fn lemma_le64_roundtrip(v: u64)
    ensures
        read_le64(le64_bytes(v), 0) == v,
{
    assert((v & 0xFF) | (((v >> 8) & 0xFF) << 8) | (((v >> 16) & 0xFF) << 16) | (((v >> 24) & 0xFF)
        << 24) | (((v >> 32) & 0xFF) << 32) | (((v >> 40) & 0xFF) << 40) | (((v >> 48) & 0xFF)
        << 48) | (((v >> 56) & 0xFF) << 56) == v) by (bit_vector);
    assert(forall|w: u64| #[trigger] (w & 0xFF) < 256 ==> ((w & 0xFF) as u8) as u64 == w & 0xFF);
    assert((v & 0xFF) < 256 && ((v >> 8) & 0xFF) < 256 && ((v >> 16) & 0xFF) < 256 && ((v >> 24)
        & 0xFF) < 256 && ((v >> 32) & 0xFF) < 256 && ((v >> 40) & 0xFF) < 256 && ((v >> 48) & 0xFF)
        < 256 && ((v >> 56) & 0xFF) < 256) by (bit_vector);
}

/// Reading back the four little-endian bytes of `v` yields `v`.
pub proof fn lemma_le32_roundtrip(v: u32)
    ensures
        read_le32(le32_bytes(v), 0) == v,
{
    assert((v & 0xFF) | (((v >> 8) & 0xFF) << 8) | (((v >> 16) & 0xFF) << 16) | (((v >> 24) & 0xFF)
        << 24) == v) by (bit_vector);
    assert((v & 0xFF) < 256 && ((v >> 8) & 0xFF) < 256 && ((v >> 16) & 0xFF) < 256 && ((v >> 24)
        & 0xFF) < 256) by (bit_vector);
}

} // verus!
