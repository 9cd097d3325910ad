//! Ping probe: statistics over a fixed burst of echo requests.
//!
//! The transport half of the probe (sending ICMP echoes) lives outside the
//! library; it hands back one `Option<u64>` round-trip time in microseconds
//! per packet, `None` for a timeout or send error. The statistics computed
//! here are the probe's contract: average latency over the successful
//! replies, and packet loss as `(sent - received) / sent * 100`.

use vstd::prelude::*;
use vstd::arithmetic::div_mod::{lemma_div_is_ordered, lemma_div_multiples_vanish, lemma_fundamental_div_mod};
use vstd::arithmetic::mul::lemma_mul_inequality;

verus! {

/// How many echo requests one ping probe sends.
pub const PING_PACKET_COUNT: usize = 4;

/// How many of the replies arrived.
pub open spec fn success_count(replies: Seq<Option<u64>>) -> int
    decreases replies.len(),
{
    if replies.len() == 0 {
        0
    } else {
        success_count(replies.drop_last()) + if replies.last() is Some {
            1int
        } else {
            0int
        }
    }
}

/// The sum of the round-trip times of the replies that arrived.
pub open spec fn rtt_total(replies: Seq<Option<u64>>) -> int
    decreases replies.len(),
{
    if replies.len() == 0 {
        0
    } else {
        rtt_total(replies.drop_last()) + match replies.last() {
            Some(v) => v as int,
            None => 0int,
        }
    }
}

/// Packet loss in whole percent, `(sent - received) * 100 / sent`.
pub open spec fn packet_loss_pct(sent: int, received: int) -> int
    recommends
        sent > 0,
{
    (sent - received) * 100 / sent
}

/// Packet loss is exact — no remainder is discarded — whenever the attempt
/// count divides 100, as the probe's fixed burst of four does: the computed
/// percentage times the attempt count equals `(sent - received) * 100`.
pub proof fn lemma_packet_loss_exact(sent: int, received: int)
    requires
        1 <= sent,
        0 <= received <= sent,
        100int % sent == 0,
    ensures
        packet_loss_pct(sent, received) * sent == (sent - received) * 100,
{
    let q = 100int / sent;
    lemma_fundamental_div_mod(100, sent);
    assert((sent - received) * 100 == ((sent - received) * q) * sent) by (nonlinear_arith)
        requires
            100 == q * sent,
    ;
    lemma_div_multiples_vanish((sent - received) * q, sent);
    assert(packet_loss_pct(sent, received) == (sent - received) * q);
}

/// The ping probe for one target.
pub struct PingMeasurement {
    target: String,
}

impl PingMeasurement {
    /// The probed target's text.
    pub closed spec fn target_spec(&self) -> Seq<char> {
        self.target@
    }

    pub fn new(target: String) -> (r: Self)
        ensures
            r.target_spec() == target@,
    {
        Self { target }
    }

    /// The probed target, for the transport half.
    pub fn target(&self) -> (r: &String)
        ensures
            r@ == self.target_spec(),
    {
        &self.target
    }

    /// Summarizes one burst of echo replies: average round-trip time in
    /// microseconds over the replies that arrived (0 if none did, which is
    /// itself a meaningful result, not an error), and packet loss percent.
    pub fn summarize(&self, replies: &Vec<Option<u64>>) -> (r: (u64, u32))
        requires
            replies@.len() >= 1,
        ensures
            success_count(replies@) == 0 ==> r.0 == 0,
            success_count(replies@) > 0 ==> r.0 == rtt_total(replies@) / success_count(replies@),
            r.1 == packet_loss_pct(replies@.len() as int, success_count(replies@)),
            r.1 <= 100,
    {
        let sent: usize = replies.len();
        let mut received: u64 = 0;
        let mut total: u128 = 0;
        let mut i: usize = 0;
        while i < sent
            invariant
                sent == replies@.len(),
                i <= sent,
                received == success_count(replies@.subrange(0, i as int)),
                total == rtt_total(replies@.subrange(0, i as int)),
                received <= i,
                total <= received as int * 0xFFFF_FFFF_FFFF_FFFFu64,
            decreases sent - i,
        {
            proof {
                assert(replies@.subrange(0, i + 1 as int).drop_last() =~= replies@.subrange(0, i as int));
            }
            match replies[i] {
                Some(rtt) => {
                    received = received + 1;
                    total = total + rtt as u128;
                }
                None => {}
            }
            i = i + 1;
        }
        proof {
            assert(replies@.subrange(0, sent as int) =~= replies@);
        }

        let avg: u64 = if received == 0 {
            0
        } else {
            proof {
                lemma_div_multiples_vanish(0xFFFF_FFFF_FFFF_FFFFu64 as int, received as int);
                lemma_div_is_ordered(
                    total as int,
                    received as int * 0xFFFF_FFFF_FFFF_FFFFu64,
                    received as int,
                );
                assert(received as int * 0xFFFF_FFFF_FFFF_FFFFu64 == 0xFFFF_FFFF_FFFF_FFFFu64 as int * received as int)
                    by (nonlinear_arith);
            }
            (total / received as u128) as u64
        };

        let lost: u128 = (sent as u128 - received as u128) * 100;
        proof {
            lemma_mul_inequality(sent as int - received as int, sent as int, 100);
            lemma_div_is_ordered(
                (sent as int - received as int) * 100,
                sent as int * 100,
                sent as int,
            );
            lemma_div_multiples_vanish(100, sent as int);
            assert(sent as int * 100 == 100 * sent as int) by (nonlinear_arith);
            lemma_div_is_ordered(0, (sent as int - received as int) * 100, sent as int);
        }
        let loss: u32 = (lost / sent as u128) as u32;
        (avg, loss)
    }
}

} // verus!
