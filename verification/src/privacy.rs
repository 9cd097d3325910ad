//! Differential-privacy layer: the Laplace mechanism over integer metrics.
//!
//! Every metric leaves a node only after `privatize` has added zero-mean
//! Laplace noise with scale `b = sensitivity / epsilon`. All quantities are
//! integers: metric values and the sensitivity in microseconds, `epsilon`
//! in millionths, and the sampler works in binary fixed point from one
//! uniform 64-bit draw (inverse CDF: the top bit gives the sign, the rest
//! the magnitude `-b * ln(t)` for `t` uniform in `(0, 1]`).

use vstd::prelude::*;
use vstd::arithmetic::div_mod::{lemma_div_is_ordered, lemma_div_multiples_vanish};
use vstd::arithmetic::power2::{pow2, lemma_pow2_unfold, lemma_pow2_strictly_increases, lemma2_to64, lemma2_to64_rest};

verus! {

/// A misconfigured privacy budget: `epsilon` or `sensitivity` not positive.
#[derive(Debug, Clone, Copy, PartialEq, Eq, Structural)]
pub enum PrivacyError {
    InvalidBudget,
}

/// `ln(2)` in Q32 fixed point.
pub const LN2_Q32: u64 = 2977044472;

/// One in Q32 fixed point.
pub const ONE_Q32: u64 = 0x1_0000_0000;

/// Largest noise scale the sampler will use, in microseconds.
pub const SCALE_CAP_MICROS: i64 = 1_000_000_000_000;

/// Coarse bound on `-ln(t)` in the sampler, as a power of two: the magnitude
/// of one noise draw never exceeds `64 * scale` microseconds.
pub const NOISE_LN_BOUND: u64 = 64;

/// The privacy budget applied to every metric before it is stored or sent.
///
/// Invariant: both parameters are positive; construction fails otherwise,
/// so no layer that adds no noise can exist by accident.
#[derive(Debug, Clone, Copy)]
pub struct PrivacyLayer {
    epsilon_ppm: i64,
    sensitivity_micros: i64,
}

/// Saturating 64-bit addition, as the mathematical value it yields.
pub open spec fn sat_add(a: int, b: int) -> int {
    if a + b > i64::MAX {
        i64::MAX as int
    } else if a + b < i64::MIN {
        i64::MIN as int
    } else {
        a + b
    }
}

/// `out` is `raw` plus one bounded Laplace draw under `layer`, with
/// saturating addition: what `privatize` promises of its result.
pub open spec fn is_noised(layer: PrivacyLayer, raw: int, out: int) -> bool {
    exists|n: int|
        -(NOISE_LN_BOUND as int) * layer.scale() <= n <= (NOISE_LN_BOUND as int) * layer.scale()
            && out == sat_add(raw, n)
}

/// The noise scale `b = sensitivity / epsilon` in microseconds, capped.
pub open spec fn scale_of(sensitivity_micros: int, epsilon_ppm: int) -> int
    recommends
        epsilon_ppm > 0,
{
    let b = sensitivity_micros * 1_000_000 / epsilon_ppm;
    if b > SCALE_CAP_MICROS {
        SCALE_CAP_MICROS as int
    } else {
        b
    }
}

impl PrivacyLayer {
    /// `epsilon` in millionths, as configured.
    pub closed spec fn epsilon(&self) -> int {
        self.epsilon_ppm as int
    }

    /// `sensitivity` in microseconds, as configured.
    pub closed spec fn sensitivity(&self) -> int {
        self.sensitivity_micros as int
    }

    /// Both budget parameters are positive.
    pub open spec fn valid(&self) -> bool {
        self.epsilon() > 0 && self.sensitivity() > 0
    }

    /// The noise scale this layer samples with, in microseconds.
    pub open spec fn scale(&self) -> int {
        scale_of(self.sensitivity(), self.epsilon())
    }

    /// Builds a privacy layer from `epsilon` (millionths) and `sensitivity`
    /// (microseconds). Fails with `InvalidBudget` exactly when either
    /// parameter is not positive: a budget that would add no noise must stop
    /// the agent rather than silently release raw values.
    pub fn new(epsilon_ppm: i64, sensitivity_micros: i64) -> (r: Result<PrivacyLayer, PrivacyError>)
        ensures
            r is Err <==> (epsilon_ppm <= 0 || sensitivity_micros <= 0),
            r is Err ==> r == Result::<PrivacyLayer, PrivacyError>::Err(PrivacyError::InvalidBudget),
            r is Ok ==> r->Ok_0.valid() && r->Ok_0.epsilon() == epsilon_ppm
                && r->Ok_0.sensitivity() == sensitivity_micros,
    {
        if epsilon_ppm <= 0 || sensitivity_micros <= 0 {
            Err(PrivacyError::InvalidBudget)
        } else {
            Ok(PrivacyLayer { epsilon_ppm, sensitivity_micros })
        }
    }

    /// The capped noise scale `b = sensitivity / epsilon`, in microseconds.
    pub fn noise_scale_micros(&self) -> (r: i64)
        requires
            self.valid(),
        ensures
            r == self.scale(),
            0 <= r <= SCALE_CAP_MICROS,
    {
        let wide: i128 = (self.sensitivity_micros as i128) * 1_000_000 / (self.epsilon_ppm as i128);
        if wide > SCALE_CAP_MICROS as i128 {
            SCALE_CAP_MICROS
        } else {
            proof {
                lemma_div_is_ordered(0, self.sensitivity_micros as int * 1_000_000, self.epsilon_ppm as int);
            }
            wide as i64
        }
    }

    /// One Laplace draw in microseconds, from the uniform 64-bit value `u`.
    ///
    /// The top bit of `u` picks the sign; the remaining bits give
    /// `t = 1 - 2|u'|` uniform in `(0, 1]`, and the magnitude is
    /// `b * (-ln t)` computed in Q32 fixed point. The draw is always
    /// defined and bounded: no input can make it overflow or fail.
    pub fn sample_laplace(&self, u: u64) -> (r: i64)
        requires
            self.valid(),
        ensures
            -(NOISE_LN_BOUND as int) * self.scale() <= r <= (NOISE_LN_BOUND as int) * self.scale(),
            (u >> 63) == 0 ==> r >= 0,
            (u >> 63) != 0 ==> r <= 0,
    {
        let scale: i64 = self.noise_scale_micros();
        let negative: bool = (u >> 63) != 0;
        let mag_bits: u64 = u & 0x7FFF_FFFF_FFFF_FFFF;
        assert((u & 0x7FFF_FFFF_FFFF_FFFF) >> 31 < 0x1_0000_0000) by (bit_vector);
        let t_q32: u64 = ONE_Q32 - (mag_bits >> 31);
        if t_q32 >= ONE_Q32 {
            // t == 1: ln(1) == 0, no noise.
            return 0;
        }
        assert(t_q32 >= 1) by {
            assert((u & 0x7FFF_FFFF_FFFF_FFFF) >> 31 <= 0xFFFF_FFFF) by (bit_vector);
        }

        // Normalize t into [1/2, 1): t == m * 2^-k with m in [2^31, 2^32).
        let mut m: u64 = t_q32;
        let mut k: u64 = 0;
        while m < 0x8000_0000 && k < 32
            invariant
                1 <= m < 0x1_0000_0000,
                k <= 32,
            decreases 32 - k,
        {
            m = m * 2;
            k = k + 1;
        }

        // Fractional bits of log2(2m) for 2m in [1, 2), most significant first:
        // square, take the integer bit, keep the fraction.
        let mut x: u64 = m;
        let mut g: u64 = 0;
        let mut i: u64 = 0;
        proof {
            lemma2_to64();
            lemma2_to64_rest();
        }
        while i < 32
            invariant
                i <= 32,
                x < 0x1_0000_0000,
                g < pow2(i as nat),
                pow2(i as nat) <= 0x1_0000_0000,
            decreases 32 - i,
        {
            proof {
                lemma_pow2_unfold((i + 1) as nat);
                lemma2_to64();
                lemma2_to64_rest();
                if i + 1 < 32 {
                    lemma_pow2_strictly_increases((i + 1) as nat, 32);
                }
                assert(x * x <= 0xFFFF_FFFFu64 * 0xFFFF_FFFFu64) by (nonlinear_arith)
                    requires
                        x <= 0xFFFF_FFFFu64,
                ;
            }
            let y: u64 = (x * x) >> 31;
            assert(y < 0x2_0000_0000) by {
                assert(x * x < 0x1_0000_0000_0000_0000u128) by (nonlinear_arith)
                    requires
                        x < 0x1_0000_0000u64,
                ;
                assert(forall|v: u64| v >> 31 == v as nat / 0x8000_0000nat) by (bit_vector);
                assert((x * x) as nat / 0x8000_0000nat < 0x2_0000_0000) by {
                    lemma_div_is_ordered((x * x) as int, 0xFFFF_FFFF_FFFF_FFFFi128 as int, 0x8000_0000);
                }
            }
            if y >= ONE_Q32 {
                g = g * 2 + 1;
                assert(y >> 1 < 0x1_0000_0000u64) by (bit_vector)
                    requires
                        y < 0x2_0000_0000u64,
                ;
                x = y >> 1;
            } else {
                g = g * 2;
                x = y;
            }
            i = i + 1;
        }
        proof {
            lemma2_to64();
        }
        // -log2(t) = k + (1 - log2(2m)), all in Q32.
        let neg_log2_q32: u64 = k * ONE_Q32 + (ONE_Q32 - g);
        // -ln(t) = -log2(t) * ln(2).
        let neg_ln_wide: u128 = ((neg_log2_q32 as u128) * (LN2_Q32 as u128)) >> 32;
        assert(neg_ln_wide < 64 * 0x1_0000_0000) by {
            assert(neg_log2_q32 as int * LN2_Q32 as int <= 0x22_0000_0000i128 as int * LN2_Q32 as int) by (nonlinear_arith)
                requires
                    0 <= neg_log2_q32 as int <= 0x22_0000_0000i128 as int,
            ;
            assert(forall|v: u128| v >> 32 == v as nat / 0x1_0000_0000nat) by (bit_vector);
            lemma_div_is_ordered(
                (neg_log2_q32 as u128 * LN2_Q32 as u128) as int,
                0x22_0000_0000i128 as int * LN2_Q32 as int,
                0x1_0000_0000,
            );
        }
        let neg_ln_q32: u64 = neg_ln_wide as u64;

        // magnitude = scale * (-ln t), still in microseconds.
        proof {
            assert(scale as int * neg_ln_q32 as int <= 0x100_0000_0000i128 as int * 0x40_0000_0000i128 as int)
                by (nonlinear_arith)
                requires
                    0 <= scale as int <= 0x100_0000_0000i128 as int,
                    0 <= neg_ln_q32 as int <= 0x40_0000_0000i128 as int,
            ;
        }
        let mag_wide: u128 = ((scale as u128) * (neg_ln_q32 as u128)) >> 32;
        assert(mag_wide <= 64 * scale as u128) by {
            assert(forall|v: u128| v >> 32 == v as nat / 0x1_0000_0000nat) by (bit_vector);
            assert(scale as int * neg_ln_q32 as int <= scale as int * (64 * 0x1_0000_0000)) by (nonlinear_arith)
                requires
                    0 <= scale as int,
                    0 <= neg_ln_q32 as int <= 64 * 0x1_0000_0000,
            ;
            lemma_div_is_ordered(
                (scale as u128 * neg_ln_q32 as u128) as int,
                scale as int * (64 * 0x1_0000_0000),
                0x1_0000_0000,
            );
            assert(scale as int * (64 * 0x1_0000_0000) == (64 * scale as int) * 0x1_0000_0000) by (nonlinear_arith);
            lemma_div_multiples_vanish(64 * scale as int, 0x1_0000_0000);
        }
        let magnitude: i64 = mag_wide as i64;
        proof {
            assert(64 * scale as int == NOISE_LN_BOUND as int * self.scale());
        }
        if negative {
            -magnitude
        } else {
            magnitude
        }
    }

    /// Adds one fresh Laplace draw to `value_micros`, saturating at the
    /// 64-bit range: the result is always defined, and differs from the
    /// input by at most `64 * scale` microseconds.
    pub fn add_noise(&self, value_micros: i64) -> (r: i64)
        requires
            self.valid(),
        ensures
            is_noised(*self, value_micros as int, r as int),
    {
        let u: u64 = random_u64();
        let noise: i64 = self.sample_laplace(u);
        let r = sat_add64(value_micros, noise);
        proof {
            assert(r == sat_add(value_micros as int, noise as int));
        }
        r
    }

    /// Privatizes one metric: adds Laplace noise under this budget.
    /// Never fails; each call consumes one fresh random draw.
    pub fn privatize(&self, value_micros: i64) -> (r: i64)
        requires
            self.valid(),
        ensures
            is_noised(*self, value_micros as int, r as int),
    {
        self.add_noise(value_micros)
    }
}

/// Saturating signed addition.
fn sat_add64(a: i64, b: i64) -> (r: i64)
    ensures
        r == sat_add(a as int, b as int),
{
    let wide: i128 = a as i128 + b as i128;
    if wide > i64::MAX as i128 {
        i64::MAX
    } else if wide < i64::MIN as i128 {
        i64::MIN
    } else {
        wide as i64
    }
}

/// Relies on `rand::random::<u64>`: one fresh draw from the thread-local
/// generator. Nothing is promised of the value; callers state what holds
/// of every outcome.
#[verifier::external_body]
fn random_u64() -> u64 {
    rand::random::<u64>()
}

} // verus!
