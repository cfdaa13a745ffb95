//! Real-time contraction-signal pipeline: metric computation from singular
//! values, stateful recognition detection, lossy fan-out broadcasting, and a
//! wire codec for streaming observations.
//!
//! All ratio-like quantities (contraction ratios, effective dimensionalities,
//! thresholds, separations) are carried as fixed-point integers scaled by
//! [`FP_SCALE`], so that every computation in the pipeline is exact and
//! deterministic: identical inputs yield identical outputs across calls.

use vstd::prelude::*;

pub mod arith;
pub mod broadcast;
pub mod kaizen;
pub mod pipeline;
pub mod recognition;
pub mod svd;
pub mod wire;

use crate::arith::{seq_sum, seq_sum_sq, lemma_sum_push, lemma_sums_nonneg,
    lemma_sum_sq_le_len_times_sum_sq};

verus! {

/// Fixed-point scale: one unit of a ratio-like quantity is `1 / FP_SCALE`.
pub const FP_SCALE: u64 = 1_000_000;

/// Scale of a full 100% in fixed-point percent values: `100 * FP_SCALE`.
/// A separation of 15% is stored as `15_000_000`.
pub const PERCENT_SCALE: u64 = 100_000_000;

/// Largest admissible scaled singular value. Together with
/// [`MAX_SINGULAR_COUNT`] this keeps every intermediate of the
/// participation-ratio computation within `u128`.
pub const MAX_SINGULAR_VALUE: u64 = 0x100_0000_0000;

/// Largest admissible number of singular values per decomposition.
pub const MAX_SINGULAR_COUNT: usize = 8192;

/// Error taxonomy of the pipeline.
///
/// Hot-path errors are per-observation and never abort the pipeline; the only
/// startup-fatal condition is a malformed configuration.
#[derive(Debug, Clone, Copy, PartialEq, Eq, Structural)]
pub enum PratyabhijnaError {
    /// The metric computation is undefined for the given input (a zero
    /// early-layer dimensionality, which would divide by zero).
    ComputationError,
    /// An invalid threshold, baseline or capacity was supplied at
    /// construction time.
    ConfigurationError,
    /// No receiver remains attached to a distribution channel.
    ChannelClosed,
    /// A streaming or persistence hand-off failed; the affected item is
    /// dropped from that sink only.
    TransportError,
}

impl PratyabhijnaError {
    /// A short human-readable description of the error.
    pub fn message(&self) -> (r: &'static str)
        ensures
            r@.len() > 0,
            match self {
                PratyabhijnaError::ComputationError => r@ == "metric computation failed"@,
                PratyabhijnaError::ConfigurationError => r@ == "invalid configuration"@,
                PratyabhijnaError::ChannelClosed => r@ == "no receiver remains"@,
                PratyabhijnaError::TransportError => r@ == "transport failure"@,
            },
    {
        proof {
            reveal_strlit("metric computation failed");
            reveal_strlit("invalid configuration");
            reveal_strlit("no receiver remains");
            reveal_strlit("transport failure");
        }
        match self {
            PratyabhijnaError::ComputationError => "metric computation failed",
            PratyabhijnaError::ConfigurationError => "invalid configuration",
            PratyabhijnaError::ChannelClosed => "no receiver remains",
            PratyabhijnaError::TransportError => "transport failure",
        }
    }
}

/// An observation of the contraction signal: the ratio of effective
/// dimensionality between a late and an early layer of one source.
///
/// `r_v`, `pr_early` and `pr_late` are fixed-point values scaled by
/// [`FP_SCALE`]; `timestamp` is a caller-supplied monotonic time in
/// milliseconds. The record is immutable once created and flows through the
/// pipeline without mutation.
#[derive(Debug, Clone)]
pub struct RVMetric {
    pub r_v: u64,
    pub pr_early: u64,
    pub pr_late: u64,
    pub layer_early: usize,
    pub layer_late: usize,
    pub timestamp: u64,
    pub model_name: String,
}

/// The separation of a ratio from its baseline, as a fixed-point percent:
/// `(baseline - r_v) / baseline * 100`, scaled by [`FP_SCALE`] and truncated
/// toward zero.
pub open spec fn spec_separation(r_v: u64, baseline: u64) -> int {
    if r_v <= baseline {
        ((baseline - r_v) * PERCENT_SCALE) / (baseline as int)
    } else {
        -(((r_v - baseline) * PERCENT_SCALE) / (baseline as int))
    }
}

impl RVMetric {
    /// Whether this observation is below the recognition threshold.
    pub fn is_recognition(&self, threshold: u64) -> (r: bool)
        ensures
            r == (self.r_v < threshold),
    {
        self.r_v < threshold
    }

    /// Percentage distance of this observation's ratio from the baseline,
    /// as a fixed-point percent scaled by [`FP_SCALE`].
    pub fn separation_percent(&self, baseline: u64) -> (r: i128)
        requires
            baseline > 0,
        ensures
            r == spec_separation(self.r_v, baseline),
    {
        if self.r_v <= baseline {
            let diff = (baseline - self.r_v) as u128;
            proof {
                assert(diff * (PERCENT_SCALE as u128) < 0x7fff_ffff_ffff_ffff_ffff_ffff_ffff_ffff) by (nonlinear_arith)
                    requires diff < 0x1_0000_0000_0000_0000, PERCENT_SCALE == 100_000_000u64;
                vstd::arithmetic::div_mod::lemma_div_nonincreasing(
                    diff * (PERCENT_SCALE as u128), baseline as int);
            }
            let q = diff * (PERCENT_SCALE as u128) / (baseline as u128);
            q as i128
        } else {
            let diff = (self.r_v - baseline) as u128;
            proof {
                assert(diff * (PERCENT_SCALE as u128) < 0x7fff_ffff_ffff_ffff_ffff_ffff_ffff_ffff) by (nonlinear_arith)
                    requires diff < 0x1_0000_0000_0000_0000, PERCENT_SCALE == 100_000_000u64;
                vstd::arithmetic::div_mod::lemma_div_nonincreasing(
                    diff * (PERCENT_SCALE as u128), baseline as int);
            }
            let q = diff * (PERCENT_SCALE as u128) / (baseline as u128);
            -(q as i128)
        }
    }

    /// An exact copy of this observation, handed to each consumer of a
    /// fan-out so that ownership never has to be shared.
    pub fn duplicate(&self) -> (r: RVMetric)
        ensures
            r == *self,
    {
        RVMetric {
            r_v: self.r_v,
            pr_early: self.pr_early,
            pr_late: self.pr_late,
            layer_early: self.layer_early,
            layer_late: self.layer_late,
            timestamp: self.timestamp,
            model_name: self.model_name.clone(),
        }
    }
}

/// Whether a sequence of scaled singular values is within the admissible
/// bounds of the fixed-point computation.
pub open spec fn valid_singular_values(s: Seq<u64>) -> bool {
    &&& s.len() <= MAX_SINGULAR_COUNT
    &&& forall|i: int| 0 <= i < s.len() ==> s[i] <= MAX_SINGULAR_VALUE
}

/// Participation ratio of a sequence of singular values, scaled by
/// [`FP_SCALE`]: `(sum v)^2 / (sum v^2)`, and `0` when the sum of squares is
/// zero.
pub open spec fn spec_participation_ratio(s: Seq<u64>) -> int {
    if seq_sum_sq(s) == 0 {
        0
    } else {
        seq_sum(s) * seq_sum(s) * FP_SCALE / seq_sum_sq(s)
    }
}

/// Participation ratio (effective dimensionality) of a spectrum of singular
/// values: `(sum v)^2 / (sum v^2)`, as a fixed-point value scaled by
/// [`FP_SCALE`]. An all-zero spectrum yields `0` rather than an error.
pub fn participation_ratio(singular_values: &[u64]) -> (r: u64)
    requires
        valid_singular_values(singular_values@),
    ensures
        r == spec_participation_ratio(singular_values@),
        r <= singular_values@.len() * FP_SCALE,
{
    let s_len = singular_values.len();
    let mut i: usize = 0;
    let mut sum: u128 = 0;
    let mut sum_sq: u128 = 0;
    while i < s_len
        invariant
            i <= s_len,
            s_len == singular_values@.len(),
            valid_singular_values(singular_values@),
            sum == seq_sum(singular_values@.take(i as int)),
            sum_sq == seq_sum_sq(singular_values@.take(i as int)),
            sum <= (i as int) * (MAX_SINGULAR_VALUE as int),
            sum_sq <= (i as int) * ((MAX_SINGULAR_VALUE as int) * (MAX_SINGULAR_VALUE as int)),
        decreases s_len - i,
    {
        let v = singular_values[i];
        proof {
            let prefix = singular_values@.take(i as int);
            assert(prefix.push(singular_values@[i as int]) =~= singular_values@.take(i + 1));
            lemma_sum_push(prefix, v);
            let mv = MAX_SINGULAR_VALUE as int;
            assert((v as int) * (v as int) <= mv * mv) by (nonlinear_arith)
                requires 0 <= v <= mv;
            assert((i as int) * mv + mv == (i as int + 1) * mv) by (nonlinear_arith);
            assert((i as int) * (mv * mv) + mv * mv == (i as int + 1) * (mv * mv))
                by (nonlinear_arith);
            assert((i as int + 1) * mv <= 8192 * mv) by (nonlinear_arith)
                requires i as int + 1 <= 8192, mv >= 0;
            assert((i as int + 1) * (mv * mv) <= 8192 * (mv * mv)) by (nonlinear_arith)
                requires i as int + 1 <= 8192, mv * mv >= 0;
            assert(8192 * mv < u128::MAX) by (nonlinear_arith)
                requires mv == 0x100_0000_0000;
            assert(8192 * (mv * mv) < u128::MAX) by (nonlinear_arith)
                requires mv == 0x100_0000_0000;
        }
        sum = sum + v as u128;
        sum_sq = sum_sq + (v as u128) * (v as u128);
        i = i + 1;
    }
    proof {
        assert(singular_values@.take(s_len as int) =~= singular_values@);
    }
    if sum_sq == 0 {
        0
    } else {
        proof {
            lemma_sum_sq_le_len_times_sum_sq(singular_values@);
            lemma_sums_nonneg(singular_values@);
            let n = singular_values@.len() as int;
            let sm = seq_sum(singular_values@);
            let sq = seq_sum_sq(singular_values@);
            assert(sm * sm * FP_SCALE <= n * FP_SCALE * sq) by (nonlinear_arith)
                requires
                    sm * sm <= n * sq,
                    sq >= 0,
                    n >= 0,
                    sm >= 0,
                    FP_SCALE as int >= 0;
            vstd::arithmetic::div_mod::lemma_div_is_ordered(sm * sm * FP_SCALE, n * FP_SCALE * sq, sq);
            vstd::arithmetic::div_mod::lemma_div_by_multiple(n * FP_SCALE, sq);
            assert(n * FP_SCALE <= 8192 * 1_000_000) by (nonlinear_arith)
                requires 0 <= n <= 8192, FP_SCALE == 1_000_000u64;
            assert(sm <= 9007199254740992) by (nonlinear_arith)
                requires
                    sm <= n * (MAX_SINGULAR_VALUE as int),
                    0 <= n <= 8192,
                    MAX_SINGULAR_VALUE == 0x100_0000_0000u64;
            assert(sm * sm * FP_SCALE < u128::MAX) by (nonlinear_arith)
                requires 0 <= sm <= 9007199254740992, FP_SCALE == 1_000_000u64;
        }
        let scaled = sum * sum * (FP_SCALE as u128);
        let pr = scaled / sum_sq;
        pr as u64
    }
}

} // verus!
