//! Contraction-ratio computation from singular-value spectra.
//!
//! The decomposition itself runs outside the library (it is floating-point
//! linear algebra); its output enters here as spectra of scaled singular
//! values, from which the effective dimensionality of each layer and the
//! contraction ratio between the two layers are computed exactly.

use vstd::prelude::*;

use crate::{FP_SCALE, PratyabhijnaError, participation_ratio, spec_participation_ratio,
    valid_singular_values};

verus! {

/// The contraction ratio of two effective dimensionalities, scaled by
/// [`FP_SCALE`]: `pr_late / pr_early`.
pub open spec fn spec_rv(pr_early: int, pr_late: int) -> int {
    pr_late * FP_SCALE / pr_early
}

/// Compute the contraction ratio from the singular-value spectra of an early
/// and a late layer. Returns `(r_v, pr_early, pr_late)`, all scaled by
/// [`FP_SCALE`].
///
/// Fails with `ComputationError` exactly when the early layer's
/// participation ratio is zero, in which case the ratio is undefined; it is
/// never silently reported as zero.
pub fn compute_rv_from_singular_values(s_early: &[u64], s_late: &[u64]) -> (r: Result<
    (u64, u64, u64),
    PratyabhijnaError,
>)
    requires
        valid_singular_values(s_early@),
        valid_singular_values(s_late@),
    ensures
        match r {
            Ok((rv, pe, pl)) => {
                &&& pe == spec_participation_ratio(s_early@)
                &&& pl == spec_participation_ratio(s_late@)
                &&& pe > 0
                &&& rv == spec_rv(pe as int, pl as int)
            },
            Err(e) => {
                &&& e == PratyabhijnaError::ComputationError
                &&& spec_participation_ratio(s_early@) == 0
            },
        },
{
    let pr_early = participation_ratio(s_early);
    let pr_late = participation_ratio(s_late);

    if pr_early == 0 {
        return Err(PratyabhijnaError::ComputationError);
    }

    proof {
        vstd::arithmetic::div_mod::lemma_div_nonincreasing(
            (pr_late as int) * (FP_SCALE as int),
            pr_early as int,
        );
        assert((pr_late as int) * (FP_SCALE as int) <= 8192 * 1_000_000 * 1_000_000)
            by (nonlinear_arith)
            requires
                0 <= pr_late as int <= 8192 * 1_000_000,
                FP_SCALE == 1_000_000u64;
    }
    let rv = ((pr_late as u128) * (FP_SCALE as u128) / (pr_early as u128)) as u64;
    Ok((rv, pr_early, pr_late))
}

} // verus!
