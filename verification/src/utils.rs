//! Scalar helpers that are exact on sample words.
use vstd::prelude::*;
use crate::sample::{is_nan, le, clamped, larger, smaller, negated, word_max, word_min, word_neg};

verus! {

/// `x` limited to `[-limit, limit]` by taking the larger of `x` and `-limit`
/// and then the smaller of that and `limit`. A NaN is ignored in favour of
/// the bound it is compared with, so a NaN `x` gives `-limit`.
pub fn hard_clip(x: u32, limit: u32) -> (r: u32)
    ensures
        r == smaller(larger(x, negated(limit)), limit),
{
    word_min(word_max(x, word_neg(limit)), limit)
}

/// For a value that is not NaN and a limit with `-limit <= limit`,
/// `hard_clip` is the clamp to `[-limit, limit]`.
pub proof fn lemma_hard_clip_is_clamp(x: u32, limit: u32)
    requires
        !is_nan(x),
        le(negated(limit), limit),
    ensures
        smaller(larger(x, negated(limit)), limit) == clamped(x, negated(limit), limit),
{
}

} // verus!
