//! The random source the samplers draw from.

use vstd::prelude::*;
use rand::Rng;

verus! {

#[verifier::external_type_specification]
#[verifier::external_body]
pub struct ExStdRng(rand::rngs::StdRng);

/// Relies on rand's `Rng::gen_range` over an integer range: the result is
/// drawn from `[lo, hi)`. `gen_range` panics on an empty range, so the
/// range is required to be non-empty; nothing is assumed about which value
/// of the range comes out.
#[verifier::external_body]
pub(crate) fn gen_range_i64(rng: &mut rand::rngs::StdRng, lo: i64, hi: i64) -> (r: i64)
    requires
        lo < hi,
    ensures
        lo <= r < hi,
{
    rng.gen_range(lo..hi)
}

} // verus!
