use vstd::prelude::*;
use rand::Rng;
use rand_pcg::Lcg128Xsl64;

verus! {

#[verifier::external_type_specification]
#[verifier::external_body]
pub struct ExLcg128Xsl64(Lcg128Xsl64);

/// Relies on rand_pcg's `Lcg128Xsl64::new`: builds a generator from a state
/// and a stream selector; nothing is claimed about its output.
pub assume_specification[ Lcg128Xsl64::new ](state: u128, stream: u128) -> Lcg128Xsl64;

/// Relies on rand's `Rng::gen_range` over `0..bound`: the value drawn lies
/// below `bound`. The range may not be empty, which rand rejects by panic.
#[verifier::external_body]
pub(crate) fn random_below(rng: &mut Lcg128Xsl64, bound: u64) -> (r: u64)
    requires
        bound > 0,
    ensures
        r < bound,
{
    rng.gen_range(0..bound)
}

/// Relies on rand's `Rng::gen_ratio`: true with chance
/// `numerator / denominator`, always false for a zero numerator and always
/// true when the two are equal. rand panics on a zero denominator or a
/// numerator above it.
#[verifier::external_body]
pub(crate) fn random_ratio(rng: &mut Lcg128Xsl64, numerator: u32, denominator: u32) -> (r: bool)
    requires
        denominator > 0,
        numerator <= denominator,
    ensures
        numerator == 0 ==> !r,
        numerator == denominator ==> r,
{
    rng.gen_ratio(numerator, denominator)
}

} // verus!
