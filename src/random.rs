use vstd::prelude::*;
use rand::Rng;
use rand::seq::SliceRandom;

verus! {

#[verifier::external_type_specification]
#[verifier::external_body]
pub struct ExSmallRng(rand::rngs::SmallRng);

/// Relies on rand's Rng::gen_ratio: true with probability
/// `numerator / denominator`; it panics unless `0 < denominator` and
/// `numerator <= denominator`, is always true when they are equal and always
/// false when `numerator` is 0.
#[verifier::external_body]
pub(crate) fn chance(rng: &mut rand::rngs::SmallRng, numerator: u32, denominator: u32) -> (r: bool)
    requires
        0 < denominator,
        numerator <= denominator,
    ensures
        numerator == denominator ==> r,
        numerator == 0 ==> !r,
{
    rng.gen_ratio(numerator, denominator)
}

/// Relies on rand's SliceRandom::choose: one element of the slice, or
/// `None` exactly when it is empty.
#[verifier::external_body]
pub(crate) fn choose_one(rng: &mut rand::rngs::SmallRng, items: &[usize]) -> (r: Option<usize>)
    ensures
        r is None <==> items@.len() == 0,
        r matches Some(v) ==> items@.contains(v),
{
    items.choose(rng).copied()
}

} // verus!
