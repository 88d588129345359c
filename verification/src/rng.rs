use vstd::prelude::*;

verus! {

/// Declares rand::rngs::StdRng so generator state can cross the
/// library's signatures; its insides stay opaque here.
#[verifier::external_type_specification]
#[verifier::external_body]
pub struct ExStdRng(rand::rngs::StdRng);

/// Relies on rand::Rng::gen_range over the half-open range `0..bound`:
/// the sampled value lies in that range, and the range is non-empty, so
/// the call does not panic. Nothing else is claimed of the outcome.
#[verifier::external_body]
pub(crate) fn gen_below(rng: &mut rand::rngs::StdRng, bound: usize) -> (r: usize)
    requires
        bound >= 1,
    ensures
        r < bound,
{
    rand::Rng::gen_range(rng, 0..bound)
}

} // verus!
