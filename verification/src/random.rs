//! Trusted boundary to the `rand` crate: the only randomness the library uses.

use vstd::prelude::*;

verus! {

/// rand's standard seedable generator, opaque to verification. Seed it with
/// `rand::SeedableRng::seed_from_u64` for a reproducible simulation.
#[verifier::external_type_specification]
#[verifier::external_body]
pub struct ExStdRng(rand::rngs::StdRng);

/// One Bernoulli trial with success probability num / den.
///
/// Relies on rand::RngExt::random_ratio: true with probability num / den;
/// guaranteed false when num == 0 and guaranteed true when num == den;
/// panics when den == 0 or num > den, which the precondition rules out.
/// Nothing more can be promised of a random outcome.
#[verifier::external_body]
pub(crate) fn bernoulli(rng: &mut rand::rngs::StdRng, num: u32, den: u32) -> (r: bool)
    requires
        0 < den,
        num <= den,
    ensures
        num == 0 ==> !r,
        num == den ==> r,
{
    rand::RngExt::random_ratio(rng, num, den)
}

/// One uniform draw from [0, bound).
///
/// Relies on rand::RngExt::random_range: a value uniform in the given range;
/// panics when the range is empty, which the precondition rules out.
#[verifier::external_body]
pub(crate) fn uniform_below(rng: &mut rand::rngs::StdRng, bound: usize) -> (r: usize)
    requires
        0 < bound,
    ensures
        r < bound,
{
    rand::RngExt::random_range(rng, 0..bound)
}

} // verus!
