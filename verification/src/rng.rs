use vstd::prelude::*;
use rand::Rng;

verus! {

/// Relies on `rand::Rng::gen_range` over `0..n`: returns a uniformly
/// drawn value of the non-empty range, so the result is below `n`.
#[verifier::external_body]
pub(crate) fn random_below(n: u32) -> (r: u32)
    requires
        n > 0,
    ensures
        r < n,
{
    rand::thread_rng().gen_range(0..n)
}

/// Relies on `rand::Rng::gen`: 32 uniformly random bits.  Nothing can be
/// promised of the value.
#[verifier::external_body]
pub(crate) fn random_u32() -> u32 {
    rand::thread_rng().gen()
}

/// Relies on `rand::Rng::gen_ratio`: a draw that is true with
/// probability `numerator / denominator`; it panics when the denominator
/// is zero or the numerator exceeds it.  Nothing can be promised of the
/// value.
#[verifier::external_body]
pub(crate) fn random_chance(numerator: u32, denominator: u32) -> bool
    requires
        denominator > 0,
        numerator <= denominator,
{
    rand::thread_rng().gen_ratio(numerator, denominator)
}

} // verus!
