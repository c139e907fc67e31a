//! The random source of the rain: a seedable generator from `rand`, and the
//! two draws the simulation makes from it.

use rand::rngs::StdRng;
use rand::seq::SliceRandom;
use rand::Rng;
use vstd::prelude::*;

verus! {

#[verifier::external_type_specification]
#[verifier::external_body]
pub struct ExStdRng(StdRng);

/// Relies on rand's `Rng::gen_range` over an inclusive range: it returns a
/// value between both bounds, and panics only on an empty range.
#[verifier::external_body]
pub(crate) fn random_in(rng: &mut StdRng, low: i32, high: i32) -> (r: i32)
    requires
        low <= high,
    ensures
        low <= r <= high,
{
    rng.gen_range(low..=high)
}

/// Relies on rand's `SliceRandom::choose`: on a non-empty slice it returns
/// one of its elements.
#[verifier::external_body]
pub(crate) fn random_glyph(rng: &mut StdRng, codes: &[char]) -> (r: char)
    requires
        codes@.len() > 0,
    ensures
        codes@.contains(r),
{
    *codes.choose(rng).unwrap()
}

} // verus!
