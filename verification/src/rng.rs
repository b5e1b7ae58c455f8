//! The random source of `rltk`, and the draws that a level is made from.

use vstd::prelude::*;
use rltk::RandomNumberGenerator;

verus! {

/// The random source of `rltk`. Its state is hidden: nothing is known of a
/// draw but what its wrapper below states.
#[verifier::external_type_specification]
#[verifier::external_body]
pub struct ExRandomNumberGenerator(RandomNumberGenerator);

/// `RandomNumberGenerator::new`: a generator seeded from the operating system.
/// Nothing is claimed of it.
#[verifier::external_body]
pub(crate) fn fresh_generator() -> RandomNumberGenerator {
    RandomNumberGenerator::new()
}

/// `RandomNumberGenerator::range` on `i32`: a draw from the half-open range
/// `low..high`. The call panics on an empty range, which `requires` leaves
/// out; the claim is that the draw lies in the range, and no more.
#[verifier::external_body]
pub(crate) fn draw_range(random: &mut RandomNumberGenerator, low: i32, high: i32) -> (n: i32)
    requires
        low < high,
    ensures
        low <= n < high,
{
    random.range(low, high)
}

/// `RandomNumberGenerator::rand::<bool>`: a coin flip. Nothing is claimed of
/// which side comes up.
#[verifier::external_body]
pub(crate) fn draw_bool(random: &mut RandomNumberGenerator) -> bool {
    random.rand::<bool>()
}

} // verus!
