//! The random provider: the generator of `bracket_lib`. What is stated of it
//! here is assumed, not proved.

use vstd::prelude::*;
use bracket_lib::prelude::RandomNumberGenerator;

verus! {

/// `bracket_lib::prelude::RandomNumberGenerator`, carried as an opaque value.
#[verifier::external_type_specification]
#[verifier::external_body]
pub struct ExRandomNumberGenerator(RandomNumberGenerator);

/// `RandomNumberGenerator::new`: a generator with a seed taken from the
/// operating system. Nothing is claimed of the generator that comes back.
pub assume_specification[ RandomNumberGenerator::new ]() -> RandomNumberGenerator;

/// `RandomNumberGenerator::range` on `i32`: a draw from the half-open range
/// from `low` up to, but not including, `high`. The call panics on an empty
/// range, which the precondition excludes. The draw advances the generator;
/// which value of the range comes back is not claimed.
#[verifier::external_body]
pub(crate) fn draw_in_range(rng: &mut RandomNumberGenerator, low: i32, high: i32) -> (drawn: i32)
    requires
        low < high,
    ensures
        low <= drawn < high,
{
    rng.range(low, high)
}

} // verus!
