//! Entropy source: a pseudo-random generator reached through trusted
//! declarations, so the rest of the library can be verified against a
//! plain "the draw lands in the requested range" contract.

use vstd::prelude::*;
use nanorand::Rng;
use nanorand::rand::pcg64::Pcg64;

verus! {

/// The Pcg64 generator of the `nanorand` crate, declared so its values can
/// flow through verified signatures. Verus sees nothing of its insides.
#[verifier::external_type_specification]
#[verifier::external_body]
pub struct ExPcg64(Pcg64);

/// Relies on nanorand's `Rng::generate_range` for `u8` with an inclusive
/// range: the draw is computed as `((high + 1 - low) * byte) >> 8 + low`,
/// which always lands in `[low, high]` when `low <= high < u8::MAX`.
#[verifier::external_body]
pub(crate) fn rand_in_range(rng: &mut Pcg64, low: u8, high: u8) -> (r: u8)
    requires
        low <= high < 255,
    ensures
        low <= r <= high,
{
    rng.generate_range(low..=high)
}

} // verus!
