//! The single trusted boundary to the random number generator.
use vstd::prelude::*;

use rand::RngExt;

verus! {

/// Relies on rand::rng and rand::RngExt::random_range: a draw from the
/// non-empty range 0..2 is a uniform value of that range, so it is always
/// 0 or 1. Nothing more is promised of a random draw.
#[verifier::external_body]
pub(crate) fn random_bit() -> (r: u8)
    ensures
        r == 0 || r == 1,
{
    rand::rng().random_range(0..2u8)
}

} // verus!
