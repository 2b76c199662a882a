//! Random numbers from rand.
use vstd::prelude::*;

use rand::Rng;

verus! {

/// Calls `rand::thread_rng().gen::<u16>()`: a random value, of which nothing
/// is claimed.
#[verifier::external_body]
pub(crate) fn random_u16() -> u16 {
    rand::thread_rng().gen()
}

/// Calls `rand::thread_rng().gen::<u32>()`: a random value, of which nothing
/// is claimed.
#[verifier::external_body]
pub(crate) fn random_u32() -> u32 {
    rand::thread_rng().gen()
}

/// Calls `rand::thread_rng().gen_range(32768..60999)`. Claimed: the value
/// lies in that half-open range, as rand documents for `gen_range`.
#[verifier::external_body]
pub(crate) fn random_ephemeral_port() -> (p: u16)
    ensures
        32768 <= p < 60999,
{
    rand::thread_rng().gen_range(32768..60999)
}

} // verus!
