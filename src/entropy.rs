//! Fresh randomness for challenges, pseudonyms, nonces and pads.

use vstd::prelude::*;
use rand::Rng;

verus! {

/// Relies on rand::random: a freshly drawn `u64`; nothing is known of its
/// value.
#[verifier::external_body]
pub(crate) fn random_u64() -> (r: u64) {
    rand::random::<u64>()
}

/// Relies on rand::Rng::gen_range on the thread-local generator: a value in
/// `[low, high)`. It panics on an empty range, which `requires` excludes.
#[verifier::external_body]
pub(crate) fn random_in(low: u64, high: u64) -> (r: u64)
    requires
        low < high,
    ensures
        low <= r < high,
{
    rand::thread_rng().gen_range(low..high)
}

} // verus!
