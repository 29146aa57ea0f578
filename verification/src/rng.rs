//! The library's single source of randomness, for the randomized constructor.

use vstd::prelude::*;

verus! {

/// Relies on rand::random: draws one boolean from the thread-local generator,
/// true or false with equal probability. Each call is independent, so nothing
/// is promised of the value.
#[verifier::external_body]
pub(crate) fn random_bool() -> bool {
    rand::random::<bool>()
}

} // verus!
