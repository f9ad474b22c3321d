//! Access to the process-wide cryptographically secure random generator.

use vstd::prelude::*;

verus! {

/// Relies on `rand::random`: draws a value from the thread-local CSPRNG.
/// Nothing can be promised of a random value.
pub assume_specification<T>[ rand::random::<T> ]() -> (r: T)
    where
        rand::distributions::Standard: rand::distributions::Distribution<T>,
;

} // verus!
