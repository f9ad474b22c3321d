//! The memory-hard password hash, delegated to the `argon2` crate. Both
//! operations are deliberately CPU-expensive, and callers run them off
//! the request-handling pool.

use vstd::prelude::*;
use argon2::password_hash::SaltString;
use argon2::{Argon2, PasswordHash, PasswordHasher, PasswordVerifier};

verus! {

/// Whether a password agrees with a stored PHC hash string. The check
/// re-derives the hash from the parameters carried in the string, so it
/// is a function of the two arguments alone. A string that does not
/// parse as a PHC hash matches no password.
pub uninterp spec fn phc_matches(password: Seq<char>, hash: Seq<char>) -> bool;

/// Relies on `argon2`'s `verify_password` (with `PasswordHash::new` to
/// read the PHC string): deterministic in the password and the stored
/// string; an unparsable string verifies nothing.
#[verifier::external_body]
pub fn password_matches(password: &str, hash: &str) -> (r: bool)
    ensures
        r == phc_matches(password@, hash@),
{
    match PasswordHash::new(hash) {
        Ok(parsed) => Argon2::default().verify_password(password.as_bytes(), &parsed).is_ok(),
        Err(_) => false,
    }
}

/// Relies on `argon2`'s `hash_password` with a salt drawn from the
/// operating-system generator: the result depends on that salt, so
/// nothing is promised of its content.
#[verifier::external_body]
pub fn hash_password(password: &str) -> (r: Option<String>)
{
    let salt = SaltString::generate(&mut rand::rngs::OsRng);
    match Argon2::default().hash_password(password.as_bytes(), &salt) {
        Ok(hash) => Some(hash.to_string()),
        Err(_) => None,
    }
}

} // verus!
