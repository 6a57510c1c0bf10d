//! Checking and making admin password hashes.
use vstd::prelude::*;

verus! {

/// What `bcrypt::verify` answers for a password and a stored hash: `None`
/// where the stored hash is malformed.
pub uninterp spec fn bcrypt_verdict(password: Seq<char>, hash: Seq<char>) -> Option<bool>;

/// Relies on `bcrypt::verify`: it recomputes the hash of `password` with the
/// cost and salt found in `hash` and compares; an error means a malformed
/// hash. The answer depends on the two texts alone.
#[verifier::external_body]
fn bcrypt_verify(password: &str, hash: &str) -> (r: Option<bool>)
    ensures
        r == bcrypt_verdict(password@, hash@),
{
    bcrypt::verify(password, hash).ok()
}

/// Relies on `bcrypt::hash` with `bcrypt::DEFAULT_COST`: a hash with a fresh
/// random salt, or `None` where the system gave no randomness.
#[verifier::external_body]
fn bcrypt_hash(password: &str) -> Option<String> {
    bcrypt::hash(password, bcrypt::DEFAULT_COST).ok()
}

/// Why a password could not be checked or hashed.
#[derive(Clone, Copy, Debug, PartialEq, Eq, Structural)]
pub enum PasswordError {
    /// The stored hash is not a bcrypt hash.
    MalformedHash,
    /// Hashing failed.
    HashingFailed,
}

/// Checks a login: `stored_hash` is the hash of the user found under the
/// given name, if any. `Ok(true)` only for a known user whose hash matches.
pub fn password_matches(stored_hash: Option<&str>, password: &str) -> (r: Result<bool, PasswordError>)
    ensures
        stored_hash is None ==> r == Ok::<bool, PasswordError>(false),
        stored_hash matches Some(h) ==> r == (match bcrypt_verdict(password@, h@) {
            Some(ok) => Ok::<bool, PasswordError>(ok),
            None => Err(PasswordError::MalformedHash),
        }),
{
    match stored_hash {
        None => Ok(false),
        Some(h) => match bcrypt_verify(password, h) {
            Some(ok) => Ok(ok),
            None => Err(PasswordError::MalformedHash),
        },
    }
}

/// A bcrypt hash of the password, with a fresh salt.
pub fn hash_password(password: &str) -> (r: Result<String, PasswordError>)
    ensures
        r matches Err(e) ==> e == PasswordError::HashingFailed,
{
    match bcrypt_hash(password) {
        Some(h) => Ok(h),
        None => Err(PasswordError::HashingFailed),
    }
}

} // verus!
