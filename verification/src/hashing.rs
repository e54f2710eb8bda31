//! Salted one-way password hashing, through the `pbkdf2` crate.
//!
//! A stored credential is a PHC-format string: it embeds the algorithm, the
//! work parameters and the salt beside the derived output, so verification
//! reads nothing but the candidate password and that string. The predicate
//! [`hash_matches`] names the outcome of that (deterministic) verification.

use vstd::prelude::*;

use pbkdf2::password_hash::{PasswordHasher, PasswordVerifier, SaltString};

verus! {

/// Whether PBKDF2 verification of `password` against the PHC string `phc`
/// succeeds. Parsing and verification read only the two arguments (the salt
/// and work parameters are embedded in `phc`), so the outcome is a function
/// of them alone; this names it, it is not written out.
pub uninterp spec fn hash_matches(password: Seq<char>, phc: Seq<char>) -> bool;

/// The salt type of the `password-hash` crate (re-exported by `pbkdf2`),
/// opaque here; values are produced by `generate_salt` and consumed by
/// `hash_password`.
#[verifier::external_type_specification]
#[verifier::external_body]
pub struct ExSaltString(SaltString);

/// The error type of the `password-hash` crate (re-exported by `pbkdf2`),
/// opaque here; callers map it to an error of this library's own.
#[verifier::external_type_specification]
#[verifier::external_body]
pub struct ExPasswordHashError(pbkdf2::password_hash::Error);

/// Relies on `SaltString::generate` with `rand_core::OsRng`: a freshly drawn
/// random salt, already in the B64 form that `hash_password` accepts. The
/// value is random, so nothing is promised of it.
#[verifier::external_body]
pub(crate) fn generate_salt() -> SaltString {
    SaltString::generate(&mut rand_core::OsRng)
}

/// Relies on `Pbkdf2::hash_password` of the `pbkdf2` crate: on success the
/// result is a PHC string carrying the algorithm, the work parameters, the
/// salt and the derived output, and re-verifying the same password against
/// that string recomputes the same derivation and so succeeds — the round
/// trip the `password-hash` crate's `PasswordHasher`/`PasswordVerifier` API
/// is built on.
#[verifier::external_body]
pub(crate) fn hash_password(password: &str, salt: &SaltString) -> (r: Result<
    String,
    pbkdf2::password_hash::Error,
>)
    ensures
        r matches Ok(h) ==> hash_matches(password@, h@),
{
    match pbkdf2::Pbkdf2.hash_password(password.as_bytes(), salt) {
        Ok(h) => Ok(h.to_string()),
        Err(e) => Err(e),
    }
}

/// Relies on `PasswordHash::new` and `Pbkdf2::verify_password`: verification
/// re-derives the hash from `password` with the salt and parameters embedded
/// in `phc` and compares the outputs, so it is deterministic in the two
/// arguments; `hash_matches` names that outcome. A string that does not
/// parse as a PHC hash verifies against no password.
#[verifier::external_body]
pub(crate) fn verify_password(password: &str, phc: &str) -> (r: bool)
    ensures
        r == hash_matches(password@, phc@),
{
    match pbkdf2::password_hash::PasswordHash::new(phc) {
        Ok(parsed) => pbkdf2::Pbkdf2.verify_password(password.as_bytes(), &parsed).is_ok(),
        Err(_) => false,
    }
}

} // verus!
