use argon2::password_hash::{PasswordHash, PasswordHasher, PasswordVerifier, SaltString};
use argon2::Argon2;
use vstd::prelude::*;

verus! {

/// The error type of the `password-hash` crate, carried through opaquely.
#[verifier::external_type_specification]
#[verifier::external_body]
pub struct ExPasswordHashError(argon2::password_hash::Error);

/// Whether Argon2 (default configuration) accepts `password` against the
/// PHC-format hash string `phc`.
pub uninterp spec fn password_matches(password: Seq<char>, phc: Seq<char>) -> bool;

/// Relies on `SaltString::encode_b64` and Argon2's `PasswordHasher::hash_password`
/// (default parameters): the PHC string produced embeds the algorithm,
/// parameters and salt, and `PasswordVerifier::verify_password` recomputes the
/// hash from exactly those, so the string verifies against the same password.
/// `SaltString::as_salt` panics on an encoding shorter than four characters,
/// hence at least three salt bytes. The only refusals are a salt under eight
/// bytes (Argon2's minimum), one over 48 bytes (too long for the salt string)
/// and a password over `u32::MAX` bytes.
#[verifier::external_body]
pub(crate) fn hash_password(password: &str, salt: &[u8]) -> (r: Result<String, argon2::password_hash::Error>)
    requires
        salt@.len() >= 3,
    ensures
        r matches Ok(h) ==> password_matches(password@, h@),
        8 <= salt@.len() <= 48 && password@.len() <= 0x3FFF_FFFF ==> r is Ok,
{
    let salt = SaltString::encode_b64(salt)?;
    let hash = Argon2::default().hash_password(password.as_bytes(), &salt)?;
    Ok(hash.to_string())
}

/// Relies on `PasswordHash::new` and Argon2's `PasswordVerifier::verify_password`:
/// whether the password verifies against the stored PHC string; an
/// unparsable string verifies nothing.
#[verifier::external_body]
pub(crate) fn verify_password(password: &str, phc: &str) -> (r: bool)
    ensures
        r == password_matches(password@, phc@),
{
    match PasswordHash::new(phc) {
        Ok(parsed) => Argon2::default().verify_password(password.as_bytes(), &parsed).is_ok(),
        Err(_) => false,
    }
}

} // verus!
