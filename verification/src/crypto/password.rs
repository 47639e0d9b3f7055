//! Password hashes with argon2.
use vstd::prelude::*;
use argon2::password_hash::{PasswordHash, PasswordHasher, PasswordVerifier, SaltString};
use argon2::Argon2;
use crate::crypto::openssl_calls::random_bytes;

verus! {

/// The PHC string that `Argon2::default().hash_password` produces for
/// `password` with the salt whose bytes are `salt` (B64-encoded by
/// `SaltString::encode_b64`); `None` when hashing fails.
pub uninterp spec fn argon2_hash_of(password: Seq<char>, salt: Seq<u8>) -> Option<Seq<char>>;

/// Whether `hashed` parses as a PHC string (`PasswordHash::new`).
pub uninterp spec fn phc_string_parses(hashed: Seq<char>) -> bool;

/// Whether `hashed` parses as a PHC string (`PasswordHash::new`) and
/// `Argon2::default().verify_password` accepts `clear` against it.
pub uninterp spec fn argon2_verifies(clear: Seq<char>, hashed: Seq<char>) -> bool;

/// `SaltString::encode_b64` then `Argon2::default().hash_password`, written as
/// a PHC string. Verifying the password against that string succeeds: the
/// verifier recomputes the hash with the salt and parameters it holds. The
/// salt's text must have 4 to 64 characters: a salt of fewer than 3 bytes
/// makes `hash_password` panic, one of more than 48 does not encode.
#[verifier::external_body]
fn argon2_hash(password: &str, salt: &[u8]) -> (res: Result<String, String>)
    requires
        3 <= salt@.len() <= 48,
    ensures
        res matches Ok(h) ==> argon2_hash_of(password@, salt@) == Some(h@) && argon2_verifies(password@, h@),
        res is Err ==> argon2_hash_of(password@, salt@) is None,
{
    let salt = match SaltString::encode_b64(salt) {
        Ok(s) => s,
        Err(e) => return Err(e.to_string()),
    };
    match Argon2::default().hash_password(password.as_bytes(), &salt) {
        Ok(h) => Ok(h.to_string()),
        Err(e) => Err(e.to_string()),
    }
}

/// `PasswordHash::new` then `Argon2::default().verify_password`; false when
/// the hash does not parse.
#[verifier::external_body]
fn argon2_verify(clear: &str, hashed: &str) -> (res: bool)
    ensures
        res == argon2_verifies(clear@, hashed@),
        !phc_string_parses(hashed@) ==> !res,
{
    match PasswordHash::new(hashed) {
        Ok(hash) => Argon2::default().verify_password(clear.as_bytes(), &hash).is_ok(),
        Err(_) => false,
    }
}

/// Hash a password with argon2 under a fresh random 16-byte salt.
///
/// # Errors
/// When the random generator or hashing fails.
pub fn hash(to_hash: String) -> (res: Result<String, String>)
    ensures
        res matches Ok(h) ==> argon2_verifies(to_hash@, h@) && exists|salt: Seq<u8>| argon2_hash_of(to_hash@, salt) == Some(h@),
{
    let salt = random_bytes(16)?;
    argon2_hash(to_hash.as_str(), salt.as_slice())
}

/// Whether `clear_password` matches the argon2 hash `hashed_password`; a
/// string that is no PHC hash matches no password.
pub fn verify(clear_password: &str, hashed_password: &str) -> (res: bool)
    ensures
        res == argon2_verifies(clear_password@, hashed_password@),
        !phc_string_parses(hashed_password@) ==> !res,
{
    argon2_verify(clear_password, hashed_password)
}

} // verus!
