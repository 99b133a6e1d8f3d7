//! Password hashing, token hashing and fresh identifiers, all computed by
//! outside crates.

use argon2::password_hash::{PasswordHasher, PasswordVerifier};
use sha2::Digest;
use vstd::prelude::*;

verus! {

/// What `Argon2::default().hash_password` makes of a password and a
/// B64-encoded salt: the hash in PHC string format, or the text of the
/// error.
pub uninterp spec fn argon2_hash_of(password: Seq<char>, salt: Seq<char>) -> Result<
    Seq<char>,
    Seq<char>,
>;

/// What `PasswordHash::new` and `Argon2::default().verify_password` make
/// of a password and a stored hash: whether the verification accepts the
/// password, or the text of the error where the stored text is no PHC
/// string.
pub uninterp spec fn argon2_check_of(password: Seq<char>, stored: Seq<char>) -> Result<
    bool,
    Seq<char>,
>;

/// The SHA-256 digest of a text's UTF-8 bytes, in lower-case hexadecimal,
/// as `Sha256::digest` computes it.
pub uninterp spec fn sha256_hex_of(text: Seq<char>) -> Seq<char>;

/// Generates a random salt with `SaltString::generate` of `password-hash`
/// and the operating system's random number generator. Nothing is
/// promised of the salt.
#[verifier::external_body]
pub(crate) fn generate_salt() -> (salt: String) {
    argon2::password_hash::SaltString::generate(&mut argon2::password_hash::rand_core::OsRng)
        .as_str()
        .to_string()
}

/// Hashes a password with `Argon2::default().hash_password` and the given
/// salt, which is read with `SaltString::from_b64`. An error of either is
/// handed back as its text.
#[verifier::external_body]
pub(crate) fn argon2_hash(password: &str, salt: &str) -> (hash: Result<String, String>)
    ensures
        match hash {
            Ok(h) => argon2_hash_of(password@, salt@) == Ok::<Seq<char>, Seq<char>>(h@),
            Err(e) => argon2_hash_of(password@, salt@) == Err::<Seq<char>, Seq<char>>(e@),
        },
{
    let salt = match argon2::password_hash::SaltString::from_b64(salt) {
        Ok(salt) => salt,
        Err(e) => return Err(e.to_string()),
    };
    match argon2::Argon2::default().hash_password(password.as_bytes(), &salt) {
        Ok(hash) => Ok(hash.to_string()),
        Err(e) => Err(e.to_string()),
    }
}

/// Checks a password against a stored hash: reads the hash with
/// `PasswordHash::new` and verifies with
/// `Argon2::default().verify_password`, which recomputes the hash with
/// the stored parameters and compares in constant time. Whatever makes
/// the verification fail counts as a password that is not accepted.
#[verifier::external_body]
pub(crate) fn argon2_check(password: &str, stored: &str) -> (result: Result<bool, String>)
    ensures
        match result {
            Ok(same) => argon2_check_of(password@, stored@) == Ok::<bool, Seq<char>>(same),
            Err(e) => argon2_check_of(password@, stored@) == Err::<bool, Seq<char>>(e@),
        },
{
    match argon2::password_hash::PasswordHash::new(stored) {
        Ok(parsed) => Ok(
            argon2::Argon2::default().verify_password(password.as_bytes(), &parsed).is_ok(),
        ),
        Err(e) => Err(e.to_string()),
    }
}

/// Hashes a text with `Sha256::digest` of `sha2` and writes the digest in
/// lower-case hexadecimal.
#[verifier::external_body]
pub(crate) fn sha256_hex(text: &str) -> (hex: String)
    ensures
        hex@ == sha256_hex_of(text@),
{
    format!("{:x}", sha2::Sha256::digest(text.as_bytes()))
}

/// Generates a random identifier with `Uuid::new_v4` of `uuid`, written
/// in the hyphenated form, which has 36 characters.
#[verifier::external_body]
pub(crate) fn new_uuid() -> (id: String)
    ensures
        id@.len() == 36,
{
    uuid::Uuid::new_v4().to_string()
}

} // verus!
