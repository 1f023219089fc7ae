//! The credential hasher: a plaintext password becomes a salted,
//! self-describing encoded hash.
//!
//! Every call draws a fresh 32-byte random salt, so equal passwords
//! yield distinct stored credentials. The memory-hard derivation and
//! its encoded format come from the argon2 crate; what the library
//! relies on of it is stated on the trusted wrappers below.

use vstd::prelude::*;
use vstd::string::StringSliceAdditionalSpecFns;

verus! {

/// The encoded credential that argon2, under its default
/// configuration, derives from a password and a salt. The derivation
/// is deterministic in the two arguments; its value is not modelled.
pub uninterp spec fn argon2_encoded(password: Seq<u8>, salt: Seq<u8>) -> Seq<char>;

/// Whether argon2 accepts `password` against the encoded credential
/// `encoded`. Deterministic in the two arguments; not modelled.
pub uninterp spec fn argon2_verifies(encoded: Seq<char>, password: Seq<u8>) -> bool;

#[verifier::external_type_specification]
#[verifier::external_body]
pub struct ExArgon2Error(argon2::Error);

/// The hashing primitive could not run; registration must abort.
#[derive(Clone, Copy, Debug, PartialEq, Eq, Structural)]
pub struct HashError;

/// Relies on rand::random (the thread-local cryptographically secure
/// generator) for a fresh 32-byte salt. Nothing is promised of the
/// drawn value: two calls may return anything.
#[verifier::external_body]
fn random_salt() -> (r: Vec<u8>)
    ensures
        r@.len() == 32,
{
    rand::random::<[u8; 32]>().to_vec()
}

/// Relies on argon2::hash_encoded with argon2::Config::default(): it
/// returns Ok whenever the salt is 8 to 2^32 - 1 bytes and the
/// password at most 2^32 - 1 bytes (the default cost parameters are
/// valid); the encoded result is a function of password and salt
/// alone, opens with the self-describing PHC header naming the
/// algorithm and the default cost parameters, and, as the crate
/// documents, verify_encoded accepts it against the same password.
#[verifier::external_body]
fn argon2_hash(password: &[u8], salt: &[u8]) -> (r: Result<String, argon2::Error>)
    ensures
        (8 <= salt@.len() && salt@.len() <= 0xFFFF_FFFFu64 && password@.len()
            <= 0xFFFF_FFFFu64) ==> r is Ok,
        r matches Ok(h) ==> h@ == argon2_encoded(password@, salt@) && argon2_verifies(
            h@,
            password@,
        ) && h@.len() > 31 && h@.subrange(0, 31) == "$argon2id$v=19$m=19456,t=2,p=1$"@,
{
    argon2::hash_encoded(password, salt, &argon2::Config::default())
}

/// Relies on argon2::verify_encoded: the answer is a function of the
/// encoded credential and the password alone, and a credential that
/// hash_encoded built from a valid salt decodes, so the check answers
/// rather than erring — provided the queried password is itself within
/// argon2's limit of 2^32 - 1 bytes, which the call checks too.
#[verifier::external_body]
fn argon2_verify(encoded: &str, password: &[u8]) -> (r: Result<bool, argon2::Error>)
    ensures
        (password@.len() <= 0xFFFF_FFFFu64 && (exists|p: Seq<u8>, s: Seq<u8>|
            8 <= s.len() <= 0xFFFF_FFFFu64 && encoded@ == #[trigger] argon2_encoded(p, s)))
            ==> r is Ok,
        r matches Ok(b) ==> b == argon2_verifies(encoded@, password@),
{
    argon2::verify_encoded(encoded, password)
}

/// Derives the stored credential for `password`: a fresh random
/// 32-byte salt and argon2 under its default cost parameters, encoded
/// into one self-describing string whose PHC header names the
/// algorithm and the cost parameters, with the salt and the digest
/// after it.
///
/// Succeeds for every password of at most 2^32 - 1 bytes; on the
/// hashing primitive's failure the caller must abort the registration.
/// The result always verifies against the password it was derived
/// from.
pub fn hash_password(password: &str) -> (r: Result<String, HashError>)
    ensures
        password.spec_bytes().len() <= 0xFFFF_FFFFu64 ==> r is Ok,
        r matches Ok(h) ==> argon2_verifies(h@, password.spec_bytes()) && (exists|s: Seq<u8>|
            s.len() == 32 && h@ == #[trigger] argon2_encoded(password.spec_bytes(), s)),
        r matches Ok(h) ==> h@.len() > 31 && h@.subrange(0, 31) == "$argon2id$v=19$m=19456,t=2,p=1$"@,
{
    let salt = random_salt();
    match argon2_hash(password.as_bytes(), salt.as_slice()) {
        Ok(h) => Ok(h),
        Err(_) => Err(HashError),
    }
}

/// Checks a password against a stored encoded credential. For any
/// credential that came out of `hash_password`, the check answers:
/// true exactly for the password behind the credential, as far as
/// argon2 distinguishes passwords.
pub fn verify_password(encoded: &str, password: &str) -> (r: Result<bool, HashError>)
    ensures
        (password.spec_bytes().len() <= 0xFFFF_FFFFu64 && (exists|p: Seq<u8>, s: Seq<u8>|
            8 <= s.len() <= 0xFFFF_FFFFu64 && encoded@ == #[trigger] argon2_encoded(p, s))) ==> r
            is Ok,
        r matches Ok(b) ==> b == argon2_verifies(encoded@, password.spec_bytes()),
{
    match argon2_verify(encoded, password.as_bytes()) {
        Ok(b) => Ok(b),
        Err(_) => Err(HashError),
    }
}

} // verus!
