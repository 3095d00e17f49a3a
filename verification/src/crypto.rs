//! Hashing: SHA-1 digests for request signatures and Argon2 password hashes.
use vstd::prelude::*;

use argon2::password_hash::rand_core::OsRng;
use argon2::password_hash::{PasswordHash, PasswordHasher, PasswordVerifier, SaltString};
use sha1::Digest;
use vstd::utf8::encode_utf8;

verus! {

/// The SHA-1 digest of a byte string.
pub uninterp spec fn sha1_spec(data: Seq<u8>) -> Seq<u8>;

/// `sha1::Sha1` over `data` (new, update, finalize): the 20-byte digest.
#[verifier::external_body]
pub(crate) fn sha1_digest(data: &[u8]) -> (d: Vec<u8>)
    ensures
        d@ == sha1_spec(data@),
        d@.len() == 20,
{
    let mut hasher = sha1::Sha1::new();
    hasher.update(data);
    hasher.finalize().to_vec()
}

/// Whether `PasswordHash::new` accepts a text as a PHC hash string.
pub uninterp spec fn phc_hash_parses(hash: Seq<char>) -> bool;

/// Whether `Argon2::default().verify_password` accepts a password (as bytes)
/// against the parsed PHC hash string.
pub uninterp spec fn argon2_accepts(password: Seq<u8>, hash: Seq<char>) -> bool;

/// `argon2::password_hash::PasswordHash::new(hash).is_ok()`.
#[verifier::external_body]
pub(crate) fn phc_hash_is_valid(hash: &str) -> (ok: bool)
    ensures
        ok == phc_hash_parses(hash@),
{
    PasswordHash::new(hash).is_ok()
}

/// The start of every hash that `Argon2::default()` makes: the PHC string
/// of Argon2id, version 19 (0x13), memory 19456 KiB, 2 passes, 1 lane; the
/// salt and the hash follow.
pub open spec fn argon2_default_prefix() -> Seq<char> {
    "$argon2id$v=19$m=19456,t=2,p=1$"@
}

/// Hashes a password with Argon2 (default parameters, Argon2id v19) and a
/// fresh random salt, giving the PHC hash string. The salt comes from the
/// operating system, so nothing is said of the text itself; the contract
/// states what the crate's documentation and source show: the text is a PHC
/// hash string of Argon2id with the default parameters (it starts with
/// `argon2_default_prefix`), it parses as a PHC hash, and the same password
/// verifies against it. The crate refuses only
/// passwords longer than `u32::MAX` bytes, which `requires` rules out; a
/// failure of the operating system's random source is not covered.
#[verifier::external_body]
pub(crate) fn hash_password(password: String) -> (hashed_password: String)
    requires
        encode_utf8(password@).len() <= 0xFFFF_FFFF,
    ensures
        argon2_default_prefix().is_prefix_of(hashed_password@),
        phc_hash_parses(hashed_password@),
        argon2_accepts(encode_utf8(password@), hashed_password@),
{
    let salt = SaltString::generate(&mut OsRng);
    let argon2 = argon2::Argon2::default();
    argon2.hash_password(password.as_bytes(), &salt).unwrap().to_string()
}

/// `Argon2::default().verify_password(password, &PasswordHash::new(hash)?)`
/// succeeds. The hash must parse, as the caller checks first.
#[verifier::external_body]
pub(crate) fn verify_password(password: &str, hash: &str) -> (ok: bool)
    requires
        phc_hash_parses(hash@),
    ensures
        ok == argon2_accepts(encode_utf8(password@), hash@),
{
    let parsed = PasswordHash::new(hash).unwrap();
    argon2::Argon2::default().verify_password(password.as_bytes(), &parsed).is_ok()
}

} // verus!
