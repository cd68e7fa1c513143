use vstd::prelude::*;

use argon2::{Algorithm, Argon2, Params, PasswordHash, PasswordHasher, PasswordVerifier, Version};

use crate::config::{PasswordConfig, PasswordDriver};
use crate::errors::UploadError;
use crate::strutil::{spec_starts_with, str_starts_with};

verus! {

/// What bcrypt::verify decides for a stored hash and a password: `None` when
/// the stored hash is malformed, otherwise whether the password matches.
pub uninterp spec fn bcrypt_verdict(stored: Seq<char>, password: Seq<char>) -> Option<bool>;

/// What argon2 password verification decides for a stored hash and a
/// password: `None` when the stored hash does not parse as a PHC string,
/// otherwise whether the password matches.
pub uninterp spec fn argon2_verdict(stored: Seq<char>, password: Seq<char>) -> Option<bool>;

/// What verification decides for a stored hash of either scheme: the scheme
/// is detected from the stored hash's own format, the legacy scheme by its
/// fixed prefix.
pub open spec fn password_verdict(stored: Seq<char>, password: Seq<char>) -> Option<bool> {
    if spec_starts_with(stored, "$2b$"@) {
        bcrypt_verdict(stored, password)
    } else {
        argon2_verdict(stored, password)
    }
}

/// Relies on bcrypt::hash: a fresh random salt per call, a 60-character
/// version-2b hash string that bcrypt::verify accepts for the same password,
/// and a guaranteed error for a work factor outside 4..=31.
#[verifier::external_body]
fn bcrypt_hash_exec(password: &str, cost: u32) -> (r: Result<String, UploadError>)
    ensures
        r matches Ok(h) ==> bcrypt_verdict(h@, password@) == Some(true) && spec_starts_with(
            h@,
            "$2b$"@,
        ) && h@.len() == 60,
        (cost < 4 || cost > 31) ==> r is Err,
        r matches Err(e) ==> e == UploadError::HashComputeFailed,
{
    match bcrypt::hash(password, cost) {
        Ok(h) => Ok(h),
        Err(_) => Err(UploadError::HashComputeFailed),
    }
}

/// Relies on bcrypt::verify: a deterministic function of the stored hash and
/// the password, erring exactly on a malformed stored hash.
#[verifier::external_body]
fn bcrypt_verify_exec(password: &str, stored: &str) -> (r: Option<bool>)
    ensures
        r == bcrypt_verdict(stored@, password@),
{
    match bcrypt::verify(password, stored) {
        Ok(matched) => Some(matched),
        Err(_) => None,
    }
}

/// Relies on argon2::Argon2::hash_password_with_salt with the memory-hard
/// algorithm: a PHC hash string that argon2 verification accepts for the
/// same password, carrying its own algorithm name, parameters and salt.
/// argon2::Params::new rejects out-of-range cost parameters with an error.
#[verifier::external_body]
fn argon2_hash_exec(password: &str, salt: &[u8], memory: u32, time: u32, threads: u32) -> (r:
    Result<String, UploadError>)
    ensures
        r matches Ok(h) ==> argon2_verdict(h@, password@) == Some(true) && spec_starts_with(
            h@,
            "$argon2id$"@,
        ),
        r matches Err(e) ==> e == UploadError::HashComputeFailed,
{
    let params = match Params::new(memory, time, threads, None) {
        Ok(p) => p,
        Err(_) => return Err(UploadError::HashComputeFailed),
    };
    let hasher = Argon2::new(Algorithm::Argon2id, Version::V0x13, params);
    match hasher.hash_password_with_salt(password.as_bytes(), salt) {
        Ok(hash) => Ok(hash.to_string()),
        Err(_) => Err(UploadError::HashComputeFailed),
    }
}

/// Relies on argon2's PHC-string parsing (password_hash::phc::PasswordHash)
/// and argon2's password verification, which re-derives with the algorithm,
/// parameters and salt embedded in the stored hash: a deterministic function
/// of the stored hash and the password, `None` exactly when the stored hash
/// does not parse.
#[verifier::external_body]
fn argon2_check_exec(password: &str, stored: &str) -> (r: Option<bool>)
    ensures
        r == argon2_verdict(stored@, password@),
{
    match PasswordHash::new(stored) {
        Err(_) => None,
        Ok(parsed) => Some(Argon2::default().verify_password(password.as_bytes(), &parsed).is_ok()),
    }
}

/// Relies on the operating system's secure random source through
/// rand::rngs::SysRng (rand_core::TryRng::try_fill_bytes): a fresh 16-byte
/// salt, or an error when the source fails.
#[verifier::external_body]
fn random_salt() -> (r: Result<Vec<u8>, UploadError>)
    ensures
        r matches Ok(v) ==> v@.len() == 16,
        r matches Err(e) ==> e == UploadError::HashComputeFailed,
{
    let mut rng = rand::rngs::SysRng;
    let mut bytes = [0u8; 16];
    match rand::TryRng::try_fill_bytes(&mut rng, &mut bytes) {
        Ok(()) => Ok(bytes.to_vec()),
        Err(_) => Err(UploadError::HashComputeFailed),
    }
}

/// Hash a plaintext credential under the configured scheme, with a fresh
/// random salt per call. Every hash this returns is accepted by
/// `verify_password` for the same plaintext, and carries the scheme's own
/// format so verification needs no stored scheme identifier.
pub fn hash_password(config: &PasswordConfig, password: &str) -> (r: Result<String, UploadError>)
    ensures
        r matches Ok(h) ==> password_verdict(h@, password@) == Some(true),
        r matches Ok(h) ==> ((config.driver == PasswordDriver::Bcrypt) <==> spec_starts_with(
            h@,
            "$2b$"@,
        )),
        r matches Ok(h) ==> ((config.driver == PasswordDriver::Argon2id) <==> spec_starts_with(
            h@,
            "$argon2id$"@,
        )),
        r matches Err(e) ==> e == UploadError::HashComputeFailed,
{
    match config.driver {
        PasswordDriver::Bcrypt => {
            match bcrypt_hash_exec(password, config.bcrypt_cost) {
                Ok(h) => {
                    proof {
                        reveal_strlit("$2b$");
                        reveal_strlit("$argon2id$");
                        if spec_starts_with(h@, "$argon2id$"@) {
                            assert(h@.subrange(0, 4)[1] == h@[1]);
                            assert(h@.subrange(0, 10)[1] == h@[1]);
                            assert(false);
                        }
                    }
                    Ok(h)
                },
                Err(e) => Err(e),
            }
        },
        PasswordDriver::Argon2id => {
            match random_salt() {
                Err(e) => Err(e),
                Ok(salt) => {
                    match argon2_hash_exec(
                        password,
                        salt.as_slice(),
                        config.argon2_memory,
                        config.argon2_time,
                        config.argon2_threads,
                    ) {
                        Err(e) => Err(e),
                        Ok(h) => {
                            proof {
                                reveal_strlit("$2b$");
                                reveal_strlit("$argon2id$");
                                if spec_starts_with(h@, "$2b$"@) {
                                    assert(h@.subrange(0, 4)[1] == h@[1]);
                                    assert(h@.subrange(0, 10)[1] == h@[1]);
                                    assert(false);
                                }
                            }
                            Ok(h)
                        },
                    }
                },
            }
        },
    }
}

/// Verify a plaintext credential against a stored hash. The scheme is
/// detected from the stored hash's format; a hash in neither scheme's
/// format is reported as a malformed credential, not as a mismatch.
pub fn verify_password(hashed_password: &str, password: &str) -> (r: Result<bool, UploadError>)
    ensures
        password_verdict(hashed_password@, password@) matches Some(matched) ==> r == Ok::<
            bool,
            UploadError,
        >(matched),
        password_verdict(hashed_password@, password@) is None ==> r == Err::<bool, UploadError>(
            UploadError::CredentialFormatInvalid,
        ),
{
    if str_starts_with(hashed_password, "$2b$") {
        match bcrypt_verify_exec(password, hashed_password) {
            Some(matched) => Ok(matched),
            None => Err(UploadError::CredentialFormatInvalid),
        }
    } else {
        match argon2_check_exec(password, hashed_password) {
            Some(matched) => Ok(matched),
            None => Err(UploadError::CredentialFormatInvalid),
        }
    }
}

} // verus!
