use vstd::prelude::*;

use crate::strutil::str_eq;

verus! {

/// Ceiling for one chunk's payload.
pub const MAX_CHUNK_SIZE: u64 = 2 * 1024 * 1024;

/// Ceiling for a whole assembled artifact.
pub const MAX_UPLOAD_SIZE: u64 = 50 * 1024 * 1024;

/// The single source of truth for size ceilings, applied identically at
/// every validation call site.
#[derive(Clone, Copy, Debug, PartialEq, Eq, Structural)]
pub struct UploadLimits {
    pub max_chunk_bytes: u64,
    pub max_artifact_bytes: u64,
}

impl Default for UploadLimits {
    /// The stock ceilings: 2 MiB per chunk, 50 MiB per artifact.
    fn default() -> (r: UploadLimits)
        ensures
            r.max_chunk_bytes == MAX_CHUNK_SIZE,
            r.max_artifact_bytes == MAX_UPLOAD_SIZE,
    {
        UploadLimits { max_chunk_bytes: MAX_CHUNK_SIZE, max_artifact_bytes: MAX_UPLOAD_SIZE }
    }
}

/// The selectable credential-hashing schemes: the legacy fixed-cost scheme
/// and the memory-hard scheme that is the default for new hashes. Both
/// argon2 configuration names select the memory-hard scheme.
#[derive(Clone, Copy, Debug, PartialEq, Eq, Structural)]
pub enum PasswordDriver {
    Bcrypt,
    Argon2id,
}

/// The scheme a configuration name selects; unknown names fall back to the
/// memory-hard default.
pub open spec fn spec_password_driver_of(s: Seq<char>) -> PasswordDriver {
    if s == "bcrypt"@ {
        PasswordDriver::Bcrypt
    } else {
        PasswordDriver::Argon2id
    }
}

impl PasswordDriver {
    /// Resolve a configuration value to a credential-hashing scheme.
    pub fn from_name(name: &str) -> (r: PasswordDriver)
        ensures
            r == spec_password_driver_of(name@),
    {
        if str_eq(name, "bcrypt") {
            PasswordDriver::Bcrypt
        } else {
            PasswordDriver::Argon2id
        }
    }
}

/// The credential-hashing scheme and its cost parameters, resolved once and
/// injected explicitly into every hashing call.
#[derive(Clone, Copy, Debug, PartialEq, Eq, Structural)]
pub struct PasswordConfig {
    pub driver: PasswordDriver,
    /// Work factor of the legacy scheme.
    pub bcrypt_cost: u32,
    /// Memory cost of the memory-hard scheme, in KiB blocks.
    pub argon2_memory: u32,
    /// Iteration count of the memory-hard scheme.
    pub argon2_time: u32,
    /// Lane count of the memory-hard scheme.
    pub argon2_threads: u32,
}

impl Default for PasswordConfig {
    /// Stock parameters: the memory-hard scheme with 4096 KiB of memory,
    /// 3 iterations and 1 lane; work factor 12 for the legacy scheme.
    fn default() -> (r: PasswordConfig)
        ensures
            r.driver == PasswordDriver::Argon2id,
            r.bcrypt_cost == 12,
            r.argon2_memory == 4096,
            r.argon2_time == 3,
            r.argon2_threads == 1,
    {
        PasswordConfig {
            driver: PasswordDriver::Argon2id,
            bcrypt_cost: 12,
            argon2_memory: 4096,
            argon2_time: 3,
            argon2_threads: 1,
        }
    }
}

} // verus!
