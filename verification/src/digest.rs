use vstd::prelude::*;

use sha3::{Digest, Sha3_224, Sha3_256, Sha3_384, Sha3_512};

use crate::hexutil::{hex_encode, hex_of};
use crate::strutil::{seq_eq_nocase, spec_trim, str_eq, str_eq_nocase, trimmed};

verus! {

/// The digest that sha3::Sha3_224 computes for the given bytes.
pub uninterp spec fn sha3_224_of(data: Seq<u8>) -> Seq<u8>;

/// The digest that sha3::Sha3_256 computes for the given bytes.
pub uninterp spec fn sha3_256_of(data: Seq<u8>) -> Seq<u8>;

/// The digest that sha3::Sha3_384 computes for the given bytes.
pub uninterp spec fn sha3_384_of(data: Seq<u8>) -> Seq<u8>;

/// The digest that sha3::Sha3_512 computes for the given bytes.
pub uninterp spec fn sha3_512_of(data: Seq<u8>) -> Seq<u8>;

/// Relies on sha3::Sha3_224 via digest::Digest::digest: a fixed 28-byte
/// digest that depends on the input bytes alone.
#[verifier::external_body]
fn sha3_224_digest(data: &[u8]) -> (r: Vec<u8>)
    ensures
        r@ == sha3_224_of(data@),
        r@.len() == 28,
{
    Sha3_224::digest(data).as_slice().to_vec()
}

/// Relies on sha3::Sha3_256 via digest::Digest::digest: a fixed 32-byte
/// digest that depends on the input bytes alone.
#[verifier::external_body]
fn sha3_256_digest(data: &[u8]) -> (r: Vec<u8>)
    ensures
        r@ == sha3_256_of(data@),
        r@.len() == 32,
{
    Sha3_256::digest(data).as_slice().to_vec()
}

/// Relies on sha3::Sha3_384 via digest::Digest::digest: a fixed 48-byte
/// digest that depends on the input bytes alone.
#[verifier::external_body]
fn sha3_384_digest(data: &[u8]) -> (r: Vec<u8>)
    ensures
        r@ == sha3_384_of(data@),
        r@.len() == 48,
{
    Sha3_384::digest(data).as_slice().to_vec()
}

/// Relies on sha3::Sha3_512 via digest::Digest::digest: a fixed 64-byte
/// digest that depends on the input bytes alone.
#[verifier::external_body]
fn sha3_512_digest(data: &[u8]) -> (r: Vec<u8>)
    ensures
        r@ == sha3_512_of(data@),
        r@.len() == 64,
{
    Sha3_512::digest(data).as_slice().to_vec()
}

/// The selectable content-digest algorithms: the four fixed-output members
/// of the SHA-3 family.
#[derive(Clone, Copy, Debug, PartialEq, Eq, Structural)]
pub enum FileDriver {
    Sha3_224,
    Sha3_256,
    Sha3_384,
    Sha3_512,
}

/// The driver a configuration name selects; unknown names fall back to the
/// 256-bit driver.
pub open spec fn spec_file_driver_of(s: Seq<char>) -> FileDriver {
    if s == "sha3_224"@ {
        FileDriver::Sha3_224
    } else if s == "sha3_384"@ {
        FileDriver::Sha3_384
    } else if s == "sha3_512"@ {
        FileDriver::Sha3_512
    } else {
        FileDriver::Sha3_256
    }
}

/// The byte length of a driver's digest output.
pub open spec fn spec_digest_len(driver: FileDriver) -> nat {
    match driver {
        FileDriver::Sha3_224 => 28,
        FileDriver::Sha3_256 => 32,
        FileDriver::Sha3_384 => 48,
        FileDriver::Sha3_512 => 64,
    }
}

/// The digest a driver computes for the given bytes.
pub open spec fn spec_digest(driver: FileDriver, data: Seq<u8>) -> Seq<u8> {
    match driver {
        FileDriver::Sha3_224 => sha3_224_of(data),
        FileDriver::Sha3_256 => sha3_256_of(data),
        FileDriver::Sha3_384 => sha3_384_of(data),
        FileDriver::Sha3_512 => sha3_512_of(data),
    }
}

impl FileDriver {
    /// Resolve a configuration value to a digest driver, defaulting to the
    /// 256-bit driver for unknown names.
    pub fn from_name(name: &str) -> (r: FileDriver)
        ensures
            r == spec_file_driver_of(name@),
    {
        if str_eq(name, "sha3_224") {
            FileDriver::Sha3_224
        } else if str_eq(name, "sha3_384") {
            FileDriver::Sha3_384
        } else if str_eq(name, "sha3_512") {
            FileDriver::Sha3_512
        } else {
            FileDriver::Sha3_256
        }
    }
}

/// Compute the content digest of `data` under the selected driver, as
/// lower-case hex text.
pub fn hash_file(driver: FileDriver, data: &[u8]) -> (r: String)
    ensures
        r@ == hex_of(spec_digest(driver, data@)),
        r@.len() == 2 * spec_digest_len(driver),
{
    let raw = match driver {
        FileDriver::Sha3_224 => sha3_224_digest(data),
        FileDriver::Sha3_256 => sha3_256_digest(data),
        FileDriver::Sha3_384 => sha3_384_digest(data),
        FileDriver::Sha3_512 => sha3_512_digest(data),
    };
    hex_encode(raw.as_slice())
}

/// Recompute the digest of `data` and compare it with `expected_hex`,
/// ignoring ASCII letter case.
pub fn verify_file(driver: FileDriver, expected_hex: &str, data: &[u8]) -> (r: bool)
    ensures
        r == seq_eq_nocase(expected_hex@, hex_of(spec_digest(driver, data@))),
{
    let computed = hash_file(driver, data);
    str_eq_nocase(expected_hex, computed.as_str())
}

/// The sidecar path derived from an artifact path: the same path with a
/// fixed suffix marker appended.
pub fn sidecar_path_for(artifact_path: &str) -> (r: String)
    ensures
        r@ == artifact_path@ + ".hash"@,
{
    String::from_str(artifact_path).concat(".hash")
}

/// The text stored in a digest sidecar: the digest trimmed of surrounding
/// whitespace.
pub fn sidecar_content(digest_hex: &str) -> (r: String)
    ensures
        r@ == spec_trim(digest_hex@),
{
    trimmed(digest_hex)
}

/// Check artifact bytes against the text read back from a digest sidecar:
/// the sidecar text is trimmed of surrounding whitespace and compared with
/// the recomputed digest, ignoring ASCII letter case.
pub fn verify_sidecar_text(driver: FileDriver, sidecar_text: &str, data: &[u8]) -> (r: bool)
    ensures
        r == seq_eq_nocase(spec_trim(sidecar_text@), hex_of(spec_digest(driver, data@))),
{
    let t = trimmed(sidecar_text);
    verify_file(driver, t.as_str(), data)
}

} // verus!
