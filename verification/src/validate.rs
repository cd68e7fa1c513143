use vstd::prelude::*;

use crate::config::UploadLimits;
use crate::errors::UploadError;
use crate::strutil::str_eq;

verus! {

/// The MIME type that infer::get sniffs from the given bytes, if any.
pub uninterp spec fn mime_of(data: Seq<u8>) -> Option<Seq<char>>;

/// Relies on infer::get and infer::Type::mime_type: the sniffed type
/// depends on the input bytes alone.
#[verifier::external_body]
fn sniff_mime(data: &[u8]) -> (r: Option<String>)
    ensures
        (r is Some) == (mime_of(data@) is Some),
        r matches Some(m) ==> Some(m@) == mime_of(data@),
{
    infer::get(data).map(|kind| String::from(kind.mime_type()))
}

/// The fixed allow-list of content types.
pub open spec fn spec_mime_allowed(m: Seq<char>) -> bool {
    ||| m == "image/jpeg"@
    ||| m == "image/png"@
    ||| m == "image/gif"@
    ||| m == "application/pdf"@
    ||| m == "application/epub+zip"@
    ||| m == "video/mp4"@
}

/// What MIME validation decides for the given bytes: sniffing must find a
/// type and that type must be on the allow-list.
pub open spec fn spec_mime_ok(data: Seq<u8>) -> bool {
    match mime_of(data) {
        Some(m) => spec_mime_allowed(m),
        None => false,
    }
}

/// Sniff the payload's magic bytes and check the detected content type
/// against the allow-list. Only content is authoritative: a mismatched file
/// extension is never consulted here.
pub fn validate_book_mime(chunk_data: &[u8]) -> (r: Result<(), UploadError>)
    ensures
        r == if spec_mime_ok(chunk_data@) {
            Ok::<(), UploadError>(())
        } else {
            Err::<(), UploadError>(UploadError::UnsupportedMediaType)
        },
{
    match sniff_mime(chunk_data) {
        None => Err(UploadError::UnsupportedMediaType),
        Some(m) => {
            let s = m.as_str();
            if str_eq(s, "image/jpeg") || str_eq(s, "image/png") || str_eq(s, "image/gif")
                || str_eq(s, "application/pdf") || str_eq(s, "application/epub+zip") || str_eq(
                s,
                "video/mp4",
            ) {
                Ok(())
            } else {
                Err(UploadError::UnsupportedMediaType)
            }
        },
    }
}

/// Reject a payload larger than `max_size_mb` MiB.
pub fn validate_chunk_size(chunk_data: &[u8], max_size_mb: usize) -> (r: Result<
    (),
    UploadError,
>)
    ensures
        r == if chunk_data@.len() > max_size_mb * 1024 * 1024 {
            Err::<(), UploadError>(UploadError::PayloadTooLarge)
        } else {
            Ok::<(), UploadError>(())
        },
{
    let len = chunk_data.len() as u128;
    let ceiling = (max_size_mb as u128) * 1024 * 1024;
    if len > ceiling {
        Err(UploadError::PayloadTooLarge)
    } else {
        Ok(())
    }
}

/// Reject one chunk larger than the configured per-chunk ceiling.
pub fn validate_chunk_limit(chunk_data: &[u8], limits: &UploadLimits) -> (r: Result<
    (),
    UploadError,
>)
    ensures
        r == if chunk_data@.len() > limits.max_chunk_bytes {
            Err::<(), UploadError>(UploadError::PayloadTooLarge)
        } else {
            Ok::<(), UploadError>(())
        },
{
    if (chunk_data.len() as u128) > (limits.max_chunk_bytes as u128) {
        Err(UploadError::PayloadTooLarge)
    } else {
        Ok(())
    }
}

/// Reject an assembled artifact larger than the configured ceiling.
pub fn validate_artifact_size(total_bytes: usize, limits: &UploadLimits) -> (r: Result<
    (),
    UploadError,
>)
    ensures
        r == if total_bytes > limits.max_artifact_bytes {
            Err::<(), UploadError>(UploadError::PayloadTooLarge)
        } else {
            Ok::<(), UploadError>(())
        },
{
    if (total_bytes as u128) > (limits.max_artifact_bytes as u128) {
        Err(UploadError::PayloadTooLarge)
    } else {
        Ok(())
    }
}

} // verus!
