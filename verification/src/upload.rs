use vstd::prelude::*;

use crate::clock::{format_dashed_timestamp, now_utc, spec_dashed_timestamp,
    spec_time_fields_in_range, Timestamp};
use crate::config::UploadLimits;
use crate::digest::{hash_file, spec_digest, FileDriver};
use crate::errors::UploadError;
use crate::hexutil::hex_of;
use crate::clock::lemma_dashed_timestamp_sep_free;
use crate::path_guard::{cur_marker_at, lemma_append_marker_free, lemma_safe_component_is_valid,
    parent_marker_at, path_is_valid, spec_marker_free, spec_path_is_valid, spec_safe_component};
use crate::sanitize::{lemma_underscore_joined_safe, sanitize_filename, spec_sanitized};
use crate::session::{spec_assembled, spec_complete, spec_present, spec_store, UploadSession};
use crate::validate::{
    spec_mime_ok, validate_artifact_size, validate_book_mime, validate_chunk_limit,
};

verus! {

/// A durable artifact as reassembly hands it back: where it belongs under
/// the storage root, its content digest, and its bytes. The digest text is
/// also the sidecar's content.
pub struct FinalizedArtifact {
    pub relative_path: String,
    pub digest_hex: String,
    pub bytes: Vec<u8>,
}

/// The sub-bucket is either absent or itself a safe relative path.
pub open spec fn spec_bucket_ok(sub_bucket: Option<&str>) -> bool {
    match sub_bucket {
        Some(b) => spec_path_is_valid(b@),
        None => true,
    }
}

/// The relative storage path of an artifact: under `uploads/`, namespaced by
/// the optional sub-bucket, named by a dashed timestamp prefix and the
/// sanitized file name.
pub open spec fn spec_relative_path(
    sub_bucket: Option<&str>,
    stamp: Timestamp,
    file_name: Seq<char>,
) -> Seq<char> {
    let base = spec_dashed_timestamp(stamp) + "_"@ + spec_sanitized(file_name);
    match sub_bucket {
        Some(b) => "uploads/"@ + b@ + "/"@ + base,
        None => "uploads/"@ + base,
    }
}

/// Accept one arriving chunk into the session: the first chunk must pass
/// content sniffing before anything of the upload is trusted, every chunk
/// must fit the per-chunk ceiling, and only then is the payload stored under
/// its sequence index.
pub fn record_chunk(
    session: &mut UploadSession,
    index: usize,
    data: Vec<u8>,
    limits: &UploadLimits,
) -> (r: Result<(), UploadError>)
    ensures
        index == 0 && !spec_mime_ok(data@) ==> (r == Err::<(), UploadError>(
            UploadError::UnsupportedMediaType,
        ) && *final(session) == *old(session)),
        (index != 0 || spec_mime_ok(data@)) && data@.len() > limits.max_chunk_bytes ==> (r
            == Err::<(), UploadError>(UploadError::PayloadTooLarge) && *final(session)
            == *old(session)),
        (index != 0 || spec_mime_ok(data@)) && data@.len() <= limits.max_chunk_bytes ==> (r
            is Ok && final(session).chunk_views() == spec_store(
            old(session).chunk_views(),
            index as int,
            data@,
        ) && final(session).is_claimed() == old(session).is_claimed()
            && final(session).id_view() == old(session).id_view()),
{
    if index == 0 {
        match validate_book_mime(data.as_slice()) {
            Ok(()) => (),
            Err(e) => {
                return Err(e);
            },
        }
    }
    match validate_chunk_limit(data.as_slice(), limits) {
        Ok(()) => (),
        Err(e) => {
            return Err(e);
        },
    }
    session.write_chunk(index, data)
}

/// Assemble a completed session into a durable artifact: validate the name
/// and the optional sub-bucket, concatenate the chunks in strict index
/// order, enforce the artifact ceiling, and compute the content digest that
/// the sidecar will carry.
///
/// The caller owns the surrounding I/O: writing the bytes, writing the
/// sidecar strictly afterwards, and then removing the session's temporary
/// storage.
pub fn finalize_upload(
    session: &UploadSession,
    total_chunks: usize,
    file_name: &str,
    sub_bucket: Option<&str>,
    driver: FileDriver,
    limits: &UploadLimits,
) -> (r: Result<FinalizedArtifact, UploadError>)
    ensures
        !(spec_path_is_valid(file_name@) && spec_bucket_ok(sub_bucket)) ==> r == Err::<
            FinalizedArtifact,
            UploadError,
        >(UploadError::InvalidPath),
        spec_path_is_valid(file_name@) && spec_bucket_ok(sub_bucket) && !spec_complete(
            session.chunk_views(),
            total_chunks as int,
        ) ==> (r matches Err(e) && (e matches UploadError::ChunkMissingDuringAssembly { index }
            && !spec_present(session.chunk_views(), index as int) && index < total_chunks && (
        forall|k: int| 0 <= k < index ==> spec_present(session.chunk_views(), k)))),
        spec_path_is_valid(file_name@) && spec_bucket_ok(sub_bucket) && spec_complete(
            session.chunk_views(),
            total_chunks as int,
        ) && spec_assembled(session.chunk_views(), total_chunks as int).len()
            > limits.max_artifact_bytes ==> r == Err::<FinalizedArtifact, UploadError>(
            UploadError::PayloadTooLarge,
        ),
        spec_path_is_valid(file_name@) && spec_bucket_ok(sub_bucket) && spec_complete(
            session.chunk_views(),
            total_chunks as int,
        ) && spec_assembled(session.chunk_views(), total_chunks as int).len()
            <= limits.max_artifact_bytes ==> (r matches Ok(artifact) && artifact.bytes@
            == spec_assembled(session.chunk_views(), total_chunks as int) && artifact.digest_hex@
            == hex_of(
            spec_digest(driver, spec_assembled(session.chunk_views(), total_chunks as int)),
        ) && spec_path_is_valid(artifact.relative_path@) && (exists|stamp: Timestamp|
            spec_time_fields_in_range(stamp) && artifact.relative_path@ == spec_relative_path(
                sub_bucket,
                stamp,
                file_name@,
            ))),
{
    if !path_is_valid(file_name) {
        return Err(UploadError::InvalidPath);
    }
    match sub_bucket {
        Some(bucket) => {
            if !path_is_valid(bucket) {
                return Err(UploadError::InvalidPath);
            }
        },
        None => (),
    }
    let bytes = match session.assemble(total_chunks) {
        Ok(assembled) => assembled,
        Err(e) => {
            return Err(e);
        },
    };
    match validate_artifact_size(bytes.len(), limits) {
        Ok(()) => (),
        Err(e) => {
            return Err(e);
        },
    }
    let stamp = now_utc();
    let dashed = format_dashed_timestamp(stamp);
    let ghost dv = dashed@;
    let san = sanitize_filename(file_name);
    let base = dashed.concat("_").concat(san.as_str());
    proof {
        lemma_dashed_timestamp_sep_free(stamp);
        lemma_underscore_joined_safe(dv, san@, base@);
        lemma_safe_component_is_valid(base@);
    }
    proof {
        reveal_strlit("uploads/");
        reveal_strlit("/");
        let u = "uploads/"@;
        assert(u.len() == 8);
        assert forall|i: int| !cur_marker_at(u, i) by {
            if cur_marker_at(u, i) {
                assert(u[i] == '.');
            }
        }
        assert forall|i: int| !parent_marker_at(u, i) by {
            if parent_marker_at(u, i) {
                assert(u[i] == '.');
            }
        }
        assert(spec_path_is_valid(u));
        assert forall|i: int| !cur_marker_at("/"@, i) by {
            if cur_marker_at("/"@, i) {
                assert("/"@[i] == '.');
            }
        }
        assert forall|i: int| !parent_marker_at("/"@, i) by {
            if parent_marker_at("/"@, i) {
                assert("/"@[i] == '.');
            }
        }
        assert(spec_marker_free("/"@));
    }
    let relative_path = match sub_bucket {
        Some(bucket) => {
            let joined = String::from_str("uploads/").concat(bucket).concat("/").concat(
                base.as_str(),
            );
            proof {
                let u = "uploads/"@;
                lemma_append_marker_free(u, bucket@);
                lemma_append_marker_free(u + bucket@, "/"@);
                lemma_append_marker_free(u + bucket@ + "/"@, base@);
                assert(joined@ == u + bucket@ + "/"@ + base@);
            }
            joined
        },
        None => {
            let joined = String::from_str("uploads/").concat(base.as_str());
            proof {
                lemma_append_marker_free("uploads/"@, base@);
            }
            joined
        },
    };
    let digest_hex = hash_file(driver, bytes.as_slice());
    let artifact = FinalizedArtifact { relative_path, digest_hex, bytes };
    proof {
        assert(spec_time_fields_in_range(stamp) && artifact.relative_path@ == spec_relative_path(
            sub_bucket,
            stamp,
            file_name@,
        ));
    }
    Ok(artifact)
}

} // verus!
