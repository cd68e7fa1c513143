use chunkvault::config::{UploadLimits, MAX_CHUNK_SIZE, MAX_UPLOAD_SIZE};
use chunkvault::errors::UploadError;
use chunkvault::validate::{
    validate_artifact_size, validate_book_mime, validate_chunk_limit, validate_chunk_size,
};

#[test]
fn chunk_size_ceiling_in_mib() {
    let two_mib = vec![0u8; 2 * 1024 * 1024];
    assert_eq!(validate_chunk_size(&two_mib, 2), Ok(()));
    assert_eq!(validate_chunk_size(&two_mib, 1), Err(UploadError::PayloadTooLarge));
    let just_over = vec![0u8; 1024 * 1024 + 1];
    assert_eq!(validate_chunk_size(&just_over, 1), Err(UploadError::PayloadTooLarge));
    assert_eq!(validate_chunk_size(&[], 0), Ok(()));
    assert_eq!(validate_chunk_size(&[0u8], 0), Err(UploadError::PayloadTooLarge));
}

#[test]
fn configured_limits_apply_to_chunks_and_artifacts() {
    let limits = UploadLimits { max_chunk_bytes: 4, max_artifact_bytes: 10 };
    assert_eq!(validate_chunk_limit(&[1, 2, 3, 4], &limits), Ok(()));
    assert_eq!(
        validate_chunk_limit(&[1, 2, 3, 4, 5], &limits),
        Err(UploadError::PayloadTooLarge)
    );
    assert_eq!(validate_artifact_size(10, &limits), Ok(()));
    assert_eq!(validate_artifact_size(11, &limits), Err(UploadError::PayloadTooLarge));
}

#[test]
fn default_limits_are_the_documented_ceilings() {
    let limits = UploadLimits::default();
    assert_eq!(limits.max_chunk_bytes, MAX_CHUNK_SIZE);
    assert_eq!(limits.max_artifact_bytes, MAX_UPLOAD_SIZE);
    assert_eq!(MAX_CHUNK_SIZE, 2 * 1024 * 1024);
    assert_eq!(MAX_UPLOAD_SIZE, 50 * 1024 * 1024);
}

#[test]
fn allowed_content_types_pass_sniffing() {
    let jpeg = [0xFFu8, 0xD8, 0xFF, 0xE0, 0x00];
    assert_eq!(validate_book_mime(&jpeg), Ok(()));
    let png = [0x89u8, b'P', b'N', b'G', 0x0D, 0x0A, 0x1A, 0x0A, 0x00];
    assert_eq!(validate_book_mime(&png), Ok(()));
    let pdf = b"%PDF-1.7 content";
    assert_eq!(validate_book_mime(pdf), Ok(()));
    let gif = b"GIF89a trailer";
    assert_eq!(validate_book_mime(gif), Ok(()));
}

#[test]
fn unknown_or_disallowed_content_is_rejected() {
    assert_eq!(
        validate_book_mime(b"no magic bytes here"),
        Err(UploadError::UnsupportedMediaType)
    );
    assert_eq!(validate_book_mime(&[]), Err(UploadError::UnsupportedMediaType));
    let bmp = b"BM rest of a bitmap";
    assert_eq!(validate_book_mime(bmp), Err(UploadError::UnsupportedMediaType));
}
