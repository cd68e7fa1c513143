use chunkvault::config::UploadLimits;
use chunkvault::digest::{verify_file, verify_sidecar_text, FileDriver};
use chunkvault::errors::UploadError;
use chunkvault::session::UploadSession;
use chunkvault::upload::{finalize_upload, record_chunk};

const MIB: usize = 1024 * 1024;

fn jpeg_payload_chunks() -> Vec<Vec<u8>> {
    let mut first = vec![0xFFu8, 0xD8, 0xFF, 0xE0];
    first.resize(2 * MIB, 0x5A);
    let second = vec![0x11u8; 2 * MIB];
    let third = vec![0x22u8; 2 * MIB];
    vec![first, second, third]
}

#[test]
fn upload_three_chunk_jpeg_end_to_end() {
    let limits = UploadLimits::default();
    let chunks = jpeg_payload_chunks();
    let original: Vec<u8> = chunks.iter().flatten().copied().collect();
    assert_eq!(original.len(), 6 * MIB);

    let mut session = UploadSession::new(String::from("upload-1"));
    for (i, chunk) in chunks.into_iter().enumerate() {
        record_chunk(&mut session, i, chunk, &limits).unwrap();
    }
    assert!(session.is_upload_complete(3));
    assert!(session.claim_assembly());

    let artifact = finalize_upload(
        &session,
        3,
        "Holiday Photo.JPG",
        Some("books"),
        FileDriver::Sha3_256,
        &limits,
    )
    .unwrap();

    assert_eq!(artifact.bytes, original);
    assert_eq!(artifact.digest_hex.len(), 64);
    assert!(artifact
        .digest_hex
        .chars()
        .all(|c| c.is_ascii_hexdigit() && !c.is_ascii_uppercase()));
    assert!(artifact.relative_path.starts_with("uploads/books/"));
    assert!(artifact.relative_path.ends_with("_holiday-photo.jpg"));
    assert!(chunkvault::path_guard::path_is_valid(&artifact.relative_path));

    assert!(verify_file(FileDriver::Sha3_256, &artifact.digest_hex, &artifact.bytes));
    let sidecar_text = format!("{}\n", artifact.digest_hex);
    assert!(verify_sidecar_text(FileDriver::Sha3_256, &sidecar_text, &artifact.bytes));
}

#[test]
fn first_chunk_must_pass_content_sniffing() {
    let limits = UploadLimits::default();
    let mut session = UploadSession::new(String::from("upload-2"));
    match record_chunk(&mut session, 0, b"plain text, no magic".to_vec(), &limits) {
        Err(UploadError::UnsupportedMediaType) => (),
        _ => panic!("expected UnsupportedMediaType"),
    }
    match record_chunk(&mut session, 0, b"BM-bitmap-not-allowed".to_vec(), &limits) {
        Err(UploadError::UnsupportedMediaType) => (),
        _ => panic!("expected UnsupportedMediaType"),
    }
    let pdf = b"%PDF-1.4 minimal".to_vec();
    record_chunk(&mut session, 0, pdf, &limits).unwrap();
}

#[test]
fn oversized_chunk_is_rejected_before_storage() {
    let limits = UploadLimits { max_chunk_bytes: 8, max_artifact_bytes: 1024 };
    let mut session = UploadSession::new(String::from("upload-3"));
    let mut first = vec![0xFFu8, 0xD8, 0xFF, 0xE0];
    first.resize(9, 0);
    match record_chunk(&mut session, 0, first, &limits) {
        Err(UploadError::PayloadTooLarge) => (),
        _ => panic!("expected PayloadTooLarge"),
    }
    assert!(!session.is_upload_complete(1));
}

#[test]
fn duplicate_final_chunk_loses_claim_but_artifact_stands() {
    let limits = UploadLimits::default();
    let mut session = UploadSession::new(String::from("upload-4"));
    let mut first = vec![0xFFu8, 0xD8, 0xFF];
    first.extend_from_slice(b"jpeg body");
    record_chunk(&mut session, 0, first, &limits).unwrap();
    record_chunk(&mut session, 1, b"tail".to_vec(), &limits).unwrap();

    let winner = session.is_upload_complete(2) && session.claim_assembly();
    assert!(winner);
    let artifact =
        finalize_upload(&session, 2, "retry.jpg", None, FileDriver::Sha3_256, &limits).unwrap();

    record_chunk(&mut session, 1, b"tail".to_vec(), &limits).unwrap();
    let loser = session.is_upload_complete(2) && session.claim_assembly();
    assert!(!loser);

    assert!(verify_file(FileDriver::Sha3_256, &artifact.digest_hex, &artifact.bytes));
}
