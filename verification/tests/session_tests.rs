use chunkvault::config::UploadLimits;
use chunkvault::digest::{hash_file, FileDriver};
use chunkvault::errors::UploadError;
use chunkvault::range::{read_range, RangeRead};
use chunkvault::session::UploadSession;
use chunkvault::upload::finalize_upload;

fn session_with(parts: &[&[u8]]) -> UploadSession {
    let mut s = UploadSession::new(String::from("session-1"));
    for (i, part) in parts.iter().enumerate() {
        s.write_chunk(i, part.to_vec()).unwrap();
    }
    s
}

#[test]
fn assemble_restores_original_bytes() {
    let original: Vec<u8> = (0u16..1000u16).map(|v| (v % 251) as u8).collect();
    let parts: Vec<&[u8]> = vec![&original[..1], &original[1..500], &original[500..]];
    let s = session_with(&parts);
    let assembled = s.assemble(3).unwrap();
    assert_eq!(assembled, original);
    assert_eq!(
        hash_file(FileDriver::Sha3_256, &original),
        hash_file(FileDriver::Sha3_256, &assembled)
    );
}

#[test]
fn out_of_order_and_retried_chunks_assemble_in_index_order() {
    let mut s = UploadSession::new(String::from("session-2"));
    s.write_chunk(2, b"cc".to_vec()).unwrap();
    s.write_chunk(0, b"WRONG".to_vec()).unwrap();
    s.write_chunk(1, b"bb".to_vec()).unwrap();
    s.write_chunk(0, b"aa".to_vec()).unwrap();
    assert_eq!(s.assemble(3).unwrap(), b"aabbcc".to_vec());
}

#[test]
fn assemble_reports_first_missing_index() {
    let mut s = UploadSession::new(String::from("session-3"));
    s.write_chunk(0, b"a".to_vec()).unwrap();
    s.write_chunk(2, b"c".to_vec()).unwrap();
    match s.assemble(3) {
        Err(UploadError::ChunkMissingDuringAssembly { index }) => assert_eq!(index, 1),
        other => panic!("unexpected result: {:?}", other.map(|_| ())),
    }
    match s.assemble(5) {
        Err(UploadError::ChunkMissingDuringAssembly { index }) => assert_eq!(index, 1),
        other => panic!("unexpected result: {:?}", other.map(|_| ())),
    }
}

#[test]
fn assemble_of_zero_chunks_is_empty() {
    let s = UploadSession::new(String::from("session-4"));
    assert_eq!(s.assemble(0).unwrap(), Vec::<u8>::new());
}

#[test]
fn completeness_tracks_received_indices() {
    let mut s = UploadSession::new(String::from("session-5"));
    assert!(s.is_upload_complete(0));
    assert!(!s.is_upload_complete(1));
    s.write_chunk(1, b"b".to_vec()).unwrap();
    assert!(!s.is_upload_complete(2));
    s.write_chunk(0, b"a".to_vec()).unwrap();
    assert!(s.is_upload_complete(2));
    assert!(!s.is_upload_complete(3));
}

#[test]
fn completeness_is_set_equality_not_containment() {
    let mut s = UploadSession::new(String::from("session-8"));
    s.write_chunk(0, b"a".to_vec()).unwrap();
    s.write_chunk(1, b"b".to_vec()).unwrap();
    s.write_chunk(2, b"c".to_vec()).unwrap();
    s.write_chunk(5, b"stray".to_vec()).unwrap();
    assert!(!s.is_upload_complete(3));
    assert!(!s.is_upload_complete(6));
    assert!(!s.is_upload_complete(0));
}

#[test]
fn assembly_claim_is_exclusive() {
    let mut s = session_with(&[b"x", b"y"]);
    assert!(s.claim_assembly());
    assert!(!s.claim_assembly());
    assert!(!s.claim_assembly());
}

#[test]
fn two_final_chunk_deliveries_one_assembly() {
    let mut s = UploadSession::new(String::from("session-6"));
    s.write_chunk(0, b"first".to_vec()).unwrap();
    s.write_chunk(1, b"second".to_vec()).unwrap();
    s.write_chunk(1, b"second".to_vec()).unwrap();
    let first_claim = s.is_upload_complete(2) && s.claim_assembly();
    let second_claim = s.is_upload_complete(2) && s.claim_assembly();
    assert!(first_claim);
    assert!(!second_claim);
    assert_eq!(s.assemble(2).unwrap(), b"firstsecond".to_vec());
}

#[test]
fn finalize_rejects_traversal_in_name_and_bucket() {
    let s = session_with(&[b"data"]);
    let limits = UploadLimits::default();
    match finalize_upload(&s, 1, "../escape.png", None, FileDriver::Sha3_256, &limits) {
        Err(UploadError::InvalidPath) => (),
        _ => panic!("expected InvalidPath"),
    }
    match finalize_upload(&s, 1, "name.png", Some("../evil"), FileDriver::Sha3_256, &limits) {
        Err(UploadError::InvalidPath) => (),
        _ => panic!("expected InvalidPath"),
    }
}

#[test]
fn finalize_enforces_artifact_ceiling() {
    let s = session_with(&[b"0123456789"]);
    let limits = UploadLimits { max_chunk_bytes: 100, max_artifact_bytes: 9 };
    match finalize_upload(&s, 1, "name.bin", None, FileDriver::Sha3_256, &limits) {
        Err(UploadError::PayloadTooLarge) => (),
        _ => panic!("expected PayloadTooLarge"),
    }
}

#[test]
fn finalize_propagates_missing_chunk() {
    let mut s = UploadSession::new(String::from("session-7"));
    s.write_chunk(1, b"tail".to_vec()).unwrap();
    let limits = UploadLimits::default();
    match finalize_upload(&s, 2, "name.bin", None, FileDriver::Sha3_256, &limits) {
        Err(UploadError::ChunkMissingDuringAssembly { index }) => assert_eq!(index, 0),
        _ => panic!("expected ChunkMissingDuringAssembly"),
    }
}

#[test]
fn read_range_returns_exact_prefix() {
    let data: Vec<u8> = (0u8..100u8).collect();
    match read_range(&data, 0, 10) {
        RangeRead::Data(d) => assert_eq!(d, data[..10].to_vec()),
        RangeRead::EndOfFile => panic!("expected data"),
    }
    match read_range(&data, 0, 100) {
        RangeRead::Data(d) => assert_eq!(d, data),
        RangeRead::EndOfFile => panic!("expected data"),
    }
}

#[test]
fn read_range_middle_window_and_tail() {
    let data: Vec<u8> = (0u8..100u8).collect();
    match read_range(&data, 40, 20) {
        RangeRead::Data(d) => assert_eq!(d, data[40..60].to_vec()),
        RangeRead::EndOfFile => panic!("expected data"),
    }
    match read_range(&data, 90, 50) {
        RangeRead::Data(d) => assert_eq!(d, data[90..].to_vec()),
        RangeRead::EndOfFile => panic!("expected data"),
    }
}

#[test]
fn read_range_past_end_is_end_of_file_not_error() {
    let data: Vec<u8> = (0u8..100u8).collect();
    assert!(matches!(read_range(&data, 100, 10), RangeRead::EndOfFile));
    assert!(matches!(read_range(&data, 1000, 10), RangeRead::EndOfFile));
    assert!(matches!(read_range(&data, 0, 0), RangeRead::EndOfFile));
    assert!(matches!(read_range(&[], 0, 10), RangeRead::EndOfFile));
}
