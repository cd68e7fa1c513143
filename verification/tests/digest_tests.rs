use chunkvault::digest::{
    hash_file, sidecar_content, sidecar_path_for, verify_file, verify_sidecar_text, FileDriver,
};
use chunkvault::hexutil::hex_encode;
use sha3::{Digest, Sha3_224, Sha3_256, Sha3_384, Sha3_512};

#[test]
fn hex_encode_known_values() {
    assert_eq!(hex_encode(&[]), "");
    assert_eq!(hex_encode(&[0x00, 0xff, 0x10, 0xab]), "00ff10ab");
    let bytes: Vec<u8> = (0u8..=255u8).collect();
    assert_eq!(hex_encode(&bytes), hex::encode(&bytes));
}

#[test]
fn hash_file_matches_direct_sha3_calls() {
    let data = b"the quick brown fox jumps over the lazy dog";
    assert_eq!(
        hash_file(FileDriver::Sha3_224, data),
        hex::encode(Sha3_224::digest(data))
    );
    assert_eq!(
        hash_file(FileDriver::Sha3_256, data),
        hex::encode(Sha3_256::digest(data))
    );
    assert_eq!(
        hash_file(FileDriver::Sha3_384, data),
        hex::encode(Sha3_384::digest(data))
    );
    assert_eq!(
        hash_file(FileDriver::Sha3_512, data),
        hex::encode(Sha3_512::digest(data))
    );
}

#[test]
fn hash_file_lengths_and_case() {
    let data = b"abc";
    let h224 = hash_file(FileDriver::Sha3_224, data);
    let h256 = hash_file(FileDriver::Sha3_256, data);
    let h384 = hash_file(FileDriver::Sha3_384, data);
    let h512 = hash_file(FileDriver::Sha3_512, data);
    assert_eq!(h224.len(), 56);
    assert_eq!(h256.len(), 64);
    assert_eq!(h384.len(), 96);
    assert_eq!(h512.len(), 128);
    for h in [h224, h256, h384, h512] {
        assert!(h.chars().all(|c| c.is_ascii_hexdigit() && !c.is_ascii_uppercase()));
    }
}

#[test]
fn hash_file_is_deterministic() {
    let data = b"same input";
    assert_eq!(
        hash_file(FileDriver::Sha3_256, data),
        hash_file(FileDriver::Sha3_256, data)
    );
}

#[test]
fn verify_accepts_any_letter_case() {
    let data = b"integrity check payload";
    let digest = hash_file(FileDriver::Sha3_256, data);
    assert!(verify_file(FileDriver::Sha3_256, &digest, data));
    assert!(verify_file(FileDriver::Sha3_256, &digest.to_uppercase(), data));
    let mixed: String = digest
        .chars()
        .enumerate()
        .map(|(i, c)| if i % 2 == 0 { c.to_ascii_uppercase() } else { c })
        .collect();
    assert!(verify_file(FileDriver::Sha3_256, &mixed, data));
}

#[test]
fn verify_rejects_any_single_bit_flip() {
    let data = b"integrity check payload".to_vec();
    let digest = hash_file(FileDriver::Sha3_256, &data);
    for byte_index in 0..data.len() {
        for bit in 0..8 {
            let mut tampered = data.clone();
            tampered[byte_index] ^= 1u8 << bit;
            assert!(!verify_file(FileDriver::Sha3_256, &digest, &tampered));
        }
    }
}

#[test]
fn verify_rejects_wrong_driver_selection() {
    let data = b"driver mismatch";
    let digest = hash_file(FileDriver::Sha3_256, data);
    assert!(!verify_file(FileDriver::Sha3_512, &digest, data));
}

#[test]
fn sidecar_path_appends_suffix() {
    assert_eq!(sidecar_path_for("uploads/a.png"), "uploads/a.png.hash");
    assert_eq!(sidecar_path_for("x"), "x.hash");
}

#[test]
fn sidecar_text_verifies_with_surrounding_whitespace() {
    let data = b"sidecar payload";
    let digest = hash_file(FileDriver::Sha3_256, data);
    assert_eq!(sidecar_content(&digest), digest);
    let padded = format!("  {}\n", digest);
    assert_eq!(sidecar_content(&padded), digest);
    assert!(verify_sidecar_text(FileDriver::Sha3_256, &padded, data));
    assert!(!verify_sidecar_text(FileDriver::Sha3_256, &padded, b"other bytes"));
}

#[test]
fn file_driver_from_name_mapping() {
    assert_eq!(FileDriver::from_name("sha3_224"), FileDriver::Sha3_224);
    assert_eq!(FileDriver::from_name("sha3_256"), FileDriver::Sha3_256);
    assert_eq!(FileDriver::from_name("sha3_384"), FileDriver::Sha3_384);
    assert_eq!(FileDriver::from_name("sha3_512"), FileDriver::Sha3_512);
    assert_eq!(FileDriver::from_name("unknown"), FileDriver::Sha3_256);
    assert_eq!(FileDriver::from_name(""), FileDriver::Sha3_256);
}
