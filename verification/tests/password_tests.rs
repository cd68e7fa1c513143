use chunkvault::config::{PasswordConfig, PasswordDriver};
use chunkvault::errors::UploadError;
use chunkvault::password::{hash_password, verify_password};

fn bcrypt_config() -> PasswordConfig {
    PasswordConfig { driver: PasswordDriver::Bcrypt, bcrypt_cost: 4, ..PasswordConfig::default() }
}

fn argon2_config() -> PasswordConfig {
    PasswordConfig {
        driver: PasswordDriver::Argon2id,
        argon2_memory: 8,
        argon2_time: 1,
        argon2_threads: 1,
        ..PasswordConfig::default()
    }
}

#[test]
fn bcrypt_round_trip_accepts_and_rejects() {
    let config = bcrypt_config();
    let hash = hash_password(&config, "hunter2").unwrap();
    assert!(hash.starts_with("$2b$"));
    assert_eq!(hash.len(), 60);
    assert_eq!(verify_password(&hash, "hunter2"), Ok(true));
    assert_eq!(verify_password(&hash, "hunter2x"), Ok(false));
    assert_eq!(verify_password(&hash, ""), Ok(false));
}

#[test]
fn argon2_round_trip_accepts_and_rejects() {
    let config = argon2_config();
    let hash = hash_password(&config, "correct horse").unwrap();
    assert!(hash.starts_with("$argon2id$"));
    assert_eq!(verify_password(&hash, "correct horse"), Ok(true));
    assert_eq!(verify_password(&hash, "correct horsex"), Ok(false));
    assert_eq!(verify_password(&hash, "wrong"), Ok(false));
}

#[test]
fn fresh_salts_give_distinct_hashes() {
    let config = argon2_config();
    let first = hash_password(&config, "same password").unwrap();
    let second = hash_password(&config, "same password").unwrap();
    assert_ne!(first, second);
    assert_eq!(verify_password(&first, "same password"), Ok(true));
    assert_eq!(verify_password(&second, "same password"), Ok(true));
}

#[test]
fn malformed_stored_hash_is_a_format_error() {
    assert_eq!(
        verify_password("not a hash at all", "pw"),
        Err(UploadError::CredentialFormatInvalid)
    );
    assert_eq!(
        verify_password("$2b$truncated", "pw"),
        Err(UploadError::CredentialFormatInvalid)
    );
    assert_eq!(
        verify_password("", "pw"),
        Err(UploadError::CredentialFormatInvalid)
    );
}

#[test]
fn bcrypt_cost_out_of_range_fails_to_hash() {
    let config = PasswordConfig {
        driver: PasswordDriver::Bcrypt,
        bcrypt_cost: 2,
        ..PasswordConfig::default()
    };
    assert_eq!(
        hash_password(&config, "pw"),
        Err(UploadError::HashComputeFailed)
    );
}

#[test]
fn argon2_invalid_parameters_fail_to_hash() {
    let config = PasswordConfig {
        driver: PasswordDriver::Argon2id,
        argon2_memory: 1,
        argon2_time: 1,
        argon2_threads: 1,
        ..PasswordConfig::default()
    };
    assert_eq!(
        hash_password(&config, "pw"),
        Err(UploadError::HashComputeFailed)
    );
}

#[test]
fn schemes_are_detected_from_hash_format() {
    let bcrypt_hash = hash_password(&bcrypt_config(), "shared pw").unwrap();
    let argon2_hash = hash_password(&argon2_config(), "shared pw").unwrap();
    assert!(bcrypt_hash.starts_with("$2b$"));
    assert!(!argon2_hash.starts_with("$2b$"));
    assert_eq!(verify_password(&bcrypt_hash, "shared pw"), Ok(true));
    assert_eq!(verify_password(&argon2_hash, "shared pw"), Ok(true));
}

#[test]
fn password_driver_from_name_mapping() {
    assert_eq!(PasswordDriver::from_name("bcrypt"), PasswordDriver::Bcrypt);
    assert_eq!(PasswordDriver::from_name("argon2i"), PasswordDriver::Argon2id);
    assert_eq!(PasswordDriver::from_name("argon2id"), PasswordDriver::Argon2id);
    assert_eq!(PasswordDriver::from_name("anything else"), PasswordDriver::Argon2id);
}
