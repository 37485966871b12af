//! Credential and token behaviour: hashing round trips, token issue and
//! validation, bearer-header extraction, and the id text form.

use habit_core::auth::create_jwt;
use habit_core::auth::credential_round_trip;
use habit_core::auth::extract_user_id_from_token;
use habit_core::auth::hash_password;
use habit_core::auth::validate_jwt;
use habit_core::auth::verify_password;
use habit_core::ident::format_u64;
use habit_core::ident::parse_u64;
use habit_core::models::TokenError;

#[test]
fn password_hash_round_trip() {
    let h = hash_password("secret123").unwrap();
    assert_ne!(h, "secret123");
    assert!(verify_password("secret123", &h).unwrap());
    assert!(!verify_password("wrong-password", &h).unwrap());
}

#[test]
fn fresh_hash_always_verifies() {
    assert_eq!(credential_round_trip("any password at all"), Some(true));
    assert_eq!(credential_round_trip(""), Some(true));
}

#[test]
fn distinct_salts_verify_stably() {
    let h1 = hash_password("pw-one").unwrap();
    let h2 = hash_password("pw-one").unwrap();
    assert!(verify_password("pw-one", &h1).unwrap());
    assert!(verify_password("pw-one", &h2).unwrap());
    assert!(!verify_password("pw-two", &h1).unwrap());
    assert!(!verify_password("pw-two", &h2).unwrap());
}

#[test]
fn verify_errs_only_on_malformed_secret() {
    assert!(verify_password("anything", "not-a-bcrypt-hash").is_err());
}

#[test]
fn token_round_trip() {
    let t = create_jwt(42, "unit-secret", 1_000_000).unwrap();
    assert!(matches!(validate_jwt(&t, "unit-secret", 1_000_001), Ok(42)));
}

#[test]
fn token_expires_at_instant() {
    let t = create_jwt(7, "unit-secret", 1_000).unwrap();
    assert!(matches!(validate_jwt(&t, "unit-secret", 1_000 + 86_399), Ok(7)));
    assert!(matches!(
        validate_jwt(&t, "unit-secret", 1_000 + 86_400),
        Err(TokenError::Expired)
    ));
}

#[test]
fn token_bad_signature_or_garbage_is_invalid() {
    let t = create_jwt(7, "secret-a", 1_000).unwrap();
    assert!(matches!(
        validate_jwt(&t, "secret-b", 1_001),
        Err(TokenError::Invalid)
    ));
    assert!(matches!(
        validate_jwt("garbage", "secret-a", 1_001),
        Err(TokenError::Invalid)
    ));
}

#[test]
fn token_non_numeric_subject_is_malformed() {
    let mut m = serde_json::Map::new();
    m.insert(
        "sub".to_string(),
        serde_json::Value::String("alice".to_string()),
    );
    m.insert("exp".to_string(), serde_json::Value::from(2_000_u64));
    let t = jsonwebtoken::encode(
        &jsonwebtoken::Header::default(),
        &serde_json::Value::Object(m),
        &jsonwebtoken::EncodingKey::from_secret("unit-secret".as_bytes()),
    )
    .unwrap();
    assert!(matches!(
        validate_jwt(&t, "unit-secret", 1_000),
        Err(TokenError::Malformed)
    ));
}

#[test]
fn bearer_header_extraction() {
    let t = create_jwt(9, "unit-secret", 5_000).unwrap();
    let header = format!("Bearer {}", t);
    assert!(matches!(
        extract_user_id_from_token(&header, "unit-secret", 5_001),
        Ok(9)
    ));
    assert!(extract_user_id_from_token("Bearer junk", "unit-secret", 5_001).is_err());
    assert!(extract_user_id_from_token(&t, "unit-secret", 5_001).is_ok());
}

#[test]
fn id_text_round_trip() {
    assert_eq!(format_u64(0), "0");
    assert_eq!(format_u64(9_876_543_210), "9876543210");
    assert_eq!(parse_u64("0"), Some(0));
    assert_eq!(parse_u64("18446744073709551615"), Some(u64::MAX));
    assert_eq!(parse_u64("18446744073709551616"), None);
    assert_eq!(parse_u64("007"), None);
    assert_eq!(parse_u64(""), None);
    assert_eq!(parse_u64("12a"), None);
    assert_eq!(parse_u64(&format_u64(314_159)), Some(314_159));
}
