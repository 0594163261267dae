//! The raw init-data path end to end: parsing, verification, identity
//! extraction, and each rejection.

use miniapp_auth::decision::authenticate;
use miniapp_auth::decision::AuthRequest;
use miniapp_auth::decision::VerificationOutcome;
use miniapp_auth::errors::AuthError;
use miniapp_auth::errors::ValidationFault;
use miniapp_auth::hexcode::hex_encode;
use miniapp_auth::mac::compute_signature;
use miniapp_auth::parser::parse_user_from_init_data;
use miniapp_auth::parser::verify_telegram_auth_from_init_data;

const TOKEN: &[u8] = b"123:ABC";

fn signed_init_data(check_string: &[u8], wire_tail: &str) -> Vec<u8> {
    let hex = String::from_utf8(hex_encode(&compute_signature(check_string, TOKEN))).unwrap();
    format!("{}&hash={}", wire_tail, hex).into_bytes()
}

#[test]
fn valid_init_data_verifies_and_yields_identity() {
    let init_data = signed_init_data(
        b"auth_date=1700000000\nuser={\"id\":42}",
        "auth_date=1700000000&user=%7B%22id%22%3A42%7D",
    );
    assert_eq!(verify_telegram_auth_from_init_data(&init_data, TOKEN), Ok(true));
    let user = parse_user_from_init_data(&init_data).unwrap();
    assert_eq!(user.id, 42);
    assert_eq!(user.username, None);
}

#[test]
fn flipped_hash_fails_as_authentication() {
    let mut init_data = signed_init_data(
        b"auth_date=1700000000\nuser={\"id\":42}",
        "auth_date=1700000000&user=%7B%22id%22%3A42%7D",
    );
    let last = init_data.len() - 1;
    init_data[last] = if init_data[last] == b'0' { b'1' } else { b'0' };
    assert_eq!(
        verify_telegram_auth_from_init_data(&init_data, TOKEN),
        Err(AuthError::Authentication)
    );
}

#[test]
fn signature_field_is_signed_too() {
    let init_data = signed_init_data(
        b"auth_date=5\nsignature=SIG\nuser={\"id\":3}",
        "user=%7B%22id%22%3A3%7D&signature=SIG&auth_date=5",
    );
    assert_eq!(verify_telegram_auth_from_init_data(&init_data, TOKEN), Ok(true));
}

#[test]
fn last_hash_occurrence_wins() {
    let good = signed_init_data(b"auth_date=8", "auth_date=8");
    let doubled = [b"hash=ffff&".to_vec(), good].concat();
    assert_eq!(verify_telegram_auth_from_init_data(&doubled, TOKEN), Ok(true));
}

#[test]
fn missing_hash_is_a_validation_fault() {
    assert_eq!(
        verify_telegram_auth_from_init_data(b"auth_date=1&user=x", TOKEN),
        Err(AuthError::Validation(ValidationFault::HashMissing))
    );
}

#[test]
fn signature_without_hash_is_unsupported() {
    assert_eq!(
        verify_telegram_auth_from_init_data(b"auth_date=1&signature=abc", TOKEN),
        Err(AuthError::Validation(ValidationFault::SignatureUnsupported))
    );
}

#[test]
fn user_field_missing_is_reported() {
    assert!(matches!(
        parse_user_from_init_data(b"auth_date=1&hash=00"),
        Err(AuthError::Validation(ValidationFault::UserMissing))
    ));
}

#[test]
fn malformed_user_json_is_reported() {
    assert!(matches!(
        parse_user_from_init_data(b"user=%7Bnot-json&hash=00"),
        Err(AuthError::Validation(ValidationFault::UserJsonInvalid))
    ));
    assert!(matches!(
        parse_user_from_init_data(b"user=%22just-a-string%22&hash=00"),
        Err(AuthError::Validation(ValidationFault::UserJsonInvalid))
    ));
    assert!(matches!(
        parse_user_from_init_data(b"user=%7B%22name%22%3A%22x%22%7D&hash=00"),
        Err(AuthError::Validation(ValidationFault::UserJsonInvalid))
    ));
}

#[test]
fn user_with_names_is_extracted() {
    let init_data =
        b"user=%7B%22id%22%3A9%2C%22username%22%3A%22ab%22%2C%22first_name%22%3A%22A%22%7D";
    let user = parse_user_from_init_data(init_data).unwrap();
    assert_eq!(user.id, 9);
    assert_eq!(user.username.as_deref(), Some("ab"));
    assert_eq!(user.first_name.as_deref(), Some("A"));
    assert_eq!(user.last_name, None);
}

#[test]
fn authenticate_raw_path_verifies() {
    let init_data = signed_init_data(
        b"auth_date=1700000000\nuser={\"id\":42}",
        "auth_date=1700000000&user=%7B%22id%22%3A42%7D",
    );
    let req = AuthRequest { init_data: Some(init_data), hash: None, auth_date: None, user: None };
    match authenticate(&req, TOKEN, false) {
        VerificationOutcome::Verified(u) => assert_eq!(u.id, 42),
        VerificationOutcome::Rejected(e) => panic!("rejected: {:?}", e),
    }
}

#[test]
fn authenticate_raw_path_failure_is_never_bypassed() {
    let init_data = b"auth_date=1&user=%7B%22id%22%3A1%7D&hash=mock_hash_for_development_1".to_vec();
    let req = AuthRequest { init_data: Some(init_data), hash: None, auth_date: None, user: None };
    assert!(matches!(
        authenticate(&req, TOKEN, true),
        VerificationOutcome::Rejected(AuthError::Authentication)
    ));
}
