//! The legacy key-order resolver and the development bypass rules.

use hmac::Mac;
use miniapp_auth::decision::authenticate;
use miniapp_auth::decision::AuthRequest;
use miniapp_auth::decision::VerificationOutcome;
use miniapp_auth::errors::AuthError;
use miniapp_auth::errors::ValidationFault;
use miniapp_auth::resolver::candidate_user_json;
use miniapp_auth::resolver::resolve_user_order;
use miniapp_auth::resolver::LegacyUserField;

const TOKEN: &[u8] = b"777:LEGACY";

fn entry(name: &[u8], value_json: &[u8]) -> LegacyUserField {
    LegacyUserField { name: name.to_vec(), value_json: value_json.to_vec() }
}

fn four_field_user() -> Vec<LegacyUserField> {
    vec![
        entry(b"id", b"1"),
        entry(b"first_name", b"\"A\""),
        entry(b"last_name", b"\"B\""),
        entry(b"username", b"\"C\""),
    ]
}

fn hex_hash_over(check_string: &[u8]) -> Vec<u8> {
    let mut key_mac =
        <hmac::Hmac<sha2::Sha256> as hmac::KeyInit>::new_from_slice(b"WebAppData").unwrap();
    key_mac.update(TOKEN);
    let secret = key_mac.finalize().into_bytes();
    let mut mac = <hmac::Hmac<sha2::Sha256> as hmac::KeyInit>::new_from_slice(&secret).unwrap();
    mac.update(check_string);
    hex::encode(mac.finalize().into_bytes()).into_bytes()
}

#[test]
fn candidate_order_zero_is_the_canonical_listing() {
    let json = candidate_user_json(&four_field_user(), 0);
    assert_eq!(
        json,
        b"{\"id\":1,\"first_name\":\"A\",\"last_name\":\"B\",\"username\":\"C\"}".to_vec()
    );
}

#[test]
fn candidate_orders_differ_and_keep_extra_fields_last() {
    let mut entries = four_field_user();
    entries.push(entry(b"language_code", b"\"en\""));
    let json23 = candidate_user_json(&entries, 23);
    assert_eq!(
        json23,
        b"{\"username\":\"C\",\"last_name\":\"B\",\"first_name\":\"A\",\"id\":1,\"language_code\":\"en\"}"
            .to_vec()
    );
}

#[test]
fn candidate_names_are_json_escaped() {
    let entries = vec![entry(b"id", b"1"), entry(b"we\"ird\\", b"2")];
    let json = candidate_user_json(&entries, 0);
    assert_eq!(json, b"{\"id\":1,\"we\\\"ird\\\\\":2}".to_vec());
}

#[test]
fn resolver_finds_the_signed_permutation() {
    let entries = four_field_user();
    // the signature was computed over the permutation that leads with
    // first_name, as some clients serialised it
    let user_json = b"{\"first_name\":\"A\",\"id\":1,\"last_name\":\"B\",\"username\":\"C\"}";
    let check_string = [b"auth_date=1700000000\nuser=".as_ref(), user_json].concat();
    let hash = hex_hash_over(&check_string);
    let found = resolve_user_order(&entries, b"1700000000", &hash, TOKEN);
    let (k, json) = found.expect("resolver should find the signed permutation");
    assert_eq!(json, user_json.to_vec());
    assert_eq!(k, 6);
}

#[test]
fn resolver_prefers_the_first_candidate() {
    let entries = four_field_user();
    let user_json = b"{\"id\":1,\"first_name\":\"A\",\"last_name\":\"B\",\"username\":\"C\"}";
    let check_string = [b"auth_date=3\nuser=".as_ref(), user_json].concat();
    let hash = hex_hash_over(&check_string);
    let found = resolve_user_order(&entries, b"3", &hash, TOKEN);
    assert_eq!(found.map(|p| p.0), Some(0));
}

#[test]
fn resolver_fails_when_nothing_matches() {
    let entries = four_field_user();
    let hash = b"0000000000000000000000000000000000000000000000000000000000000000";
    assert!(resolve_user_order(&entries, b"1700000000", hash, TOKEN).is_none());
}

#[test]
fn authenticate_legacy_path_verifies() {
    let entries = four_field_user();
    let user_json = b"{\"last_name\":\"B\",\"id\":1,\"first_name\":\"A\",\"username\":\"C\"}";
    let check_string = [b"auth_date=7\nuser=".as_ref(), user_json].concat();
    let hash = hex_hash_over(&check_string);
    let req = AuthRequest {
        init_data: None,
        hash: Some(hash),
        auth_date: Some(b"7".to_vec()),
        user: Some(entries),
    };
    match authenticate(&req, TOKEN, false) {
        VerificationOutcome::Verified(u) => {
            assert_eq!(u.id, 1);
            assert_eq!(u.first_name.as_deref(), Some("A"));
            assert_eq!(u.last_name.as_deref(), Some("B"));
            assert_eq!(u.username.as_deref(), Some("C"));
        },
        VerificationOutcome::Rejected(e) => panic!("rejected: {:?}", e),
    }
}

#[test]
fn bypass_never_activates_with_flag_off() {
    let req = AuthRequest {
        init_data: None,
        hash: Some(b"mock_hash_for_development_123".to_vec()),
        auth_date: Some(b"1".to_vec()),
        user: Some(four_field_user()),
    };
    assert!(matches!(
        authenticate(&req, TOKEN, false),
        VerificationOutcome::Rejected(AuthError::Authentication)
    ));
}

#[test]
fn bypass_with_flag_and_sentinel_verifies_best_effort() {
    let req = AuthRequest {
        init_data: None,
        hash: Some(b"mock_hash_for_development_123".to_vec()),
        auth_date: Some(b"1".to_vec()),
        user: Some(four_field_user()),
    };
    match authenticate(&req, TOKEN, true) {
        VerificationOutcome::Verified(u) => assert_eq!(u.id, 1),
        VerificationOutcome::Rejected(e) => panic!("rejected: {:?}", e),
    }
}

#[test]
fn bypass_needs_the_sentinel_even_in_dev_mode() {
    let req = AuthRequest {
        init_data: None,
        hash: Some(b"not_the_sentinel".to_vec()),
        auth_date: Some(b"1".to_vec()),
        user: Some(four_field_user()),
    };
    assert!(matches!(
        authenticate(&req, TOKEN, true),
        VerificationOutcome::Rejected(AuthError::Authentication)
    ));
}

#[test]
fn missing_both_paths_names_the_credentials() {
    let req = AuthRequest { init_data: None, hash: None, auth_date: None, user: None };
    assert!(matches!(
        authenticate(&req, TOKEN, true),
        VerificationOutcome::Rejected(AuthError::Validation(ValidationFault::MissingCredentials))
    ));
    let partial = AuthRequest {
        init_data: None,
        hash: Some(b"ff".to_vec()),
        auth_date: None,
        user: None,
    };
    assert!(matches!(
        authenticate(&partial, TOKEN, true),
        VerificationOutcome::Rejected(AuthError::Validation(ValidationFault::MissingCredentials))
    ));
}
