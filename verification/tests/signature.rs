//! The signer and verifier: the pinned golden vector, the accepted
//! encodings, and determinism.

use base64::Engine;
use hmac::Mac;
use miniapp_auth::fields::AuthField;
use miniapp_auth::fields::FieldSet;
use miniapp_auth::hexcode::hex_encode;
use miniapp_auth::mac::compute_signature;
use miniapp_auth::signer::generate_telegram_hash;
use miniapp_auth::signer::verify;
use miniapp_auth::signer::verify_detailed;
use miniapp_auth::signer::SignatureMatch;
use sha2::Digest;

fn hmac_direct(key: &[u8], msg: &[u8]) -> Vec<u8> {
    let mut mac = <hmac::Hmac<sha2::Sha256> as hmac::KeyInit>::new_from_slice(key).unwrap();
    mac.update(msg);
    mac.finalize().into_bytes().to_vec()
}

const GOLDEN_CHECK_STRING: &[u8] = b"auth_date=1700000000\nuser={\"id\":1}";
const GOLDEN_TOKEN: &[u8] = b"123:ABC";

#[test]
fn golden_vector_reproducible() {
    let digest = compute_signature(GOLDEN_CHECK_STRING, GOLDEN_TOKEN);
    let expected = hmac_direct(&hmac_direct(b"WebAppData", GOLDEN_TOKEN), GOLDEN_CHECK_STRING);
    assert_eq!(digest, expected);
    let hex_text = String::from_utf8(hex_encode(&digest)).unwrap();
    assert_eq!(
        hex_text,
        "9acd6bb185a9e28e427d793906e477ac2a730c3766bfc6965776edd9d8e26e5a"
    );
}

#[test]
fn verify_is_deterministic() {
    let sig = b"0011223344";
    let first = verify(GOLDEN_CHECK_STRING, sig, GOLDEN_TOKEN);
    let second = verify(GOLDEN_CHECK_STRING, sig, GOLDEN_TOKEN);
    assert_eq!(first, second);
    let good = hex_encode(&compute_signature(GOLDEN_CHECK_STRING, GOLDEN_TOKEN));
    assert_eq!(
        verify(GOLDEN_CHECK_STRING, &good, GOLDEN_TOKEN),
        verify(GOLDEN_CHECK_STRING, &good, GOLDEN_TOKEN)
    );
}

#[test]
fn verify_accepts_hex_text() {
    let digest = compute_signature(GOLDEN_CHECK_STRING, GOLDEN_TOKEN);
    let sig = hex_encode(&digest);
    assert!(verify(GOLDEN_CHECK_STRING, &sig, GOLDEN_TOKEN));
    assert_eq!(
        verify_detailed(GOLDEN_CHECK_STRING, &sig, GOLDEN_TOKEN),
        SignatureMatch::HexText
    );
}

#[test]
fn verify_accepts_base64_text() {
    let digest = compute_signature(GOLDEN_CHECK_STRING, GOLDEN_TOKEN);
    let sig = base64::engine::general_purpose::STANDARD.encode(&digest).into_bytes();
    assert!(verify(GOLDEN_CHECK_STRING, &sig, GOLDEN_TOKEN));
    assert_eq!(
        verify_detailed(GOLDEN_CHECK_STRING, &sig, GOLDEN_TOKEN),
        SignatureMatch::Base64Text
    );
}

#[test]
fn verify_accepts_base64url_text() {
    let digest = compute_signature(GOLDEN_CHECK_STRING, GOLDEN_TOKEN);
    let sig = base64::engine::general_purpose::URL_SAFE_NO_PAD.encode(&digest).into_bytes();
    assert!(verify(GOLDEN_CHECK_STRING, &sig, GOLDEN_TOKEN));
    assert_eq!(
        verify_detailed(GOLDEN_CHECK_STRING, &sig, GOLDEN_TOKEN),
        SignatureMatch::Base64UrlText
    );
}

#[test]
fn verify_accepts_uppercase_hex_as_decoded_bytes() {
    let digest = compute_signature(GOLDEN_CHECK_STRING, GOLDEN_TOKEN);
    let sig = hex::encode_upper(&digest).into_bytes();
    assert!(verify(GOLDEN_CHECK_STRING, &sig, GOLDEN_TOKEN));
    assert_eq!(
        verify_detailed(GOLDEN_CHECK_STRING, &sig, GOLDEN_TOKEN),
        SignatureMatch::DecodedBytes
    );
}

#[test]
fn verify_rejects_wrong_signature() {
    let mut sig = hex_encode(&compute_signature(GOLDEN_CHECK_STRING, GOLDEN_TOKEN));
    sig[0] = if sig[0] == b'0' { b'1' } else { b'0' };
    assert!(!verify(GOLDEN_CHECK_STRING, &sig, GOLDEN_TOKEN));
    assert_eq!(
        verify_detailed(GOLDEN_CHECK_STRING, &sig, GOLDEN_TOKEN),
        SignatureMatch::NoMatch
    );
}

#[test]
fn raw_digest_bytes_are_not_accepted_as_text() {
    let digest = compute_signature(GOLDEN_CHECK_STRING, GOLDEN_TOKEN);
    assert!(!verify(GOLDEN_CHECK_STRING, &digest, GOLDEN_TOKEN));
}

#[test]
fn verify_rejects_under_wrong_token() {
    let sig = hex_encode(&compute_signature(GOLDEN_CHECK_STRING, GOLDEN_TOKEN));
    assert!(!verify(GOLDEN_CHECK_STRING, &sig, b"123:WRONG"));
}

#[test]
fn legacy_hash_generator_matches_direct_computation() {
    let fs = FieldSet {
        fields: vec![
            AuthField { name: b"auth_date".to_vec(), value: b"1234567890".to_vec() },
            AuthField { name: b"user".to_vec(), value: b"{\"id\":7}".to_vec() },
        ],
    };
    let produced = generate_telegram_hash(&fs, b"555:TOKEN");
    let check_string = b"auth_date=1234567890\nuser={\"id\":7}";
    let legacy_key = sha2::Sha256::digest(b"555:TOKEN").to_vec();
    let expected = hex::encode(hmac_direct(&legacy_key, check_string)).into_bytes();
    assert_eq!(produced, expected);
}
