//! The canonicalizer and the byte codecs, held against independent
//! implementations and pinned expectations.

use miniapp_auth::canon::build_check_string;
use miniapp_auth::fields::AuthField;
use miniapp_auth::fields::FieldSet;
use miniapp_auth::hexcode::hex_decode;
use miniapp_auth::hexcode::hex_encode;
use miniapp_auth::urlcode::percent_decode;

fn field(name: &[u8], value: &[u8]) -> AuthField {
    AuthField { name: name.to_vec(), value: value.to_vec() }
}

#[test]
fn check_string_sorts_keys_and_drops_hash() {
    let fs = FieldSet {
        fields: vec![
            field(b"user", b"{\"id\":1}"),
            field(b"hash", b"aabbcc"),
            field(b"auth_date", b"1700000000"),
            field(b"query_id", b"AAH"),
        ],
    };
    let cs = build_check_string(&fs, b"hash");
    assert_eq!(cs, b"auth_date=1700000000\nquery_id=AAH\nuser={\"id\":1}".to_vec());
}

#[test]
fn check_string_of_empty_set_is_empty() {
    let fs = FieldSet { fields: vec![] };
    assert_eq!(build_check_string(&fs, b"hash"), Vec::<u8>::new());
}

#[test]
fn check_string_keeps_signature_field() {
    let fs = FieldSet {
        fields: vec![
            field(b"signature", b"zzz"),
            field(b"auth_date", b"1"),
            field(b"hash", b"ff"),
        ],
    };
    let cs = build_check_string(&fs, b"hash");
    assert_eq!(cs, b"auth_date=1\nsignature=zzz".to_vec());
}

#[test]
fn check_string_equal_keys_keep_arrival_order() {
    let fs = FieldSet {
        fields: vec![field(b"a", b"first"), field(b"b", b"mid"), field(b"a", b"second")],
    };
    let cs = build_check_string(&fs, b"hash");
    assert_eq!(cs, b"a=first\na=second\nb=mid".to_vec());
}

#[test]
fn field_set_insert_replaces_existing_name() {
    let mut fs = FieldSet::new();
    fs.insert(b"auth_date".to_vec(), b"1".to_vec());
    fs.insert(b"auth_date".to_vec(), b"2".to_vec());
    fs.insert(b"user".to_vec(), b"u".to_vec());
    assert_eq!(fs.len(), 2);
    assert_eq!(build_check_string(&fs, b"hash"), b"auth_date=2\nuser=u".to_vec());
}

#[test]
fn hex_encode_matches_hex_crate() {
    let samples: Vec<Vec<u8>> = vec![
        vec![],
        vec![0],
        vec![255, 0, 16, 127],
        (0u8..=255).collect(),
    ];
    for s in samples {
        assert_eq!(hex_encode(&s), hex::encode(&s).into_bytes());
    }
}

#[test]
fn hex_decode_matches_hex_crate() {
    let good: Vec<&[u8]> = vec![b"", b"00", b"deadBEEF", b"0123456789abcdefABCDEF"];
    for s in good {
        assert_eq!(hex_decode(s), hex::decode(s).ok());
    }
    let bad: Vec<&[u8]> = vec![b"0", b"0g", b"zz", b"abc"];
    for s in bad {
        assert!(hex_decode(s).is_none());
        assert!(hex::decode(s).is_err());
    }
}

#[test]
fn percent_decode_matches_percent_encoding_crate() {
    let samples: Vec<&str> = vec![
        "",
        "plain",
        "%7B%22id%22%3A42%7D",
        "a%20b%2Fc",
        "%e2%82%ac",
        "100%",
        "%4g",
        "%%41",
    ];
    for s in samples {
        let ours = percent_decode(s.as_bytes());
        let theirs: Vec<u8> = percent_encoding::percent_decode_str(s).collect();
        assert_eq!(ours, theirs, "mismatch on {:?}", s);
    }
}
