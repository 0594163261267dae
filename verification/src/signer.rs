//! The signature verifier.
//!
//! A received signature is accepted when it equals one of three textual
//! encodings of the computed HMAC-SHA256 digest (lowercase hex, standard
//! base64, URL-safe unpadded base64), or when it decodes to the raw digest
//! bytes, the decodings tried as hex, then URL-safe base64, then standard
//! base64. Every byte comparison is constant time, and the verdict is a
//! function of check string, signature and bot token alone, so verification
//! is deterministic.

use vstd::prelude::*;

use crate::b64code::base64_std_decode;
use crate::b64code::base64_std_decoded;
use crate::b64code::base64_std_encode;
use crate::b64code::base64_std_of;
use crate::b64code::base64_url_decode;
use crate::b64code::base64_url_decoded;
use crate::b64code::base64_url_encode;
use crate::b64code::base64_url_of;
use crate::bytestr::ct_bytes_eq;
use crate::canon::build_check_string;
use crate::canon::spec_check_string;
use crate::fields::FieldSet;
use crate::hexcode::hex_decode;
use crate::hexcode::hex_decoded;
use crate::hexcode::hex_encode;
use crate::hexcode::hex_lower;
use crate::mac::compute_signature;
use crate::mac::compute_signature_legacy;
use crate::mac::spec_signature;
use crate::mac::spec_signature_legacy;
use crate::names::hash_key;
use crate::names::hash_key_bytes;

verus! {

/// Which candidate encoding a signature matched; for diagnostics only,
/// never for trust decisions.
#[derive(Clone, Copy, Debug, PartialEq, Eq, Structural)]
pub enum SignatureMatch {
    /// The signature is the lowercase hex text of the digest.
    HexText,
    /// The signature is the standard base64 text of the digest.
    Base64Text,
    /// The signature is the URL-safe unpadded base64 text of the digest.
    Base64UrlText,
    /// The signature decodes to the raw digest bytes.
    DecodedBytes,
    /// Nothing matched.
    NoMatch,
}

/// What the received signature decodes to: hex is tried first, then
/// URL-safe base64, then standard base64.
pub open spec fn spec_decoded_signature(sig: Seq<u8>) -> Option<Seq<u8>> {
    if hex_decoded(sig) is Some {
        hex_decoded(sig)
    } else if base64_url_decoded(sig) is Some {
        base64_url_decoded(sig)
    } else {
        base64_std_decoded(sig)
    }
}

/// The first encoding under which `sig` matches the digest of
/// `check_string` under `bot_token`, or `NoMatch`.
pub open spec fn spec_match_kind(
    check_string: Seq<u8>,
    sig: Seq<u8>,
    bot_token: Seq<u8>,
) -> SignatureMatch {
    let d = spec_signature(check_string, bot_token);
    if sig == hex_lower(d) {
        SignatureMatch::HexText
    } else if sig == base64_std_of(d) {
        SignatureMatch::Base64Text
    } else if sig == base64_url_of(d) {
        SignatureMatch::Base64UrlText
    } else if spec_decoded_signature(sig) == Some(d) {
        SignatureMatch::DecodedBytes
    } else {
        SignatureMatch::NoMatch
    }
}

/// Whether `sig` verifies against `check_string` under `bot_token`.
pub open spec fn spec_verify(check_string: Seq<u8>, sig: Seq<u8>, bot_token: Seq<u8>) -> bool {
    spec_match_kind(check_string, sig, bot_token) != SignatureMatch::NoMatch
}

/// Verify a signature and report which encoding matched. Deterministic: the
/// result is a function of the three inputs alone.
pub fn verify_detailed(check_string: &[u8], signature: &[u8], bot_token: &[u8]) -> (r:
    SignatureMatch)
    ensures
        r == spec_match_kind(check_string@, signature@, bot_token@),
{
    let digest = compute_signature(check_string, bot_token);
    let hex_text = hex_encode(digest.as_slice());
    if ct_bytes_eq(signature, hex_text.as_slice()) {
        return SignatureMatch::HexText;
    }
    let b64_text = base64_std_encode(digest.as_slice());
    if ct_bytes_eq(signature, b64_text.as_slice()) {
        return SignatureMatch::Base64Text;
    }
    let b64url_text = base64_url_encode(digest.as_slice());
    if ct_bytes_eq(signature, b64url_text.as_slice()) {
        return SignatureMatch::Base64UrlText;
    }
    let decoded: Option<Vec<u8>> = match hex_decode(signature) {
        Some(v) => Some(v),
        None => match base64_url_decode(signature) {
            Some(v) => Some(v),
            None => base64_std_decode(signature),
        },
    };
    match decoded {
        Some(v) => {
            if ct_bytes_eq(v.as_slice(), digest.as_slice()) {
                SignatureMatch::DecodedBytes
            } else {
                SignatureMatch::NoMatch
            }
        },
        None => SignatureMatch::NoMatch,
    }
}

/// Verify a signature against a check string. Deterministic: the verdict is
/// a function of the three inputs alone.
pub fn verify(check_string: &[u8], signature: &[u8], bot_token: &[u8]) -> (r: bool)
    ensures
        r == spec_verify(check_string@, signature@, bot_token@),
{
    let m = verify_detailed(check_string, signature, bot_token);
    !matches!(m, SignatureMatch::NoMatch)
}

/// Verify the signature of a field set: its check string leaves out the
/// `hash` field, which carries the signature itself.
pub fn verify_telegram_auth(fields: &FieldSet, hash: &[u8], bot_token: &[u8]) -> (r: bool)
    ensures
        r == spec_verify(spec_check_string(fields@, hash_key()), hash@, bot_token@),
{
    let excluded = hash_key_bytes();
    let check_string = build_check_string(fields, excluded.as_slice());
    verify(check_string.as_slice(), hash, bot_token)
}

/// The lowercase hex signature of a field set under the legacy key
/// derivation, as a test vector generator would produce it.
pub fn generate_telegram_hash(fields: &FieldSet, bot_token: &[u8]) -> (r: Vec<u8>)
    ensures
        r@ == hex_lower(
            spec_signature_legacy(spec_check_string(fields@, hash_key()), bot_token@),
        ),
{
    let excluded = hash_key_bytes();
    let check_string = build_check_string(fields, excluded.as_slice());
    let digest = compute_signature_legacy(check_string.as_slice(), bot_token);
    hex_encode(digest.as_slice())
}

} // verus!
