//! Base64 texts of a digest, called through the `base64` crate.
//!
//! Telegram clients have sent the signature as hex, standard base64, or
//! URL-safe base64 without padding. Encoding and decoding under the two
//! base64 engines are named, not restated: each is a function of the input
//! alone.

use vstd::prelude::*;

use crate::bytestr::opt_bytes;

verus! {

/// What base64's `STANDARD` engine encodes `b` to (padded, `+/` alphabet).
pub uninterp spec fn base64_std_of(b: Seq<u8>) -> Seq<u8>;

/// What base64's `URL_SAFE_NO_PAD` engine encodes `b` to (unpadded, `-_`
/// alphabet).
pub uninterp spec fn base64_url_of(b: Seq<u8>) -> Seq<u8>;

/// What base64's `STANDARD` engine decodes `s` to, `None` where it rejects.
pub uninterp spec fn base64_std_decoded(s: Seq<u8>) -> Option<Seq<u8>>;

/// What base64's `URL_SAFE_NO_PAD` engine decodes `s` to, `None` where it
/// rejects.
pub uninterp spec fn base64_url_decoded(s: Seq<u8>) -> Option<Seq<u8>>;

/// Relies on base64's `Engine::encode` with the `STANDARD` engine: the text
/// depends on the input bytes alone.
#[verifier::external_body]
pub(crate) fn base64_std_encode(b: &[u8]) -> (r: Vec<u8>)
    ensures
        r@ == base64_std_of(b@),
{
    base64::Engine::encode(&base64::engine::general_purpose::STANDARD, b).into_bytes()
}

/// Relies on base64's `Engine::encode` with the `URL_SAFE_NO_PAD` engine:
/// the text depends on the input bytes alone.
#[verifier::external_body]
pub(crate) fn base64_url_encode(b: &[u8]) -> (r: Vec<u8>)
    ensures
        r@ == base64_url_of(b@),
{
    base64::Engine::encode(&base64::engine::general_purpose::URL_SAFE_NO_PAD, b).into_bytes()
}

/// Relies on base64's `Engine::decode` with the `STANDARD` engine: whether
/// it accepts, and what it returns, depend on the input bytes alone.
#[verifier::external_body]
pub(crate) fn base64_std_decode(s: &[u8]) -> (r: Option<Vec<u8>>)
    ensures
        opt_bytes(r) == base64_std_decoded(s@),
{
    match base64::Engine::decode(&base64::engine::general_purpose::STANDARD, s) {
        Ok(v) => Some(v),
        Err(_) => None,
    }
}

/// Relies on base64's `Engine::decode` with the `URL_SAFE_NO_PAD` engine:
/// whether it accepts, and what it returns, depend on the input bytes alone.
#[verifier::external_body]
pub(crate) fn base64_url_decode(s: &[u8]) -> (r: Option<Vec<u8>>)
    ensures
        opt_bytes(r) == base64_url_decoded(s@),
{
    match base64::Engine::decode(&base64::engine::general_purpose::URL_SAFE_NO_PAD, s) {
        Ok(v) => Some(v),
        Err(_) => None,
    }
}

} // verus!
