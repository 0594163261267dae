//! HMAC-SHA256 and SHA-256, called through the `hmac` and `sha2` crates.
//!
//! The digests themselves are named, not restated: `hmac_sha256_of` and
//! `sha256_of` stand for what the outside crates compute, which is a
//! function of the arguments alone. The two key-derivation rules of the
//! signing schemes are verified on top of those names.

use vstd::prelude::*;

use crate::names::web_app_data;
use crate::names::web_app_data_bytes;

verus! {

/// What HMAC-SHA256 keyed by `key` returns over `msg`.
pub uninterp spec fn hmac_sha256_of(key: Seq<u8>, msg: Seq<u8>) -> Seq<u8>;

/// What SHA-256 returns over `msg`.
pub uninterp spec fn sha256_of(msg: Seq<u8>) -> Seq<u8>;

/// Relies on hmac's `Hmac<Sha256>` (`new_from_slice`, `update`, `finalize`):
/// the tag is a function of key and message alone, 32 bytes long; HMAC
/// accepts keys of any length, so `new_from_slice` never fails.
#[verifier::external_body]
pub(crate) fn hmac_sha256(key: &[u8], msg: &[u8]) -> (r: Vec<u8>)
    ensures
        r@ == hmac_sha256_of(key@, msg@),
        r@.len() == 32,
{
    let mut mac = <hmac::Hmac<sha2::Sha256> as hmac::KeyInit>::new_from_slice(key).expect(
        "HMAC accepts keys of any length",
    );
    hmac::Mac::update(&mut mac, msg);
    hmac::Mac::finalize(mac).into_bytes().to_vec()
}

/// Relies on sha2's `Sha256::digest`: the digest is a function of the
/// message alone, 32 bytes long.
#[verifier::external_body]
pub(crate) fn sha256(msg: &[u8]) -> (r: Vec<u8>)
    ensures
        r@ == sha256_of(msg@),
        r@.len() == 32,
{
    <sha2::Sha256 as sha2::Digest>::digest(msg).to_vec()
}

/// The per-bot secret key of the current signing scheme:
/// HMAC-SHA256 keyed by the literal `WebAppData` over the bot token.
pub open spec fn spec_secret_key(bot_token: Seq<u8>) -> Seq<u8> {
    hmac_sha256_of(web_app_data(), bot_token)
}

/// The per-bot secret key of the legacy signing scheme:
/// SHA-256 of the bot token.
pub open spec fn spec_secret_key_legacy(bot_token: Seq<u8>) -> Seq<u8> {
    sha256_of(bot_token)
}

/// The HMAC-SHA256 digest a check string must carry under the current
/// scheme.
pub open spec fn spec_signature(check_string: Seq<u8>, bot_token: Seq<u8>) -> Seq<u8> {
    hmac_sha256_of(spec_secret_key(bot_token), check_string)
}

/// The HMAC-SHA256 digest a check string must carry under the legacy
/// scheme.
pub open spec fn spec_signature_legacy(check_string: Seq<u8>, bot_token: Seq<u8>) -> Seq<u8> {
    hmac_sha256_of(spec_secret_key_legacy(bot_token), check_string)
}

/// Derive the current-scheme secret key from the bot token.
pub fn derive_secret_key(bot_token: &[u8]) -> (r: Vec<u8>)
    ensures
        r@ == spec_secret_key(bot_token@),
        r@.len() == 32,
{
    let fixed_key = web_app_data_bytes();
    hmac_sha256(fixed_key.as_slice(), bot_token)
}

/// Derive the legacy-scheme secret key from the bot token.
pub fn derive_secret_key_legacy(bot_token: &[u8]) -> (r: Vec<u8>)
    ensures
        r@ == spec_secret_key_legacy(bot_token@),
        r@.len() == 32,
{
    sha256(bot_token)
}

/// Compute the digest of a check string under the current scheme.
pub fn compute_signature(check_string: &[u8], bot_token: &[u8]) -> (r: Vec<u8>)
    ensures
        r@ == spec_signature(check_string@, bot_token@),
        r@.len() == 32,
{
    let key = derive_secret_key(bot_token);
    hmac_sha256(key.as_slice(), check_string)
}

/// Compute the digest of a check string under the legacy scheme.
pub fn compute_signature_legacy(check_string: &[u8], bot_token: &[u8]) -> (r: Vec<u8>)
    ensures
        r@ == spec_signature_legacy(check_string@, bot_token@),
        r@.len() == 32,
{
    let key = derive_secret_key_legacy(bot_token);
    hmac_sha256(key.as_slice(), check_string)
}

} // verus!
