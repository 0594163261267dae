//! The plain data shapes around the core: configuration, session claims,
//! and the response bodies of the surrounding service.

use vstd::prelude::*;

use crate::bytestr::slice_range;
use crate::bytestr::starts_with;

verus! {

/// `Bearer ` (with its trailing space), the authorization scheme prefix.
pub open spec fn bearer_prefix() -> Seq<u8> {
    seq![66u8, 101u8, 97u8, 114u8, 101u8, 114u8, 32u8]
}

/// `Bearer ` as bytes.
pub fn bearer_prefix_bytes() -> (r: Vec<u8>)
    ensures
        r@ == bearer_prefix(),
{
    let mut v: Vec<u8> = Vec::new();
    v.push(66);
    v.push(101);
    v.push(97);
    v.push(114);
    v.push(101);
    v.push(114);
    v.push(32);
    proof {
        assert(v@ =~= bearer_prefix());
    }
    v
}

/// The token carried by an authorization header: what follows the
/// `Bearer ` prefix, or nothing where the prefix is absent.
pub fn bearer_token(header: &[u8]) -> (r: Option<Vec<u8>>)
    ensures
        match r {
            Some(t) => header@.len() >= bearer_prefix().len() && header@.take(
                bearer_prefix().len() as int,
            ) == bearer_prefix() && t@ == header@.skip(bearer_prefix().len() as int),
            None => !(header@.len() >= bearer_prefix().len() && header@.take(
                bearer_prefix().len() as int,
            ) == bearer_prefix()),
        },
{
    let prefix = bearer_prefix_bytes();
    if starts_with(header, prefix.as_slice()) {
        let rest = slice_range(header, prefix.len(), header.len());
        proof {
            assert(rest@ =~= header@.skip(bearer_prefix().len() as int));
        }
        Some(rest)
    } else {
        None
    }
}

/// Service configuration, loaded by the surrounding process. The
/// development-mode flag gates nothing but the bypass at the
/// authentication boundary, and defaults to off wherever it is not set
/// explicitly.
#[derive(Debug)]
pub struct Config {
    pub database_url: String,
    pub telegram_bot_token: String,
    pub jwt_secret: String,
    pub port: u16,
    pub dev_mode: bool,
}

/// The claims of a session token: subject, expiry, issue time.
#[derive(Debug)]
pub struct Claims {
    pub sub: String,
    pub exp: usize,
    pub iat: usize,
}

/// A day in seconds, the lifetime of a session token.
pub const TOKEN_LIFETIME_SECONDS: usize = 86400;

/// The claims of a session issued to `user_id` at `now`: the token expires
/// one day later.
pub fn claims_for(user_id: String, now: usize) -> (r: Claims)
    requires
        now + TOKEN_LIFETIME_SECONDS <= usize::MAX,
    ensures
        r.sub@ == user_id@,
        r.iat == now,
        r.exp == now + TOKEN_LIFETIME_SECONDS,
{
    Claims { sub: user_id, exp: now + TOKEN_LIFETIME_SECONDS, iat: now }
}

/// A successful authentication answer: the session token and the stable
/// user key it is bound to.
#[derive(Debug)]
pub struct AuthResponse {
    pub token: String,
    pub user_id: String,
}

/// A request to record a score.
#[derive(Debug)]
pub struct UpdateScoreRequest {
    pub score: i32,
}

/// The answer to a score update: the best score kept.
#[derive(Debug)]
pub struct UpdateScoreResponse {
    pub success: bool,
    pub score: i32,
}

/// The answer to opening a claim.
#[derive(Debug)]
pub struct CreateClaimResponse {
    pub claim_id: String,
    pub status: String,
}

/// The answer to confirming a claim.
#[derive(Debug)]
pub struct ConfirmClaimResponse {
    pub success: bool,
    pub status: String,
}

} // verus!
