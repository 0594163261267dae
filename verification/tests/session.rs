//! The session-side helpers: claims, bearer parsing, and the plain shapes.

use miniapp_auth::models::bearer_token;
use miniapp_auth::models::claims_for;
use miniapp_auth::models::AuthResponse;
use miniapp_auth::models::Config;
use miniapp_auth::models::ConfirmClaimResponse;
use miniapp_auth::models::CreateClaimResponse;
use miniapp_auth::models::UpdateScoreRequest;
use miniapp_auth::models::UpdateScoreResponse;
use miniapp_auth::models::TOKEN_LIFETIME_SECONDS;

#[test]
fn claims_expire_one_day_after_issue() {
    let claims = claims_for("user-1".to_string(), 1_700_000_000);
    assert_eq!(claims.sub, "user-1");
    assert_eq!(claims.iat, 1_700_000_000);
    assert_eq!(claims.exp, 1_700_000_000 + 86400);
    assert_eq!(TOKEN_LIFETIME_SECONDS, 86400);
}

#[test]
fn bearer_token_strips_the_scheme_prefix() {
    assert_eq!(bearer_token(b"Bearer abc.def"), Some(b"abc.def".to_vec()));
    assert_eq!(bearer_token(b"Bearer "), Some(Vec::new()));
    assert_eq!(bearer_token(b"Basic abc"), None);
    assert_eq!(bearer_token(b"bearer abc"), None);
    assert_eq!(bearer_token(b"Bearer"), None);
}

#[test]
fn plain_shapes_hold_their_fields() {
    let config = Config {
        database_url: "postgres://localhost/db".to_string(),
        telegram_bot_token: "123:ABC".to_string(),
        jwt_secret: "test-secret".to_string(),
        port: 8000,
        dev_mode: false,
    };
    assert_eq!(config.port, 8000);
    let auth = AuthResponse { token: "t".to_string(), user_id: "u".to_string() };
    assert_eq!(auth.user_id, "u");
    let score_req = UpdateScoreRequest { score: 10 };
    let score_resp = UpdateScoreResponse { success: true, score: score_req.score };
    assert_eq!(score_resp.score, 10);
    let create = CreateClaimResponse { claim_id: "c".to_string(), status: "pending".to_string() };
    let confirm = ConfirmClaimResponse { success: true, status: "completed".to_string() };
    assert_eq!(create.status, "pending");
    assert!(confirm.success);
}
