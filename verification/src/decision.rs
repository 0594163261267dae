//! The authentication decision.
//!
//! One call takes a request from pending to a terminal verdict. A raw
//! init-data string, where present, is the authoritative path: its failures
//! are final, never bypassed, whatever the development flag says. Only the
//! legacy triple of hash, auth date and user object goes through the
//! key-order resolver, and only its exhaustion may be bypassed, when the
//! development flag is set and the received hash starts with the sentinel
//! prefix. The bypass is decided here and nowhere else.

use vstd::prelude::*;

use crate::bytestr::starts_with;
use crate::errors::AuthError;
use crate::errors::ValidationFault;
use crate::fields::FieldView;
use crate::identity::TelegramUser;
use crate::identity::UserView;
use crate::identity::parse_user_json;
use crate::identity::user_claim_of;
use crate::names::dev_sentinel_prefix;
use crate::names::dev_sentinel_prefix_bytes;
use crate::parser::parse_user_from_init_data;
use crate::parser::spec_user_raw;
use crate::parser::spec_verify_init_data;
use crate::parser::verify_telegram_auth_from_init_data;
use crate::resolver::LegacyUserField;
use crate::resolver::candidate_json;
use crate::resolver::candidate_user_json;
use crate::resolver::resolve_user_order;
use crate::resolver::spec_resolve;

verus! {

/// An authentication request: the raw init data where the client still has
/// it, else the legacy triple.
pub struct AuthRequest {
    pub init_data: Option<Vec<u8>>,
    pub hash: Option<Vec<u8>>,
    pub auth_date: Option<Vec<u8>>,
    pub user: Option<Vec<LegacyUserField>>,
}

/// The mathematical view of a request.
pub ghost struct AuthRequestView {
    pub init_data: Option<Seq<u8>>,
    pub hash: Option<Seq<u8>>,
    pub auth_date: Option<Seq<u8>>,
    pub user: Option<Seq<FieldView>>,
}

impl View for AuthRequest {
    type V = AuthRequestView;

    open spec fn view(&self) -> AuthRequestView {
        AuthRequestView {
            init_data: match self.init_data {
                Some(d) => Some(d@),
                None => None,
            },
            hash: match self.hash {
                Some(h) => Some(h@),
                None => None,
            },
            auth_date: match self.auth_date {
                Some(a) => Some(a@),
                None => None,
            },
            user: match self.user {
                Some(u) => Some(u@.map_values(|f: LegacyUserField| f@)),
                None => None,
            },
        }
    }
}

/// The answer of one authentication call: an identity, or a rejection
/// with its reason.
#[derive(Debug)]
pub enum VerificationOutcome {
    Verified(TelegramUser),
    Rejected(AuthError),
}

/// The mathematical view of a verdict.
pub ghost enum OutcomeView {
    Verified(UserView),
    Rejected(AuthError),
}

/// The view of a verdict.
pub open spec fn outcome_view(o: VerificationOutcome) -> OutcomeView {
    match o {
        VerificationOutcome::Verified(u) => OutcomeView::Verified(u@),
        VerificationOutcome::Rejected(e) => OutcomeView::Rejected(e),
    }
}

/// Whether a received hash begins with the development sentinel prefix.
pub open spec fn is_dev_sentinel(h: Seq<u8>) -> bool {
    h.len() >= dev_sentinel_prefix().len() && h.take(dev_sentinel_prefix().len() as int)
        == dev_sentinel_prefix()
}

/// A verdict from an extracted claim: verified where the JSON held one.
pub open spec fn claim_outcome(o: Option<UserView>) -> OutcomeView {
    match o {
        Some(u) => OutcomeView::Verified(u),
        None => OutcomeView::Rejected(AuthError::Validation(ValidationFault::UserJsonInvalid)),
    }
}

/// What authenticating a request yields.
pub open spec fn spec_authenticate(
    req: AuthRequestView,
    bot_token: Seq<u8>,
    dev_mode: bool,
) -> OutcomeView {
    match req.init_data {
        Some(d) => match spec_verify_init_data(d, bot_token) {
            Err(e) => OutcomeView::Rejected(e),
            Ok(_) => match spec_user_raw(d) {
                None => OutcomeView::Rejected(
                    AuthError::Validation(ValidationFault::UserMissing),
                ),
                Some(raw) => claim_outcome(user_claim_of(raw)),
            },
        },
        None => match (req.hash, req.auth_date, req.user) {
            (Some(h), Some(ad), Some(entries)) => match spec_resolve(entries, ad, h, bot_token) {
                Some(k) => claim_outcome(user_claim_of(candidate_json(entries, k))),
                None => if dev_mode && is_dev_sentinel(h) {
                    claim_outcome(user_claim_of(candidate_json(entries, 23)))
                } else {
                    OutcomeView::Rejected(AuthError::Authentication)
                },
            },
            _ => OutcomeView::Rejected(
                AuthError::Validation(ValidationFault::MissingCredentials),
            ),
        },
    }
}

/// Authenticate a request against the bot token. The verdict is terminal
/// and classified; the development bypass can only ever reach the legacy
/// path, and only with the flag set.
pub fn authenticate(req: &AuthRequest, bot_token: &[u8], dev_mode: bool) -> (r:
    VerificationOutcome)
    ensures
        outcome_view(r) == spec_authenticate(req@, bot_token@, dev_mode),
{
    match &req.init_data {
        Some(d) => {
            match verify_telegram_auth_from_init_data(d.as_slice(), bot_token) {
                Err(e) => VerificationOutcome::Rejected(e),
                Ok(_) => match parse_user_from_init_data(d.as_slice()) {
                    Ok(u) => VerificationOutcome::Verified(u),
                    Err(e) => VerificationOutcome::Rejected(e),
                },
            }
        },
        None => {
            match (&req.hash, &req.auth_date, &req.user) {
                (Some(h), Some(ad), Some(entries)) => {
                    match resolve_user_order(entries, ad.as_slice(), h.as_slice(), bot_token) {
                        Some(found) => {
                            let (_, user_json) = found;
                            match parse_user_json(user_json.as_slice()) {
                                Some(u) => VerificationOutcome::Verified(u),
                                None => VerificationOutcome::Rejected(
                                    AuthError::Validation(ValidationFault::UserJsonInvalid),
                                ),
                            }
                        },
                        None => {
                            let sentinel = dev_sentinel_prefix_bytes();
                            if dev_mode && starts_with(h.as_slice(), sentinel.as_slice()) {
                                let user_json = candidate_user_json(entries, 23);
                                match parse_user_json(user_json.as_slice()) {
                                    Some(u) => VerificationOutcome::Verified(u),
                                    None => VerificationOutcome::Rejected(
                                        AuthError::Validation(ValidationFault::UserJsonInvalid),
                                    ),
                                }
                            } else {
                                VerificationOutcome::Rejected(AuthError::Authentication)
                            }
                        },
                    }
                },
                _ => VerificationOutcome::Rejected(
                    AuthError::Validation(ValidationFault::MissingCredentials),
                ),
            }
        },
    }
}

/// Law: the development bypass never activates with the flag off. A legacy
/// request none of whose candidates verifies is rejected as an
/// authentication failure, whatever the received hash holds, sentinel or
/// not.
pub proof fn lemma_no_bypass_without_flag(req: AuthRequestView, bot_token: Seq<u8>)
    requires
        req.init_data is None,
        req.hash is Some,
        req.auth_date is Some,
        req.user is Some,
        spec_resolve(req.user->0, req.auth_date->0, req.hash->0, bot_token) is None,
    ensures
        spec_authenticate(req, bot_token, false) == OutcomeView::Rejected(
            AuthError::Authentication,
        ),
{
}

/// Law: with the development flag off, the verdict does not depend on the
/// flag's sentinel rule at all: it equals the verdict of a world where the
/// bypass does not exist.
pub proof fn lemma_raw_path_never_bypassed(req: AuthRequestView, bot_token: Seq<u8>, dev: bool)
    requires
        req.init_data is Some,
    ensures
        spec_authenticate(req, bot_token, dev) == spec_authenticate(req, bot_token, false),
{
}

} // verus!
