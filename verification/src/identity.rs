//! The extracted user identity, and the one call into serde_json that reads
//! it out of the `user` JSON text.

use vstd::prelude::*;

verus! {

/// The identity a verified payload asserts: the numeric id is required, the
/// names are optional.
#[derive(Debug)]
pub struct TelegramUser {
    pub id: i64,
    pub username: Option<String>,
    pub first_name: Option<String>,
    pub last_name: Option<String>,
}

/// The mathematical view of an identity.
pub ghost struct UserView {
    pub id: int,
    pub username: Option<Seq<char>>,
    pub first_name: Option<Seq<char>>,
    pub last_name: Option<Seq<char>>,
}

impl View for TelegramUser {
    type V = UserView;

    open spec fn view(&self) -> UserView {
        UserView {
            id: self.id as int,
            username: match self.username {
                Some(s) => Some(s@),
                None => None,
            },
            first_name: match self.first_name {
                Some(s) => Some(s@),
                None => None,
            },
            last_name: match self.last_name {
                Some(s) => Some(s@),
                None => None,
            },
        }
    }
}

/// The identity held by a JSON text: what serde_json reads out of it, a
/// function of the text alone. `None` where the text is not a JSON object
/// with an integer `id`.
pub uninterp spec fn user_claim_of(json: Seq<u8>) -> Option<UserView>;

/// The identity view of an optional user.
pub open spec fn opt_user_view(o: Option<TelegramUser>) -> Option<UserView> {
    match o {
        Some(u) => Some(u@),
        None => None,
    }
}

/// Relies on serde_json: `from_slice` parses the text, `Value::as_object`,
/// `Map::get`, `Value::as_i64` and `Value::as_str` read the object. The
/// result depends on the text alone: `None` unless the text is a JSON
/// object with an integer `id`; the three optional names are taken where
/// they are strings.
#[verifier::external_body]
pub(crate) fn parse_user_json(json: &[u8]) -> (r: Option<TelegramUser>)
    ensures
        opt_user_view(r) == user_claim_of(json@),
{
    let v: serde_json::Value = serde_json::from_slice(json).ok()?;
    let obj = v.as_object()?;
    Some(TelegramUser {
        id: obj.get("id").and_then(|x| x.as_i64())?,
        username: obj.get("username").and_then(|x| x.as_str()).map(|s| s.to_string()),
        first_name: obj.get("first_name").and_then(|x| x.as_str()).map(|s| s.to_string()),
        last_name: obj.get("last_name").and_then(|x| x.as_str()).map(|s| s.to_string()),
    })
}

} // verus!
