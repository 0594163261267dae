//! The byte constants of Telegram's wire format.
//!
//! Verus has no byte-string literals, so every name is given twice: a spec
//! sequence that the contracts speak of, and an executable builder proved to
//! produce exactly that sequence. The ASCII text of each name is in its doc
//! comment.

use vstd::prelude::*;

verus! {

/// `&`
pub const AMP: u8 = 38;

/// `=`
pub const EQ: u8 = 61;

/// `\n`
pub const NL: u8 = 10;

/// `%`
pub const PCT: u8 = 37;

/// `"`
pub const QUOTE: u8 = 34;

/// `\`
pub const BACKSLASH: u8 = 92;

/// `:`
pub const COLON: u8 = 58;

/// `,`
pub const COMMA: u8 = 44;

/// `{`
pub const LBRACE: u8 = 123;

/// `}`
pub const RBRACE: u8 = 125;

/// `WebAppData`, the fixed HMAC key that turns a bot token into the
/// per-bot secret key of the current signing scheme.
pub open spec fn web_app_data() -> Seq<u8> {
    seq![87u8, 101u8, 98u8, 65u8, 112u8, 112u8, 68u8, 97u8, 116u8, 97u8]
}

/// `WebAppData` as bytes.
pub fn web_app_data_bytes() -> (r: Vec<u8>)
    ensures
        r@ == web_app_data(),
{
    let mut v: Vec<u8> = Vec::new();
    v.push(87);
    v.push(101);
    v.push(98);
    v.push(65);
    v.push(112);
    v.push(112);
    v.push(68);
    v.push(97);
    v.push(116);
    v.push(97);
    proof {
        assert(v@ =~= web_app_data());
    }
    v
}

/// `hash`, the field that carries the HMAC signature.
pub open spec fn hash_key() -> Seq<u8> {
    seq![104u8, 97u8, 115u8, 104u8]
}

/// `hash` as bytes.
pub fn hash_key_bytes() -> (r: Vec<u8>)
    ensures
        r@ == hash_key(),
{
    let mut v: Vec<u8> = Vec::new();
    v.push(104);
    v.push(97);
    v.push(115);
    v.push(104);
    proof {
        assert(v@ =~= hash_key());
    }
    v
}

/// `signature`, the field that carries the Ed25519 signature of newer
/// clients; it is signed like any other field but cannot be checked here.
pub open spec fn signature_key() -> Seq<u8> {
    seq![115u8, 105u8, 103u8, 110u8, 97u8, 116u8, 117u8, 114u8, 101u8]
}

/// `signature` as bytes.
pub fn signature_key_bytes() -> (r: Vec<u8>)
    ensures
        r@ == signature_key(),
{
    let mut v: Vec<u8> = Vec::new();
    v.push(115);
    v.push(105);
    v.push(103);
    v.push(110);
    v.push(97);
    v.push(116);
    v.push(117);
    v.push(114);
    v.push(101);
    proof {
        assert(v@ =~= signature_key());
    }
    v
}

/// `user`, the field that carries the identity object as JSON.
pub open spec fn user_key() -> Seq<u8> {
    seq![117u8, 115u8, 101u8, 114u8]
}

/// `user` as bytes.
pub fn user_key_bytes() -> (r: Vec<u8>)
    ensures
        r@ == user_key(),
{
    let mut v: Vec<u8> = Vec::new();
    v.push(117);
    v.push(115);
    v.push(101);
    v.push(114);
    proof {
        assert(v@ =~= user_key());
    }
    v
}

/// `auth_date`, the issue timestamp field.
pub open spec fn auth_date_key() -> Seq<u8> {
    seq![97u8, 117u8, 116u8, 104u8, 95u8, 100u8, 97u8, 116u8, 101u8]
}

/// `auth_date` as bytes.
pub fn auth_date_key_bytes() -> (r: Vec<u8>)
    ensures
        r@ == auth_date_key(),
{
    let mut v: Vec<u8> = Vec::new();
    v.push(97);
    v.push(117);
    v.push(116);
    v.push(104);
    v.push(95);
    v.push(100);
    v.push(97);
    v.push(116);
    v.push(101);
    proof {
        assert(v@ =~= auth_date_key());
    }
    v
}

/// `id`, the numeric identity field of the user object.
pub open spec fn id_key() -> Seq<u8> {
    seq![105u8, 100u8]
}

/// `id` as bytes.
pub fn id_key_bytes() -> (r: Vec<u8>)
    ensures
        r@ == id_key(),
{
    let mut v: Vec<u8> = Vec::new();
    v.push(105);
    v.push(100);
    proof {
        assert(v@ =~= id_key());
    }
    v
}

/// `first_name`.
pub open spec fn first_name_key() -> Seq<u8> {
    seq![102u8, 105u8, 114u8, 115u8, 116u8, 95u8, 110u8, 97u8, 109u8, 101u8]
}

/// `first_name` as bytes.
pub fn first_name_key_bytes() -> (r: Vec<u8>)
    ensures
        r@ == first_name_key(),
{
    let mut v: Vec<u8> = Vec::new();
    v.push(102);
    v.push(105);
    v.push(114);
    v.push(115);
    v.push(116);
    v.push(95);
    v.push(110);
    v.push(97);
    v.push(109);
    v.push(101);
    proof {
        assert(v@ =~= first_name_key());
    }
    v
}

/// `last_name`.
pub open spec fn last_name_key() -> Seq<u8> {
    seq![108u8, 97u8, 115u8, 116u8, 95u8, 110u8, 97u8, 109u8, 101u8]
}

/// `last_name` as bytes.
pub fn last_name_key_bytes() -> (r: Vec<u8>)
    ensures
        r@ == last_name_key(),
{
    let mut v: Vec<u8> = Vec::new();
    v.push(108);
    v.push(97);
    v.push(115);
    v.push(116);
    v.push(95);
    v.push(110);
    v.push(97);
    v.push(109);
    v.push(101);
    proof {
        assert(v@ =~= last_name_key());
    }
    v
}

/// `username`.
pub open spec fn username_key() -> Seq<u8> {
    seq![117u8, 115u8, 101u8, 114u8, 110u8, 97u8, 109u8, 101u8]
}

/// `username` as bytes.
pub fn username_key_bytes() -> (r: Vec<u8>)
    ensures
        r@ == username_key(),
{
    let mut v: Vec<u8> = Vec::new();
    v.push(117);
    v.push(115);
    v.push(101);
    v.push(114);
    v.push(110);
    v.push(97);
    v.push(109);
    v.push(101);
    proof {
        assert(v@ =~= username_key());
    }
    v
}

/// `mock_hash_for_development_`, the sentinel prefix that the development
/// bypass recognises. The bypass is decided only at the authentication
/// boundary, never inside the canonicalizer or the verifier.
pub open spec fn dev_sentinel_prefix() -> Seq<u8> {
    seq![
        109u8, 111u8, 99u8, 107u8, 95u8, 104u8, 97u8, 115u8, 104u8, 95u8, 102u8, 111u8,
        114u8, 95u8, 100u8, 101u8, 118u8, 101u8, 108u8, 111u8, 112u8, 109u8, 101u8,
        110u8, 116u8, 95u8,
    ]
}

/// `mock_hash_for_development_` as bytes.
pub fn dev_sentinel_prefix_bytes() -> (r: Vec<u8>)
    ensures
        r@ == dev_sentinel_prefix(),
{
    let mut v: Vec<u8> = Vec::new();
    v.push(109);
    v.push(111);
    v.push(99);
    v.push(107);
    v.push(95);
    v.push(104);
    v.push(97);
    v.push(115);
    v.push(104);
    v.push(95);
    v.push(102);
    v.push(111);
    v.push(114);
    v.push(95);
    v.push(100);
    v.push(101);
    v.push(118);
    v.push(101);
    v.push(108);
    v.push(111);
    v.push(112);
    v.push(109);
    v.push(101);
    v.push(110);
    v.push(116);
    v.push(95);
    proof {
        assert(v@ =~= dev_sentinel_prefix());
    }
    v
}

} // verus!
