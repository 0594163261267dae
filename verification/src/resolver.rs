//! The legacy key-order resolver.
//!
//! The deprecated structured request shape delivers the user object already
//! parsed, so the byte order it had inside the originally signed string is
//! lost. The resolver re-serialises the object as compact JSON under every
//! permutation of the four canonical field names (`id`, `first_name`,
//! `last_name`, `username`; fields outside those four follow in arrival
//! order), runs the full canonicalizer and verifier over each candidate,
//! and stops at the first that verifies. A degraded compatibility path,
//! bounded by twenty-four HMAC computations; which permutation wins where
//! several could is settled by the enumeration order alone.

use vstd::prelude::*;

use crate::bytestr::ct_bytes_eq;
use crate::bytestr::slice_range;
use crate::canon::push_bytes;
use crate::canon::spec_check_string;
use crate::fields::AuthField;
use crate::fields::FieldSet;
use crate::fields::FieldView;
use crate::hexcode::hex_digit;
use crate::names::BACKSLASH;
use crate::names::COLON;
use crate::names::COMMA;
use crate::names::LBRACE;
use crate::names::QUOTE;
use crate::names::RBRACE;
use crate::names::auth_date_key;
use crate::names::auth_date_key_bytes;
use crate::names::first_name_key;
use crate::names::first_name_key_bytes;
use crate::names::hash_key;
use crate::names::id_key;
use crate::names::id_key_bytes;
use crate::names::last_name_key;
use crate::names::last_name_key_bytes;
use crate::names::user_key;
use crate::names::user_key_bytes;
use crate::names::username_key;
use crate::names::username_key_bytes;
use crate::signer::spec_verify;
use crate::signer::verify_telegram_auth;

verus! {

/// One top-level field of the legacy user object: its name, and its value
/// as the value's own compact JSON text.
pub struct LegacyUserField {
    pub name: Vec<u8>,
    pub value_json: Vec<u8>,
}

impl View for LegacyUserField {
    type V = FieldView;

    open spec fn view(&self) -> FieldView {
        FieldView { name: self.name@, value: self.value_json@ }
    }
}

/// The JSON escape of one byte inside a string literal, as compact
/// serialisers write it: `"` and `\` escaped, the named control escapes,
/// `\u00..` for the other control bytes, everything else verbatim.
pub open spec fn json_escaped_byte(b: u8) -> Seq<u8> {
    if b == QUOTE {
        seq![BACKSLASH, QUOTE]
    } else if b == BACKSLASH {
        seq![BACKSLASH, BACKSLASH]
    } else if b == 8 {
        seq![BACKSLASH, 98u8]
    } else if b == 9 {
        seq![BACKSLASH, 116u8]
    } else if b == 10 {
        seq![BACKSLASH, 110u8]
    } else if b == 12 {
        seq![BACKSLASH, 102u8]
    } else if b == 13 {
        seq![BACKSLASH, 114u8]
    } else if b < 32 {
        seq![BACKSLASH, 117u8, 48u8, 48u8, hex_digit(b / 16), hex_digit(b % 16)]
    } else {
        seq![b]
    }
}

/// The JSON escape of a whole string.
pub open spec fn json_escaped(s: Seq<u8>) -> Seq<u8>
    decreases s.len(),
{
    if s.len() == 0 {
        Seq::empty()
    } else {
        json_escaped(s.drop_last()) + json_escaped_byte(s.last())
    }
}

/// Escape a byte string for use inside a JSON string literal.
fn json_escape(s: &[u8]) -> (r: Vec<u8>)
    ensures
        r@ == json_escaped(s@),
{
    let mut out: Vec<u8> = Vec::new();
    let mut i: usize = 0;
    proof {
        assert(json_escaped(s@.take(0)) =~= Seq::<u8>::empty());
    }
    while i < s.len()
        invariant
            0 <= i <= s@.len(),
            out@ == json_escaped(s@.take(i as int)),
        decreases s@.len() - i,
    {
        let b = s[i];
        if b == QUOTE {
            out.push(BACKSLASH);
            out.push(QUOTE);
        } else if b == BACKSLASH {
            out.push(BACKSLASH);
            out.push(BACKSLASH);
        } else if b == 8 {
            out.push(BACKSLASH);
            out.push(98);
        } else if b == 9 {
            out.push(BACKSLASH);
            out.push(116);
        } else if b == 10 {
            out.push(BACKSLASH);
            out.push(110);
        } else if b == 12 {
            out.push(BACKSLASH);
            out.push(102);
        } else if b == 13 {
            out.push(BACKSLASH);
            out.push(114);
        } else if b < 32 {
            out.push(BACKSLASH);
            out.push(117);
            out.push(48);
            out.push(48);
            let hi = b / 16;
            let lo = b % 16;
            out.push(if hi < 10 { 48 + hi } else { 87 + hi });
            out.push(if lo < 10 { 48 + lo } else { 87 + lo });
        } else {
            out.push(b);
        }
        proof {
            let t = s@.take(i + 1 as int);
            assert(t.drop_last() =~= s@.take(i as int));
            assert(t.last() == s@[i as int]);
            assert(out@ =~= json_escaped(s@.take(i + 1 as int)));
        }
        i = i + 1;
    }
    proof {
        assert(s@.take(s@.len() as int) =~= s@);
    }
    out
}

/// One rendered object member: the escaped, quoted name, a colon, and the
/// value's JSON text verbatim.
pub open spec fn member_text(f: FieldView) -> Seq<u8> {
    seq![QUOTE] + json_escaped(f.name) + seq![QUOTE, COLON] + f.value
}

/// The members, joined by commas.
pub open spec fn members_text(s: Seq<FieldView>) -> Seq<u8>
    decreases s.len(),
{
    if s.len() == 0 {
        Seq::empty()
    } else if s.len() == 1 {
        member_text(s[0])
    } else {
        members_text(s.drop_last()) + seq![COMMA] + member_text(s.last())
    }
}

/// The compact JSON object text of the fields, in their given order.
pub open spec fn user_json_text(s: Seq<FieldView>) -> Seq<u8> {
    seq![LBRACE] + members_text(s) + seq![RBRACE]
}

/// Render the user object as compact JSON, fields in their given order.
pub fn render_user_json(entries: &Vec<LegacyUserField>) -> (r: Vec<u8>)
    ensures
        r@ == user_json_text(entries@.map_values(|f: LegacyUserField| f@)),
{
    let ghost views = entries@.map_values(|f: LegacyUserField| f@);
    let mut out: Vec<u8> = Vec::new();
    out.push(LBRACE);
    let mut i: usize = 0;
    proof {
        assert(members_text(views.take(0)) =~= Seq::<u8>::empty());
        assert(out@ =~= seq![LBRACE] + members_text(views.take(0)));
    }
    while i < entries.len()
        invariant
            0 <= i <= views.len(),
            views == entries@.map_values(|f: LegacyUserField| f@),
            views.len() == entries@.len(),
            out@ == seq![LBRACE] + members_text(views.take(i as int)),
        decreases views.len() - i,
    {
        let ghost t = views.take(i + 1 as int);
        proof {
            assert(t.drop_last() =~= views.take(i as int));
            assert(t.last() == views[i as int]);
            assert(views[i as int] == entries@[i as int]@);
        }
        if i > 0 {
            out.push(COMMA);
        }
        out.push(QUOTE);
        let escaped = json_escape(entries[i].name.as_slice());
        push_bytes(&mut out, escaped.as_slice());
        out.push(QUOTE);
        out.push(COLON);
        push_bytes(&mut out, entries[i].value_json.as_slice());
        proof {
            assert(out@ =~= seq![LBRACE] + members_text(views.take(i + 1 as int)));
        }
        i = i + 1;
    }
    out.push(RBRACE);
    proof {
        assert(views.take(views.len() as int) =~= views);
        assert(out@ =~= user_json_text(views));
    }
    out
}

/// The four canonical field names of the user object, by index.
pub open spec fn base_name(i: int) -> Seq<u8> {
    if i == 0 {
        id_key()
    } else if i == 1 {
        first_name_key()
    } else if i == 2 {
        last_name_key()
    } else {
        username_key()
    }
}

/// Whether a name is one of the four canonical field names.
pub open spec fn is_base_name(n: Seq<u8>) -> bool {
    n == id_key() || n == first_name_key() || n == last_name_key() || n == username_key()
}

/// The fields of `s` named `name`, in order.
pub open spec fn entries_named(s: Seq<FieldView>, name: Seq<u8>) -> Seq<FieldView>
    decreases s.len(),
{
    if s.len() == 0 {
        Seq::empty()
    } else if s.last().name == name {
        entries_named(s.drop_last(), name).push(s.last())
    } else {
        entries_named(s.drop_last(), name)
    }
}

/// The fields of `s` named outside the canonical four, in order.
pub open spec fn entries_not_base(s: Seq<FieldView>) -> Seq<FieldView>
    decreases s.len(),
{
    if s.len() == 0 {
        Seq::empty()
    } else if !is_base_name(s.last().name) {
        entries_not_base(s.drop_last()).push(s.last())
    } else {
        entries_not_base(s.drop_last())
    }
}

/// The permutation of the indices 0 to 3 at position `k` of the
/// lexicographic enumeration of all twenty-four.
pub open spec fn perm_order(k: int) -> Seq<int> {
    let base: Seq<int> = seq![0, 1, 2, 3];
    let a = base[k / 6];
    let r1 = base.remove(k / 6);
    let b = r1[(k % 6) / 2];
    let r2 = r1.remove((k % 6) / 2);
    let c = r2[k % 2];
    let d = r2.remove(k % 2)[0];
    seq![a, b, c, d]
}

/// The user object's fields in candidate order `k`: the four canonical
/// names in the permutation's order, then every other field.
pub open spec fn candidate_fields(s: Seq<FieldView>, k: int) -> Seq<FieldView> {
    let o = perm_order(k);
    entries_named(s, base_name(o[0])) + entries_named(s, base_name(o[1])) + entries_named(
        s,
        base_name(o[2]),
    ) + entries_named(s, base_name(o[3])) + entries_not_base(s)
}

/// The candidate JSON text at order `k`.
pub open spec fn candidate_json(s: Seq<FieldView>, k: int) -> Seq<u8> {
    user_json_text(candidate_fields(s, k))
}

/// The two signed fields of a legacy request: its auth date, and the user
/// object's JSON text.
pub open spec fn legacy_fields(auth_date: Seq<u8>, user_json: Seq<u8>) -> Seq<FieldView> {
    seq![
        (FieldView { name: auth_date_key(), value: auth_date }),
        (FieldView { name: user_key(), value: user_json }),
    ]
}

/// The check string of a legacy request.
pub open spec fn legacy_check_string(auth_date: Seq<u8>, user_json: Seq<u8>) -> Seq<u8> {
    spec_check_string(legacy_fields(auth_date, user_json), hash_key())
}

/// Whether candidate `k` verifies.
pub open spec fn candidate_verifies(
    entries: Seq<FieldView>,
    auth_date: Seq<u8>,
    hash: Seq<u8>,
    bot_token: Seq<u8>,
    k: int,
) -> bool {
    spec_verify(legacy_check_string(auth_date, candidate_json(entries, k)), hash, bot_token)
}

/// The first candidate index at or after `k` that verifies.
pub open spec fn spec_resolve_from(
    entries: Seq<FieldView>,
    auth_date: Seq<u8>,
    hash: Seq<u8>,
    bot_token: Seq<u8>,
    k: int,
) -> Option<int>
    decreases 24 - k,
{
    if k >= 24 {
        None
    } else if candidate_verifies(entries, auth_date, hash, bot_token, k) {
        Some(k)
    } else {
        spec_resolve_from(entries, auth_date, hash, bot_token, k + 1)
    }
}

/// The first of the twenty-four candidate orders that verifies.
pub open spec fn spec_resolve(
    entries: Seq<FieldView>,
    auth_date: Seq<u8>,
    hash: Seq<u8>,
    bot_token: Seq<u8>,
) -> Option<int> {
    spec_resolve_from(entries, auth_date, hash, bot_token, 0)
}

/// Where some candidate verifies, the resolver finds one: the first, which
/// itself verifies.
pub proof fn lemma_resolver_finds(
    entries: Seq<FieldView>,
    auth_date: Seq<u8>,
    hash: Seq<u8>,
    bot_token: Seq<u8>,
    k: int,
)
    requires
        0 <= k < 24,
        candidate_verifies(entries, auth_date, hash, bot_token, k),
    ensures
        spec_resolve(entries, auth_date, hash, bot_token) is Some,
        spec_resolve(entries, auth_date, hash, bot_token)->0 <= k,
        candidate_verifies(
            entries,
            auth_date,
            hash,
            bot_token,
            spec_resolve(entries, auth_date, hash, bot_token)->0,
        ),
{
    lemma_resolve_from_finds(entries, auth_date, hash, bot_token, 0, k);
}

proof fn lemma_resolve_from_finds(
    entries: Seq<FieldView>,
    auth_date: Seq<u8>,
    hash: Seq<u8>,
    bot_token: Seq<u8>,
    j: int,
    k: int,
)
    requires
        0 <= j <= k < 24,
        candidate_verifies(entries, auth_date, hash, bot_token, k),
    ensures
        spec_resolve_from(entries, auth_date, hash, bot_token, j) is Some,
        j <= spec_resolve_from(entries, auth_date, hash, bot_token, j)->0 <= k,
        candidate_verifies(
            entries,
            auth_date,
            hash,
            bot_token,
            spec_resolve_from(entries, auth_date, hash, bot_token, j)->0,
        ),
    decreases k - j,
{
    if !candidate_verifies(entries, auth_date, hash, bot_token, j) {
        lemma_resolve_from_finds(entries, auth_date, hash, bot_token, j + 1, k);
    }
}

/// The indices of permutation `k`, executably.
fn perm_order_exec(k: usize) -> (r: Vec<usize>)
    requires
        k < 24,
    ensures
        r@.map_values(|x: usize| x as int) == perm_order(k as int),
        r@.len() == 4,
{
    let mut base: Vec<usize> = Vec::new();
    base.push(0);
    base.push(1);
    base.push(2);
    base.push(3);
    let a = base.remove(k / 6);
    let b = base.remove((k % 6) / 2);
    let c = base.remove(k % 2);
    let d = base.remove(0);
    let mut r: Vec<usize> = Vec::new();
    r.push(a);
    r.push(b);
    r.push(c);
    r.push(d);
    proof {
        let sbase: Seq<int> = seq![0, 1, 2, 3];
        assert(r@.map_values(|x: usize| x as int) =~= perm_order(k as int)) by {
            assert(seq![0usize, 1usize, 2usize, 3usize].map_values(|x: usize| x as int)
                =~= sbase);
        }
    }
    r
}

/// The bytes of the canonical field name at `i`.
fn base_name_bytes(i: usize) -> (r: Vec<u8>)
    ensures
        r@ == base_name(i as int),
{
    if i == 0 {
        id_key_bytes()
    } else if i == 1 {
        first_name_key_bytes()
    } else if i == 2 {
        last_name_key_bytes()
    } else {
        username_key_bytes()
    }
}

/// A copy of one legacy field.
fn copy_field(f: &LegacyUserField) -> (r: LegacyUserField)
    ensures
        r@ == f@,
{
    let name = slice_range(f.name.as_slice(), 0, f.name.len());
    let value_json = slice_range(f.value_json.as_slice(), 0, f.value_json.len());
    proof {
        assert(name@ =~= f.name@);
        assert(value_json@ =~= f.value_json@);
    }
    LegacyUserField { name, value_json }
}

/// Append every entry named `name` to `out`, in order.
fn push_named(out: &mut Vec<LegacyUserField>, entries: &Vec<LegacyUserField>, name: &[u8])
    ensures
        final(out)@.map_values(|f: LegacyUserField| f@) == old(out)@.map_values(
            |f: LegacyUserField| f@,
        ) + entries_named(entries@.map_values(|f: LegacyUserField| f@), name@),
{
    let ghost views = entries@.map_values(|f: LegacyUserField| f@);
    let ghost base = old(out)@.map_values(|f: LegacyUserField| f@);
    let mut i: usize = 0;
    proof {
        assert(views.take(0) =~= Seq::<FieldView>::empty());
        assert(base + entries_named(views.take(0), name@) =~= base);
    }
    while i < entries.len()
        invariant
            0 <= i <= views.len(),
            views == entries@.map_values(|f: LegacyUserField| f@),
            views.len() == entries@.len(),
            base == old(out)@.map_values(|f: LegacyUserField| f@),
            out@.map_values(|f: LegacyUserField| f@) == base + entries_named(
                views.take(i as int),
                name@,
            ),
        decreases views.len() - i,
    {
        let ghost t = views.take(i + 1 as int);
        proof {
            assert(t.drop_last() =~= views.take(i as int));
            assert(t.last() == views[i as int]);
            assert(views[i as int] == entries@[i as int]@);
        }
        if ct_bytes_eq(entries[i].name.as_slice(), name) {
            let ghost before = out@.map_values(|f: LegacyUserField| f@);
            let c = copy_field(&entries[i]);
            out.push(c);
            proof {
                assert(out@.map_values(|f: LegacyUserField| f@) =~= before.push(
                    views[i as int],
                ));
                assert(before.push(views[i as int]) =~= base + entries_named(
                    views.take(i + 1 as int),
                    name@,
                ));
            }
        }
        i = i + 1;
    }
    proof {
        assert(views.take(views.len() as int) =~= views);
    }
}

/// Whether a name is one of the four canonical field names.
fn is_base_name_exec(name: &[u8]) -> (r: bool)
    ensures
        r == is_base_name(name@),
{
    let id_n = id_key_bytes();
    let fn_n = first_name_key_bytes();
    let ln_n = last_name_key_bytes();
    let un_n = username_key_bytes();
    ct_bytes_eq(name, id_n.as_slice()) || ct_bytes_eq(name, fn_n.as_slice()) || ct_bytes_eq(
        name,
        ln_n.as_slice(),
    ) || ct_bytes_eq(name, un_n.as_slice())
}

/// Append every entry named outside the canonical four to `out`, in order.
fn push_not_base(out: &mut Vec<LegacyUserField>, entries: &Vec<LegacyUserField>)
    ensures
        final(out)@.map_values(|f: LegacyUserField| f@) == old(out)@.map_values(
            |f: LegacyUserField| f@,
        ) + entries_not_base(entries@.map_values(|f: LegacyUserField| f@)),
{
    let ghost views = entries@.map_values(|f: LegacyUserField| f@);
    let ghost base = old(out)@.map_values(|f: LegacyUserField| f@);
    let mut i: usize = 0;
    proof {
        assert(views.take(0) =~= Seq::<FieldView>::empty());
        assert(base + entries_not_base(views.take(0)) =~= base);
    }
    while i < entries.len()
        invariant
            0 <= i <= views.len(),
            views == entries@.map_values(|f: LegacyUserField| f@),
            views.len() == entries@.len(),
            base == old(out)@.map_values(|f: LegacyUserField| f@),
            out@.map_values(|f: LegacyUserField| f@) == base + entries_not_base(
                views.take(i as int),
            ),
        decreases views.len() - i,
    {
        let ghost t = views.take(i + 1 as int);
        proof {
            assert(t.drop_last() =~= views.take(i as int));
            assert(t.last() == views[i as int]);
            assert(views[i as int] == entries@[i as int]@);
        }
        if !is_base_name_exec(entries[i].name.as_slice()) {
            let ghost before = out@.map_values(|f: LegacyUserField| f@);
            let c = copy_field(&entries[i]);
            out.push(c);
            proof {
                assert(out@.map_values(|f: LegacyUserField| f@) =~= before.push(
                    views[i as int],
                ));
                assert(before.push(views[i as int]) =~= base + entries_not_base(
                    views.take(i + 1 as int),
                ));
            }
        }
        i = i + 1;
    }
    proof {
        assert(views.take(views.len() as int) =~= views);
    }
}

/// The user object's JSON text under candidate order `k`.
pub fn candidate_user_json(entries: &Vec<LegacyUserField>, k: usize) -> (r: Vec<u8>)
    requires
        k < 24,
    ensures
        r@ == candidate_json(entries@.map_values(|f: LegacyUserField| f@), k as int),
{
    let ghost views = entries@.map_values(|f: LegacyUserField| f@);
    let order = perm_order_exec(k);
    let mut picked: Vec<LegacyUserField> = Vec::new();
    let n0 = base_name_bytes(order[0]);
    push_named(&mut picked, entries, n0.as_slice());
    let n1 = base_name_bytes(order[1]);
    push_named(&mut picked, entries, n1.as_slice());
    let n2 = base_name_bytes(order[2]);
    push_named(&mut picked, entries, n2.as_slice());
    let n3 = base_name_bytes(order[3]);
    push_named(&mut picked, entries, n3.as_slice());
    push_not_base(&mut picked, entries);
    proof {
        let o = perm_order(k as int);
        assert(o[0] == order@[0] as int);
        assert(o[1] == order@[1] as int);
        assert(o[2] == order@[2] as int);
        assert(o[3] == order@[3] as int);
        assert(picked@.map_values(|f: LegacyUserField| f@) =~= candidate_fields(
            views,
            k as int,
        ));
    }
    render_user_json(&picked)
}

/// Resolve the lost key order: the first candidate whose signature
/// verifies, with its JSON text; `None` where none of the twenty-four does.
pub fn resolve_user_order(
    entries: &Vec<LegacyUserField>,
    auth_date: &[u8],
    hash: &[u8],
    bot_token: &[u8],
) -> (r: Option<(usize, Vec<u8>)>)
    ensures
        match r {
            Some(p) => {
                &&& spec_resolve(
                    entries@.map_values(|f: LegacyUserField| f@),
                    auth_date@,
                    hash@,
                    bot_token@,
                ) == Some(p.0 as int)
                &&& p.0 < 24
                &&& p.1@ == candidate_json(
                    entries@.map_values(|f: LegacyUserField| f@),
                    p.0 as int,
                )
            },
            None => spec_resolve(
                entries@.map_values(|f: LegacyUserField| f@),
                auth_date@,
                hash@,
                bot_token@,
            ) is None,
        },
{
    let ghost views = entries@.map_values(|f: LegacyUserField| f@);
    let mut k: usize = 0;
    while k < 24
        invariant
            0 <= k <= 24,
            views == entries@.map_values(|f: LegacyUserField| f@),
            spec_resolve(views, auth_date@, hash@, bot_token@) == spec_resolve_from(
                views,
                auth_date@,
                hash@,
                bot_token@,
                k as int,
            ),
        decreases 24 - k,
    {
        let user_json = candidate_user_json(entries, k);
        let fs = legacy_field_set(auth_date, user_json.as_slice());
        if verify_telegram_auth(&fs, hash, bot_token) {
            return Some((k, user_json));
        }
        k = k + 1;
    }
    None
}

/// The two-field set of a legacy request.
fn legacy_field_set(auth_date: &[u8], user_json: &[u8]) -> (r: FieldSet)
    ensures
        r@ == legacy_fields(auth_date@, user_json@),
{
    let mut fields_vec: Vec<AuthField> = Vec::new();
    let ad_name = auth_date_key_bytes();
    let ad_value = slice_range(auth_date, 0, auth_date.len());
    fields_vec.push(AuthField { name: ad_name, value: ad_value });
    let u_name = user_key_bytes();
    let u_value = slice_range(user_json, 0, user_json.len());
    fields_vec.push(AuthField { name: u_name, value: u_value });
    let r = FieldSet { fields: fields_vec };
    proof {
        assert(r.fields@[0].value@ =~= auth_date@);
        assert(r.fields@[1].value@ =~= user_json@);
        assert(r@ =~= legacy_fields(auth_date@, user_json@));
    }
    r
}

} // verus!
