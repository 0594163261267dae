//! The payload parser for the raw `initData` wire form.
//!
//! The input is a single `&`-joined, `=`-delimited query string. Every pair
//! is kept except the `hash` field, whose raw value is the received
//! signature (the last occurrence wins, pairs without `=` are dropped);
//! every kept value is percent-decoded, since Telegram signs the decoded
//! form. The `user` field's decoded value (first occurrence) carries the
//! identity as JSON.

use vstd::prelude::*;

use crate::bytestr::ct_bytes_eq;
use crate::bytestr::opt_bytes;
use crate::bytestr::slice_range;
use crate::canon::build_check_string;
use crate::canon::drop_excluded;
use crate::canon::spec_check_string;
use crate::errors::AuthError;
use crate::errors::ValidationFault;
use crate::fields::AuthField;
use crate::fields::FieldSet;
use crate::fields::FieldView;
use crate::identity::TelegramUser;
use crate::identity::parse_user_json;
use crate::identity::user_claim_of;
use crate::names::AMP;
use crate::names::EQ;
use crate::names::hash_key;
use crate::names::hash_key_bytes;
use crate::names::signature_key;
use crate::names::signature_key_bytes;
use crate::names::user_key;
use crate::names::user_key_bytes;
use crate::signer::spec_verify;
use crate::signer::verify;
use crate::urlcode::percent_decode;
use crate::urlcode::percent_decoded;

verus! {

/// The index of the first `c` in `s`, or the length if there is none.
pub open spec fn find_byte(s: Seq<u8>, c: u8) -> int
    decreases s.len(),
{
    if s.len() == 0 {
        0
    } else if s[0] == c {
        0
    } else {
        1 + find_byte(s.drop_first(), c)
    }
}

proof fn lemma_find_byte(s: Seq<u8>, c: u8)
    ensures
        0 <= find_byte(s, c) <= s.len(),
        find_byte(s, c) < s.len() ==> s[find_byte(s, c)] == c,
        forall|k: int| 0 <= k < find_byte(s, c) ==> s[k] != c,
    decreases s.len(),
{
    if s.len() > 0 && s[0] != c {
        lemma_find_byte(s.drop_first(), c);
        assert(forall|k: int| 1 <= k < find_byte(s, c) ==> s[k] == s.drop_first()[k - 1]);
    }
}

proof fn lemma_find_byte_at(s: Seq<u8>, c: u8, i: int)
    requires
        0 <= i < s.len(),
        s[i] == c,
        forall|k: int| 0 <= k < i ==> s[k] != c,
    ensures
        find_byte(s, c) == i,
    decreases i,
{
    if i > 0 {
        lemma_find_byte_at(s.drop_first(), c, i - 1);
    }
}

proof fn lemma_find_byte_none(s: Seq<u8>, c: u8)
    requires
        forall|k: int| 0 <= k < s.len() ==> s[k] != c,
    ensures
        find_byte(s, c) == s.len(),
    decreases s.len(),
{
    if s.len() > 0 {
        assert(forall|k: int| 0 <= k < s.drop_first().len() ==> s.drop_first()[k] == s[k + 1]);
        lemma_find_byte_none(s.drop_first(), c);
    }
}

/// The index of the first `c` in `s`, or the length.
pub fn find_byte_in(s: &[u8], c: u8) -> (r: usize)
    ensures
        r as int == find_byte(s@, c),
{
    let mut i: usize = 0;
    while i < s.len()
        invariant
            0 <= i <= s@.len(),
            forall|k: int| 0 <= k < i ==> s@[k] != c,
        decreases s@.len() - i,
    {
        if s[i] == c {
            proof {
                lemma_find_byte_at(s@, c, i as int);
            }
            return i;
        }
        i = i + 1;
    }
    proof {
        lemma_find_byte_none(s@, c);
    }
    s.len()
}

/// The index of the first `c` in `s` at or after `from`, or the length.
fn find_byte_from(s: &[u8], c: u8, from: usize) -> (r: usize)
    requires
        from <= s@.len(),
    ensures
        from <= r <= s@.len(),
        r - from == find_byte(s@.skip(from as int), c),
{
    let ghost t = s@.skip(from as int);
    let mut i: usize = from;
    while i < s.len()
        invariant
            from <= i <= s@.len(),
            t == s@.skip(from as int),
            forall|k: int| from <= k < i ==> s@[k] != c,
        decreases s@.len() - i,
    {
        if s[i] == c {
            proof {
                assert(forall|m: int| 0 <= m < i - from ==> t[m] == s@[from + m]);
                assert(t[i - from] == s@[i as int]);
                lemma_find_byte_at(t, c, i - from);
            }
            return i;
        }
        i = i + 1;
    }
    proof {
        assert(forall|m: int| 0 <= m < t.len() ==> t[m] == s@[from + m]);
        lemma_find_byte_none(t, c);
    }
    s.len()
}

/// The segments of `s` split on `sep`. A trailing separator yields a final
/// empty segment, and the empty string is one empty segment.
pub open spec fn split_segments(s: Seq<u8>, sep: u8) -> Seq<Seq<u8>>
    decreases s.len(),
{
    let i = find_byte(s, sep);
    if 0 <= i < s.len() {
        seq![s.take(i)] + split_segments(s.skip(i + 1), sep)
    } else {
        seq![s]
    }
}

/// Split a byte string on `sep`.
pub fn split_bytes(s: &[u8], sep: u8) -> (r: Vec<Vec<u8>>)
    ensures
        r@.map_values(|v: Vec<u8>| v@) == split_segments(s@, sep),
{
    let mut segs: Vec<Vec<u8>> = Vec::new();
    let mut pos: usize = 0;
    proof {
        assert(s@.skip(0) =~= s@);
        assert(segs@.map_values(|v: Vec<u8>| v@) + split_segments(s@, sep) =~= split_segments(
            s@,
            sep,
        ));
    }
    loop
        invariant_except_break
            0 <= pos <= s@.len(),
            split_segments(s@, sep) == segs@.map_values(|v: Vec<u8>| v@) + split_segments(
                s@.skip(pos as int),
                sep,
            ),
        ensures
            segs@.map_values(|v: Vec<u8>| v@) == split_segments(s@, sep),
        decreases s@.len() - pos,
    {
        let ghost t = s@.skip(pos as int);
        proof {
            lemma_find_byte(t, sep);
        }
        let j = find_byte_from(s, sep, pos);
        let seg = slice_range(s, pos, j);
        let ghost segs_before = segs@.map_values(|v: Vec<u8>| v@);
        if j < s.len() {
            proof {
                assert(t.take(j - pos) =~= s@.subrange(pos as int, j as int));
                assert(t.skip(j - pos + 1) =~= s@.skip(j + 1 as int));
                assert(split_segments(t, sep) == seq![seg@] + split_segments(
                    s@.skip(j + 1 as int),
                    sep,
                ));
            }
            segs.push(seg);
            proof {
                assert(segs@.map_values(|v: Vec<u8>| v@) =~= segs_before.push(seg@));
                assert(segs_before.push(seg@) + split_segments(s@.skip(j + 1 as int), sep)
                    =~= segs_before + (seq![seg@] + split_segments(s@.skip(j + 1 as int), sep)));
            }
            pos = j + 1;
        } else {
            proof {
                assert(find_byte(t, sep) == t.len());
                assert(t.take(t.len() as int) =~= t);
                assert(seg@ =~= t);
                assert(split_segments(t, sep) == seq![t]);
            }
            segs.push(seg);
            proof {
                assert(segs@.map_values(|v: Vec<u8>| v@) =~= segs_before.push(seg@));
                assert(segs_before.push(t) =~= segs_before + seq![t]);
            }
            break ;
        }
    }
    segs
}

/// The (name, value) pair of one segment: the text before the first `=` and
/// the text after it, or nothing where the segment has no `=`.
pub open spec fn pair_of(seg: Seq<u8>) -> Option<FieldView> {
    let i = find_byte(seg, EQ);
    if 0 <= i < seg.len() {
        Some(FieldView { name: seg.take(i), value: seg.skip(i + 1) })
    } else {
        None
    }
}

/// The pairs of a segment sequence, in order, pairless segments dropped.
pub open spec fn pairs_of_segments(segs: Seq<Seq<u8>>) -> Seq<FieldView>
    decreases segs.len(),
{
    if segs.len() == 0 {
        Seq::empty()
    } else {
        let rest = pairs_of_segments(segs.drop_last());
        match pair_of(segs.last()) {
            Some(p) => rest.push(p),
            None => rest,
        }
    }
}

/// The raw (name, value) pairs of an init-data string.
pub open spec fn init_pairs(s: Seq<u8>) -> Seq<FieldView> {
    pairs_of_segments(split_segments(s, AMP))
}

/// A field with its value percent-decoded.
pub open spec fn decoded_field(f: FieldView) -> FieldView {
    FieldView { name: f.name, value: percent_decoded(f.value) }
}

/// All fields with their values percent-decoded.
pub open spec fn decoded_fields(s: Seq<FieldView>) -> Seq<FieldView> {
    s.map_values(|f: FieldView| decoded_field(f))
}

/// The value of the last pair named `name`.
pub open spec fn last_value_of(pairs: Seq<FieldView>, name: Seq<u8>) -> Option<Seq<u8>>
    decreases pairs.len(),
{
    if pairs.len() == 0 {
        None
    } else if pairs.last().name == name {
        Some(pairs.last().value)
    } else {
        last_value_of(pairs.drop_last(), name)
    }
}

/// The value of the first pair named `name`.
pub open spec fn first_value_of(pairs: Seq<FieldView>, name: Seq<u8>) -> Option<Seq<u8>>
    decreases pairs.len(),
{
    if pairs.len() == 0 {
        None
    } else {
        let r = first_value_of(pairs.drop_last(), name);
        if r is Some {
            r
        } else if pairs.last().name == name {
            Some(pairs.last().value)
        } else {
            None
        }
    }
}

/// Whether some pair is named `name`.
pub open spec fn has_name(pairs: Seq<FieldView>, name: Seq<u8>) -> bool
    decreases pairs.len(),
{
    if pairs.len() == 0 {
        false
    } else {
        pairs.last().name == name || has_name(pairs.drop_last(), name)
    }
}

/// The signed fields of an init-data string: every pair except `hash`, the
/// values percent-decoded.
pub open spec fn spec_init_fields(s: Seq<u8>) -> Seq<FieldView> {
    decoded_fields(drop_excluded(init_pairs(s), hash_key()))
}

/// The received signature: the raw value of the last `hash` pair.
pub open spec fn spec_received_hash(s: Seq<u8>) -> Option<Seq<u8>> {
    last_value_of(init_pairs(s), hash_key())
}

/// Whether a `signature` pair is present.
pub open spec fn spec_has_signature(s: Seq<u8>) -> bool {
    has_name(init_pairs(s), signature_key())
}

/// The decoded value of the first `user` pair.
pub open spec fn spec_user_raw(s: Seq<u8>) -> Option<Seq<u8>> {
    match first_value_of(init_pairs(s), user_key()) {
        Some(v) => Some(percent_decoded(v)),
        None => None,
    }
}

/// The check string an init-data string must have been signed over.
pub open spec fn spec_init_check_string(s: Seq<u8>) -> Seq<u8> {
    spec_check_string(spec_init_fields(s), hash_key())
}

/// An init-data string, parsed: the signed fields with decoded values, the
/// received signature, whether a `signature` field was present, and the
/// decoded `user` value.
pub struct ParsedInitData {
    pub fields: FieldSet,
    pub received_hash: Option<Vec<u8>>,
    pub has_signature: bool,
    pub user_raw: Option<Vec<u8>>,
}

/// Parse an init-data query string into its signed fields, received
/// signature and user value.
pub fn parse_init_data(s: &[u8]) -> (r: ParsedInitData)
    ensures
        r.fields@ == spec_init_fields(s@),
        opt_bytes(r.received_hash) == spec_received_hash(s@),
        r.has_signature == spec_has_signature(s@),
        opt_bytes(r.user_raw) == spec_user_raw(s@),
{
    let segs = split_bytes(s, AMP);
    let ghost seg_views = segs@.map_values(|v: Vec<u8>| v@);
    let mut fields_vec: Vec<AuthField> = Vec::new();
    let mut received_hash: Option<Vec<u8>> = None;
    let mut has_signature: bool = false;
    let mut user_raw: Option<Vec<u8>> = None;
    let hash_name = hash_key_bytes();
    let sig_name = signature_key_bytes();
    let user_name = user_key_bytes();
    let mut k: usize = 0;
    proof {
        assert(seg_views.take(0) =~= Seq::<Seq<u8>>::empty());
        assert(drop_excluded(Seq::<FieldView>::empty(), hash_key()) =~= Seq::<
            FieldView,
        >::empty());
        assert(fields_vec@.map_values(|f: AuthField| f@) =~= decoded_fields(Seq::<
            FieldView,
        >::empty()));
        assert(hash_key() != user_key()) by {
            assert(hash_key()[0] == 104);
            assert(user_key()[0] == 117);
        }
        assert(hash_key() != signature_key()) by {
            assert(hash_key().len() == 4);
            assert(signature_key().len() == 9);
        }
    }
    while k < segs.len()
        invariant
            0 <= k <= seg_views.len(),
            seg_views == segs@.map_values(|v: Vec<u8>| v@),
            segs@.len() == seg_views.len(),
            hash_name@ == hash_key(),
            sig_name@ == signature_key(),
            user_name@ == user_key(),
            fields_vec@.map_values(|f: AuthField| f@) == decoded_fields(
                drop_excluded(pairs_of_segments(seg_views.take(k as int)), hash_key()),
            ),
            opt_bytes(received_hash) == last_value_of(
                pairs_of_segments(seg_views.take(k as int)),
                hash_key(),
            ),
            has_signature == has_name(
                pairs_of_segments(seg_views.take(k as int)),
                signature_key(),
            ),
            opt_bytes(user_raw) == (match first_value_of(
                pairs_of_segments(seg_views.take(k as int)),
                user_key(),
            ) {
                Some(v) => Some(percent_decoded(v)),
                None => None,
            }),
        decreases seg_views.len() - k,
    {
        let seg = &segs[k];
        let ghost p_old = pairs_of_segments(seg_views.take(k as int));
        proof {
            assert(seg_views.take(k + 1 as int).drop_last() =~= seg_views.take(k as int));
            assert(seg_views.take(k + 1 as int).last() == seg_views[k as int]);
            assert(seg_views[k as int] == segs@[k as int]@);
            lemma_find_byte(seg@, EQ);
        }
        let e = find_byte_in(seg.as_slice(), EQ);
        if e < seg.len() {
            let name = slice_range(seg.as_slice(), 0, e);
            let value_raw = slice_range(seg.as_slice(), e + 1, seg.len());
            let ghost pv = (FieldView { name: name@, value: value_raw@ });
            let ghost p_new = pairs_of_segments(seg_views.take(k + 1 as int));
            proof {
                assert(name@ =~= seg@.take(e as int));
                assert(value_raw@ =~= seg@.skip(e + 1 as int));
                assert(pair_of(seg@) == Some(pv));
                assert(p_new == p_old.push(pv));
                assert(p_new.drop_last() =~= p_old);
                assert(p_new.last() == pv);
            }
            if ct_bytes_eq(name.as_slice(), hash_name.as_slice()) {
                received_hash = Some(value_raw);
                proof {
                    assert(drop_excluded(p_new, hash_key()) =~= drop_excluded(
                        p_old,
                        hash_key(),
                    ));
                }
            } else {
                if ct_bytes_eq(name.as_slice(), sig_name.as_slice()) {
                    has_signature = true;
                }
                let decoded_value = percent_decode(value_raw.as_slice());
                if user_raw.is_none() && ct_bytes_eq(name.as_slice(), user_name.as_slice()) {
                    let user_copy = slice_range(decoded_value.as_slice(), 0, decoded_value.len());
                    user_raw = Some(user_copy);
                }
                let ghost fields_before = fields_vec@.map_values(|f: AuthField| f@);
                fields_vec.push(AuthField { name, value: decoded_value });
                proof {
                    assert(drop_excluded(p_new, hash_key()) =~= drop_excluded(
                        p_old,
                        hash_key(),
                    ).push(pv));
                    assert(fields_vec@.map_values(|f: AuthField| f@) =~= fields_before.push(
                        decoded_field(pv),
                    ));
                    assert(decoded_fields(drop_excluded(p_old, hash_key()).push(pv))
                        =~= decoded_fields(drop_excluded(p_old, hash_key())).push(
                        decoded_field(pv),
                    ));
                }
            }
        } else {
            proof {
                assert(pair_of(seg_views[k as int]) is None);
                assert(pairs_of_segments(seg_views.take(k + 1 as int)) == p_old);
            }
        }
        k = k + 1;
    }
    proof {
        assert(seg_views.take(seg_views.len() as int) =~= seg_views);
    }
    ParsedInitData { fields: FieldSet { fields: fields_vec }, received_hash, has_signature, user_raw }
}

/// What verifying an init-data string yields: the missing-signature faults,
/// or the verdict of the multi-encoding signature check.
pub open spec fn spec_verify_init_data(s: Seq<u8>, bot_token: Seq<u8>) -> Result<bool, AuthError> {
    match spec_received_hash(s) {
        None => Err(
            AuthError::Validation(
                if spec_has_signature(s) {
                    ValidationFault::SignatureUnsupported
                } else {
                    ValidationFault::HashMissing
                },
            ),
        ),
        Some(h) => if spec_verify(spec_init_check_string(s), h, bot_token) {
            Ok(true)
        } else {
            Err(AuthError::Authentication)
        },
    }
}

/// Verify the signature of a raw init-data string: reconstruct the check
/// string from the decoded pairs and hold the received `hash` against it
/// under every accepted encoding. `Ok(true)` exactly where the signature
/// verifies; the error says what failed and nothing more.
pub fn verify_telegram_auth_from_init_data(init_data: &[u8], bot_token: &[u8]) -> (r: Result<
    bool,
    AuthError,
>)
    ensures
        r == spec_verify_init_data(init_data@, bot_token@),
{
    let parsed = parse_init_data(init_data);
    match parsed.received_hash {
        None => {
            if parsed.has_signature {
                Err(AuthError::Validation(ValidationFault::SignatureUnsupported))
            } else {
                Err(AuthError::Validation(ValidationFault::HashMissing))
            }
        },
        Some(h) => {
            let excluded = hash_key_bytes();
            let check_string = build_check_string(&parsed.fields, excluded.as_slice());
            if verify(check_string.as_slice(), h.as_slice(), bot_token) {
                Ok(true)
            } else {
                Err(AuthError::Authentication)
            }
        },
    }
}

/// Extract the identity from the `user` field of an init-data string:
/// `Ok` exactly where a `user` pair exists and its decoded value is a JSON
/// object with an integer `id`.
pub fn parse_user_from_init_data(init_data: &[u8]) -> (r: Result<TelegramUser, AuthError>)
    ensures
        match r {
            Ok(u) => spec_user_raw(init_data@) is Some && user_claim_of(
                spec_user_raw(init_data@)->0,
            ) == Some(u@),
            Err(e) => match spec_user_raw(init_data@) {
                None => e == AuthError::Validation(ValidationFault::UserMissing),
                Some(raw) => user_claim_of(raw) is None && e == AuthError::Validation(
                    ValidationFault::UserJsonInvalid,
                ),
            },
        },
{
    let parsed = parse_init_data(init_data);
    match parsed.user_raw {
        None => Err(AuthError::Validation(ValidationFault::UserMissing)),
        Some(raw) => match parse_user_json(raw.as_slice()) {
            Some(u) => Ok(u),
            None => Err(AuthError::Validation(ValidationFault::UserJsonInvalid)),
        },
    }
}

} // verus!
