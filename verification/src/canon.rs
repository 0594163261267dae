//! The canonicalizer.
//!
//! `build_check_string` produces the exact byte string that Telegram signed:
//! every field whose name is not the excluded signature name, rendered as
//! `name=value`, joined by single newlines, in ascending byte-lexicographic
//! order of the names, stably, with no trailing newline. An empty field set
//! yields an empty string.

use vstd::prelude::*;

use crate::bytestr::ct_bytes_eq;
use crate::fields::AuthField;
use crate::fields::FieldSet;
use crate::fields::FieldView;
use crate::fields::distinct_names;
use crate::names::EQ;
use crate::names::NL;

verus! {

/// Byte-lexicographic order on names: `a` comes no later than `b`.
pub open spec fn key_le(a: Seq<u8>, b: Seq<u8>) -> bool
    decreases a.len(),
{
    if a.len() == 0 {
        true
    } else if b.len() == 0 {
        false
    } else if a[0] < b[0] {
        true
    } else if a[0] > b[0] {
        false
    } else {
        key_le(a.drop_first(), b.drop_first())
    }
}

/// `key_le` relates every pair of names one way or the other.
pub proof fn lemma_key_le_total(a: Seq<u8>, b: Seq<u8>)
    ensures
        key_le(a, b) || key_le(b, a),
    decreases a.len(),
{
    if a.len() > 0 && b.len() > 0 && a[0] == b[0] {
        lemma_key_le_total(a.drop_first(), b.drop_first());
    }
}

/// `key_le` is transitive.
pub proof fn lemma_key_le_trans(a: Seq<u8>, b: Seq<u8>, c: Seq<u8>)
    requires
        key_le(a, b),
        key_le(b, c),
    ensures
        key_le(a, c),
    decreases a.len(),
{
    if a.len() > 0 && b.len() > 0 && c.len() > 0 && a[0] == b[0] && b[0] == c[0] {
        lemma_key_le_trans(a.drop_first(), b.drop_first(), c.drop_first());
    }
}

/// Decide `key_le` on two byte strings.
pub fn key_le_exec(a: &[u8], b: &[u8]) -> (r: bool)
    ensures
        r == key_le(a@, b@),
{
    let mut i: usize = 0;
    proof {
        assert(a@.skip(0) =~= a@);
        assert(b@.skip(0) =~= b@);
    }
    while i < a.len() && i < b.len()
        invariant
            0 <= i <= a@.len(),
            i <= b@.len(),
            key_le(a@, b@) == key_le(a@.skip(i as int), b@.skip(i as int)),
        decreases a@.len() - i,
    {
        let x = a[i];
        let y = b[i];
        if x < y {
            return true;
        }
        if x > y {
            return false;
        }
        proof {
            assert(a@.skip(i as int).drop_first() =~= a@.skip(i + 1 as int));
            assert(b@.skip(i as int).drop_first() =~= b@.skip(i + 1 as int));
        }
        i = i + 1;
    }
    i >= a.len()
}

/// Every field ordered no later than each that follows it.
pub open spec fn sorted_by_key(s: Seq<FieldView>) -> bool {
    forall|i: int, j: int|
        0 <= i < j < s.len() ==> key_le(#[trigger] s[i].name, #[trigger] s[j].name)
}

/// Insert `f` into the sorted `s`, after every field ordered no later than
/// it, so that fields with equal names keep their arrival order.
pub open spec fn insert_sorted(f: FieldView, s: Seq<FieldView>) -> Seq<FieldView>
    decreases s.len(),
{
    if s.len() == 0 {
        seq![f]
    } else if key_le(s[0].name, f.name) {
        seq![s[0]] + insert_sorted(f, s.drop_first())
    } else {
        seq![f] + s
    }
}

/// The stable ascending sort of a field sequence.
pub open spec fn sort_fields(s: Seq<FieldView>) -> Seq<FieldView>
    decreases s.len(),
{
    if s.len() == 0 {
        Seq::empty()
    } else {
        insert_sorted(s.last(), sort_fields(s.drop_last()))
    }
}

/// The fields of `s` whose name is not `ex`, in order.
pub open spec fn drop_excluded(s: Seq<FieldView>, ex: Seq<u8>) -> Seq<FieldView>
    decreases s.len(),
{
    if s.len() == 0 {
        Seq::empty()
    } else if s.last().name == ex {
        drop_excluded(s.drop_last(), ex)
    } else {
        drop_excluded(s.drop_last(), ex).push(s.last())
    }
}

/// The canonical field sequence: the signature name dropped, the rest
/// sorted ascending by name.
pub open spec fn canon_fields(s: Seq<FieldView>, ex: Seq<u8>) -> Seq<FieldView> {
    sort_fields(drop_excluded(s, ex))
}

/// One `name=value` line.
pub open spec fn field_line(f: FieldView) -> Seq<u8> {
    f.name + seq![EQ] + f.value
}

/// The lines of the fields, joined by single newlines, no trailing newline.
pub open spec fn render_fields(s: Seq<FieldView>) -> Seq<u8>
    decreases s.len(),
{
    if s.len() == 0 {
        Seq::empty()
    } else if s.len() == 1 {
        field_line(s[0])
    } else {
        render_fields(s.drop_last()) + seq![NL] + field_line(s.last())
    }
}

/// The check string of a field set: its canonical fields, rendered.
pub open spec fn spec_check_string(s: Seq<FieldView>, ex: Seq<u8>) -> Seq<u8> {
    render_fields(canon_fields(s, ex))
}

/// A sequence headed by `x` holds `g` exactly when `g` is `x` or the tail
/// holds it.
proof fn lemma_cons_contains(x: FieldView, t: Seq<FieldView>, g: FieldView)
    ensures
        (seq![x] + t).contains(g) <==> (g == x || t.contains(g)),
{
    let r = seq![x] + t;
    if r.contains(g) {
        let k = choose|k: int| 0 <= k < r.len() && r[k] == g;
        if k > 0 {
            assert(t[k - 1] == g);
        }
    }
    if g == x {
        assert(r[0] == g);
    }
    if t.contains(g) {
        let k = choose|k: int| 0 <= k < t.len() && t[k] == g;
        assert(r[k + 1] == g);
    }
}

/// A non-empty sequence holds `g` exactly when `g` is its last field or the
/// rest holds it.
proof fn lemma_unsnoc_contains(s: Seq<FieldView>, g: FieldView)
    requires
        s.len() > 0,
    ensures
        s.contains(g) <==> (g == s.last() || s.drop_last().contains(g)),
{
    if s.contains(g) {
        let k = choose|k: int| 0 <= k < s.len() && s[k] == g;
        if k < s.len() - 1 {
            assert(s.drop_last()[k] == g);
        }
    }
    if g == s.last() {
        assert(s[s.len() - 1] == g);
    }
    if s.drop_last().contains(g) {
        let k = choose|k: int| 0 <= k < s.drop_last().len() && s.drop_last()[k] == g;
        assert(s[k] == g);
    }
}

/// `insert_sorted` holds exactly the inserted field and those of `s`.
proof fn lemma_insert_sorted_contains(f: FieldView, s: Seq<FieldView>)
    ensures
        insert_sorted(f, s).len() == s.len() + 1,
        forall|g: FieldView|
            #[trigger] insert_sorted(f, s).contains(g) <==> (g == f || s.contains(g)),
    decreases s.len(),
{
    let r = insert_sorted(f, s);
    if s.len() == 0 {
        assert forall|g: FieldView| #[trigger] r.contains(g) <==> (g == f || s.contains(g)) by {
            if r.contains(g) {
                let k = choose|k: int| 0 <= k < r.len() && r[k] == g;
            }
            if g == f {
                assert(r[0] == g);
            }
        }
    } else if key_le(s[0].name, f.name) {
        lemma_insert_sorted_contains(f, s.drop_first());
        let rr = insert_sorted(f, s.drop_first());
        assert(s =~= seq![s[0]] + s.drop_first());
        assert forall|g: FieldView| #[trigger] r.contains(g) <==> (g == f || s.contains(g)) by {
            lemma_cons_contains(s[0], rr, g);
            lemma_cons_contains(s[0], s.drop_first(), g);
            assert(rr.contains(g) <==> (g == f || s.drop_first().contains(g)));
        }
    } else {
        assert forall|g: FieldView| #[trigger] r.contains(g) <==> (g == f || s.contains(g)) by {
            lemma_cons_contains(f, s, g);
        }
    }
}

/// Inserting into a sorted sequence keeps it sorted.
proof fn lemma_insert_sorted_sorted(f: FieldView, s: Seq<FieldView>)
    requires
        sorted_by_key(s),
    ensures
        sorted_by_key(insert_sorted(f, s)),
    decreases s.len(),
{
    let r = insert_sorted(f, s);
    if s.len() == 0 {
    } else if key_le(s[0].name, f.name) {
        let d = s.drop_first();
        let rr = insert_sorted(f, d);
        assert(sorted_by_key(d)) by {
            assert forall|i: int, j: int| 0 <= i < j < d.len() implies key_le(
                #[trigger] d[i].name,
                #[trigger] d[j].name,
            ) by {
                assert(d[i] == s[i + 1]);
                assert(d[j] == s[j + 1]);
            }
        }
        lemma_insert_sorted_sorted(f, d);
        lemma_insert_sorted_contains(f, d);
        assert forall|i: int, j: int| 0 <= i < j < r.len() implies key_le(
            #[trigger] r[i].name,
            #[trigger] r[j].name,
        ) by {
            if i == 0 {
                let g = rr[j - 1];
                assert(r[j] == g);
                assert(rr.contains(g)) by {
                    assert(rr[j - 1] == g);
                }
                if g == f {
                    assert(key_le(s[0].name, f.name));
                } else {
                    assert(d.contains(g));
                    let k = choose|k: int| 0 <= k < d.len() && d[k] == g;
                    assert(d[k] == s[k + 1]);
                    assert(key_le(s[0].name, s[k + 1].name));
                }
            } else {
                assert(r[i] == rr[i - 1]);
                assert(r[j] == rr[j - 1]);
            }
        }
    } else {
        lemma_key_le_total(s[0].name, f.name);
        assert forall|i: int, j: int| 0 <= i < j < r.len() implies key_le(
            #[trigger] r[i].name,
            #[trigger] r[j].name,
        ) by {
            if i == 0 {
                assert(r[0] == f);
                assert(r[j] == s[j - 1]);
                if j == 1 {
                    assert(key_le(f.name, s[0].name));
                } else {
                    assert(key_le(s[0].name, s[j - 1].name));
                    lemma_key_le_trans(f.name, s[0].name, s[j - 1].name);
                }
            } else {
                assert(r[i] == s[i - 1]);
                assert(r[j] == s[j - 1]);
                if i == 1 {
                } else {
                    assert(key_le(s[i - 1].name, s[j - 1].name));
                }
            }
        }
    }
}

/// Sorting keeps exactly the fields of `s`, in equal number.
proof fn lemma_sort_fields_contains(s: Seq<FieldView>)
    ensures
        sort_fields(s).len() == s.len(),
        forall|g: FieldView| #[trigger] sort_fields(s).contains(g) <==> s.contains(g),
    decreases s.len(),
{
    if s.len() > 0 {
        lemma_sort_fields_contains(s.drop_last());
        lemma_insert_sorted_contains(s.last(), sort_fields(s.drop_last()));
        assert forall|g: FieldView| #[trigger] sort_fields(s).contains(g) <==> s.contains(g) by {
            lemma_unsnoc_contains(s, g);
            assert(sort_fields(s).contains(g) <==> (g == s.last() || sort_fields(
                s.drop_last(),
            ).contains(g)));
        }
    } else {
        assert forall|g: FieldView| #[trigger] sort_fields(s).contains(g) <==> s.contains(g) by {
            if sort_fields(s).contains(g) {
                let k = choose|k: int| 0 <= k < sort_fields(s).len() && sort_fields(s)[k] == g;
            }
            if s.contains(g) {
                let k = choose|k: int| 0 <= k < s.len() && s[k] == g;
            }
        }
    }
}

/// The sort of any field sequence is sorted.
pub proof fn lemma_sort_fields_sorted(s: Seq<FieldView>)
    ensures
        sorted_by_key(sort_fields(s)),
    decreases s.len(),
{
    if s.len() > 0 {
        lemma_sort_fields_sorted(s.drop_last());
        lemma_insert_sorted_sorted(s.last(), sort_fields(s.drop_last()));
    }
}

/// Dropping the excluded name keeps exactly the other fields, names
/// distinct if they were.
proof fn lemma_drop_excluded_props(s: Seq<FieldView>, ex: Seq<u8>)
    ensures
        drop_excluded(s, ex).len() <= s.len(),
        forall|g: FieldView|
            #[trigger] drop_excluded(s, ex).contains(g) <==> (s.contains(g) && g.name != ex),
        distinct_names(s) ==> distinct_names(drop_excluded(s, ex)),
    decreases s.len(),
{
    let r = drop_excluded(s, ex);
    if s.len() == 0 {
        assert forall|g: FieldView| #[trigger] r.contains(g) <==> (s.contains(g) && g.name != ex)
            by {
            if r.contains(g) {
                let k = choose|k: int| 0 <= k < r.len() && r[k] == g;
            }
            if s.contains(g) {
                let k = choose|k: int| 0 <= k < s.len() && s[k] == g;
            }
        }
    } else {
        lemma_drop_excluded_props(s.drop_last(), ex);
        let rd = drop_excluded(s.drop_last(), ex);
        assert forall|g: FieldView| #[trigger] r.contains(g) <==> (s.contains(g) && g.name != ex)
            by {
            lemma_unsnoc_contains(s, g);
            if s.last().name == ex {
            } else {
                assert(r =~= rd.push(s.last()));
                lemma_unsnoc_contains(r, g);
                assert(r.drop_last() =~= rd);
            }
        }
        if distinct_names(s) {
            assert(distinct_names(s.drop_last())) by {
                assert forall|i: int, j: int| 0 <= i < j < s.drop_last().len() implies
                    s.drop_last()[i].name != s.drop_last()[j].name by {
                    assert(s.drop_last()[i] == s[i]);
                    assert(s.drop_last()[j] == s[j]);
                }
            }
            if s.last().name != ex {
                assert forall|i: int, j: int| 0 <= i < j < r.len() implies r[i].name != r[j].name
                    by {
                    assert(r =~= rd.push(s.last()));
                    if j < r.len() - 1 {
                        assert(r[i] == rd[i]);
                        assert(r[j] == rd[j]);
                    } else {
                        assert(r[j] == s.last());
                        assert(r[i] == rd[i]);
                        assert(rd.contains(rd[i]));
                        let g = rd[i];
                        assert(s.drop_last().contains(g));
                        let k = choose|k: int|
                            0 <= k < s.drop_last().len() && s.drop_last()[k] == g;
                        assert(s[k] == g);
                        assert(s[k].name != s[s.len() - 1].name);
                    }
                }
            }
        }
    }
}

/// The canonical fields are sorted ascending, strictly so when the names of
/// `s` are distinct, and the excluded name never appears; every other field
/// of `s` does.
pub proof fn lemma_canonical_fields(s: Seq<FieldView>, ex: Seq<u8>)
    ensures
        sorted_by_key(canon_fields(s, ex)),
        forall|k: int|
            0 <= k < canon_fields(s, ex).len() ==> (#[trigger] canon_fields(s, ex)[k]).name != ex,
        forall|g: FieldView|
            #[trigger] canon_fields(s, ex).contains(g) <==> (s.contains(g) && g.name != ex),
        distinct_names(s) ==> forall|i: int, j: int|
            0 <= i < j < canon_fields(s, ex).len() ==> (key_le(
                #[trigger] canon_fields(s, ex)[i].name,
                #[trigger] canon_fields(s, ex)[j].name,
            ) && canon_fields(s, ex)[i].name != canon_fields(s, ex)[j].name),
{
    let d = drop_excluded(s, ex);
    let c = canon_fields(s, ex);
    lemma_drop_excluded_props(s, ex);
    lemma_sort_fields_contains(d);
    lemma_sort_fields_sorted(d);
    assert forall|k: int| 0 <= k < c.len() implies (#[trigger] c[k]).name != ex by {
        assert(c.contains(c[k]));
    }
    if distinct_names(s) {
        assert(distinct_names(d));
        assert forall|i: int, j: int| 0 <= i < j < c.len() implies (key_le(
            #[trigger] c[i].name,
            #[trigger] c[j].name,
        ) && c[i].name != c[j].name) by {
            lemma_canon_distinct_at(s, ex, i, j);
        }
    }
}

/// With distinct input names, two positions of the canonical sequence never
/// share a name.
proof fn lemma_canon_distinct_at(s: Seq<FieldView>, ex: Seq<u8>, i: int, j: int)
    requires
        distinct_names(s),
        0 <= i < j < canon_fields(s, ex).len(),
        sorted_by_key(canon_fields(s, ex)),
    ensures
        key_le(canon_fields(s, ex)[i].name, canon_fields(s, ex)[j].name),
        canon_fields(s, ex)[i].name != canon_fields(s, ex)[j].name,
{
    let d = drop_excluded(s, ex);
    let c = canon_fields(s, ex);
    lemma_drop_excluded_props(s, ex);
    lemma_sort_fields_distinct(d);
    assert(distinct_names(d));
    assert(distinct_names(c));
}

/// Sorting keeps names distinct.
proof fn lemma_sort_fields_distinct(s: Seq<FieldView>)
    requires
        distinct_names(s),
    ensures
        distinct_names(sort_fields(s)),
    decreases s.len(),
{
    if s.len() > 0 {
        let d = s.drop_last();
        assert(distinct_names(d)) by {
            assert forall|i: int, j: int| 0 <= i < j < d.len() implies d[i].name != d[j].name by {
                assert(d[i] == s[i]);
                assert(d[j] == s[j]);
            }
        }
        lemma_sort_fields_distinct(d);
        lemma_sort_fields_contains(d);
        assert forall|k: int| 0 <= k < sort_fields(d).len() implies (#[trigger] sort_fields(
            d,
        )[k]).name != s.last().name by {
            let g = sort_fields(d)[k];
            assert(sort_fields(d).contains(g));
            assert(d.contains(g));
            let m = choose|m: int| 0 <= m < d.len() && d[m] == g;
            assert(s[m] == g);
            assert(s[m].name != s[s.len() - 1].name);
        }
        lemma_insert_sorted_distinct(s.last(), sort_fields(d));
    }
}

/// Inserting a freshly named field keeps names distinct.
proof fn lemma_insert_sorted_distinct(f: FieldView, s: Seq<FieldView>)
    requires
        distinct_names(s),
        forall|k: int| 0 <= k < s.len() ==> (#[trigger] s[k]).name != f.name,
    ensures
        distinct_names(insert_sorted(f, s)),
    decreases s.len(),
{
    let r = insert_sorted(f, s);
    if s.len() == 0 {
    } else if key_le(s[0].name, f.name) {
        let d = s.drop_first();
        let rr = insert_sorted(f, d);
        assert(distinct_names(d)) by {
            assert forall|i: int, j: int| 0 <= i < j < d.len() implies d[i].name != d[j].name by {
                assert(d[i] == s[i + 1]);
                assert(d[j] == s[j + 1]);
            }
        }
        assert(forall|k: int| 0 <= k < d.len() ==> (#[trigger] d[k]).name != f.name) by {
            assert(forall|k: int| 0 <= k < d.len() ==> d[k] == s[k + 1]);
        }
        lemma_insert_sorted_distinct(f, d);
        lemma_insert_sorted_contains(f, d);
        assert forall|i: int, j: int| 0 <= i < j < r.len() implies r[i].name != r[j].name by {
            if i == 0 {
                let g = rr[j - 1];
                assert(r[j] == g);
                assert(rr.contains(g)) by {
                    assert(rr[j - 1] == g);
                }
                if g == f {
                    assert(s[0].name != f.name);
                } else {
                    assert(d.contains(g));
                    let k = choose|k: int| 0 <= k < d.len() && d[k] == g;
                    assert(d[k] == s[k + 1]);
                    assert(s[0].name != s[k + 1].name);
                }
            } else {
                assert(r[i] == rr[i - 1]);
                assert(r[j] == rr[j - 1]);
            }
        }
    } else {
        assert forall|i: int, j: int| 0 <= i < j < r.len() implies r[i].name != r[j].name by {
            if i == 0 {
                assert(r[0] == f);
                assert(r[j] == s[j - 1]);
            } else {
                assert(r[i] == s[i - 1]);
                assert(r[j] == s[j - 1]);
            }
        }
    }
}

/// Append the bytes of `b` to `out`.
pub(crate) fn push_bytes(out: &mut Vec<u8>, b: &[u8])
    ensures
        final(out)@ == old(out)@ + b@,
{
    let mut i: usize = 0;
    while i < b.len()
        invariant
            0 <= i <= b@.len(),
            out@ == old(out)@ + b@.take(i as int),
        decreases b@.len() - i,
    {
        out.push(b[i]);
        proof {
            assert(out@ =~= old(out)@ + b@.take(i + 1 as int));
        }
        i = i + 1;
    }
    proof {
        assert(old(out)@ + b@.take(b@.len() as int) =~= old(out)@ + b@);
    }
}

/// Build the check string of `fields`, leaving out every field named
/// `excluded`.
pub fn build_check_string(fields: &FieldSet, excluded: &[u8]) -> (r: Vec<u8>)
    ensures
        r@ == spec_check_string(fields@, excluded@),
{
    let n = fields.fields.len();
    let mut sorted_v: Vec<AuthField> = Vec::new();
    let mut i: usize = 0;
    proof {
        assert(fields@.take(0) =~= Seq::<FieldView>::empty());
        assert(sorted_v@.map_values(|f: AuthField| f@) =~= Seq::<FieldView>::empty());
        assert(drop_excluded(Seq::<FieldView>::empty(), excluded@) =~= Seq::<
            FieldView,
        >::empty());
    }
    while i < n
        invariant
            0 <= i <= n,
            n == fields.fields@.len(),
            sorted_v@.map_values(|f: AuthField| f@) == sort_fields(
                drop_excluded(fields@.take(i as int), excluded@),
            ),
        decreases n - i,
    {
        let fld = &fields.fields[i];
        let ghost prev = fields@.take(i as int);
        let ghost prev_kept = drop_excluded(prev, excluded@);
        proof {
            assert(fields@.take(i + 1 as int).drop_last() =~= prev);
            assert(fields@.take(i + 1 as int).last() == fields@[i as int]);
        }
        if !ct_bytes_eq(fld.name.as_slice(), excluded) {
            let name_copy = crate::bytestr::slice_range(fld.name.as_slice(), 0, fld.name.len());
            let value_copy = crate::bytestr::slice_range(
                fld.value.as_slice(),
                0,
                fld.value.len(),
            );
            proof {
                assert(name_copy@ =~= fld.name@);
                assert(value_copy@ =~= fld.value@);
            }
            let new_field = AuthField { name: name_copy, value: value_copy };
            let ghost fv = new_field@;
            let ghost target = drop_excluded(fields@.take(i + 1 as int), excluded@);
            proof {
                assert(target =~= prev_kept.push(fv));
                assert(target.drop_last() =~= prev_kept);
                assert(target.last() == fv);
                assert(sort_fields(target) == insert_sorted(fv, sort_fields(prev_kept)));
            }
            let mut j: usize = 0;
            while j < sorted_v.len() && key_le_exec(
                sorted_v[j].name.as_slice(),
                new_field.name.as_slice(),
            )
                invariant
                    0 <= j <= sorted_v@.len(),
                    forall|k: int|
                        0 <= k < j ==> key_le((#[trigger] sorted_v@[k])@.name, fv.name),
                    new_field@ == fv,
                decreases sorted_v@.len() - j,
            {
                j = j + 1;
            }
            proof {
                let sv = sorted_v@.map_values(|f: AuthField| f@);
                assert forall|k: int| 0 <= k < j implies key_le(
                    (#[trigger] sv[k]).name,
                    fv.name,
                ) by {
                    assert(sv[k] == sorted_v@[k]@);
                }
                if j < sorted_v.len() {
                    assert(sv[j as int] == sorted_v@[j as int]@);
                    assert(!key_le(sv[j as int].name, fv.name));
                }
                lemma_insert_sorted_at(fv, sv, j as int);
            }
            let ghost sv_before = sorted_v@.map_values(|f: AuthField| f@);
            sorted_v.insert(j, new_field);
            proof {
                assert(sorted_v@.map_values(|f: AuthField| f@) =~= sv_before.insert(
                    j as int,
                    fv,
                ));
            }
        } else {
            proof {
                assert(drop_excluded(fields@.take(i + 1 as int), excluded@) =~= prev_kept);
            }
        }
        i = i + 1;
    }
    proof {
        assert(fields@.take(fields@.len() as int) =~= fields@);
    }
    // render the sorted fields as lines joined by newlines
    let mut out: Vec<u8> = Vec::new();
    let ghost canon = sort_fields(drop_excluded(fields@, excluded@));
    let mut k: usize = 0;
    proof {
        assert(render_fields(canon.take(0)) =~= Seq::<u8>::empty());
    }
    while k < sorted_v.len()
        invariant
            0 <= k <= sorted_v@.len(),
            sorted_v@.map_values(|f: AuthField| f@) == canon,
            canon.len() == sorted_v@.len(),
            out@ == render_fields(canon.take(k as int)),
        decreases sorted_v@.len() - k,
    {
        let ghost t = canon.take(k + 1 as int);
        proof {
            assert(t.drop_last() =~= canon.take(k as int));
            assert(t.last() == canon[k as int]);
            assert(canon[k as int] == sorted_v@[k as int]@);
        }
        if k > 0 {
            out.push(NL);
        }
        push_bytes(&mut out, sorted_v[k].name.as_slice());
        out.push(EQ);
        push_bytes(&mut out, sorted_v[k].value.as_slice());
        proof {
            assert(out@ =~= render_fields(canon.take(k + 1 as int)));
        }
        k = k + 1;
    }
    proof {
        assert(canon.take(canon.len() as int) =~= canon);
    }
    out
}

/// Where the first `j` fields are ordered no later than `f` and the one at
/// `j` (if any) is not, inserting at `j` is the sorted insertion.
proof fn lemma_insert_sorted_at(f: FieldView, s: Seq<FieldView>, j: int)
    requires
        0 <= j <= s.len(),
        forall|k: int| 0 <= k < j ==> key_le((#[trigger] s[k]).name, f.name),
        j < s.len() ==> !key_le(s[j].name, f.name),
    ensures
        insert_sorted(f, s) == s.insert(j, f),
    decreases j,
{
    if j == 0 {
        if s.len() == 0 {
            assert(insert_sorted(f, s) =~= s.insert(0, f));
        } else {
            assert(insert_sorted(f, s) =~= s.insert(0, f));
        }
    } else {
        lemma_insert_sorted_at(f, s.drop_first(), j - 1);
        assert(key_le(s[0].name, f.name));
        assert(insert_sorted(f, s) == seq![s[0]] + insert_sorted(f, s.drop_first()));
        assert(seq![s[0]] + s.drop_first().insert(j - 1, f) =~= s.insert(j, f));
    }
}

} // verus!
