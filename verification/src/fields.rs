//! Fields: the named values of one authentication payload.
//!
//! A `FieldSet` binds names to raw values; insertion keeps the names
//! unique, and the canonicalizer orders the fields only at use time.

use vstd::prelude::*;

verus! {

/// One (name, raw value) pair of an authentication payload.
pub struct AuthField {
    pub name: Vec<u8>,
    pub value: Vec<u8>,
}

/// The mathematical view of a field: its name and value as byte sequences.
pub ghost struct FieldView {
    pub name: Seq<u8>,
    pub value: Seq<u8>,
}

impl View for AuthField {
    type V = FieldView;

    open spec fn view(&self) -> FieldView {
        FieldView { name: self.name@, value: self.value@ }
    }
}

/// A collection of fields. Insertion keeps names unique, as a mapping from
/// name to value; the canonicalizer orders the fields only at use time.
pub struct FieldSet {
    pub fields: Vec<AuthField>,
}

impl View for FieldSet {
    type V = Seq<FieldView>;

    open spec fn view(&self) -> Seq<FieldView> {
        self.fields@.map_values(|f: AuthField| f@)
    }
}

/// No two fields share a name.
pub open spec fn distinct_names(s: Seq<FieldView>) -> bool {
    forall|i: int, j: int| 0 <= i < j < s.len() ==> s[i].name != s[j].name
}

/// The first index whose field is named `name`, or the length if none is.
pub open spec fn index_of_name(s: Seq<FieldView>, name: Seq<u8>) -> int
    decreases s.len(),
{
    if s.len() == 0 {
        0
    } else if s[0].name == name {
        0
    } else {
        1 + index_of_name(s.drop_first(), name)
    }
}

proof fn lemma_index_of_name(s: Seq<FieldView>, name: Seq<u8>)
    ensures
        0 <= index_of_name(s, name) <= s.len(),
        index_of_name(s, name) < s.len() ==> s[index_of_name(s, name)].name == name,
        forall|k: int| 0 <= k < index_of_name(s, name) ==> s[k].name != name,
    decreases s.len(),
{
    if s.len() > 0 && s[0].name != name {
        lemma_index_of_name(s.drop_first(), name);
        assert(forall|k: int|
            1 <= k < index_of_name(s, name) ==> s[k] == s.drop_first()[k - 1]);
    }
}

/// Inserting a field replaces the value of an existing name, else appends.
pub open spec fn spec_insert(s: Seq<FieldView>, f: FieldView) -> Seq<FieldView> {
    if index_of_name(s, f.name) < s.len() {
        s.update(index_of_name(s, f.name), f)
    } else {
        s.push(f)
    }
}

impl FieldSet {
    /// An empty field set.
    pub fn new() -> (r: FieldSet)
        ensures
            r@ == Seq::<FieldView>::empty(),
    {
        let r = FieldSet { fields: Vec::new() };
        proof {
            assert(r@ =~= Seq::<FieldView>::empty());
        }
        r
    }

    /// Bind `name` to `value`, replacing any earlier binding of the name.
    pub fn insert(&mut self, name: Vec<u8>, value: Vec<u8>)
        ensures
            final(self)@ == spec_insert(old(self)@, (FieldView { name: name@, value: value@ })),
            distinct_names(old(self)@) ==> distinct_names(final(self)@),
    {
        proof {
            lemma_index_of_name(self@, name@);
        }
        let ghost fv = (FieldView { name: name@, value: value@ });
        let i = find_name(&self.fields, name.as_slice());
        if i < self.fields.len() {
            self.fields.set(i, AuthField { name, value });
            proof {
                assert(self@ =~= old(self)@.update(i as int, fv));
                if distinct_names(old(self)@) {
                    lemma_update_distinct(old(self)@, i as int, fv);
                }
            }
        } else {
            self.fields.push(AuthField { name, value });
            proof {
                assert(self@ =~= old(self)@.push(fv));
                if distinct_names(old(self)@) {
                    assert(forall|p: int, q: int|
                        0 <= p < q < self@.len() ==> self@[p].name != self@[q].name);
                }
            }
        }
    }

    /// The number of fields held.
    pub fn len(&self) -> (r: usize)
        ensures
            r == self@.len(),
    {
        self.fields.len()
    }
}

/// The first index of `fields` whose name is `name`, or the length.
fn find_name(fields: &Vec<AuthField>, name: &[u8]) -> (r: usize)
    ensures
        r as int == index_of_name(fields@.map_values(|f: AuthField| f@), name@),
{
    let ghost s = fields@.map_values(|f: AuthField| f@);
    let mut i: usize = 0;
    while i < fields.len()
        invariant
            0 <= i <= s.len(),
            s.len() == fields@.len(),
            s == fields@.map_values(|f: AuthField| f@),
            forall|k: int| 0 <= k < i ==> (#[trigger] s[k]).name != name@,
        decreases s.len() - i,
    {
        if crate::bytestr::ct_bytes_eq(fields[i].name.as_slice(), name) {
            proof {
                assert(s[i as int] == fields@[i as int]@);
                lemma_index_of_prefix_found(s, name@, i as int);
            }
            return i;
        }
        proof {
            assert(s[i as int] == fields@[i as int]@);
        }
        i = i + 1;
    }
    proof {
        lemma_index_of_none(s, name@);
    }
    fields.len()
}

/// If the first `i` names differ from `name` and position `i` matches, the
/// first index of `name` is `i`.
proof fn lemma_index_of_prefix_found(s: Seq<FieldView>, name: Seq<u8>, i: int)
    requires
        0 <= i < s.len(),
        s[i].name == name,
        forall|k: int| 0 <= k < i ==> s[k].name != name,
    ensures
        index_of_name(s, name) == i,
    decreases i,
{
    if i > 0 {
        lemma_index_of_prefix_found(s.drop_first(), name, i - 1);
    }
}

/// If no name matches, the first index of `name` is the length.
proof fn lemma_index_of_none(s: Seq<FieldView>, name: Seq<u8>)
    requires
        forall|k: int| 0 <= k < s.len() ==> s[k].name != name,
    ensures
        index_of_name(s, name) == s.len(),
    decreases s.len(),
{
    if s.len() > 0 {
        assert(forall|k: int|
            0 <= k < s.drop_first().len() ==> s.drop_first()[k] == s[k + 1]);
        lemma_index_of_none(s.drop_first(), name);
    }
}

/// Updating a field in place with an equally named one keeps names distinct.
proof fn lemma_update_distinct(s: Seq<FieldView>, i: int, f: FieldView)
    requires
        0 <= i < s.len(),
        s[i].name == f.name,
        distinct_names(s),
    ensures
        distinct_names(s.update(i, f)),
{
}

} // verus!
