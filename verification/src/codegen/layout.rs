//! The field layout of class objects: the fields of the inheritance chain, the
//! topmost class first, each class's own fields in the order of their names.

use vstd::prelude::*;

use crate::sema::class_table::{lookup_class, ClassInfoV, ClassTable, FieldInfoV};
use crate::sema::types::{SemaType, SemaTypeV};

verus! {

/// Whether `a` comes before `b` in the order of `str`: by code point, a proper
/// prefix first. (UTF-8 byte order and code point order agree.)
pub open spec fn name_lt(a: Seq<char>, b: Seq<char>) -> bool
    decreases a.len(),
{
    if b.len() == 0 {
        false
    } else if a.len() == 0 {
        true
    } else if a[0] != b[0] {
        (a[0] as u32) < (b[0] as u32)
    } else {
        name_lt(a.drop_first(), b.drop_first())
    }
}

/// `x` inserted into `s` before the first entry whose name comes after `x`'s.
pub open spec fn insert_by_name(x: (Seq<char>, SemaTypeV), s: Seq<(Seq<char>, SemaTypeV)>) -> Seq<(Seq<char>, SemaTypeV)>
    decreases s.len(),
{
    if s.len() == 0 {
        seq![x]
    } else if name_lt(x.0, s[0].0) {
        seq![x] + s
    } else {
        seq![s[0]] + insert_by_name(x, s.drop_first())
    }
}

/// The entries of `s` in the order of their names, equal names in their order in `s`.
pub open spec fn sort_by_name(s: Seq<(Seq<char>, SemaTypeV)>) -> Seq<(Seq<char>, SemaTypeV)>
    decreases s.len(),
{
    if s.len() == 0 {
        Seq::empty()
    } else {
        insert_by_name(s.last(), sort_by_name(s.drop_last()))
    }
}

pub open spec fn field_entries(fs: Seq<FieldInfoV>) -> Seq<(Seq<char>, SemaTypeV)> {
    fs.map_values(|f: FieldInfoV| (f.name, f.ty))
}

/// The fields of class `c` and its ancestors, the topmost class's first, each
/// class's own in the order of their names.
pub open spec fn flat_fields(cs: Seq<ClassInfoV>, c: Seq<char>, fuel: nat) -> Seq<(Seq<char>, SemaTypeV)>
    decreases fuel,
{
    if fuel == 0 {
        Seq::empty()
    } else {
        match lookup_class(cs, c) {
            None => Seq::empty(),
            Some(info) => {
                let up = match info.superclass {
                    Some(s) => flat_fields(cs, s, (fuel - 1) as nat),
                    None => Seq::empty(),
                };
                up + sort_by_name(field_entries(info.fields))
            },
        }
    }
}

/// Whether class `c` and each of its ancestors is in the table, within `fuel` steps.
pub open spec fn chain_known(cs: Seq<ClassInfoV>, c: Seq<char>, fuel: nat) -> bool
    decreases fuel,
{
    fuel > 0 && match lookup_class(cs, c) {
        None => false,
        Some(info) => match info.superclass {
            Some(s) => chain_known(cs, s, (fuel - 1) as nat),
            None => true,
        },
    }
}

pub open spec fn entries_view(v: Seq<(String, SemaType)>) -> Seq<(Seq<char>, SemaTypeV)> {
    v.map_values(|e: (String, SemaType)| (e.0@, e.1@))
}

/// Whether `a` comes before `b` in the order of `str`.
pub fn name_less(a: &str, b: &str) -> (r: bool)
    ensures
        r == name_lt(a@, b@),
{
    let va = crate::lexer::token::chars_of(a);
    let vb = crate::lexer::token::chars_of(b);
    let mut i: usize = 0;
    assert(a@.skip(0) =~= a@);
    assert(b@.skip(0) =~= b@);
    while i < va.len() && i < vb.len() && va[i] == vb[i]
        invariant
            i <= va.len(),
            i <= vb.len(),
            va@ == a@,
            vb@ == b@,
            forall|k: int| 0 <= k < i ==> va@[k] == vb@[k],
            name_lt(a@, b@) == name_lt(a@.skip(i as int), b@.skip(i as int)),
        decreases va.len() - i,
    {
        assert(a@.skip(i as int).drop_first() =~= a@.skip(i + 1));
        assert(b@.skip(i as int).drop_first() =~= b@.skip(i + 1));
        i += 1;
    }
    if i == vb.len() {
        false
    } else if i == va.len() {
        true
    } else {
        (va[i] as u32) < (vb[i] as u32)
    }
}

proof fn lemma_insert_at(x: (Seq<char>, SemaTypeV), s: Seq<(Seq<char>, SemaTypeV)>, i: int)
    requires
        0 <= i <= s.len(),
        forall|k: int| 0 <= k < i ==> !name_lt(x.0, #[trigger] s[k].0),
        i < s.len() ==> name_lt(x.0, s[i].0),
    ensures
        insert_by_name(x, s) == s.take(i).push(x) + s.skip(i),
    decreases s.len(),
{
    if s.len() == 0 {
        assert(s.take(i).push(x) + s.skip(i) =~= seq![x]);
    } else if i == 0 {
        assert(s.take(0).push(x) + s.skip(0) =~= seq![x] + s);
    } else {
        let t = s.drop_first();
        assert forall|k: int| 0 <= k < i - 1 implies !name_lt(x.0, #[trigger] t[k].0) by {
            assert(t[k] == s[k + 1]);
        }
        lemma_insert_at(x, t, i - 1);
        assert(seq![s[0]] + (t.take(i - 1).push(x) + t.skip(i - 1)) =~= s.take(i).push(x) + s.skip(i));
    }
}

/// Inserts `x` into `v` before the first entry whose name comes after `x`'s.
fn insert_entry(v: &mut Vec<(String, SemaType)>, x: (String, SemaType))
    ensures
        entries_view(final(v)@) == insert_by_name((x.0@, x.1@), entries_view(old(v)@)),
{
    let ghost s = entries_view(v@);
    let ghost xv = (x.0@, x.1@);
    let mut i: usize = 0;
    while i < v.len() && !name_less(x.0.as_str(), v[i].0.as_str())
        invariant
            i <= v.len(),
            s == entries_view(v@),
            xv == (x.0@, x.1@),
            forall|k: int| 0 <= k < i ==> !name_lt(xv.0, #[trigger] s[k].0),
        decreases v.len() - i,
    {
        i += 1;
    }
    proof {
        lemma_insert_at(xv, s, i as int);
    }
    let ghost before = v@;
    v.insert(i, x);
    assert(entries_view(v@) =~= s.take(i as int).push(xv) + s.skip(i as int));
}

/// Sorts entries by name, equal names keeping their order.
fn sort_entries(v: Vec<(String, SemaType)>) -> (r: Vec<(String, SemaType)>)
    ensures
        entries_view(r@) == sort_by_name(entries_view(v@)),
{
    let ghost s = entries_view(v@);
    let mut items = v;
    let mut r: Vec<(String, SemaType)> = Vec::new();
    assert(entries_view(items@) =~= s.skip(0));
    assert(s.len() == items.len());
    let mut i: usize = 0;
    assert(entries_view(r@) =~= sort_by_name(s.take(0)));
    while items.len() > 0
        invariant
            i + items.len() == s.len(),
            s.len() <= usize::MAX,
            entries_view(items@) == s.skip(i as int),
            entries_view(r@) == sort_by_name(s.take(i as int)),
        decreases items.len(),
    {
        let e = items.remove(0);
        assert(s.take(i + 1).drop_last() =~= s.take(i as int));
        assert(s.take(i + 1).last() == s[i as int]);
        assert(s.skip(i as int)[0] == s[i as int]);
        insert_entry(&mut r, e);
        assert(s.skip(i + 1) =~= s.skip(i as int).drop_first());
        i += 1;
    }
    assert(s.take(i as int) =~= s);
    r
}

impl ClassTable {
    /// The fields of class `class_name` and its ancestors, the topmost class's first,
    /// each class's own fields in the order of their names.
    pub fn flatten_fields(&self, class_name: &str) -> (r: Vec<(String, SemaType)>)
        requires
            chain_known(self@, class_name@, self@.len() + 1),
        ensures
            entries_view(r@) == flat_fields(self@, class_name@, self@.len() + 1),
    {
        self.flatten_fields_upto(class_name, self.len())
    }

    /// `flatten_fields` with room for `fuel` ancestors.
    fn flatten_fields_upto(&self, class_name: &str, fuel: usize) -> (r: Vec<(String, SemaType)>)
        requires
            chain_known(self@, class_name@, fuel as nat + 1),
        ensures
            entries_view(r@) == flat_fields(self@, class_name@, fuel as nat + 1),
        decreases fuel,
    {
        let info = self.get(class_name).unwrap();
        let mut fields = match &info.superclass {
            Some(sup) => {
                proof {
                    assert(chain_known(self@, sup@, fuel as nat));
                }
                self.flatten_fields_upto(sup.as_str(), fuel - 1)
            },
            None => Vec::new(),
        };
        let mut own: Vec<(String, SemaType)> = Vec::new();
        let mut j: usize = 0;
        while j < info.fields.len()
            invariant
                j <= info.fields.len(),
                entries_view(own@) == field_entries(info@.fields).take(j as int),
            decreases info.fields.len() - j,
        {
            let ghost before = own@;
            own.push((info.fields[j].name.clone(), info.fields[j].ty.duplicate()));
            assert(entries_view(own@) =~= entries_view(before).push(field_entries(info@.fields)[j as int]));
            assert(field_entries(info@.fields).take(j + 1) =~= field_entries(info@.fields).take(j as int).push(
                field_entries(info@.fields)[j as int],
            ));
            j += 1;
        }
        assert(field_entries(info@.fields).take(j as int) =~= field_entries(info@.fields));
        let sorted = sort_entries(own);
        let ghost up = entries_view(fields@);
        let mut k: usize = 0;
        while k < sorted.len()
            invariant
                k <= sorted.len(),
                entries_view(fields@) == up + entries_view(sorted@).take(k as int),
            decreases sorted.len() - k,
        {
            let ghost before = fields@;
            fields.push((sorted[k].0.clone(), sorted[k].1.duplicate()));
            assert(entries_view(fields@) =~= entries_view(before).push(entries_view(sorted@)[k as int]));
            assert(entries_view(sorted@).take(k + 1) =~= entries_view(sorted@).take(k as int).push(
                entries_view(sorted@)[k as int],
            ));
            k += 1;
        }
        assert(entries_view(sorted@).take(k as int) =~= entries_view(sorted@));
        fields
    }
}

// ---------------------------------------------------------------------------
// Name order
// ---------------------------------------------------------------------------

/// Whether entries come in the order of their names.
pub open spec fn name_sorted(s: Seq<(Seq<char>, SemaTypeV)>) -> bool {
    forall|i: int, j: int| #![trigger s[i], s[j]] 0 <= i < j < s.len() ==> !name_lt(s[j].0, s[i].0)
}

proof fn lemma_name_lt_irreflexive(a: Seq<char>)
    ensures
        !name_lt(a, a),
    decreases a.len(),
{
    if a.len() > 0 {
        lemma_name_lt_irreflexive(a.drop_first());
    }
}

proof fn lemma_name_lt_transitive(a: Seq<char>, b: Seq<char>, c: Seq<char>)
    requires
        name_lt(a, b),
        name_lt(b, c),
    ensures
        name_lt(a, c),
    decreases a.len(),
{
    if a.len() > 0 && b.len() > 0 && c.len() > 0 && a[0] == b[0] && b[0] == c[0] {
        lemma_name_lt_transitive(a.drop_first(), b.drop_first(), c.drop_first());
    }
}

/// The position at which `insert_by_name` puts `x`.
spec fn insert_point(x: (Seq<char>, SemaTypeV), s: Seq<(Seq<char>, SemaTypeV)>) -> nat
    decreases s.len(),
{
    if s.len() == 0 || name_lt(x.0, s[0].0) {
        0
    } else {
        1 + insert_point(x, s.drop_first())
    }
}

proof fn lemma_insert_point(x: (Seq<char>, SemaTypeV), s: Seq<(Seq<char>, SemaTypeV)>)
    ensures
        insert_point(x, s) <= s.len(),
        forall|k: int| 0 <= k < insert_point(x, s) ==> !name_lt(x.0, #[trigger] s[k].0),
        insert_point(x, s) < s.len() ==> name_lt(x.0, s[insert_point(x, s) as int].0),
    decreases s.len(),
{
    if s.len() > 0 && !name_lt(x.0, s[0].0) {
        let t = s.drop_first();
        lemma_insert_point(x, t);
        assert forall|k: int| 0 <= k < insert_point(x, s) implies !name_lt(x.0, #[trigger] s[k].0) by {
            if k > 0 {
                assert(s[k] == t[k - 1]);
            }
        }
    }
}

/// Inserting into entries in name order keeps them in name order, and adds the one entry.
proof fn lemma_insert_sorted(x: (Seq<char>, SemaTypeV), s: Seq<(Seq<char>, SemaTypeV)>)
    requires
        name_sorted(s),
    ensures
        name_sorted(insert_by_name(x, s)),
        insert_by_name(x, s).to_multiset() == s.to_multiset().insert(x),
{
    let i = insert_point(x, s) as int;
    lemma_insert_point(x, s);
    lemma_insert_at(x, s, i);
    let r = insert_by_name(x, s);
    assert(r =~= s.insert(i, x));
    vstd::seq_lib::to_multiset_insert(s, i, x);
    assert forall|p: int, q: int| #![trigger r[p], r[q]] 0 <= p < q < r.len() implies !name_lt(r[q].0, r[p].0) by {
        if q < i {
            assert(r[p] == s[p] && r[q] == s[q]);
        } else if q == i {
            assert(r[p] == s[p] && r[q] == x);
        } else if p < i {
            assert(r[p] == s[p] && r[q] == s[q - 1]);
        } else if p == i {
            assert(r[p] == x && r[q] == s[q - 1]);
            if name_lt(s[q - 1].0, x.0) {
                if q - 1 == i {
                    lemma_name_lt_transitive(s[i].0, x.0, s[i].0);
                    lemma_name_lt_irreflexive(s[i].0);
                } else {
                    lemma_name_lt_transitive(s[q - 1].0, x.0, s[i].0);
                    assert(!name_lt(s[q - 1].0, s[i].0));
                }
            }
        } else {
            assert(r[p] == s[p - 1] && r[q] == s[q - 1]);
        }
    }
}

/// The order in which a class's own fields are laid out: `sort_by_name` puts entries
/// in the order of their names and keeps the same entries, none lost and none added.
pub proof fn lemma_own_fields_in_name_order(s: Seq<(Seq<char>, SemaTypeV)>)
    ensures
        name_sorted(sort_by_name(s)),
        sort_by_name(s).to_multiset() == s.to_multiset(),
    decreases s.len(),
{
    if s.len() > 0 {
        lemma_own_fields_in_name_order(s.drop_last());
        lemma_insert_sorted(s.last(), sort_by_name(s.drop_last()));
        assert(s =~= s.drop_last().push(s.last()));
        vstd::seq_lib::to_multiset_build(s.drop_last(), s.last());
    } else {
        assert(sort_by_name(s) =~= s);
    }
}

/// More fuel than a known chain needs changes nothing.
proof fn lemma_flat_fields_fuel(cs: Seq<ClassInfoV>, c: Seq<char>, f1: nat, f2: nat)
    requires
        chain_known(cs, c, f1),
        f1 <= f2,
    ensures
        chain_known(cs, c, f2),
        flat_fields(cs, c, f1) == flat_fields(cs, c, f2),
    decreases f1,
{
    let info = lookup_class(cs, c)->Some_0;
    match info.superclass {
        Some(s) => {
            lemma_flat_fields_fuel(cs, s, (f1 - 1) as nat, (f2 - 1) as nat);
        },
        None => {},
    }
}

/// The layout of a subclass is the layout of its superclass followed by the
/// subclass's own fields: an inherited field keeps its position, so code of the
/// superclass reads and writes the same slots in an object of the subclass.
pub proof fn lemma_layout_extends_superclass(cs: Seq<ClassInfoV>, c: Seq<char>)
    requires
        chain_known(cs, c, cs.len() + 1),
        lookup_class(cs, c)->Some_0.superclass is Some,
    ensures
        ({
            let info = lookup_class(cs, c)->Some_0;
            let s = info.superclass->Some_0;
            &&& chain_known(cs, s, cs.len() + 1)
            &&& flat_fields(cs, c, cs.len() + 1) == flat_fields(cs, s, cs.len() + 1) + sort_by_name(field_entries(info.fields))
            &&& forall|i: int|
                0 <= i < flat_fields(cs, s, cs.len() + 1).len() ==> #[trigger] flat_fields(cs, c, cs.len() + 1)[i]
                    == flat_fields(cs, s, cs.len() + 1)[i]
        }),
{
    let info = lookup_class(cs, c)->Some_0;
    let s = info.superclass->Some_0;
    lemma_flat_fields_fuel(cs, s, cs.len(), cs.len() + 1);
}

} // verus!
