//! Values that differ in nothing but the order of names.

use vstd::prelude::*;

use crate::text;
use crate::value;
use crate::value::{canonical, canonical_entries, distinct_names, in_order, lookup, names_of, DataV};

verus! {

/// No name occurs twice among named values, at any depth.
pub open spec fn is_document(v: DataV) -> bool
    decreases v,
{
    match v {
        DataV::Object(entries) => {
            &&& distinct_names(entries)
            &&& forall|i: int| 0 <= i < entries.len() ==> is_document((#[trigger] entries[i]).1)
        },
        DataV::Array(items) => forall|i: int| 0 <= i < items.len() ==> is_document(#[trigger] items[i]),
        _ => true,
    }
}

/// Some entry has the name.
pub open spec fn has_name(entries: Seq<(Seq<char>, DataV)>, name: Seq<char>) -> bool {
    exists|i: int| 0 <= i < entries.len() && (#[trigger] entries[i]).0 == name
}

/// The values differ in nothing but the order of names, at any depth.
pub open spec fn same_but_order(a: DataV, b: DataV) -> bool
    decreases a,
{
    match (a, b) {
        (DataV::Object(x), DataV::Object(y)) => {
            &&& forall|i: int| 0 <= i < x.len() ==> has_name(y, (#[trigger] x[i]).0)
            &&& forall|j: int| 0 <= j < y.len() ==> has_name(x, (#[trigger] y[j]).0)
            &&& forall|i: int, j: int|
                0 <= i < x.len() && 0 <= j < y.len() && (#[trigger] x[i]).0 == (#[trigger] y[j]).0
                    ==> same_but_order(x[i].1, y[j].1)
        },
        (DataV::Array(x), DataV::Array(y)) => {
            &&& x.len() == y.len()
            &&& forall|i: int| 0 <= i < x.len() ==> same_but_order(#[trigger] x[i], y[i])
        },
        _ => a == b,
    }
}

/// Names in order occur once.
proof fn lemma_in_order_distinct(entries: Seq<(Seq<char>, DataV)>)
    requires
        in_order(entries),
    ensures
        distinct_names(entries),
{
    let names = names_of(entries);
    assert forall|i: int, j: int| 0 <= i < j < entries.len() implies (#[trigger] entries[i]).0 != (
    #[trigger] entries[j]).0 by {
        assert(text::text_lt(names[i], names[j]));
        text::lemma_text_lt_irreflexive(names[i]);
    }
}

/// What is found stands somewhere.
proof fn lemma_found_somewhere(entries: Seq<(Seq<char>, DataV)>, name: Seq<char>) -> (at: int)
    requires
        lookup(entries, name) is Some,
    ensures
        0 <= at < entries.len(),
        entries[at].0 == name,
        lookup(entries, name) == Some(entries[at].1),
    decreases entries.len(),
{
    if entries[0].0 == name {
        0
    } else {
        let rest = entries.subrange(1, entries.len() as int);
        let at = lemma_found_somewhere(rest, name);
        assert(rest[at] == entries[at + 1]);
        at + 1
    }
}

/// What stands somewhere is found.
proof fn lemma_has_name(entries: Seq<(Seq<char>, DataV)>, name: Seq<char>)
    ensures
        has_name(entries, name) == (lookup(entries, name) is Some),
{
    if lookup(entries, name) is Some {
        let at = lemma_found_somewhere(entries, name);
        assert(entries[at].0 == name);
    } else if has_name(entries, name) {
        let at = choose|i: int| 0 <= i < entries.len() && (#[trigger] entries[i]).0 == name;
        lemma_not_missing(entries, at);
    }
}

/// An entry is not missing.
proof fn lemma_not_missing(entries: Seq<(Seq<char>, DataV)>, at: int)
    requires
        0 <= at < entries.len(),
    ensures
        lookup(entries, entries[at].0) is Some,
    decreases entries.len(),
{
    if at > 0 && entries[0].0 != entries[at].0 {
        let rest = entries.subrange(1, entries.len() as int);
        assert(rest[at - 1] == entries[at]);
        lemma_not_missing(rest, at - 1);
    }
}

/// Entries in order are the same where the same is found under every name.
proof fn lemma_same_entries(a: Seq<(Seq<char>, DataV)>, b: Seq<(Seq<char>, DataV)>)
    requires
        in_order(a),
        in_order(b),
        forall|name: Seq<char>| #[trigger] lookup(a, name) == lookup(b, name),
    ensures
        a == b,
    decreases a.len(),
{
    if a.len() == 0 {
        if b.len() > 0 {
            assert(lookup(b, b[0].0) is Some);
            assert(lookup(a, b[0].0) is None);
        }
        assert(a =~= b);
    } else {
        let first = a[0].0;
        assert(lookup(a, first) is Some);
        let j = lemma_found_somewhere(b, first);
        let other = b[0].0;
        assert(lookup(b, other) is Some);
        assert(lookup(a, other) is Some);
        let i = lemma_found_somewhere(a, other);
        if i > 0 && j > 0 {
            assert(text::text_lt(names_of(a)[0], names_of(a)[i]));
            assert(text::text_lt(names_of(b)[0], names_of(b)[j]));
            text::lemma_text_lt_transitive(first, other, first);
            text::lemma_text_lt_irreflexive(first);
        }
        assert(first == other);
        assert(a[0] == b[0]);
        let x = a.subrange(1, a.len() as int);
        let y = b.subrange(1, b.len() as int);
        assert forall|name: Seq<char>| #[trigger] lookup(x, name) == lookup(y, name) by {
            if name == first {
                lemma_later_names_differ(a);
                lemma_later_names_differ(b);
                value::lemma_lookup_absent(x, name);
                value::lemma_lookup_absent(y, name);
            } else {
                assert(lookup(a, name) == lookup(b, name));
            }
        }
        lemma_rest_in_order(a);
        lemma_rest_in_order(b);
        lemma_same_entries(x, y);
        assert(a =~= seq![a[0]] + x);
        assert(b =~= seq![b[0]] + y);
    }
}

/// No later name is the first one.
proof fn lemma_later_names_differ(a: Seq<(Seq<char>, DataV)>)
    requires
        in_order(a),
        a.len() > 0,
    ensures
        ({
            let rest = a.subrange(1, a.len() as int);
            forall|i: int| 0 <= i < rest.len() ==> (#[trigger] rest[i]).0 != a[0].0
        }),
{
    lemma_in_order_distinct(a);
    let rest = a.subrange(1, a.len() as int);
    assert forall|i: int| 0 <= i < rest.len() implies (#[trigger] rest[i]).0 != a[0].0 by {
        assert(rest[i] == a[i + 1]);
        assert(a[0].0 != a[i + 1].0);
    }
}

/// All but the first of names in order are in order.
proof fn lemma_rest_in_order(a: Seq<(Seq<char>, DataV)>)
    requires
        in_order(a),
        a.len() > 0,
    ensures
        in_order(a.subrange(1, a.len() as int)),
{
    let rest = a.subrange(1, a.len() as int);
    let names = names_of(rest);
    assert forall|i: int, j: int| 0 <= i < j < names.len() implies text::text_lt(
        #[trigger] names[i],
        #[trigger] names[j],
    ) by {
        assert(names[i] == names_of(a)[i + 1] && names[j] == names_of(a)[j + 1]);
    }
}

/// The canonical entries are in order.
proof fn lemma_canonical_in_order(entries: Seq<(Seq<char>, DataV)>)
    ensures
        in_order(canonical_entries(entries)),
    decreases entries.len(),
{
    if entries.len() > 0 {
        let (name, v) = entries[entries.len() - 1];
        let fewer = entries.subrange(0, entries.len() - 1);
        lemma_canonical_in_order(fewer);
        value::lemma_put_in_order(canonical_entries(fewer), name, canonical(v));
    }
}

/// Each canonical entry comes from an entry.
proof fn lemma_canonical_source(entries: Seq<(Seq<char>, DataV)>, name: Seq<char>) -> (at: int)
    requires
        lookup(canonical_entries(entries), name) is Some,
    ensures
        0 <= at < entries.len(),
        lookup(canonical_entries(entries), name) == Some(canonical(entries[at].1)),
    decreases entries.len(),
{
    let last = entries.len() - 1;
    let fewer = entries.subrange(0, last as int);
    let (added, v) = entries[last as int];
    let before = canonical_entries(fewer);
    if added == name {
        value::lemma_put_found(before, added, canonical(v));
        last as int
    } else {
        value::lemma_put_kept(before, added, canonical(v), name);
        let at = lemma_canonical_source(fewer, name);
        assert(fewer[at] == entries[at]);
        at
    }
}

/// Values that differ in nothing but the order of names have one canonical form.
pub proof fn canonical_form_ignores_order(a: DataV, b: DataV)
    requires
        is_document(a),
        is_document(b),
        same_but_order(a, b),
    ensures
        canonical(a) == canonical(b),
    decreases a,
{
    match (a, b) {
        (DataV::Object(x), DataV::Object(y)) => {
            let p = canonical_entries(x);
            let q = canonical_entries(y);
            assert(canonical(a) == DataV::Object(p));
            assert(canonical(b) == DataV::Object(q));
            lemma_canonical_in_order(x);
            lemma_canonical_in_order(y);
            assert forall|name: Seq<char>| #[trigger] lookup(p, name) == lookup(q, name) by {
                value::canonical_form_keeps_fields(x, name);
                value::canonical_form_keeps_fields(y, name);
                lemma_has_name(x, name);
                lemma_has_name(y, name);
                if lookup(x, name) is Some {
                    let i = lemma_found_somewhere(x, name);
                    assert(has_name(y, x[i].0));
                    let j = lemma_found_somewhere(y, name);
                    assert(same_but_order(x[i].1, y[j].1));
                    assert(is_document(x[i].1) && is_document(y[j].1));
                    canonical_form_ignores_order(x[i].1, y[j].1);
                } else if lookup(y, name) is Some {
                    let j = lemma_found_somewhere(y, name);
                    assert(has_name(x, y[j].0));
                }
            }
            lemma_same_entries(p, q);
        },
        (DataV::Array(x), DataV::Array(y)) => {
            assert forall|i: int| 0 <= i < x.len() implies canonical(#[trigger] x[i]) == canonical(y[i]) by {
                assert(same_but_order(x[i], y[i]));
                assert(is_document(x[i]) && is_document(y[i]));
                canonical_form_ignores_order(x[i], y[i]);
            }
            assert(canonical(a)->Array_0 =~= canonical(b)->Array_0);
        },
        _ => {},
    }
}

/// The canonical form of a canonical form is that form.
pub proof fn canonical_form_is_stable(a: DataV)
    ensures
        canonical(canonical(a)) == canonical(a),
    decreases a,
{
    match a {
        DataV::Object(x) => {
            let p = canonical_entries(x);
            let q = canonical_entries(p);
            assert(canonical(a) == DataV::Object(p));
            assert(canonical(DataV::Object(p)) == DataV::Object(q));
            lemma_canonical_in_order(x);
            lemma_canonical_in_order(p);
            lemma_in_order_distinct(p);
            assert forall|name: Seq<char>| #[trigger] lookup(p, name) == lookup(q, name) by {
                value::canonical_form_keeps_fields(p, name);
                if lookup(p, name) is Some {
                    let at = lemma_canonical_source(x, name);
                    assert(decreases_to!(a => a->Object_0));
                    assert(decreases_to!(x => x[at]));
                    let entry = x[at];
                    canonical_form_is_stable(entry.1);
                }
            }
            lemma_same_entries(p, q);
        },
        DataV::Array(x) => {
            let p = canonical(a)->Array_0;
            assert forall|i: int| 0 <= i < x.len() implies canonical(#[trigger] p[i]) == p[i] by {
                assert(p[i] == canonical(x[i]));
                canonical_form_is_stable(x[i]);
            }
            assert(canonical(canonical(a))->Array_0 =~= p);
        },
        _ => {},
    }
}

/// The canonical form differs from the value in nothing but the order of names.
pub proof fn canonical_form_is_the_same_value(a: DataV)
    requires
        is_document(a),
    ensures
        same_but_order(a, canonical(a)),
        is_document(canonical(a)),
    decreases a,
{
    match a {
        DataV::Object(x) => {
            let p = canonical_entries(x);
            assert(canonical(a) == DataV::Object(p));
            lemma_canonical_in_order(x);
            lemma_in_order_distinct(p);
            assert forall|i: int| 0 <= i < x.len() implies has_name(p, (#[trigger] x[i]).0) by {
                value::lemma_lookup_distinct(x, i);
                value::canonical_form_keeps_fields(x, x[i].0);
                lemma_has_name(p, x[i].0);
            }
            assert forall|j: int| 0 <= j < p.len() implies has_name(x, (#[trigger] p[j]).0) by {
                value::lemma_lookup_distinct(p, j);
                value::canonical_form_keeps_fields(x, p[j].0);
                lemma_has_name(x, p[j].0);
            }
            assert forall|i: int, j: int|
                0 <= i < x.len() && 0 <= j < p.len() && (#[trigger] x[i]).0 == (
                #[trigger] p[j]).0 implies same_but_order(x[i].1, p[j].1) by {
                value::lemma_lookup_distinct(x, i);
                value::lemma_lookup_distinct(p, j);
                value::canonical_form_keeps_fields(x, x[i].0);
                assert(is_document(x[i].1));
                canonical_form_is_the_same_value(x[i].1);
            }
            assert forall|j: int| 0 <= j < p.len() implies is_document((#[trigger] p[j]).1) by {
                value::lemma_lookup_distinct(p, j);
                let at = lemma_canonical_source(x, p[j].0);
                assert(is_document(x[at].1));
                canonical_form_is_the_same_value(x[at].1);
            }
        },
        DataV::Array(x) => {
            let p = canonical(a)->Array_0;
            assert forall|i: int| 0 <= i < x.len() implies same_but_order(#[trigger] x[i], p[i]) && is_document(
                p[i],
            ) by {
                assert(p[i] == canonical(x[i]));
                assert(is_document(x[i]));
                canonical_form_is_the_same_value(x[i]);
            }
            assert forall|i: int| 0 <= i < p.len() implies is_document(#[trigger] p[i]) by {
                assert(same_but_order(x[i], p[i]) && is_document(p[i]));
            }
        },
        _ => {},
    }
}

} // verus!
