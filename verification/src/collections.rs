//! Maps and sets of strings, kept in the order of their keys.

use vstd::prelude::*;

use crate::text;

verus! {

/// The texts stand in strictly increasing order, so none occurs twice.
pub open spec fn ordered(keys: Seq<Seq<char>>) -> bool {
    forall|i: int, j: int| 0 <= i < j < keys.len() ==> text::text_lt(#[trigger] keys[i], #[trigger] keys[j])
}

/// The number of leading texts that are before `key`.
pub open spec fn slot(keys: Seq<Seq<char>>, key: Seq<char>) -> int
    decreases keys.len(),
{
    if keys.len() == 0 || !text::text_lt(keys[0], key) {
        0
    } else {
        1 + slot(keys.subrange(1, keys.len() as int), key)
    }
}

/// What `slot` counts.
pub proof fn lemma_slot(keys: Seq<Seq<char>>, key: Seq<char>)
    ensures
        0 <= slot(keys, key) <= keys.len(),
        forall|i: int| 0 <= i < slot(keys, key) ==> text::text_lt(#[trigger] keys[i], key),
        slot(keys, key) < keys.len() ==> !text::text_lt(keys[slot(keys, key)], key),
    decreases keys.len(),
{
    if keys.len() > 0 && text::text_lt(keys[0], key) {
        let rest = keys.subrange(1, keys.len() as int);
        lemma_slot(rest, key);
        assert forall|i: int| 0 <= i < slot(keys, key) implies text::text_lt(#[trigger] keys[i], key) by {
            if i > 0 {
                assert(rest[i - 1] == keys[i]);
            }
        }
    }
}

/// The only place that parts the texts before `key` from one that is not.
pub proof fn lemma_slot_is(keys: Seq<Seq<char>>, key: Seq<char>, at: int)
    requires
        0 <= at <= keys.len(),
        forall|i: int| 0 <= i < at ==> text::text_lt(#[trigger] keys[i], key),
        at < keys.len() ==> !text::text_lt(keys[at], key),
    ensures
        slot(keys, key) == at,
{
    lemma_slot(keys, key);
    let found = slot(keys, key);
    if found < at {
        assert(text::text_lt(keys[found], key));
    } else if at < found {
        assert(text::text_lt(keys[at], key));
    }
}

/// In ordered texts `key` can stand at its slot only.
proof fn lemma_slot_finds(keys: Seq<Seq<char>>, key: Seq<char>)
    requires
        ordered(keys),
    ensures
        keys.contains(key) <==> (slot(keys, key) < keys.len() && keys[slot(keys, key)] == key),
        forall|j: int| slot(keys, key) < j < keys.len() ==> text::text_lt(key, #[trigger] keys[j]),
{
    lemma_slot(keys, key);
    let at = slot(keys, key);
    if keys.contains(key) {
        let i = choose|i: int| 0 <= i < keys.len() && keys[i] == key;
        text::lemma_text_lt_irreflexive(key);
        if at < i {
            assert(text::text_lt(keys[at], keys[i]));
        }
        assert(i == at);
    }
    assert forall|j: int| at < j < keys.len() implies text::text_lt(key, #[trigger] keys[j]) by {
        assert(text::text_lt(keys[at], keys[j]));
        if keys[at] != key {
            text::lemma_text_lt_total(keys[at], key);
            text::lemma_text_lt_transitive(key, keys[at], keys[j]);
        }
    }
}

// ---------------------------------------------------------------------------
// Sets
// ---------------------------------------------------------------------------

/// The texts with `key` among them, at its place.
pub open spec fn with_text(keys: Seq<Seq<char>>, key: Seq<char>) -> Seq<Seq<char>> {
    let at = slot(keys, key);
    if at < keys.len() && keys[at] == key {
        keys
    } else {
        keys.insert(at, key)
    }
}

/// Putting a text among ordered ones keeps them ordered and adds that text alone.
pub proof fn lemma_with_text(keys: Seq<Seq<char>>, key: Seq<char>)
    requires
        ordered(keys),
    ensures
        ordered(with_text(keys, key)),
        forall|t: Seq<char>| with_text(keys, key).contains(t) <==> keys.contains(t) || t == key,
{
    lemma_slot(keys, key);
    lemma_slot_finds(keys, key);
    let at = slot(keys, key);
    let out = with_text(keys, key);
    if !(at < keys.len() && keys[at] == key) {
        if at < keys.len() {
            text::lemma_text_lt_total(keys[at], key);
        }
        assert forall|i: int, j: int| 0 <= i < j < out.len() implies text::text_lt(
            #[trigger] out[i],
            #[trigger] out[j],
        ) by {
            let a = if i < at { i } else { i - 1 };
            let b = if j < at { j } else { j - 1 };
            if i != at && j != at {
                assert(out[i] == keys[a] && out[j] == keys[b]);
            } else if i == at {
                assert(out[j] == keys[b]);
                if b > at {
                    assert(text::text_lt(key, keys[b]));
                }
            } else {
                assert(out[i] == keys[i]);
            }
        }
        assert forall|t: Seq<char>| out.contains(t) <==> keys.contains(t) || t == key by {
            if keys.contains(t) {
                let i = choose|i: int| 0 <= i < keys.len() && keys[i] == t;
                assert(out[if i < at { i } else { i + 1 }] == t);
            }
            if t == key {
                assert(out[at] == t);
            }
            if out.contains(t) {
                let i = choose|i: int| 0 <= i < out.len() && out[i] == t;
                if i != at {
                    assert(keys[if i < at { i } else { i - 1 }] == t);
                }
            }
        }
    }
}

/// Ordered texts are told apart by which texts are among them.
pub proof fn lemma_ordered_unique(a: Seq<Seq<char>>, b: Seq<Seq<char>>)
    requires
        ordered(a),
        ordered(b),
        forall|t: Seq<char>| a.contains(t) <==> b.contains(t),
    ensures
        a == b,
    decreases a.len(),
{
    if a.len() == 0 {
        if b.len() > 0 {
            assert(b.contains(b[0]));
            assert(a.contains(b[0]));
        }
        assert(a =~= b);
    } else {
        assert(a.contains(a[0]));
        assert(b.contains(a[0]));
        assert(b.contains(b[0]));
        assert(a.contains(b[0]));
        let i = choose|i: int| 0 <= i < b.len() && b[i] == a[0];
        let j = choose|j: int| 0 <= j < a.len() && a[j] == b[0];
        if i > 0 {
            assert(text::text_lt(b[0], b[i]));
            if j > 0 {
                assert(text::text_lt(a[0], a[j]));
                text::lemma_text_lt_transitive(a[0], b[0], a[0]);
            }
            text::lemma_text_lt_irreflexive(a[0]);
        }
        assert(a[0] == b[0]);
        let x = a.subrange(1, a.len() as int);
        let y = b.subrange(1, b.len() as int);
        assert forall|t: Seq<char>| x.contains(t) <==> y.contains(t) by {
            text::lemma_text_lt_irreflexive(a[0]);
            if x.contains(t) {
                let k = choose|k: int| 0 <= k < x.len() && x[k] == t;
                assert(a[k + 1] == t);
                assert(text::text_lt(a[0], a[k + 1]));
                assert(b.contains(t));
                let m = choose|m: int| 0 <= m < b.len() && b[m] == t;
                assert(m > 0);
                assert(y[m - 1] == t);
            }
            if y.contains(t) {
                let k = choose|k: int| 0 <= k < y.len() && y[k] == t;
                assert(b[k + 1] == t);
                assert(text::text_lt(b[0], b[k + 1]));
                assert(a.contains(t));
                let m = choose|m: int| 0 <= m < a.len() && a[m] == t;
                assert(m > 0);
                assert(x[m - 1] == t);
            }
        }
        assert forall|i: int, j: int| 0 <= i < j < x.len() implies text::text_lt(
            #[trigger] x[i],
            #[trigger] x[j],
        ) by {
            assert(text::text_lt(a[i + 1], a[j + 1]));
        }
        assert forall|i: int, j: int| 0 <= i < j < y.len() implies text::text_lt(
            #[trigger] y[i],
            #[trigger] y[j],
        ) by {
            assert(text::text_lt(b[i + 1], b[j + 1]));
        }
        lemma_ordered_unique(x, y);
        assert(a =~= seq![a[0]] + x);
        assert(b =~= seq![b[0]] + y);
    }
}

/// The slot of a text among strings.
fn find_slot(items: &Vec<String>, key: &str) -> (r: usize)
    ensures
        r == slot(text::texts(items@), key@),
        r <= items@.len(),
{
    let mut i: usize = 0;
    while i < items.len() && text::less(items[i].as_str(), key)
        invariant
            i <= items@.len(),
            forall|k: int| 0 <= k < i ==> text::text_lt(#[trigger] text::texts(items@)[k], key@),
        decreases items.len() - i,
    {
        i += 1;
    }
    proof {
        lemma_slot_is(text::texts(items@), key@, i as int);
    }
    i
}

/// Whether a text is among strings.
pub fn contains_text(items: &Vec<String>, text: &str) -> (r: bool)
    ensures
        r == text::texts(items@).contains(text@),
{
    let mut i: usize = 0;
    while i < items.len()
        invariant
            i <= items@.len(),
            forall|k: int| 0 <= k < i ==> #[trigger] text::texts(items@)[k] != text@,
        decreases items.len() - i,
    {
        if text::same(items[i].as_str(), text) {
            assert(text::texts(items@)[i as int] == text@);
            return true;
        }
        i += 1;
    }
    false
}

/// A set of strings in increasing order.
#[derive(Clone, Debug, PartialEq, Eq)]
pub struct StringSet {
    /// The members.
    pub items: Vec<String>,
}

impl View for StringSet {
    type V = Seq<Seq<char>>;

    open spec fn view(&self) -> Seq<Seq<char>> {
        text::texts(self.items@)
    }
}

impl StringSet {
    /// The members stand in strictly increasing order.
    pub open spec fn wf(self) -> bool {
        ordered(self@)
    }

    /// The empty set.
    pub fn new() -> (r: StringSet)
        ensures
            r@ == Seq::<Seq<char>>::empty(),
            r.wf(),
    {
        let r = StringSet { items: Vec::new() };
        assert(r@ =~= Seq::<Seq<char>>::empty());
        r
    }

    /// Adds a member.
    pub fn insert(&mut self, text: String)
        ensures
            final(self)@ == with_text(old(self)@, text@),
            old(self).wf() ==> final(self).wf(),
    {
        let at: usize = find_slot(&self.items, text.as_str());
        let ghost before = self.items@;
        let ghost key = text@;
        proof {
            lemma_slot(text::texts(before), key);
            if ordered(text::texts(before)) {
                lemma_with_text(text::texts(before), key);
            }
        }
        if at < self.items.len() && text::same(self.items[at].as_str(), text.as_str()) {
            return;
        }
        self.items.insert(at, text);
        assert(text::texts(self.items@) =~= text::texts(before).insert(at as int, key));
    }

    /// Takes a member out.
    pub fn remove(&mut self, text: &str)
        requires
            old(self).wf(),
        ensures
            final(self).wf(),
            forall|t: Seq<char>| #[trigger]
                final(self)@.contains(t) == (old(self)@.contains(t) && t != text@),
    {
        let ghost before = self@;
        let mut at: usize = 0;
        while at < self.items.len() && !text::same(self.items[at].as_str(), text)
            invariant
                self@ == before,
                at <= self.items@.len(),
                forall|k: int| 0 <= k < at ==> (#[trigger] before[k]) != text@,
            decreases self.items.len() - at,
        {
            at += 1;
        }
        if at < self.items.len() {
            assert(before[at as int] == text@);
            let taken = self.items.remove(at);
            assert(self@ =~= before.remove(at as int));
            assert forall|i: int, j: int| 0 <= i < j < self@.len() implies text::text_lt(
                #[trigger] self@[i],
                #[trigger] self@[j],
            ) by {
                let a = if i < at { i } else { i + 1 };
                let b = if j < at { j } else { j + 1 };
                assert(self@[i] == before[a] && self@[j] == before[b]);
            }
            assert forall|t: Seq<char>| #[trigger]
                self@.contains(t) == (before.contains(t) && t != text@) by {
                if self@.contains(t) {
                    let i = choose|i: int| 0 <= i < self@.len() && self@[i] == t;
                    let a = if i < at { i } else { i + 1 };
                    assert(before[a] == t);
                    text::lemma_text_lt_irreflexive(t);
                    if a < at {
                        assert(text::text_lt(before[a], before[at as int]));
                    } else {
                        assert(text::text_lt(before[at as int], before[a]));
                    }
                }
                if before.contains(t) && t != text@ {
                    let a = choose|a: int| 0 <= a < before.len() && before[a] == t;
                    assert(self@[if a < at { a } else { a - 1 }] == t);
                }
            }
        }
    }

    /// Tests membership.
    pub fn contains(&self, text: &str) -> (r: bool)
        ensures
            r == self@.contains(text@),
    {
        contains_text(&self.items, text)
    }

    /// The number of members.
    pub fn len(&self) -> (r: usize)
        ensures
            r == self@.len(),
    {
        self.items.len()
    }
}

// ---------------------------------------------------------------------------
// Maps
// ---------------------------------------------------------------------------

/// The keys of entries.
pub open spec fn keys_of<V>(entries: Seq<(String, V)>) -> Seq<Seq<char>> {
    Seq::new(entries.len(), |i: int| entries[i].0@)
}

/// The value of the first entry with the key.
pub open spec fn find<V>(entries: Seq<(String, V)>, key: Seq<char>) -> Option<V>
    decreases entries.len(),
{
    if entries.len() == 0 {
        None
    } else if entries[0].0@ == key {
        Some(entries[0].1)
    } else {
        find(entries.subrange(1, entries.len() as int), key)
    }
}

/// An entry with the key and none before it is what `find` finds.
pub proof fn lemma_find_at<V>(entries: Seq<(String, V)>, key: Seq<char>, at: int)
    requires
        0 <= at < entries.len(),
        entries[at].0@ == key,
        forall|k: int| 0 <= k < at ==> (#[trigger] entries[k]).0@ != key,
    ensures
        find(entries, key) == Some(entries[at].1),
    decreases entries.len(),
{
    if at > 0 {
        let rest = entries.subrange(1, entries.len() as int);
        assert(entries[0].0@ != key);
        assert forall|k: int| 0 <= k < at - 1 implies (#[trigger] rest[k]).0@ != key by {
            assert(entries[k + 1].0@ != key);
        }
        lemma_find_at(rest, key, at - 1);
    }
}

/// Where no entry has the key, `find` finds none.
pub proof fn lemma_find_none<V>(entries: Seq<(String, V)>, key: Seq<char>)
    requires
        forall|k: int| 0 <= k < entries.len() ==> (#[trigger] entries[k]).0@ != key,
    ensures
        find(entries, key) is None,
    decreases entries.len(),
{
    if entries.len() > 0 {
        let rest = entries.subrange(1, entries.len() as int);
        assert(entries[0].0@ != key);
        assert forall|k: int| 0 <= k < rest.len() implies (#[trigger] rest[k]).0@ != key by {
            assert(entries[k + 1].0@ != key);
        }
        lemma_find_none(rest, key);
    }
}

/// In ordered entries an entry is what `find` finds for its key.
pub proof fn lemma_find_ordered<V>(entries: Seq<(String, V)>, at: int)
    requires
        ordered(keys_of(entries)),
        0 <= at < entries.len(),
    ensures
        find(entries, entries[at].0@) == Some(entries[at].1),
{
    let keys = keys_of(entries);
    assert forall|k: int| 0 <= k < at implies (#[trigger] entries[k]).0@ != entries[at].0@ by {
        assert(text::text_lt(keys[k], keys[at]));
        text::lemma_text_lt_irreflexive(keys[at]);
    }
    lemma_find_at(entries, entries[at].0@, at);
}

/// `find` finds something exactly for the keys of the entries.
pub proof fn lemma_find_some<V>(entries: Seq<(String, V)>, key: Seq<char>)
    ensures
        find(entries, key) is Some <==> keys_of(entries).contains(key),
    decreases entries.len(),
{
    let keys = keys_of(entries);
    if entries.len() > 0 {
        let rest = entries.subrange(1, entries.len() as int);
        lemma_find_some(rest, key);
        assert(keys[0] == entries[0].0@);
        if keys.contains(key) && entries[0].0@ != key {
            let k = choose|k: int| 0 <= k < keys.len() && keys[k] == key;
            assert(keys_of(rest)[k - 1] == key);
        }
        if keys_of(rest).contains(key) {
            let k = choose|k: int| 0 <= k < rest.len() && keys_of(rest)[k] == key;
            assert(keys[k + 1] == key);
        }
    }
}

/// The entries with the value under the key: in the place of the entry with that
/// key, or as a new entry at its slot.
pub open spec fn with_entry<V>(entries: Seq<(String, V)>, key: String, value: V) -> Seq<(String, V)> {
    let at = slot(keys_of(entries), key@);
    if at < entries.len() && entries[at].0@ == key@ {
        entries.update(at, (entries[at].0, value))
    } else {
        entries.insert(at, (key, value))
    }
}

/// Setting a value in ordered entries keeps them ordered and changes what is found
/// for that key alone.
pub proof fn lemma_with_entry<V>(entries: Seq<(String, V)>, key: String, value: V)
    requires
        ordered(keys_of(entries)),
    ensures
        ordered(keys_of(with_entry(entries, key, value))),
        find(with_entry(entries, key, value), key@) == Some(value),
        forall|k: Seq<char>| k != key@ ==> find(with_entry(entries, key, value), k) == find(entries, k),
{
    let keys = keys_of(entries);
    lemma_slot(keys, key@);
    lemma_slot_finds(keys, key@);
    lemma_with_text(keys, key@);
    let at = slot(keys, key@);
    let out = with_entry(entries, key, value);
    assert(keys_of(out) =~= with_text(keys, key@));
    assert(out[at].0@ == key@);
    lemma_find_ordered(out, at);
    assert forall|k: Seq<char>| k != key@ implies find(out, k) == find(entries, k) by {
        lemma_find_some(out, k);
        lemma_find_some(entries, k);
        if keys.contains(k) {
            let i = choose|i: int| 0 <= i < keys.len() && keys[i] == k;
            lemma_find_ordered(entries, i);
            let shifted = if entries.len() == out.len() || i < at { i } else { i + 1 };
            assert(out[shifted] == entries[i]);
            lemma_find_ordered(out, shifted);
        }
    }
}

/// The entries without the first one with the key.
pub open spec fn without_entry<V>(entries: Seq<(String, V)>, key: Seq<char>) -> Seq<(String, V)>
    decreases entries.len(),
{
    if entries.len() == 0 {
        entries
    } else if entries[0].0@ == key {
        entries.subrange(1, entries.len() as int)
    } else {
        seq![entries[0]] + without_entry(entries.subrange(1, entries.len() as int), key)
    }
}

/// What is found for a key stands under it.
pub proof fn lemma_found_stands<V>(entries: Seq<(String, V)>, key: Seq<char>)
    requires
        find(entries, key) is Some,
    ensures
        exists|k: int|
            0 <= k < entries.len() && (#[trigger] entries[k]).0@ == key && entries[k].1
                == find(entries, key)->0,
    decreases entries.len(),
{
    if entries[0].0@ != key {
        let rest = entries.subrange(1, entries.len() as int);
        lemma_found_stands(rest, key);
        let k = choose|k: int|
            0 <= k < rest.len() && (#[trigger] rest[k]).0@ == key && rest[k].1 == find(
                rest,
                key,
            )->0;
        assert(entries[k + 1] == rest[k]);
    }
}

/// Entries without a key are entries, and other keys stay.
pub proof fn lemma_without_entry_keeps<V>(entries: Seq<(String, V)>, key: Seq<char>)
    ensures
        forall|i: int|
            0 <= i < without_entry(entries, key).len() ==> entries.contains(
                #[trigger] without_entry(entries, key)[i],
            ),
        forall|k: Seq<char>|
            k != key && keys_of(entries).contains(k) ==> #[trigger] keys_of(without_entry(entries, key)).contains(k),
    decreases entries.len(),
{
    let out = without_entry(entries, key);
    if entries.len() > 0 {
        let rest = entries.subrange(1, entries.len() as int);
        lemma_without_entry_keeps(rest, key);
        let fewer = without_entry(rest, key);
        assert forall|i: int| 0 <= i < out.len() implies entries.contains(#[trigger] out[i]) by {
            if entries[0].0@ == key {
                assert(out[i] == entries[i + 1]);
            } else if i == 0 {
                assert(out[0] == entries[0]);
            } else {
                assert(out[i] == fewer[i - 1]);
                let j = choose|j: int| 0 <= j < rest.len() && rest[j] == fewer[i - 1];
                assert(entries[j + 1] == out[i]);
            }
        }
        assert forall|k: Seq<char>| k != key && keys_of(entries).contains(k) implies #[trigger] keys_of(
            out,
        ).contains(k) by {
            let i = choose|i: int| 0 <= i < keys_of(entries).len() && keys_of(entries)[i] == k;
            if entries[0].0@ == key {
                assert(keys_of(out)[i - 1] == k);
            } else if i == 0 {
                assert(keys_of(out)[0] == k);
            } else {
                assert(keys_of(rest)[i - 1] == k);
                assert(keys_of(rest).contains(k));
                assert(keys_of(fewer).contains(k));
                let j = choose|j: int| 0 <= j < keys_of(fewer).len() && keys_of(fewer)[j] == k;
                assert(keys_of(out)[j + 1] == k);
            }
        }
    }
}

/// Taking a key out of ordered entries changes what is found for that key alone.
pub proof fn lemma_without_entry<V>(entries: Seq<(String, V)>, key: Seq<char>, k: Seq<char>)
    requires
        ordered(keys_of(entries)),
    ensures
        find(without_entry(entries, key), k) == if k == key {
            None
        } else {
            find(entries, k)
        },
    decreases entries.len(),
{
    if entries.len() > 0 {
        let rest = entries.subrange(1, entries.len() as int);
        let keys = keys_of(entries);
        assert(keys_of(rest) =~= keys.subrange(1, keys.len() as int));
        assert forall|i: int, j: int| 0 <= i < j < keys_of(rest).len() implies text::text_lt(
            #[trigger] keys_of(rest)[i],
            #[trigger] keys_of(rest)[j],
        ) by {
            assert(text::text_lt(keys[i + 1], keys[j + 1]));
        }
        if entries[0].0@ == key {
            assert forall|i: int| 0 <= i < rest.len() implies (#[trigger] rest[i]).0@ != key by {
                assert(text::text_lt(keys[0], keys[i + 1]));
                text::lemma_text_lt_irreflexive(key);
            }
            lemma_find_none(rest, key);
        } else {
            let out = without_entry(entries, key);
            lemma_without_entry(rest, key, k);
            assert(out.subrange(1, out.len() as int) =~= without_entry(rest, key));
            assert(out[0] == entries[0]);
        }
    }
}

/// A map from strings, in increasing order of the keys.
#[derive(Clone, Debug, PartialEq, Eq)]
pub struct StringMap<V> {
    /// The entries.
    pub entries: Vec<(String, V)>,
}

impl<V> StringMap<V> {
    /// The keys stand in strictly increasing order.
    pub open spec fn wf(self) -> bool {
        ordered(keys_of(self.entries@))
    }

    /// The keys.
    pub open spec fn keys(self) -> Seq<Seq<char>> {
        keys_of(self.entries@)
    }

    /// The value under a key.
    pub open spec fn at(self, key: Seq<char>) -> Option<V> {
        find(self.entries@, key)
    }

    /// The empty map.
    pub fn new() -> (r: StringMap<V>)
        ensures
            r.entries@ == Seq::<(String, V)>::empty(),
            r.wf(),
    {
        StringMap { entries: Vec::new() }
    }

    /// The value under a key.
    pub fn get(&self, key: &str) -> (r: Option<&V>)
        ensures
            match r {
                Some(v) => self.at(key@) == Some(*v),
                None => self.at(key@) is None,
            },
    {
        let ghost all = self.entries@;
        let mut i: usize = 0;
        assert(all.subrange(0, all.len() as int) =~= all);
        while i < self.entries.len()
            invariant
                all == self.entries@,
                i <= all.len(),
                find(all.subrange(i as int, all.len() as int), key@) == find(all, key@),
            decreases self.entries.len() - i,
        {
            if text::same(self.entries[i].0.as_str(), key) {
                return Some(&self.entries[i].1);
            }
            proof {
                let rest = all.subrange(i as int, all.len() as int);
                assert(rest.subrange(1, rest.len() as int) =~= all.subrange(i + 1, all.len() as int));
            }
            i += 1;
        }
        None
    }

    /// Whether a key has a value.
    pub fn contains_key(&self, key: &str) -> (r: bool)
        ensures
            r == self.keys().contains(key@),
            r == self.at(key@) is Some,
    {
        proof {
            lemma_find_some(self.entries@, key@);
        }
        self.get(key).is_some()
    }

    /// Sets the value under a key.
    pub fn insert(&mut self, key: String, value: V)
        ensures
            final(self).entries@ == with_entry(old(self).entries@, key, value),
            old(self).wf() ==> final(self).wf(),
            old(self).wf() ==> final(self).at(key@) == Some(value),
            old(self).wf() ==> forall|k: Seq<char>| k != key@ ==> final(self).at(k) == old(self).at(k),
    {
        let ghost all = self.entries@;
        let mut at: usize = 0;
        while at < self.entries.len() && text::less(self.entries[at].0.as_str(), key.as_str())
            invariant
                all == self.entries@,
                at <= all.len(),
                forall|k: int| 0 <= k < at ==> text::text_lt(#[trigger] keys_of(all)[k], key@),
            decreases self.entries.len() - at,
        {
            at += 1;
        }
        proof {
            lemma_slot_is(keys_of(all), key@, at as int);
            if ordered(keys_of(all)) {
                lemma_with_entry(all, key, value);
            }
        }
        if at < self.entries.len() && text::same(self.entries[at].0.as_str(), key.as_str()) {
            let kept = self.entries[at].0.clone();
            self.entries.set(at, (kept, value));
        } else {
            self.entries.insert(at, (key, value));
        }
    }

    /// Removes a key.
    pub fn remove(&mut self, key: &str)
        ensures
            final(self).entries@ == without_entry(old(self).entries@, key@),
    {
        let ghost all = self.entries@;
        let mut i: usize = 0;
        assert(all.subrange(0, all.len() as int) =~= all);
        assert(all.take(0) + without_entry(all, key@) =~= without_entry(all, key@));
        while i < self.entries.len()
            invariant
                all == old(self).entries@,
                all == self.entries@,
                i <= all.len(),
                all.take(i as int) + without_entry(all.subrange(i as int, all.len() as int), key@)
                    == without_entry(all, key@),
            decreases self.entries.len() - i,
        {
            let ghost rest = all.subrange(i as int, all.len() as int);
            assert(rest.subrange(1, rest.len() as int) =~= all.subrange(i + 1, all.len() as int));
            if text::same(self.entries[i].0.as_str(), key) {
                assert(rest[0] == all[i as int]);
                assert(without_entry(rest, key@) == all.subrange(i + 1, all.len() as int));
                let removed = self.entries.remove(i);
                assert(self.entries@ =~= all.take(i as int) + all.subrange(i + 1, all.len() as int));
                return;
            }
            proof {
                let tail = without_entry(all.subrange(i + 1, all.len() as int), key@);
                assert(all.take(i as int) + (seq![rest[0]] + tail) =~= all.take(i + 1) + tail);
            }
            i += 1;
        }
        assert(all.take(i as int) + Seq::<(String, V)>::empty() =~= all);
    }

    /// The number of entries.
    pub fn len(&self) -> (r: usize)
        ensures
            r == self.entries@.len(),
    {
        self.entries.len()
    }

    /// The keys, in order.
    pub fn key_list(&self) -> (r: Vec<String>)
        ensures
            text::texts(r@) == self.keys(),
    {
        let mut out: Vec<String> = Vec::new();
        let mut i: usize = 0;
        while i < self.entries.len()
            invariant
                i <= self.entries@.len(),
                out@.len() == i,
                forall|k: int| 0 <= k < i ==> (#[trigger] out@[k])@ == self.entries@[k].0@,
            decreases self.entries.len() - i,
        {
            out.push(self.entries[i].0.clone());
            i += 1;
        }
        assert(text::texts(out@) =~= self.keys());
        out
    }
}

} // verus!
