//! The tree of plain values that settings and messages are made of.
//!
//! It covers what TOML documents and JSON messages can hold. A fractional number is
//! carried as the text that a JSON encoder writes for it.

use vstd::prelude::*;

use crate::collections;
use crate::collections::StringSet;
use crate::outside;
use crate::outside::JsonPart;
use crate::text;

verus! {

/// A plain value.
#[derive(Debug, PartialEq, Eq)]
pub enum Data {
    /// The absent value.
    Null,
    /// A truth value.
    Bool(bool),
    /// A whole number.
    Integer(i128),
    /// A fractional number, as its JSON notation.
    Float(String),
    /// A text.
    Str(String),
    /// A TOML date or time, as its notation.
    Datetime(String),
    /// A list.
    Array(Vec<Data>),
    /// Named values.
    Object(Vec<(String, Data)>),
}

/// The mathematical model of [`Data`].
#[verifier::ext_equal]
pub enum DataV {
    Null,
    Bool(bool),
    Integer(int),
    Float(Seq<char>),
    Str(Seq<char>),
    Datetime(Seq<char>),
    Array(Seq<DataV>),
    Object(Seq<(Seq<char>, DataV)>),
}

impl Data {
    /// The model of the value.
    pub open spec fn model(self) -> DataV
        decreases self,
    {
        match self {
            Data::Null => DataV::Null,
            Data::Bool(b) => DataV::Bool(b),
            Data::Integer(n) => DataV::Integer(n as int),
            Data::Float(s) => DataV::Float(s@),
            Data::Str(s) => DataV::Str(s@),
            Data::Datetime(s) => DataV::Datetime(s@),
            Data::Array(items) => DataV::Array(
                Seq::new(
                    items@.len(),
                    |i: int|
                        if 0 <= i < items@.len() {
                            items@[i].model()
                        } else {
                            DataV::Null
                        },
                ),
            ),
            Data::Object(entries) => DataV::Object(
                Seq::new(
                    entries@.len(),
                    |i: int|
                        if 0 <= i < entries@.len() {
                            (entries@[i].0@, entries@[i].1.model())
                        } else {
                            (Seq::<char>::empty(), DataV::Null)
                        },
                ),
            ),
        }
    }
}

impl View for Data {
    type V = DataV;

    open spec fn view(&self) -> DataV {
        self.model()
    }
}

/// The models of a list of values.
pub open spec fn item_views(items: Seq<Data>) -> Seq<DataV> {
    Seq::new(items.len(), |i: int| items[i]@)
}

/// The models of named values.
pub open spec fn entry_views(entries: Seq<(String, Data)>) -> Seq<(Seq<char>, DataV)> {
    Seq::new(entries.len(), |i: int| (entries[i].0@, entries[i].1@))
}

/// The model of a list.
pub broadcast proof fn lemma_array_view(items: Vec<Data>)
    ensures
        #[trigger] (Data::Array(items)@) == DataV::Array(item_views(items@)),
{
    let v = Data::Array(items);
    assert(v.model()->Array_0 =~= item_views(items@));
}

/// The model of named values.
pub broadcast proof fn lemma_object_view(entries: Vec<(String, Data)>)
    ensures
        #[trigger] (Data::Object(entries)@) == DataV::Object(entry_views(entries@)),
{
    let v = Data::Object(entries);
    assert(v.model()->Object_0 =~= entry_views(entries@));
}

/// The names of named values.
pub open spec fn names_of(entries: Seq<(Seq<char>, DataV)>) -> Seq<Seq<char>> {
    Seq::new(entries.len(), |i: int| entries[i].0)
}

/// The value of the first entry with the name.
pub open spec fn lookup(entries: Seq<(Seq<char>, DataV)>, name: Seq<char>) -> Option<DataV>
    decreases entries.len(),
{
    if entries.len() == 0 {
        None
    } else if entries[0].0 == name {
        Some(entries[0].1)
    } else {
        lookup(entries.subrange(1, entries.len() as int), name)
    }
}

/// The named part of a value.
pub open spec fn field(v: DataV, name: Seq<char>) -> Option<DataV> {
    match v {
        DataV::Object(entries) => lookup(entries, name),
        _ => None,
    }
}

/// The named part of a value that may be absent.
pub open spec fn field_of(v: Option<DataV>, name: Seq<char>) -> Option<DataV> {
    match v {
        Some(inner) => field(inner, name),
        None => None,
    }
}

/// The text that a value is.
pub open spec fn text_of(v: Option<DataV>) -> Option<Seq<char>> {
    match v {
        Some(DataV::Str(s)) => Some(s),
        _ => None,
    }
}

/// The unsigned 64-bit number that a value is.
pub open spec fn count_of(v: Option<DataV>) -> Option<u64> {
    match v {
        Some(DataV::Integer(n)) => if 0 <= n <= u64::MAX {
            Some(n as u64)
        } else {
            None
        },
        _ => None,
    }
}

/// The truth value that a value is.
pub open spec fn flag_of(v: Option<DataV>) -> Option<bool> {
    match v {
        Some(DataV::Bool(b)) => Some(b),
        _ => None,
    }
}

/// The signed 64-bit number that a value is.
pub open spec fn integer_of(v: Option<DataV>) -> Option<i64> {
    match v {
        Some(DataV::Integer(n)) => if i64::MIN <= n <= i64::MAX {
            Some(n as i64)
        } else {
            None
        },
        _ => None,
    }
}

/// The entries of named values.
pub open spec fn entries_of(v: Option<DataV>) -> Option<Seq<(Seq<char>, DataV)>> {
    match v {
        Some(DataV::Object(entries)) => Some(entries),
        _ => None,
    }
}

/// The items of a list.
pub open spec fn items_of(v: Option<DataV>) -> Option<Seq<DataV>> {
    match v {
        Some(DataV::Array(items)) => Some(items),
        _ => None,
    }
}

/// A value that records are read from: named values, or at most `count` values in the order of
/// the record.
pub open spec fn is_record(v: DataV, count: nat) -> bool {
    match v {
        DataV::Object(_) => true,
        DataV::Array(items) => items.len() <= count,
        _ => false,
    }
}

/// The part of a record that has a name and a place.
pub open spec fn part(v: DataV, name: Seq<char>, place: int) -> Option<DataV> {
    match v {
        DataV::Array(items) => if place < items.len() {
            Some(items[place])
        } else {
            None
        },
        _ => field(v, name),
    }
}

/// A part that may be missing or null.
pub open spec fn optional(v: Option<DataV>) -> Option<DataV> {
    if v == Some(DataV::Null) {
        None
    } else {
        v
    }
}

/// The model of an optional borrowed value.
pub open spec fn option_view(v: Option<&Data>) -> Option<DataV> {
    match v {
        Some(inner) => Some(inner@),
        None => None,
    }
}

/// The entries with a value under a name, in the place of the entry with that name
/// or as a new entry in the order of names.
pub open spec fn put(entries: Seq<(Seq<char>, DataV)>, name: Seq<char>, v: DataV) -> Seq<(Seq<char>, DataV)> {
    let at = collections::slot(names_of(entries), name);
    if at < entries.len() && entries[at].0 == name {
        entries.update(at, (name, v))
    } else {
        entries.insert(at, (name, v))
    }
}

/// Names that stand in order.
pub open spec fn in_order(entries: Seq<(Seq<char>, DataV)>) -> bool {
    collections::ordered(names_of(entries))
}

/// Setting a value keeps names in order.
pub proof fn lemma_put_in_order(entries: Seq<(Seq<char>, DataV)>, name: Seq<char>, v: DataV)
    requires
        in_order(entries),
    ensures
        in_order(put(entries, name, v)),
{
    collections::lemma_slot(names_of(entries), name);
    collections::lemma_with_text(names_of(entries), name);
    assert(names_of(put(entries, name, v)) =~= collections::with_text(names_of(entries), name));
}

/// Overlaying keeps names in order.
pub proof fn lemma_merged_in_order(base: Seq<(Seq<char>, DataV)>, over: Seq<(Seq<char>, DataV)>)
    requires
        in_order(base),
    ensures
        in_order(merged_entries(base, over)),
    decreases over.len(),
{
    if over.len() > 0 {
        let fewer = over.subrange(0, over.len() - 1);
        lemma_merged_in_order(base, fewer);
        let before = merged_entries(base, fewer);
        let (name, v) = over[over.len() - 1];
        let under = match lookup(before, name) {
            Some(existing) => existing,
            None => DataV::Object(Seq::empty()),
        };
        lemma_put_in_order(before, name, merged(under, v));
    }
}

/// A value that was set is found.
pub proof fn lemma_put_found(entries: Seq<(Seq<char>, DataV)>, name: Seq<char>, v: DataV)
    ensures
        lookup(put(entries, name, v), name) == Some(v),
{
    let names = names_of(entries);
    collections::lemma_slot(names, name);
    let at = collections::slot(names, name);
    let out = put(entries, name, v);
    assert(out[at] == (name, v));
    assert forall|i: int| 0 <= i < at implies (#[trigger] out[i]).0 != name by {
        assert(text::text_lt(names[i], name));
        text::lemma_text_lt_irreflexive(name);
        assert(out[i].0 == names[i]);
    }
    lemma_lookup_at(out, name, at);
}

/// The first entry with a name is found.
proof fn lemma_lookup_at(entries: Seq<(Seq<char>, DataV)>, name: Seq<char>, at: int)
    requires
        0 <= at < entries.len(),
        entries[at].0 == name,
        forall|i: int| 0 <= i < at ==> (#[trigger] entries[i]).0 != name,
    ensures
        lookup(entries, name) == Some(entries[at].1),
    decreases entries.len(),
{
    if at > 0 {
        let rest = entries.subrange(1, entries.len() as int);
        assert(forall|i: int| 0 <= i < rest.len() ==> rest[i] == entries[i + 1]);
        assert(entries[0].0 != name);
        lemma_lookup_at(rest, name, at - 1);
    }
}

/// Setting a value leaves the others.
pub proof fn lemma_put_kept(entries: Seq<(Seq<char>, DataV)>, name: Seq<char>, v: DataV, other: Seq<char>)
    requires
        other != name,
    ensures
        lookup(put(entries, name, v), other) == lookup(entries, other),
{
    let names = names_of(entries);
    collections::lemma_slot(names, name);
    let at = collections::slot(names, name);
    let out = put(entries, name, v);
    if out.len() == entries.len() {
        lemma_lookup_update(entries, at, v, other);
    } else {
        lemma_lookup_insert(entries, at, name, v, other);
    }
}

/// Replacing the value of another name changes nothing.
proof fn lemma_lookup_update(entries: Seq<(Seq<char>, DataV)>, at: int, v: DataV, other: Seq<char>)
    requires
        0 <= at < entries.len(),
        entries[at].0 != other,
    ensures
        lookup(entries.update(at, (entries[at].0, v)), other) == lookup(entries, other),
    decreases entries.len(),
{
    let out = entries.update(at, (entries[at].0, v));
    let rest = entries.subrange(1, entries.len() as int);
    let tail = out.subrange(1, out.len() as int);
    if at == 0 {
        assert(tail =~= rest);
    } else {
        assert(rest[at - 1] == entries[at]);
        lemma_lookup_update(rest, at - 1, v, other);
        assert(tail =~= rest.update(at - 1, (rest[at - 1].0, v)));
    }
}

/// A new value under another name changes nothing.
proof fn lemma_lookup_insert(
    entries: Seq<(Seq<char>, DataV)>,
    at: int,
    name: Seq<char>,
    v: DataV,
    other: Seq<char>,
)
    requires
        0 <= at <= entries.len(),
        name != other,
    ensures
        lookup(entries.insert(at, (name, v)), other) == lookup(entries, other),
    decreases entries.len(),
{
    let out = entries.insert(at, (name, v));
    let tail = out.subrange(1, out.len() as int);
    if at == 0 {
        assert(tail =~= entries);
    } else {
        let rest = entries.subrange(1, entries.len() as int);
        lemma_lookup_insert(rest, at - 1, name, v, other);
        assert(tail =~= rest.insert(at - 1, (name, v)));
        assert(out[0] == entries[0]);
    }
}

/// A name that no entry has is not found.
pub proof fn lemma_lookup_absent(entries: Seq<(Seq<char>, DataV)>, name: Seq<char>)
    requires
        forall|i: int| 0 <= i < entries.len() ==> (#[trigger] entries[i]).0 != name,
    ensures
        lookup(entries, name) is None,
    decreases entries.len(),
{
    if entries.len() > 0 {
        let rest = entries.subrange(1, entries.len() as int);
        assert(forall|i: int| 0 <= i < rest.len() ==> rest[i] == entries[i + 1]);
        assert(entries[0].0 != name);
        lemma_lookup_absent(rest, name);
    }
}

/// What is found among all entries but the last, or in the last.
pub proof fn lemma_lookup_last(entries: Seq<(Seq<char>, DataV)>, name: Seq<char>)
    requires
        entries.len() > 0,
    ensures
        lookup(entries, name) == match lookup(entries.drop_last(), name) {
            Some(v) => Some(v),
            None => if entries.last().0 == name {
                Some(entries.last().1)
            } else {
                None
            },
        },
    decreases entries.len(),
{
    let rest = entries.subrange(1, entries.len() as int);
    let fewer = entries.drop_last();
    if entries.len() == 1 {
        assert(rest =~= Seq::<(Seq<char>, DataV)>::empty());
    } else {
        lemma_lookup_last(rest, name);
        assert(fewer.subrange(1, fewer.len() as int) =~= rest.drop_last());
        assert(fewer[0] == entries[0]);
        assert(rest.last() == entries.last());
    }
}

/// Looks a name up among entries.
pub fn find_entry<'a>(entries: &'a Vec<(String, Data)>, name: &str) -> (r: Option<&'a Data>)
    ensures
        option_view(r) == lookup(entry_views(entries@), name@),
{
    let ghost all = entry_views(entries@);
    let mut i: usize = 0;
    assert(all.subrange(0, all.len() as int) =~= all);
    while i < entries.len()
        invariant
            all == entry_views(entries@),
            i <= all.len(),
            lookup(all.subrange(i as int, all.len() as int), name@) == lookup(all, name@),
        decreases entries.len() - i,
    {
        let ghost rest = all.subrange(i as int, all.len() as int);
        assert(rest[0] == all[i as int]);
        if text::same(entries[i].0.as_str(), name) {
            return Some(&entries[i].1);
        }
        assert(rest.subrange(1, rest.len() as int) =~= all.subrange(i + 1, all.len() as int));
        i += 1;
    }
    None
}

/// Sets a value under a name.
pub fn put_entry(entries: &mut Vec<(String, Data)>, name: &str, v: Data)
    ensures
        entry_views(final(entries)@) == put(entry_views(old(entries)@), name@, v@),
{
    let ghost all = entry_views(entries@);
    let ghost names = names_of(all);
    let mut at: usize = 0;
    while at < entries.len() && text::less(entries[at].0.as_str(), name)
        invariant
            all == entry_views(entries@),
            names == names_of(all),
            at <= all.len(),
            forall|k: int| 0 <= k < at ==> text::text_lt(#[trigger] names[k], name@),
        decreases entries.len() - at,
    {
        assert(names[at as int] == entries@[at as int].0@);
        at += 1;
    }
    proof {
        if at < all.len() {
            assert(names[at as int] == entries@[at as int].0@);
        }
        collections::lemma_slot_is(names, name@, at as int);
    }
    let ghost before = entries@;
    let ghost model = v@;
    if at < entries.len() && text::same(entries[at].0.as_str(), name) {
        entries.set(at, (name.to_owned(), v));
        assert(entry_views(entries@) =~= put(all, name@, model));
    } else {
        entries.insert(at, (name.to_owned(), v));
        assert(entry_views(entries@) =~= put(all, name@, model));
    }
}

impl Clone for Data {
    fn clone(&self) -> (r: Data)
        ensures
            r@ == self@,
    {
        self.duplicate()
    }
}

impl Data {
    /// A copy of the value.
    pub fn duplicate(&self) -> (r: Data)
        ensures
            r@ == self@,
        decreases self,
    {
        broadcast use {lemma_array_view, lemma_object_view};

        match self {
            Data::Null => Data::Null,
            Data::Bool(b) => Data::Bool(*b),
            Data::Integer(n) => Data::Integer(*n),
            Data::Float(s) => Data::Float(s.clone()),
            Data::Str(s) => Data::Str(s.clone()),
            Data::Datetime(s) => Data::Datetime(s.clone()),
            Data::Array(items) => {
                let mut out: Vec<Data> = Vec::new();
                let mut i: usize = 0;
                while i < items.len()
                    invariant
                        i <= items.len(),
                        out@.len() == i,
                        decreases_to!(self => items),
                        forall|k: int| 0 <= k < i ==> (#[trigger] out@[k])@ == items@[k]@,
                    decreases items.len() - i,
                {
                    out.push(items[i].duplicate());
                    i += 1;
                }
                assert(item_views(out@) =~= item_views(items@));
                Data::Array(out)
            },
            Data::Object(entries) => {
                let mut out: Vec<(String, Data)> = Vec::new();
                let mut i: usize = 0;
                while i < entries.len()
                    invariant
                        i <= entries.len(),
                        out@.len() == i,
                        decreases_to!(self => entries),
                        forall|k: int|
                            0 <= k < i ==> (#[trigger] out@[k]).0@ == entries@[k].0@ && out@[k].1@
                                == entries@[k].1@,
                    decreases entries.len() - i,
                {
                    let v = entries[i].1.duplicate();
                    out.push((entries[i].0.clone(), v));
                    i += 1;
                }
                assert(entry_views(out@) =~= entry_views(entries@));
                Data::Object(out)
            },
        }
    }

    /// The text, where the value is one.
    pub fn as_str(&self) -> (r: Option<&str>)
        ensures
            match r {
                Some(s) => text_of(Some(self@)) == Some(s@),
                None => text_of(Some(self@)) is None,
            },
    {
        match self {
            Data::Str(s) => Some(s.as_str()),
            _ => None,
        }
    }

    /// The truth value, where the value is one.
    pub fn as_bool(&self) -> (r: Option<bool>)
        ensures
            r == flag_of(Some(self@)),
    {
        match self {
            Data::Bool(b) => Some(*b),
            _ => None,
        }
    }

    /// The number, where the value is an unsigned 64-bit one.
    pub fn as_u64(&self) -> (r: Option<u64>)
        ensures
            r == count_of(Some(self@)),
    {
        match self {
            Data::Integer(n) => if *n >= 0 && *n <= u64::MAX as i128 {
                Some(*n as u64)
            } else {
                None
            },
            _ => None,
        }
    }

    /// The number, where the value is a signed 64-bit one.
    pub fn as_integer(&self) -> (r: Option<i64>)
        ensures
            r == integer_of(Some(self@)),
    {
        match self {
            Data::Integer(n) => if *n >= i64::MIN as i128 && *n <= i64::MAX as i128 {
                Some(*n as i64)
            } else {
                None
            },
            _ => None,
        }
    }

    /// The items, where the value is a list.
    pub fn as_array(&self) -> (r: Option<&Vec<Data>>)
        ensures
            match r {
                Some(items) => items_of(Some(self@)) == Some(item_views(items@)),
                None => items_of(Some(self@)) is None,
            },
    {
        broadcast use lemma_array_view;

        match self {
            Data::Array(items) => Some(items),
            _ => None,
        }
    }

    /// The entries, where the value holds named ones.
    pub fn as_object(&self) -> (r: Option<&Vec<(String, Data)>>)
        ensures
            match r {
                Some(entries) => entries_of(Some(self@)) == Some(entry_views(entries@)),
                None => entries_of(Some(self@)) is None,
            },
    {
        broadcast use lemma_object_view;

        match self {
            Data::Object(entries) => Some(entries),
            _ => None,
        }
    }

    /// The value under a name.
    pub fn get(&self, name: &str) -> (r: Option<&Data>)
        ensures
            option_view(r) == field(self@, name@),
    {
        match self.as_object() {
            Some(entries) => find_entry(entries, name),
            None => None,
        }
    }

    /// A copy of the text under a name.
    pub fn get_text(&self, name: &str) -> (r: Option<String>)
        ensures
            text::option_of(r) == text_of(field(self@, name@)),
    {
        match self.get_str(name) {
            Some(s) => Some(s.to_owned()),
            None => None,
        }
    }

    /// Tests whether the value is one that records are read from.
    pub fn is_record(&self, count: usize) -> (r: bool)
        ensures
            r == is_record(self@, count as nat),
    {
        broadcast use {lemma_array_view, lemma_object_view};

        match self {
            Data::Object(_) => true,
            Data::Array(items) => items.len() <= count,
            _ => false,
        }
    }

    /// The part of a record that has a name and a place.
    pub fn part(&self, name: &str, place: usize) -> (r: Option<&Data>)
        ensures
            option_view(r) == part(self@, name@, place as int),
    {
        broadcast use {lemma_array_view, lemma_object_view};

        match self {
            Data::Array(items) => if place < items.len() {
                Some(&items[place])
            } else {
                None
            },
            _ => self.get(name),
        }
    }

    /// The part of a record that has a name and a place, unless it is null.
    pub fn optional_part(&self, name: &str, place: usize) -> (r: Option<&Data>)
        ensures
            option_view(r) == optional(part(self@, name@, place as int)),
    {
        match self.part(name, place) {
            Some(Data::Null) => None,
            found => found,
        }
    }

    /// The text under a name.
    pub fn get_str(&self, name: &str) -> (r: Option<&str>)
        ensures
            match r {
                Some(s) => text_of(field(self@, name@)) == Some(s@),
                None => text_of(field(self@, name@)) is None,
            },
    {
        match self.get(name) {
            Some(v) => v.as_str(),
            None => None,
        }
    }

    /// A text value.
    pub fn text(s: &str) -> (r: Data)
        ensures
            r@ == DataV::Str(s@),
    {
        Data::Str(s.to_owned())
    }

    /// An empty set of named values.
    pub fn object() -> (r: Data)
        ensures
            r@ == DataV::Object(Seq::empty()),
    {
        broadcast use lemma_object_view;

        let entries: Vec<(String, Data)> = Vec::new();
        assert(entry_views(entries@) =~= Seq::<(Seq<char>, DataV)>::empty());
        Data::Object(entries)
    }
}

// ---------------------------------------------------------------------------
// Overlaying
// ---------------------------------------------------------------------------

/// The value that has everything of `over`, and of `base` what `over` leaves alone:
/// named values are overlaid name by name, anything else is replaced.
pub open spec fn merged(base: DataV, over: DataV) -> DataV
    decreases over,
{
    match (base, over) {
        (DataV::Object(b), DataV::Object(o)) => DataV::Object(merged_entries(b, o)),
        _ => over,
    }
}

/// The entries of `base` with the first entries of `over` laid over them.
pub open spec fn merged_entries(
    base: Seq<(Seq<char>, DataV)>,
    over: Seq<(Seq<char>, DataV)>,
) -> Seq<(Seq<char>, DataV)>
    decreases over,
{
    if over.len() == 0 {
        base
    } else {
        let before = merged_entries(base, over.subrange(0, over.len() - 1));
        let (name, v) = over[over.len() - 1];
        let under = match lookup(before, name) {
            Some(existing) => existing,
            None => DataV::Object(Seq::empty()),
        };
        put(before, name, merged(under, v))
    }
}

/// Lays `over` over `base`.
pub fn merge(base: &Data, over: &Data) -> (r: Data)
    ensures
        r@ == merged(base@, over@),
    decreases over,
{
    broadcast use {lemma_array_view, lemma_object_view};

    match (base, over) {
        (Data::Object(b), Data::Object(o)) => {
            let mut out = duplicate_entries(b);
            let ghost all = entry_views(o@);
            let ghost below = entry_views(b@);
            let mut i: usize = 0;
            assert(all.subrange(0, 0) =~= Seq::<(Seq<char>, DataV)>::empty());
            while i < o.len()
                invariant
                    i <= o@.len(),
                    all == entry_views(o@),
                    decreases_to!(over => o),
                    entry_views(out@) == merged_entries(below, all.subrange(0, i as int)),
                decreases o.len() - i,
            {
                let entry = &o[i];
                let v = match find_entry(&out, entry.0.as_str()) {
                    Some(existing) => merge(existing, &entry.1),
                    None => merge(&Data::object(), &entry.1),
                };
                put_entry(&mut out, entry.0.as_str(), v);
                proof {
                    let upto = all.subrange(0, i + 1);
                    assert(upto.subrange(0, upto.len() - 1) =~= all.subrange(0, i as int));
                    assert(upto[upto.len() - 1] == all[i as int]);
                }
                i += 1;
            }
            assert(all.subrange(0, all.len() as int) =~= all);
            Data::Object(out)
        },
        _ => over.duplicate(),
    }
}

/// A copy of named values.
pub fn duplicate_entries(entries: &Vec<(String, Data)>) -> (r: Vec<(String, Data)>)
    ensures
        entry_views(r@) == entry_views(entries@),
{
    let mut out: Vec<(String, Data)> = Vec::new();
    let mut i: usize = 0;
    while i < entries.len()
        invariant
            i <= entries.len(),
            out@.len() == i,
            forall|k: int|
                0 <= k < i ==> (#[trigger] out@[k]).0@ == entries@[k].0@ && out@[k].1@ == entries@[k].1@,
        decreases entries.len() - i,
    {
        let v = entries[i].1.duplicate();
        out.push((entries[i].0.clone(), v));
        i += 1;
    }
    assert(entry_views(out@) =~= entry_views(entries@));
    out
}

// ---------------------------------------------------------------------------
// Canonical form and notation
// ---------------------------------------------------------------------------

/// The value with the names of its named values in order, at every depth.
pub open spec fn canonical(v: DataV) -> DataV
    decreases v,
{
    match v {
        DataV::Object(entries) => DataV::Object(canonical_entries(entries)),
        DataV::Array(items) => DataV::Array(
            Seq::new(
                items.len(),
                |i: int|
                    if 0 <= i < items.len() {
                        canonical(items[i])
                    } else {
                        DataV::Null
                    },
            ),
        ),
        _ => v,
    }
}

/// The entries, canonical and put in order one after another.
pub open spec fn canonical_entries(entries: Seq<(Seq<char>, DataV)>) -> Seq<(Seq<char>, DataV)>
    decreases entries,
{
    if entries.len() == 0 {
        Seq::empty()
    } else {
        let (name, v) = entries[entries.len() - 1];
        put(canonical_entries(entries.subrange(0, entries.len() - 1)), name, canonical(v))
    }
}

/// Puts the names of every part of a value in order.
pub fn canonical_json(v: &Data) -> (r: Data)
    ensures
        r@ == canonical(v@),
    decreases v,
{
    broadcast use {lemma_array_view, lemma_object_view};

    match v {
        Data::Object(entries) => {
            let mut out: Vec<(String, Data)> = Vec::new();
            let ghost all = entry_views(entries@);
            let mut i: usize = 0;
            assert(all.subrange(0, 0) =~= Seq::<(Seq<char>, DataV)>::empty());
            assert(entry_views(out@) =~= Seq::<(Seq<char>, DataV)>::empty());
            while i < entries.len()
                invariant
                    i <= entries@.len(),
                    all == entry_views(entries@),
                    decreases_to!(v => entries),
                    entry_views(out@) == canonical_entries(all.subrange(0, i as int)),
                decreases entries.len() - i,
            {
                let inner = canonical_json(&entries[i].1);
                put_entry(&mut out, entries[i].0.as_str(), inner);
                proof {
                    let upto = all.subrange(0, i + 1);
                    assert(upto.subrange(0, upto.len() - 1) =~= all.subrange(0, i as int));
                    assert(upto[upto.len() - 1] == all[i as int]);
                }
                i += 1;
            }
            assert(all.subrange(0, all.len() as int) =~= all);
            Data::Object(out)
        },
        Data::Array(items) => {
            let mut out: Vec<Data> = Vec::new();
            let mut i: usize = 0;
            while i < items.len()
                invariant
                    i <= items@.len(),
                    out@.len() == i,
                    decreases_to!(v => items),
                    forall|k: int| 0 <= k < i ==> (#[trigger] out@[k])@ == canonical(items@[k]@),
                decreases items.len() - i,
            {
                out.push(canonical_json(&items[i]));
                i += 1;
            }
            proof {
                let model = item_views(items@);
                assert(item_views(out@) =~= canonical(DataV::Array(model))->Array_0);
            }
            Data::Array(out)
        },
        _ => v.duplicate(),
    }
}

/// Entries that are put in order one after another.
pub open spec fn collected(entries: Seq<(Seq<char>, DataV)>) -> Seq<(Seq<char>, DataV)>
    decreases entries.len(),
{
    if entries.len() == 0 {
        Seq::empty()
    } else {
        let (name, v) = entries[entries.len() - 1];
        put(collected(entries.subrange(0, entries.len() - 1)), name, v)
    }
}

/// What a JSON document holds of a value: names in order, dates and times as texts, and nothing
/// for a number that no document holds.
pub open spec fn json_form(v: DataV) -> DataV
    decreases v,
{
    match v {
        DataV::Integer(n) => if outside::is_json_integer(n) {
            v
        } else {
            DataV::Null
        },
        DataV::Float(notation) => match outside::number_read(notation) {
            Some(number) => number,
            None => DataV::Null,
        },
        DataV::Datetime(s) => DataV::Str(s),
        DataV::Array(items) => DataV::Array(
            Seq::new(
                items.len(),
                |i: int|
                    if 0 <= i < items.len() {
                        json_form(items[i])
                    } else {
                        DataV::Null
                    },
            ),
        ),
        DataV::Object(entries) => DataV::Object(collected(json_members(entries))),
        _ => v,
    }
}

/// What a JSON document holds of each entry.
pub open spec fn json_members(entries: Seq<(Seq<char>, DataV)>) -> Seq<(Seq<char>, DataV)>
    decreases entries,
{
    Seq::new(
        entries.len(),
        |i: int|
            if 0 <= i < entries.len() {
                (entries[i].0, json_form(entries[i].1))
            } else {
                (Seq::<char>::empty(), DataV::Null)
            },
    )
}

/// Builds the JSON document of a value.
fn to_document(v: &Data) -> (r: serde_json::Value)
    ensures
        outside::json_contents(r) == json_form(v@),
    decreases v,
{
    broadcast use {lemma_array_view, lemma_object_view};

    match v {
        Data::Null => outside::json_null(),
        Data::Bool(flag) => outside::json_bool(*flag),
        Data::Integer(n) => match outside::json_integer(*n) {
            Some(document) => document,
            None => outside::json_null(),
        },
        Data::Float(notation) => match outside::json_number(notation.as_str()) {
            Some(document) => document,
            None => outside::json_null(),
        },
        Data::Str(s) => outside::json_text(s.as_str()),
        Data::Datetime(s) => outside::json_text(s.as_str()),
        Data::Array(items) => {
            let mut out: Vec<serde_json::Value> = Vec::new();
            let mut i: usize = 0;
            while i < items.len()
                invariant
                    i <= items@.len(),
                    out@.len() == i,
                    decreases_to!(v => items),
                    forall|k: int|
                        0 <= k < i ==> outside::json_contents(#[trigger] out@[k]) == json_form(items@[k]@),
                decreases items.len() - i,
            {
                out.push(to_document(&items[i]));
                i += 1;
            }
            let r = outside::json_array(out);
            proof {
                let model = item_views(items@);
                assert(outside::json_contents(r)->Array_0 =~= json_form(DataV::Array(model))->Array_0);
            }
            r
        },
        Data::Object(entries) => {
            let mut out: Vec<(String, serde_json::Value)> = Vec::new();
            let mut i: usize = 0;
            while i < entries.len()
                invariant
                    i <= entries@.len(),
                    out@.len() == i,
                    decreases_to!(v => entries),
                    forall|k: int|
                        0 <= k < i ==> (#[trigger] out@[k]).0@ == entries@[k].0@ && outside::json_contents(
                            out@[k].1,
                        ) == json_form(entries@[k].1@),
                decreases entries.len() - i,
            {
                let inner = to_document(&entries[i].1);
                out.push((entries[i].0.clone(), inner));
                i += 1;
            }
            proof {
                let model = entry_views(entries@);
                assert(outside::member_contents(out@) =~= json_members(model));
                assert(json_form(v@) == DataV::Object(collected(json_members(model))));
            }
            outside::json_object(out)
        },
    }
}

/// Takes over what a JSON document holds.
fn from_document(document: &serde_json::Value) -> (r: Data)
    ensures
        r@ == outside::json_contents(*document),
    decreases outside::json_contents(*document),
{
    broadcast use {lemma_array_view, lemma_object_view};

    match outside::json_split(document) {
        JsonPart::Null => Data::Null,
        JsonPart::Bool(flag) => Data::Bool(flag),
        JsonPart::Number(Some(n), _) => Data::Integer(n),
        JsonPart::Number(None, notation) => Data::Float(notation),
        JsonPart::Text(s) => Data::Str(s.to_owned()),
        JsonPart::Items(items) => {
            let ghost model = outside::json_contents(*document)->Array_0;
            let mut out: Vec<Data> = Vec::new();
            let mut i: usize = 0;
            while i < items.len()
                invariant
                    i <= items@.len(),
                    out@.len() == i,
                    outside::json_contents(*document) == DataV::Array(model),
                    model.len() == items@.len(),
                    forall|k: int| 0 <= k < items@.len() ==> outside::json_contents(*#[trigger] items@[k]) == model[k],
                    forall|k: int| 0 <= k < i ==> (#[trigger] out@[k])@ == model[k],
                decreases items.len() - i,
            {
                let inner = items[i];
                assert(outside::json_contents(*items@[i as int]) == model[i as int]);
                proof {
                    let whole = outside::json_contents(*document);
                    assert(decreases_to!(whole => whole->Array_0));
                    assert(decreases_to!(model => model[i as int]));
                }
                out.push(from_document(inner));
                i += 1;
            }
            assert(item_views(out@) =~= model);
            Data::Array(out)
        },
        JsonPart::Entries(entries) => {
            let ghost model = outside::json_contents(*document)->Object_0;
            let mut out: Vec<(String, Data)> = Vec::new();
            let mut i: usize = 0;
            while i < entries.len()
                invariant
                    i <= entries@.len(),
                    out@.len() == i,
                    outside::json_contents(*document) == DataV::Object(model),
                    model.len() == entries@.len(),
                    forall|k: int|
                        0 <= k < entries@.len() ==> (#[trigger] entries@[k]).0@ == model[k].0
                            && outside::json_contents(*entries@[k].1) == model[k].1,
                    forall|k: int|
                        0 <= k < i ==> (#[trigger] out@[k]).0@ == model[k].0 && out@[k].1@ == model[k].1,
                decreases entries.len() - i,
            {
                let (name, inner) = entries[i];
                assert(outside::json_contents(*entries@[i as int].1) == model[i as int].1);
                proof {
                    let whole = outside::json_contents(*document);
                    assert(decreases_to!(whole => whole->Object_0));
                    assert(decreases_to!(model => model[i as int]));
                    let entry = model[i as int];
                    assert(decreases_to!(entry => entry.1));
                }
                out.push((name.clone(), from_document(inner)));
                i += 1;
            }
            assert(entry_views(out@) =~= model);
            Data::Object(out)
        },
    }
}

/// A character between the quotation marks of a JSON text.
pub open spec fn escaped(c: char) -> Seq<char> {
    if c == '"' || c == '\\' {
        seq!['\\', c]
    } else if c as u32 >= 32 {
        seq![c]
    } else if c == '\n' {
        seq!['\\', 'n']
    } else if c == '\r' {
        seq!['\\', 'r']
    } else if c == '\t' {
        seq!['\\', 't']
    } else if c as u32 == 8 {
        seq!['\\', 'b']
    } else if c as u32 == 12 {
        seq!['\\', 'f']
    } else {
        seq![
            '\\',
            'u',
            '0',
            '0',
            outside::hex_char((c as u32 / 16) as nat),
            outside::hex_char((c as u32 % 16) as nat),
        ]
    }
}

/// What stands between the quotation marks of a JSON text.
pub open spec fn escapes(s: Seq<char>) -> Seq<char>
    decreases s.len(),
{
    if s.len() == 0 {
        Seq::empty()
    } else {
        escapes(s.drop_last()) + escaped(s.last())
    }
}

/// The JSON notation of a text.
pub open spec fn quoted(s: Seq<char>) -> Seq<char> {
    seq!['"'] + escapes(s) + seq!['"']
}

/// The compact JSON notation of a value, with its names as they stand.
pub open spec fn compact(v: DataV) -> Seq<char>
    decreases v,
{
    match v {
        DataV::Null => "null"@,
        DataV::Bool(true) => "true"@,
        DataV::Bool(false) => "false"@,
        DataV::Integer(n) => text::signed_decimal(n),
        DataV::Float(notation) => notation,
        DataV::Str(s) => quoted(s),
        DataV::Datetime(s) => quoted(s),
        DataV::Array(items) => seq!['['] + text::joined(
            Seq::new(
                items.len(),
                |i: int|
                    if 0 <= i < items.len() {
                        compact(items[i])
                    } else {
                        Seq::empty()
                    },
            ),
            ","@,
        ) + seq![']'],
        DataV::Object(entries) => seq!['{'] + text::joined(compact_members(entries), ","@) + seq!['}'],
    }
}

/// The compact JSON notation of each entry.
pub open spec fn compact_members(entries: Seq<(Seq<char>, DataV)>) -> Seq<Seq<char>>
    decreases entries,
{
    Seq::new(
        entries.len(),
        |i: int|
            if 0 <= i < entries.len() {
                quoted(entries[i].0) + ":"@ + compact(entries[i].1)
            } else {
                Seq::empty()
            },
    )
}

/// The compact JSON notation of what a document holds of a value.
pub open spec fn encoded(v: DataV) -> Seq<char> {
    compact(json_form(v))
}

/// A document holds the canonical form of what JSON carries exactly.
proof fn lemma_form_exact(v: DataV, depth: nat)
    requires
        outside::is_exact_json(v, depth),
    ensures
        json_form(v) == canonical(v),
    decreases v,
{
    match v {
        DataV::Array(items) => {
            assert forall|i: int| 0 <= i < items.len() implies json_form(items[i]) == canonical(
                #[trigger] items[i],
            ) by {
                assert(outside::is_exact_json(items[i], (depth - 1) as nat));
                lemma_form_exact(items[i], (depth - 1) as nat);
            }
            assert(json_form(v)->Array_0 =~= canonical(v)->Array_0);
        },
        DataV::Object(entries) => {
            assert forall|i: int| 0 <= i < entries.len() implies json_form((#[trigger] entries[i]).1)
                == canonical(entries[i].1) by {
                assert(outside::is_exact_json(entries[i].1, (depth - 1) as nat));
                lemma_form_exact(entries[i].1, (depth - 1) as nat);
            }
            lemma_collected(entries, json_members(entries));
            assert(json_form(v) == DataV::Object(collected(json_members(entries))));
            assert(canonical(v) == DataV::Object(canonical_entries(entries)));
        },
        _ => {},
    }
}

/// Canonical values that are put in order are the canonical entries.
proof fn lemma_collected(entries: Seq<(Seq<char>, DataV)>, formed: Seq<(Seq<char>, DataV)>)
    requires
        formed.len() == entries.len(),
        forall|i: int|
            0 <= i < entries.len() ==> (#[trigger] formed[i]) == (entries[i].0, canonical(entries[i].1)),
    ensures
        collected(formed) == canonical_entries(entries),
    decreases entries.len(),
{
    if entries.len() > 0 {
        let last = entries.len() - 1;
        let fewer = formed.subrange(0, last as int);
        assert forall|i: int| 0 <= i < fewer.len() implies (#[trigger] fewer[i]) == (
            entries.subrange(0, last as int)[i].0,
            canonical(entries.subrange(0, last as int)[i].1),
        ) by {
            assert(fewer[i] == formed[i]);
        }
        lemma_collected(entries.subrange(0, last as int), fewer);
        assert(formed[last as int] == (entries[last as int].0, canonical(entries[last as int].1)));
    }
}

/// No name occurs twice.
pub open spec fn distinct_names(entries: Seq<(Seq<char>, DataV)>) -> bool {
    forall|i: int, j: int|
        0 <= i < j < entries.len() ==> (#[trigger] entries[i]).0 != (#[trigger] entries[j]).0
}

/// Entries whose names are known to differ.
pub proof fn lemma_distinct(entries: Seq<(Seq<char>, DataV)>, names: Seq<Seq<char>>)
    requires
        names_of(entries) == names,
        names.no_duplicates(),
    ensures
        distinct_names(entries),
        forall|i: int|
            0 <= i < entries.len() ==> lookup(entries, #[trigger] names[i]) == Some(entries[i].1),
{
    assert forall|i: int, j: int| 0 <= i < j < entries.len() implies (#[trigger] entries[i]).0 != (
    #[trigger] entries[j]).0 by {
        assert(names_of(entries)[i] == entries[i].0 && names_of(entries)[j] == entries[j].0);
        assert(names[i] != names[j]);
    }
    assert forall|i: int| 0 <= i < entries.len() implies lookup(entries, #[trigger] names[i]) == Some(
        entries[i].1,
    ) by {
        assert(names_of(entries)[i] == entries[i].0);
        lemma_lookup_distinct(entries, i);
    }
}

/// Where no name occurs twice, each entry is found.
pub proof fn lemma_lookup_distinct(entries: Seq<(Seq<char>, DataV)>, at: int)
    requires
        distinct_names(entries),
        0 <= at < entries.len(),
    ensures
        lookup(entries, entries[at].0) == Some(entries[at].1),
{
    assert forall|i: int| 0 <= i < at implies (#[trigger] entries[i]).0 != entries[at].0 by {}
    lemma_lookup_at(entries, entries[at].0, at);
}

/// What is found in the canonical form is the canonical form of what is found.
pub proof fn canonical_form_keeps_fields(entries: Seq<(Seq<char>, DataV)>, name: Seq<char>)
    requires
        distinct_names(entries),
    ensures
        field(canonical(DataV::Object(entries)), name) == match lookup(entries, name) {
            Some(v) => Some(canonical(v)),
            None => None,
        },
    decreases entries.len(),
{
    assert(canonical(DataV::Object(entries)) == DataV::Object(canonical_entries(entries)));
    if entries.len() > 0 {
        let last = entries.len() - 1;
        let fewer = entries.subrange(0, last as int);
        assert(canonical(DataV::Object(fewer)) == DataV::Object(canonical_entries(fewer)));
        assert(fewer =~= entries.drop_last());
        assert forall|i: int, j: int| 0 <= i < j < fewer.len() implies (#[trigger] fewer[i]).0 != (
        #[trigger] fewer[j]).0 by {
            assert(fewer[i] == entries[i] && fewer[j] == entries[j]);
        }
        canonical_form_keeps_fields(fewer, name);
        lemma_lookup_last(entries, name);
        let (added, v) = entries[last as int];
        let before = canonical_entries(fewer);
        if added == name {
            lemma_put_found(before, added, canonical(v));
            assert forall|i: int| 0 <= i < fewer.len() implies (#[trigger] fewer[i]).0 != name by {
                assert(fewer[i] == entries[i]);
                assert(entries[i].0 != entries[last as int].0);
            }
            lemma_lookup_absent(fewer, name);
        } else {
            lemma_put_kept(before, added, canonical(v), name);
        }
    }
}

/// Writes a value in compact JSON notation. Of what JSON carries exactly, that is its canonical
/// form.
pub fn encode(v: &Data) -> (r: String)
    ensures
        r@ == encoded(v@),
        outside::is_exact_json(v@, 100) ==> r@ == compact(canonical(v@)),
{
    proof {
        if outside::is_exact_json(v@, 100) {
            lemma_form_exact(v@, 100);
        }
    }
    let document = to_document(v);
    outside::json_write(&document)
}

// ---------------------------------------------------------------------------
// Secret references and size
// ---------------------------------------------------------------------------

/// Somewhere in the value stands a `secret` entry whose text is `name`.
pub open spec fn mentions(v: DataV, name: Seq<char>) -> bool
    decreases v,
{
    match v {
        DataV::Object(entries) => {
            ||| lookup(entries, "secret"@) == Some(DataV::Str(name))
            ||| exists|i: int| 0 <= i < entries.len() && mentions(#[trigger] entries[i].1, name)
        },
        DataV::Array(items) => exists|i: int|
            0 <= i < items.len() && mentions(#[trigger] items[i], name),
        _ => false,
    }
}

/// Adds the names of all secrets that a value refers to.
pub fn collect_secret_references(v: &Data, names: &mut StringSet)
    requires
        old(names).wf(),
    ensures
        final(names).wf(),
        forall|t: Seq<char>|
            #[trigger] final(names)@.contains(t) <==> old(names)@.contains(t) || mentions(v@, t),
    decreases v,
{
    broadcast use {lemma_array_view, lemma_object_view};

    let ghost start = names@;
    match v {
        Data::Object(entries) => {
            let ghost all = entry_views(entries@);
            if let Some(inner) = find_entry(entries, "secret") {
                if let Some(name) = inner.as_str() {
                    proof {
                        collections::lemma_with_text(names@, name@);
                    }
                    names.insert(name.to_owned());
                }
            }
            let ghost direct = names@;
            assert(forall|t: Seq<char>|
                #[trigger] direct.contains(t) <==> start.contains(t) || lookup(all, "secret"@) == Some(
                    DataV::Str(t),
                ));
            let mut i: usize = 0;
            while i < entries.len()
                invariant
                    i <= entries@.len(),
                    all == entry_views(entries@),
                    decreases_to!(v => entries),
                    names.wf(),
                    forall|t: Seq<char>|
                        #[trigger] names@.contains(t) <==> direct.contains(t) || exists|k: int|
                            0 <= k < i && mentions(#[trigger] all[k].1, t),
                decreases entries.len() - i,
            {
                let ghost before = names@;
                collect_secret_references(&entries[i].1, names);
                proof {
                    assert(all[i as int].1 == entries@[i as int].1@);
                    assert forall|t: Seq<char>| #[trigger] names@.contains(t) <==> direct.contains(t)
                        || exists|k: int| 0 <= k < i + 1 && mentions(#[trigger] all[k].1, t) by {
                        if mentions(all[i as int].1, t) {
                            assert(0 <= i < i + 1);
                        }
                    }
                }
                i += 1;
            }
            proof {
                assert(v@ == DataV::Object(all));
                assert forall|t: Seq<char>| #[trigger] names@.contains(t) <==> start.contains(t) || mentions(
                    v@,
                    t,
                ) by {
                    if exists|k: int| 0 <= k < all.len() && mentions(#[trigger] all[k].1, t) {
                        assert(mentions(v@, t));
                        assert(names@.contains(t));
                    } else {
                        assert(names@.contains(t) <==> direct.contains(t));
                        assert(mentions(v@, t) <==> lookup(all, "secret"@) == Some(DataV::Str(t)));
                    }
                }
            }
        },
        Data::Array(items) => {
            let ghost all = item_views(items@);
            let mut i: usize = 0;
            while i < items.len()
                invariant
                    i <= items@.len(),
                    all == item_views(items@),
                    decreases_to!(v => items),
                    names.wf(),
                    forall|t: Seq<char>|
                        #[trigger] names@.contains(t) <==> start.contains(t) || exists|k: int|
                            0 <= k < i && mentions(#[trigger] all[k], t),
                decreases items.len() - i,
            {
                collect_secret_references(&items[i], names);
                proof {
                    assert(all[i as int] == items@[i as int]@);
                }
                i += 1;
            }
            proof {
                assert(v@ == DataV::Array(all));
                assert forall|t: Seq<char>| #[trigger] names@.contains(t) <==> start.contains(t) || mentions(
                    v@,
                    t,
                ) by {
                    if exists|k: int| 0 <= k < all.len() && mentions(#[trigger] all[k], t) {
                        let k = choose|k: int| 0 <= k < all.len() && mentions(#[trigger] all[k], t);
                        let items_model = v@->Array_0;
                        assert(mentions(items_model[k], t));
                        assert(mentions(v@, t));
                        assert(names@.contains(t));
                    }
                }
            }
        },
        _ => {},
    }
}

/// The larger of two numbers.
pub open spec fn at_least(a: nat, b: nat) -> nat {
    if a < b {
        b
    } else {
        a
    }
}

/// The largest number of parts that the value or one of its parts has, and one for a
/// value without parts.
pub open spec fn work_units(v: DataV) -> nat
    decreases v,
{
    match v {
        DataV::Array(items) => at_least(at_least(items.len(), 1), work_of_items(items)),
        DataV::Object(entries) => at_least(at_least(entries.len(), 1), work_of_entries(entries)),
        _ => 1,
    }
}

/// The largest work of the items.
pub open spec fn work_of_items(items: Seq<DataV>) -> nat
    decreases items,
{
    if items.len() == 0 {
        0
    } else {
        at_least(work_of_items(items.subrange(0, items.len() - 1)), work_units(items[items.len() - 1]))
    }
}

/// The largest work of the named values.
pub open spec fn work_of_entries(entries: Seq<(Seq<char>, DataV)>) -> nat
    decreases entries,
{
    if entries.len() == 0 {
        0
    } else {
        at_least(
            work_of_entries(entries.subrange(0, entries.len() - 1)),
            work_units(entries[entries.len() - 1].1),
        )
    }
}

/// Counts the work that a value stands for.
pub fn json_work_units(v: &Data) -> (r: usize)
    ensures
        r == work_units(v@),
    decreases v,
{
    broadcast use {lemma_array_view, lemma_object_view};

    match v {
        Data::Array(items) => {
            let ghost all = item_views(items@);
            let mut most: usize = 0;
            let mut i: usize = 0;
            assert(all.subrange(0, 0) =~= Seq::<DataV>::empty());
            while i < items.len()
                invariant
                    i <= items@.len(),
                    all == item_views(items@),
                    decreases_to!(v => items),
                    most == work_of_items(all.subrange(0, i as int)),
                decreases items.len() - i,
            {
                let units: usize = json_work_units(&items[i]);
                proof {
                    let upto = all.subrange(0, i + 1);
                    assert(upto.subrange(0, upto.len() - 1) =~= all.subrange(0, i as int));
                    assert(upto[upto.len() - 1] == all[i as int]);
                }
                if most < units {
                    most = units;
                }
                i += 1;
            }
            assert(all.subrange(0, all.len() as int) =~= all);
            let own: usize = if items.len() == 0 { 1 } else { items.len() };
            if own < most { most } else { own }
        },
        Data::Object(entries) => {
            let ghost all = entry_views(entries@);
            let mut most: usize = 0;
            let mut i: usize = 0;
            assert(all.subrange(0, 0) =~= Seq::<(Seq<char>, DataV)>::empty());
            while i < entries.len()
                invariant
                    i <= entries@.len(),
                    all == entry_views(entries@),
                    decreases_to!(v => entries),
                    most == work_of_entries(all.subrange(0, i as int)),
                decreases entries.len() - i,
            {
                let units: usize = json_work_units(&entries[i].1);
                proof {
                    let upto = all.subrange(0, i + 1);
                    assert(upto.subrange(0, upto.len() - 1) =~= all.subrange(0, i as int));
                    assert(upto[upto.len() - 1] == all[i as int]);
                }
                if most < units {
                    most = units;
                }
                i += 1;
            }
            assert(all.subrange(0, all.len() as int) =~= all);
            let own: usize = if entries.len() == 0 { 1 } else { entries.len() };
            if own < most { most } else { own }
        },
        _ => 1,
    }
}

// ---------------------------------------------------------------------------
// TOML values as JSON values
// ---------------------------------------------------------------------------

/// The notation of a number that JSON cannot write.
pub open spec fn is_not_finite(s: Seq<char>) -> bool {
    s == "nan"@ || s == "-nan"@ || s == "inf"@ || s == "-inf"@
}

/// The JSON value that stands for a value: a date or time becomes a named text, and a
/// number that is not finite the absent value.
pub open spec fn json_of(v: DataV) -> DataV
    decreases v,
{
    match v {
        DataV::Datetime(s) => DataV::Object(seq![("$__toml_private_datetime"@, DataV::Str(s))]),
        DataV::Float(s) => if is_not_finite(s) {
            DataV::Null
        } else {
            v
        },
        DataV::Array(items) => DataV::Array(
            Seq::new(
                items.len(),
                |i: int|
                    if 0 <= i < items.len() {
                        json_of(items[i])
                    } else {
                        DataV::Null
                    },
            ),
        ),
        DataV::Object(entries) => DataV::Object(
            Seq::new(
                entries.len(),
                |i: int|
                    if 0 <= i < entries.len() {
                        (entries[i].0, json_of(entries[i].1))
                    } else {
                        (Seq::<char>::empty(), DataV::Null)
                    },
            ),
        ),
        _ => v,
    }
}

/// Converts a TOML value to a JSON value.
pub fn to_json(v: &Data) -> (r: Data)
    ensures
        r@ == json_of(v@),
    decreases v,
{
    broadcast use {lemma_array_view, lemma_object_view};

    match v {
        Data::Datetime(s) => {
            let mut out: Vec<(String, Data)> = Vec::new();
            out.push(("$__toml_private_datetime".to_owned(), Data::Str(s.clone())));
            assert(entry_views(out@) =~= seq![("$__toml_private_datetime"@, DataV::Str(s@))]);
            Data::Object(out)
        },
        Data::Float(s) => {
            let t = s.as_str();
            if text::same(t, "nan") || text::same(t, "-nan") || text::same(t, "inf") || text::same(t, "-inf") {
                Data::Null
            } else {
                Data::Float(s.clone())
            }
        },
        Data::Array(items) => {
            let mut out: Vec<Data> = Vec::new();
            let mut i: usize = 0;
            while i < items.len()
                invariant
                    i <= items@.len(),
                    out@.len() == i,
                    decreases_to!(v => items),
                    forall|k: int| 0 <= k < i ==> (#[trigger] out@[k])@ == json_of(items@[k]@),
                decreases items.len() - i,
            {
                out.push(to_json(&items[i]));
                i += 1;
            }
            proof {
                let model = item_views(items@);
                assert(item_views(out@) =~= json_of(DataV::Array(model))->Array_0);
            }
            Data::Array(out)
        },
        Data::Object(entries) => {
            let mut out: Vec<(String, Data)> = Vec::new();
            let mut i: usize = 0;
            while i < entries.len()
                invariant
                    i <= entries@.len(),
                    out@.len() == i,
                    decreases_to!(v => entries),
                    forall|k: int|
                        0 <= k < i ==> (#[trigger] out@[k]).0@ == entries@[k].0@ && out@[k].1@ == json_of(
                            entries@[k].1@,
                        ),
                decreases entries.len() - i,
            {
                let inner = to_json(&entries[i].1);
                out.push((entries[i].0.clone(), inner));
                i += 1;
            }
            proof {
                let model = entry_views(entries@);
                assert(entry_views(out@) =~= json_of(DataV::Object(model))->Object_0);
            }
            Data::Object(out)
        },
        _ => v.duplicate(),
    }
}

/// Reads a JSON text. The compact notation of what JSON carries exactly is read as its canonical
/// form.
pub fn parse_json(data: &[u8]) -> (r: Result<Data, String>)
    ensures
        match (r, outside::json_parsed(data@)) {
            (Ok(v), Ok(model)) => v@ == model,
            (Err(error), Err(why)) => error@ == why,
            _ => false,
        },
        forall|v: DataV|
            outside::is_exact_json(v, 100) && data@ == vstd::utf8::encode_utf8(#[trigger] compact(v)) ==> (
            r matches Ok(found) && found@ == canonical(v)),
{
    match outside::json_parse(data) {
        Ok(document) => Ok(from_document(&document)),
        Err(error) => Err(error),
    }
}

/// What stands under a name of a TOML value stands under it in its JSON value.
pub proof fn lemma_json_fields(entries: Seq<(Seq<char>, DataV)>, name: Seq<char>)
    ensures
        field(json_of(DataV::Object(entries)), name) == match lookup(entries, name) {
            Some(v) => Some(json_of(v)),
            None => None,
        },
    decreases entries.len(),
{
    let all = json_of(DataV::Object(entries))->Object_0;
    if entries.len() > 0 && entries[0].0 != name {
        let rest = entries.subrange(1, entries.len() as int);
        lemma_json_fields(rest, name);
        assert(all.subrange(1, all.len() as int) =~= json_of(DataV::Object(rest))->Object_0);
    }
}

/// Texts, truth values and whole numbers of settings, and the parts of their lists, reach
/// plugins as they are.
pub proof fn settings_are_kept(v: DataV)
    ensures
        v is Str || v is Bool || v is Integer || v is Null ==> json_of(v) == v,
        v matches DataV::Array(items) ==> (json_of(v) matches DataV::Array(out) && out.len() == items.len()
            && forall|i: int| 0 <= i < items.len() ==> #[trigger] out[i] == json_of(items[i])),
        v matches DataV::Object(entries) ==> forall|name: Seq<char>| #[trigger]
            field(json_of(v), name) == match lookup(entries, name) {
                Some(inner) => Some(json_of(inner)),
                None => None,
            },
{
    if let DataV::Object(entries) = v {
        assert forall|name: Seq<char>| #[trigger] field(json_of(v), name) == match lookup(entries, name) {
            Some(inner) => Some(json_of(inner)),
            None => None,
        } by {
            lemma_json_fields(entries, name);
        }
    }
}

/// The parts of a list count.
proof fn lemma_work_of_items(items: Seq<DataV>, i: int)
    requires
        0 <= i < items.len(),
    ensures
        work_of_items(items) >= work_units(items[i]),
    decreases items.len(),
{
    if i < items.len() - 1 {
        let fewer = items.subrange(0, items.len() - 1);
        lemma_work_of_items(fewer, i);
        assert(fewer[i] == items[i]);
    }
}

/// The named parts count.
proof fn lemma_work_of_entries(entries: Seq<(Seq<char>, DataV)>, i: int)
    requires
        0 <= i < entries.len(),
    ensures
        work_of_entries(entries) >= work_units(entries[i].1),
    decreases entries.len(),
{
    if i < entries.len() - 1 {
        let fewer = entries.subrange(0, entries.len() - 1);
        lemma_work_of_entries(fewer, i);
        assert(fewer[i] == entries[i]);
    }
}

/// A value takes as much work as it has parts, as much as each of its parts, and one step at
/// least.
pub proof fn every_part_takes_work(items: Seq<DataV>, entries: Seq<(Seq<char>, DataV)>, i: int)
    ensures
        work_units(DataV::Array(items)) >= 1,
        work_units(DataV::Array(items)) >= items.len(),
        work_units(DataV::Object(entries)) >= 1,
        work_units(DataV::Object(entries)) >= entries.len(),
        0 <= i < items.len() ==> work_units(DataV::Array(items)) >= work_units(items[i]),
        0 <= i < entries.len() ==> work_units(DataV::Object(entries)) >= work_units(entries[i].1),
{
    if 0 <= i < items.len() {
        lemma_work_of_items(items, i);
    }
    if 0 <= i < entries.len() {
        lemma_work_of_entries(entries, i);
    }
}

/// A reference to a secret is found wherever it stands, and nothing else is one.
pub proof fn references_are_found(entries: Seq<(Seq<char>, DataV)>, items: Seq<DataV>, name: Seq<char>, i: int)
    ensures
        lookup(entries, "secret"@) == Some(DataV::Str(name)) ==> mentions(DataV::Object(entries), name),
        0 <= i < entries.len() && mentions(entries[i].1, name) ==> mentions(DataV::Object(entries), name),
        0 <= i < items.len() && mentions(items[i], name) ==> mentions(DataV::Array(items), name),
        !mentions(DataV::Str(name), name),
        lookup(entries, "secret"@) != Some(DataV::Str(name)) && (forall|k: int|
            0 <= k < entries.len() ==> !mentions(#[trigger] entries[k].1, name)) ==> !mentions(
            DataV::Object(entries),
            name,
        ),
{
    reveal_with_fuel(mentions, 2);
    if 0 <= i < items.len() && mentions(items[i], name) {
        let v = DataV::Array(items);
        assert(v->Array_0[i] == items[i]);
        assert(exists|k: int| 0 <= k < items.len() && mentions(#[trigger] items[k], name));
        assert(mentions(v, name));
    }
}

} // verus!
