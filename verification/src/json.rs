//! JSON values as the configuration exporter builds them.

use vstd::prelude::*;
use crate::text::owned;

verus! {

/// A JSON value, by value. An object is a map from keys to values; the
/// order in which its keys are written is the serializer's concern.
pub enum JsonView {
    Null,
    Bool(bool),
    /// A number, by its JSON text.
    Number(Seq<char>),
    Str(Seq<char>),
    Array(Seq<JsonView>),
    Object(Map<Seq<char>, JsonView>),
}

/// A JSON value. An object holds its entries in order; where a key occurs
/// twice, the first entry is the one that counts.
#[derive(Debug)]
pub enum JsonValue {
    Null,
    Bool(bool),
    /// A number, by its JSON text.
    Number(String),
    String(String),
    Array(Vec<JsonValue>),
    Object(Vec<(String, JsonValue)>),
}

pub open spec fn json_view(v: JsonValue) -> JsonView
    decreases v,
{
    match v {
        JsonValue::Null => JsonView::Null,
        JsonValue::Bool(b) => JsonView::Bool(b),
        JsonValue::Number(n) => JsonView::Number(n@),
        JsonValue::String(s) => JsonView::Str(s@),
        JsonValue::Array(items) => JsonView::Array(items_view(items@)),
        JsonValue::Object(entries) => JsonView::Object(object_view(entries@)),
    }
}

pub open spec fn items_view(items: Seq<JsonValue>) -> Seq<JsonView>
    decreases items,
{
    if items.len() == 0 {
        seq![]
    } else {
        items_view(items.drop_last()).push(json_view(items.last()))
    }
}

/// The map of an object's entries; the first entry of a key counts.
pub open spec fn object_view(entries: Seq<(String, JsonValue)>) -> Map<Seq<char>, JsonView>
    decreases entries,
{
    if entries.len() == 0 {
        Map::empty()
    } else {
        object_view(entries.drop_first()).insert(entries[0].0@, json_view(entries[0].1))
    }
}

impl View for JsonValue {
    type V = JsonView;

    open spec fn view(&self) -> JsonView {
        json_view(*self)
    }
}

/// An object with the given entries, the first entry of a key counting.
pub open spec fn object_of(entries: Seq<(Seq<char>, JsonView)>) -> Map<Seq<char>, JsonView>
    decreases entries.len(),
{
    if entries.len() == 0 {
        Map::empty()
    } else {
        object_of(entries.drop_first()).insert(entries[0].0, entries[0].1)
    }
}

pub proof fn lemma_object_view_push(entries: Seq<(String, JsonValue)>, e: (String, JsonValue))
    requires
        !object_view(entries).dom().contains(e.0@),
    ensures
        object_view(entries.push(e)) == object_view(entries).insert(e.0@, json_view(e.1)),
    decreases entries.len(),
{
    if entries.len() == 0 {
        assert(entries.push(e).drop_first() =~= Seq::<(String, JsonValue)>::empty());
        assert(object_view(Seq::<(String, JsonValue)>::empty()) == Map::<Seq<char>, JsonView>::empty());
        assert(object_view(entries.push(e)) =~= object_view(entries).insert(e.0@, json_view(e.1)));
    } else {
        assert(entries.push(e).drop_first() =~= entries.drop_first().push(e));
        assert(entries.push(e)[0] == entries[0]);
        lemma_object_view_push(entries.drop_first(), e);
        assert(object_view(entries.push(e)) =~= object_view(entries).insert(e.0@, json_view(e.1)));
    }
}

pub proof fn lemma_object_view_update(entries: Seq<(String, JsonValue)>, i: int, e: (String, JsonValue))
    requires
        0 <= i < entries.len(),
        entries[i].0@ == e.0@,
        forall|j: int| 0 <= j < i ==> entries[j].0@ != e.0@,
    ensures
        object_view(entries.update(i, e)) == object_view(entries).insert(e.0@, json_view(e.1)),
    decreases entries.len(),
{
    if i == 0 {
        assert(entries.update(i, e).drop_first() =~= entries.drop_first());
        assert(object_view(entries.update(i, e)) =~= object_view(entries).insert(e.0@, json_view(e.1)));
    } else {
        assert(entries.update(i, e).drop_first() =~= entries.drop_first().update(i - 1, e));
        assert(entries.update(i, e)[0] == entries[0]);
        lemma_object_view_update(entries.drop_first(), i - 1, e);
        assert(object_view(entries.update(i, e)) =~= object_view(entries).insert(e.0@, json_view(e.1)));
    }
}

pub proof fn lemma_object_view_absent(entries: Seq<(String, JsonValue)>, k: Seq<char>)
    requires
        forall|j: int| 0 <= j < entries.len() ==> entries[j].0@ != k,
    ensures
        !object_view(entries).dom().contains(k),
    decreases entries.len(),
{
    if entries.len() > 0 {
        assert forall|j: int| 0 <= j < entries.drop_first().len() implies entries.drop_first()[j].0@ != k by {
            assert(entries.drop_first()[j] == entries[j + 1]);
        }
        lemma_object_view_absent(entries.drop_first(), k);
    }
}

/// An object has no key exactly when it has no entry.
pub proof fn lemma_object_view_empty(entries: Seq<(String, JsonValue)>)
    ensures
        (object_view(entries).dom().len() == 0) == (entries.len() == 0),
        object_view(entries).dom().finite(),
    decreases entries.len(),
{
    if entries.len() > 0 {
        lemma_object_view_empty(entries.drop_first());
        let m = object_view(entries.drop_first());
        assert(object_view(entries).dom().contains(entries[0].0@));
        vstd::set_lib::lemma_set_empty_equivalency_len(object_view(entries).dom());
    } else {
        assert(object_view(entries).dom() =~= Set::<Seq<char>>::empty());
    }
}

/// Sets `key` to `value` in an object: in place where the key has an entry,
/// otherwise as a new last entry.
pub fn object_insert(entries: &mut Vec<(String, JsonValue)>, key: String, value: JsonValue)
    ensures
        object_view(final(entries)@) == object_view(old(entries)@).insert(key@, value@),
{
    let mut i: usize = 0;
    while i < entries.len()
        invariant
            entries@ == old(entries)@,
            i <= entries.len(),
            forall|j: int| 0 <= j < i ==> entries@[j].0@ != key@,
        ensures
            entries@ == old(entries)@,
            i <= entries.len(),
            forall|j: int| 0 <= j < i ==> entries@[j].0@ != key@,
            i < entries.len() ==> entries@[i as int].0@ == key@,
        decreases entries.len() - i,
    {
        if entries[i].0 == key {
            break;
        }
        i = i + 1;
    }
    if i < entries.len() {
        let ghost old_entries = entries@;
        let item = (key, value);
        let ghost item_g = item;
        let _ = entries.remove(i);
        entries.insert(i, item);
        proof {
            assert(entries@ =~= old_entries.update(i as int, item_g));
            lemma_object_view_update(old_entries, i as int, item_g);
        }
    } else {
        let ghost old_entries = entries@;
        proof {
            lemma_object_view_absent(old_entries, key@);
        }
        let item = (key, value);
        let ghost item_g = item;
        entries.push(item);
        proof {
            lemma_object_view_push(old_entries, item_g);
        }
    }
}

/// The value of `key` in an object, where it has one.
pub fn object_get<'r>(entries: &'r Vec<(String, JsonValue)>, key: &String) -> (r: Option<&'r JsonValue>)
    ensures
        match r {
            Some(v) => object_view(entries@).dom().contains(key@) && object_view(entries@)[key@] == v@,
            None => !object_view(entries@).dom().contains(key@),
        },
{
    let mut i: usize = 0;
    while i < entries.len()
        invariant
            i <= entries.len(),
            forall|j: int| 0 <= j < i ==> entries@[j].0@ != key@,
        decreases entries.len() - i,
    {
        if entries[i].0 == *key {
            proof {
                lemma_object_view_first(entries@, i as int);
            }
            return Some(&entries[i].1);
        }
        i = i + 1;
    }
    proof {
        lemma_object_view_absent(entries@, key@);
    }
    None
}

pub proof fn lemma_object_view_first(entries: Seq<(String, JsonValue)>, i: int)
    requires
        0 <= i < entries.len(),
        forall|j: int| 0 <= j < i ==> entries[j].0@ != entries[i].0@,
    ensures
        object_view(entries).dom().contains(entries[i].0@),
        object_view(entries)[entries[i].0@] == json_view(entries[i].1),
    decreases entries.len(),
{
    if i > 0 {
        assert forall|j: int| 0 <= j < i - 1 implies (#[trigger] entries.drop_first()[j]).0@ != entries.drop_first()[i - 1].0@ by {
            assert(entries.drop_first()[j] == entries[j + 1]);
        }
        lemma_object_view_first(entries.drop_first(), i - 1);
    }
}

impl JsonValue {
    /// A copy of the value.
    pub fn duplicate(&self) -> (r: JsonValue)
        ensures
            r@ == self@,
        decreases self,
    {
        match self {
            JsonValue::Null => JsonValue::Null,
            JsonValue::Bool(b) => JsonValue::Bool(*b),
            JsonValue::Number(n) => JsonValue::Number(n.clone()),
            JsonValue::String(s) => JsonValue::String(s.clone()),
            JsonValue::Array(items) => JsonValue::Array(duplicate_items(items)),
            JsonValue::Object(entries) => JsonValue::Object(duplicate_entries(entries)),
        }
    }

    /// A string value.
    pub fn string(s: &str) -> (r: JsonValue)
        ensures
            r@ == JsonView::Str(s@),
    {
        JsonValue::String(owned(s))
    }
}

/// Copies of array items.
pub fn duplicate_items(items: &Vec<JsonValue>) -> (r: Vec<JsonValue>)
    ensures
        items_view(r@) == items_view(items@),
    decreases items,
{
    let mut r: Vec<JsonValue> = Vec::new();
    let mut i: usize = 0;
    while i < items.len()
        invariant
            i <= items.len(),
            items_view(r@) == items_view(items@.take(i as int)),
        decreases items.len() - i,
    {
        proof {
            assert(decreases_to!(items => items@[i as int]));
            assert(items@.take(i + 1).drop_last() =~= items@.take(i as int));
        }
        let c = items[i].duplicate();
        let ghost prev = r@;
        r.push(c);
        proof {
            assert(r@.drop_last() =~= prev);
        }
        i = i + 1;
    }
    proof {
        assert(items@.take(items.len() as int) =~= items@);
    }
    r
}

/// A copy of an object's entries.
pub fn duplicate_entries(entries: &Vec<(String, JsonValue)>) -> (r: Vec<(String, JsonValue)>)
    ensures
        object_view(r@) == object_view(entries@),
        r@.len() == entries@.len(),
    decreases entries,
{
    let mut r: Vec<(String, JsonValue)> = Vec::new();
    let mut i: usize = 0;
    while i < entries.len()
        invariant
            i <= entries.len(),
            r@.len() == i,
            forall|j: int| 0 <= j < i ==> (#[trigger] r@[j]).0@ == entries@[j].0@
                && json_view(r@[j].1) == json_view(entries@[j].1),
        decreases entries.len() - i,
    {
        proof {
            assert(decreases_to!(entries => entries@[i as int]));
        }
        let e = &entries[i];
        let c = e.1.duplicate();
        r.push((e.0.clone(), c));
        i = i + 1;
    }
    proof {
        lemma_object_view_same(r@, entries@);
    }
    r
}

proof fn lemma_object_view_same(a: Seq<(String, JsonValue)>, b: Seq<(String, JsonValue)>)
    requires
        a.len() == b.len(),
        forall|j: int| 0 <= j < a.len() ==> (#[trigger] a[j]).0@ == b[j].0@ && json_view(a[j].1) == json_view(b[j].1),
    ensures
        object_view(a) == object_view(b),
    decreases a.len(),
{
    if a.len() > 0 {
        assert forall|j: int| 0 <= j < a.drop_first().len() implies (#[trigger] a.drop_first()[j]).0@
            == b.drop_first()[j].0@ && json_view(a.drop_first()[j].1) == json_view(b.drop_first()[j].1) by {
            assert(a.drop_first()[j] == a[j + 1]);
            assert(b.drop_first()[j] == b[j + 1]);
        }
        lemma_object_view_same(a.drop_first(), b.drop_first());
        assert(a[0].0@ == b[0].0@);
    }
}

} // verus!
