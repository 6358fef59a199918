//! The data model of the generator's input: serde-style formats of types,
//! containers and variants, and the registry of named containers, kept in
//! the order of their qualified names.

use vstd::prelude::*;
use crate::text::{text_lt, str_lt, lemma_text_lt_transitive, lemma_text_lt_total, lemma_text_lt_irreflexive};

verus! {

/// The serde format of a value.
#[derive(Debug)]
pub enum Format {
    /// The name of a container.
    TypeName(String),
    Unit,
    Bool,
    I8,
    I16,
    I32,
    I64,
    I128,
    U8,
    U16,
    U32,
    U64,
    U128,
    F32,
    F64,
    Char,
    Str,
    Bytes,
    /// The format of `Option<T>`.
    Option(Box<Format>),
    /// A sequence, e.g. the format of `Vec<Foo>`.
    SeqOf(Box<Format>),
    /// A map, e.g. the format of `BTreeMap<K, V>`.
    MapOf { key: Box<Format>, value: Box<Format> },
    /// A tuple, e.g. the format of `(Foo, Bar)`.
    Tuple(Vec<Format>),
    /// Alias for `(Foo, ... Foo)`, e.g. the format of `[Foo; N]`.
    TupleArray { content: Box<Format>, size: usize },
}

/// A named value: a field or a variant.
#[derive(Debug)]
pub struct Named<T> {
    pub name: String,
    pub value: T,
}

/// The format of one variant of an enum.
#[derive(Debug)]
pub enum VariantFormat {
    /// A variant without parameters, e.g. `A` in `enum X { A }`.
    Unit,
    /// A variant with a single unnamed parameter.
    NewType(Box<Format>),
    /// A variant with several unnamed parameters.
    Tuple(Vec<Format>),
    /// A variant with named parameters.
    Struct(Vec<Named<Format>>),
}

/// The format of a named container: a struct or an enum.
#[derive(Debug)]
pub enum ContainerFormat {
    /// An empty struct, e.g. `struct A`.
    UnitStruct,
    /// A struct with a single unnamed parameter.
    NewTypeStruct(Box<Format>),
    /// A struct with several unnamed parameters.
    TupleStruct(Vec<Format>),
    /// A struct with named parameters.
    Struct(Vec<Named<Format>>),
    /// An enum: its variants, the variant of index `i` at position `i`.
    Enum(Vec<Named<VariantFormat>>),
}

/// An optional namespace and a name.
pub type QualifiedName = (Option<String>, String);

/// The value of a qualified name.
pub type NameView = (Option<Seq<char>>, Seq<char>);

pub open spec fn name_view(q: QualifiedName) -> NameView {
    (
        match q.0 {
            Some(ns) => Some(ns@),
            None => None,
        },
        q.1@,
    )
}

/// The order of qualified names: no namespace first, then by namespace, then
/// by name, strings compared as `str` compares them.
pub open spec fn name_lt(a: NameView, b: NameView) -> bool {
    match (a.0, b.0) {
        (None, Some(_)) => true,
        (Some(_), None) => false,
        (Some(x), Some(y)) => text_lt(x, y) || (x == y && text_lt(a.1, b.1)),
        (None, None) => text_lt(a.1, b.1),
    }
}

pub proof fn lemma_name_lt_transitive(a: NameView, b: NameView, c: NameView)
    requires
        name_lt(a, b),
        name_lt(b, c),
    ensures
        name_lt(a, c),
{
    if a.0 is Some && b.0 is Some && c.0 is Some {
        let (x, y, z) = (a.0->0, b.0->0, c.0->0);
        lemma_text_lt_irreflexive(x);
        lemma_text_lt_irreflexive(y);
        if text_lt(x, y) && text_lt(y, z) {
            lemma_text_lt_transitive(x, y, z);
        }
        if x == y && y == z {
            lemma_text_lt_transitive(a.1, b.1, c.1);
        }
    } else if a.0 is None && b.0 is None && c.0 is None {
        lemma_text_lt_transitive(a.1, b.1, c.1);
    }
}

pub proof fn lemma_name_lt_total(a: NameView, b: NameView)
    requires
        a != b,
    ensures
        name_lt(a, b) || name_lt(b, a),
{
    if a.0 is Some && b.0 is Some {
        if a.0->0 != b.0->0 {
            lemma_text_lt_total(a.0->0, b.0->0);
        } else {
            lemma_text_lt_total(a.1, b.1);
        }
    } else if a.0 is None && b.0 is None {
        lemma_text_lt_total(a.1, b.1);
    }
}

pub proof fn lemma_name_lt_irreflexive(a: NameView)
    ensures
        !name_lt(a, a),
{
    lemma_text_lt_irreflexive(a.1);
    if a.0 is Some {
        lemma_text_lt_irreflexive(a.0->0);
    }
}

/// Whether `a` precedes `b` in the registry order.
fn name_less(a: &QualifiedName, b: &QualifiedName) -> (r: bool)
    ensures
        r == name_lt(name_view(*a), name_view(*b)),
{
    match (&a.0, &b.0) {
        (None, Some(_)) => true,
        (Some(_), None) => false,
        (Some(x), Some(y)) => {
            if str_lt(x.as_str(), y.as_str()) {
                true
            } else if *x == *y {
                str_lt(a.1.as_str(), b.1.as_str())
            } else {
                false
            }
        },
        (None, None) => str_lt(a.1.as_str(), b.1.as_str()),
    }
}

/// Whether two qualified names are equal.
pub fn name_equal(a: &QualifiedName, b: &QualifiedName) -> (r: bool)
    ensures
        r == (name_view(*a) == name_view(*b)),
{
    let same_ns = match (&a.0, &b.0) {
        (None, None) => true,
        (Some(x), Some(y)) => *x == *y,
        _ => false,
    };
    same_ns && a.1 == b.1
}

/// The containers to generate, by qualified name, in increasing name order.
pub struct Registry {
    entries: Vec<(QualifiedName, ContainerFormat)>,
}

/// The entries of a registry, by value.
pub type RegistryView = Seq<(NameView, ContainerFormat)>;

pub open spec fn sorted_names(s: RegistryView) -> bool {
    forall|i: int, j: int| 0 <= i < j < s.len() ==> name_lt(#[trigger] s[i].0, #[trigger] s[j].0)
}

impl View for Registry {
    type V = RegistryView;

    closed spec fn view(&self) -> RegistryView {
        self.entries@.map_values(|e: (QualifiedName, ContainerFormat)| (name_view(e.0), e.1))
    }
}

impl Registry {
    #[verifier::type_invariant]
    spec fn inv(&self) -> bool {
        sorted_names(self@)
    }

    /// An empty registry.
    pub fn new() -> (r: Self)
        ensures
            r@ == Seq::<(NameView, ContainerFormat)>::empty(),
    {
        let r = Registry { entries: Vec::new() };
        proof {
            assert(r@ =~= Seq::<(NameView, ContainerFormat)>::empty());
        }
        r
    }

    /// The number of containers.
    pub fn len(&self) -> (n: usize)
        ensures
            n == self@.len(),
    {
        self.entries.len()
    }

    /// The entry at position `i`.
    pub fn entry(&self, i: usize) -> (e: &(QualifiedName, ContainerFormat))
        requires
            i < self@.len(),
        ensures
            name_view(e.0) == self@[i as int].0,
            e.1 == self@[i as int].1,
    {
        &self.entries[i]
    }

    /// Adds a container, or replaces the one of the same name; returns the
    /// replaced one.
    pub fn insert(&mut self, key: QualifiedName, value: ContainerFormat) -> (old_value: Option<ContainerFormat>)
        ensures
            sorted_names(final(self)@),
            match old_value {
                Some(prev) => exists|i: int|
                    0 <= i < old(self)@.len() && old(self)@[i].0 == name_view(key)
                    && prev == old(self)@[i].1
                    && final(self)@ == old(self)@.update(i, (name_view(key), value)),
                None => (forall|i: int| 0 <= i < old(self)@.len() ==> old(self)@[i].0 != name_view(key))
                    && exists|p: int|
                        0 <= p <= old(self)@.len()
                        && final(self)@ == old(self)@.insert(p, (name_view(key), value)),
            },
    {
        proof {
            use_type_invariant(&*self);
        }
        let ghost old_view = self@;
        assert(old_view == old(self)@);
        let ghost k = name_view(key);
        let mut i: usize = self.entries.len();
        while i > 0
            invariant
                i <= self.entries.len(),
                self@ == old_view,
                old_view == old(self)@,
                sorted_names(old_view),
                k == name_view(key),
                forall|j: int| i <= j < old_view.len() ==> name_lt(k, #[trigger] old_view[j].0),
            ensures
                i <= self.entries.len(),
                self@ == old_view,
                forall|j: int| i <= j < old_view.len() ==> name_lt(k, #[trigger] old_view[j].0),
                i == 0 || name_lt(old_view[i - 1].0, k),
            decreases i,
        {
            let e = &self.entries[i - 1];
            assert(old_view[i - 1].0 == name_view(e.0));
            if name_equal(&e.0, &key) {
                let idx = i - 1;
                let ghost new_view = old_view.update(idx as int, (k, value));
                let mut entries = Vec::new();
                std::mem::swap(&mut entries, &mut self.entries);
                let prev = entries.remove(idx);
                entries.insert(idx, (key, value));
                proof {
                    assert(entries@.map_values(|e: (QualifiedName, ContainerFormat)| (name_view(e.0), e.1)) =~= new_view);
                    assert forall|a: int, b: int| 0 <= a < b < new_view.len() implies name_lt(
                        #[trigger] new_view[a].0,
                        #[trigger] new_view[b].0,
                    ) by {
                        assert(old_view[a].0 == new_view[a].0);
                        assert(old_view[b].0 == new_view[b].0);
                    }
                }
                self.entries = entries;
                proof {
                    assert(old_view[idx as int].1 == prev.1);
                    assert(old_view[idx as int].0 == k);
                    assert(self@ == old_view.update(idx as int, (k, value)));
                    assert(old_view == old(self)@);
                    let w = idx as int;
                    assert(0 <= w < old(self)@.len() && old(self)@[w].0 == name_view(key)
                        && prev.1 == old(self)@[w].1
                        && self@ == old(self)@.update(w, (name_view(key), value)));
                }
                return Some(prev.1);
            }
            if name_less(&e.0, &key) {
                break;
            }
            proof {
                lemma_name_lt_total(old_view[i - 1].0, k);
            }
            i = i - 1;
        }
        let ghost pos = i as int;
        proof {
            // Everything before `pos` precedes the new key.
            assert forall|j: int| 0 <= j < pos implies name_lt(#[trigger] old_view[j].0, k) by {
                if j < pos - 1 {
                    lemma_name_lt_transitive(old_view[j].0, old_view[pos - 1].0, k);
                }
            }
            assert forall|j: int| 0 <= j < old_view.len() implies old_view[j].0 != k by {
                if j < pos {
                    lemma_name_lt_irreflexive(k);
                } else {
                    lemma_name_lt_irreflexive(k);
                }
            }
        }
        let mut entries = Vec::new();
        std::mem::swap(&mut entries, &mut self.entries);
        entries.insert(i, (key, value));
        let ghost new_view = old_view.insert(pos, (k, value));
        proof {
            assert(entries@.map_values(|e: (QualifiedName, ContainerFormat)| (name_view(e.0), e.1)) =~= new_view);
            assert forall|a: int, b: int| 0 <= a < b < new_view.len() implies name_lt(
                #[trigger] new_view[a].0,
                #[trigger] new_view[b].0,
            ) by {
                if b < pos {
                    assert(new_view[a] == old_view[a] && new_view[b] == old_view[b]);
                } else if b == pos {
                    assert(new_view[a] == old_view[a]);
                } else if a == pos {
                    assert(new_view[b] == old_view[b - 1]);
                } else if a < pos {
                    assert(new_view[a] == old_view[a] && new_view[b] == old_view[b - 1]);
                } else {
                    assert(new_view[a] == old_view[a - 1] && new_view[b] == old_view[b - 1]);
                }
            }
        }
        self.entries = entries;
        None
    }
}

/// Whether a format is `Option<_>`.
pub open spec fn is_option(f: Format) -> bool {
    f is Option
}

/// Whether every field of a struct is optional.
pub open spec fn all_optional(fields: Seq<Named<Format>>) -> bool {
    forall|i: int| 0 <= i < fields.len() ==> is_option(#[trigger] fields[i].value)
}

/// Whether `f` is `Option<_>`.
pub fn is_optional_format(f: &Format) -> (r: bool)
    ensures
        r == is_option(*f),
{
    match f {
        Format::Option(_) => true,
        _ => false,
    }
}

/// Whether every field of a struct is optional.
pub fn all_fields_optional(fields: &Vec<Named<Format>>) -> (r: bool)
    ensures
        r == all_optional(fields@),
{
    let mut i: usize = 0;
    while i < fields.len()
        invariant
            i <= fields.len(),
            forall|j: int| 0 <= j < i ==> is_option(#[trigger] fields@[j].value),
        decreases fields.len() - i,
    {
        if !is_optional_format(&fields[i].value) {
            return false;
        }
        i = i + 1;
    }
    true
}

} // verus!
