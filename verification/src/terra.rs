//! Providers, resource metadata and resource filters.

use vstd::prelude::*;
use crate::text::{views, split, split_on, owned, push_str, last_segment, after_last, clone_strings};

verus! {

/// A Terraform provider: display name, registry source and version
/// constraint.
pub struct TerraProvider {
    /// Display name, e.g. "Amazon Web Services".
    pub name: String,
    /// Registry source, e.g. "registry.opentofu.org/hashicorp/aws".
    pub source: String,
    /// Version constraint, e.g. "~> 6.0".
    pub version: String,
}

/// The local name of a provider source: its last `/`-separated segment.
pub open spec fn local_name_of(source: Seq<char>) -> Seq<char> {
    after_last(source, '/')
}

/// The source without its registry host: the last two `/`-separated
/// segments, or the whole source when it has fewer.
pub open spec fn short_source_of(source: Seq<char>) -> Seq<char> {
    let parts = split_on(source, '/');
    if parts.len() >= 2 {
        parts[parts.len() - 2] + seq!['/'] + parts[parts.len() - 1]
    } else {
        source
    }
}

impl TerraProvider {
    pub fn new(name: &str, source: &str, version: &str) -> (p: Self)
        ensures
            p.name@ == name@,
            p.source@ == source@,
            p.version@ == version@,
    {
        TerraProvider { name: owned(name), source: owned(source), version: owned(version) }
    }

    /// The name under which the provider is required, e.g. "aws".
    pub fn local_name(&self) -> (r: String)
        ensures
            r@ == local_name_of(self.source@),
    {
        last_segment(self.source.as_str(), '/')
    }

    /// The source as `required_providers` takes it, e.g. "hashicorp/aws".
    pub fn short_source(&self) -> (r: String)
        ensures
            r@ == short_source_of(self.source@),
    {
        let parts = split(self.source.as_str(), '/');
        let n = parts.len();
        if n >= 2 {
            let mut r = String::new();
            push_str(&mut r, parts[n - 2].as_str());
            push_str(&mut r, "/");
            push_str(&mut r, parts[n - 1].as_str());
            proof {
                assert(views(parts@)[n - 2] == parts@[n - 2]@);
                assert(views(parts@)[n - 1] == parts@[n - 1]@);
                reveal_strlit("/");
                assert(r@ =~= short_source_of(self.source@));
            }
            r
        } else {
            owned(self.source.as_str())
        }
    }

    pub fn duplicate(&self) -> (r: Self)
        ensures
            r.name@ == self.name@,
            r.source@ == self.source@,
            r.version@ == self.version@,
    {
        TerraProvider { name: self.name.clone(), source: self.source.clone(), version: self.version.clone() }
    }
}

/// What is known of a generated resource struct: its resource type, the
/// source of its provider and the struct's name.
pub struct ResourceMeta {
    pub resource_type: String,
    pub provider_source: String,
    pub struct_name: String,
}

/// Resource metadata, by value.
pub struct MetaView {
    pub resource_type: Seq<char>,
    pub provider_source: Seq<char>,
    pub struct_name: Seq<char>,
}

impl View for ResourceMeta {
    type V = MetaView;

    open spec fn view(&self) -> MetaView {
        MetaView {
            resource_type: self.resource_type@,
            provider_source: self.provider_source@,
            struct_name: self.struct_name@,
        }
    }
}

/// The values of a list of resource metadata.
pub open spec fn metas_view(v: Seq<ResourceMeta>) -> Seq<MetaView> {
    v.map_values(|m: ResourceMeta| m@)
}

impl ResourceMeta {
    pub fn duplicate(&self) -> (r: Self)
        ensures
            r.resource_type@ == self.resource_type@,
            r.provider_source@ == self.provider_source@,
            r.struct_name@ == self.struct_name@,
    {
        ResourceMeta {
            resource_type: self.resource_type.clone(),
            provider_source: self.provider_source.clone(),
            struct_name: self.struct_name.clone(),
        }
    }
}

/// Copies of a list of resource metadata.
pub fn duplicate_metas(v: &Vec<ResourceMeta>) -> (r: Vec<ResourceMeta>)
    ensures
        metas_view(r@) == metas_view(v@),
{
    let mut r: Vec<ResourceMeta> = Vec::new();
    let mut i: usize = 0;
    while i < v.len()
        invariant
            i <= v.len(),
            r@.len() == i,
            forall|j: int| 0 <= j < i ==> same_meta(#[trigger] r@[j], v@[j]),
        decreases v.len() - i,
    {
        r.push(v[i].duplicate());
        i = i + 1;
    }
    proof {
        assert(metas_view(r@) =~= metas_view(v@));
    }
    r
}

pub open spec fn same_meta(a: ResourceMeta, b: ResourceMeta) -> bool {
    &&& a.resource_type@ == b.resource_type@
    &&& a.provider_source@ == b.provider_source@
    &&& a.struct_name@ == b.struct_name@
}

/// Selects, per provider source, the resource types to generate.
pub struct ResourceFilter {
    entries: Vec<(String, Vec<String>)>,
}

impl ResourceFilter {
    /// Whether `provider` has an entry, possibly with no resources.
    pub closed spec fn lists_provider(&self, provider: Seq<char>) -> bool {
        exists|i: int| 0 <= i < self.entries@.len() && #[trigger] self.entries@[i].0@ == provider
    }

    /// Whether the resource type `resource` of `provider` is selected.
    pub closed spec fn selects(&self, provider: Seq<char>, resource: Seq<char>) -> bool {
        exists|i: int|
            0 <= i < self.entries@.len() && #[trigger] self.entries@[i].0@ == provider
                && views(self.entries@[i].1@).contains(resource)
    }

    /// A filter that selects nothing.
    pub fn new() -> (f: Self)
        ensures
            forall|p: Seq<char>| !f.lists_provider(p),
            forall|p: Seq<char>, r: Seq<char>| !f.selects(p, r),
    {
        ResourceFilter { entries: Vec::new() }
    }

    /// Adds resource types to those selected for `provider`.
    pub fn with_resources(self, provider: &str, resources: Vec<String>) -> (f: Self)
        ensures
            forall|p: Seq<char>| f.lists_provider(p) <==> (self.lists_provider(p) || p == provider@),
            forall|p: Seq<char>, r: Seq<char>|
                f.selects(p, r) <==> (self.selects(p, r) || (p == provider@ && views(resources@).contains(r))),
    {
        let mut entries = self.entries;
        let ghost old_entries = entries@;
        let key = owned(provider);
        let mut i: usize = 0;
        while i < entries.len()
            invariant
                entries@ == old_entries,
                key@ == provider@,
                i <= entries.len(),
                forall|j: int| 0 <= j < i ==> entries@[j].0@ != provider@,
            ensures
                entries@ == old_entries,
                i <= entries.len(),
                forall|j: int| 0 <= j < i ==> entries@[j].0@ != provider@,
                i < entries.len() ==> entries@[i as int].0@ == provider@,
            decreases entries.len() - i,
        {
            if entries[i].0 == key {
                break;
            }
            i = i + 1;
        }
        if i < entries.len() {
            let (k, mut names) = entries.remove(i);
            let ghost old_names = names@;
            let mut j: usize = 0;
            while j < resources.len()
                invariant
                    j <= resources.len(),
                    names@ == old_names + resources@.take(j as int),
                decreases resources.len() - j,
            {
                names.push(resources[j].clone());
                j = j + 1;
                proof {
                    assert(names@ =~= old_names + resources@.take(j as int));
                }
            }
            entries.insert(i, (k, names));
            let f = ResourceFilter { entries };
            proof {
                assert(resources@.take(resources@.len() as int) =~= resources@);
                assert(views(names@) =~= views(old_names) + views(resources@));
                assert forall|p: Seq<char>| f.lists_provider(p) <==> (self.lists_provider(p) || p == provider@) by {
                    if self.lists_provider(p) {
                        let w = choose|w: int| 0 <= w < old_entries.len() && #[trigger] old_entries[w].0@ == p;
                        assert(f.entries@[w].0@ == p);
                    }
                    if f.lists_provider(p) {
                        let w = choose|w: int| 0 <= w < f.entries@.len() && #[trigger] f.entries@[w].0@ == p;
                        assert(old_entries[w].0@ == p);
                    }
                }
                assert forall|p: Seq<char>, r: Seq<char>|
                    f.selects(p, r) <==> (self.selects(p, r) || (p == provider@ && views(resources@).contains(r))) by {
                    if self.selects(p, r) {
                        let w = choose|w: int| 0 <= w < old_entries.len() && #[trigger] old_entries[w].0@ == p
                            && views(old_entries[w].1@).contains(r);
                        if w == i {
                            let x = choose|x: int| 0 <= x < views(old_names).len() && views(old_names)[x] == r;
                            assert(views(names@)[x] == r);
                        }
                        assert(f.entries@[w].0@ == p);
                        assert(views(f.entries@[w].1@).contains(r));
                    }
                    if p == provider@ && views(resources@).contains(r) {
                        let x = choose|x: int| 0 <= x < views(resources@).len() && views(resources@)[x] == r;
                        assert(views(names@)[old_names.len() + x] == r);
                        assert(f.entries@[i as int].0@ == p);
                    }
                    if f.selects(p, r) {
                        let w = choose|w: int| 0 <= w < f.entries@.len() && #[trigger] f.entries@[w].0@ == p
                            && views(f.entries@[w].1@).contains(r);
                        if w == i {
                            let x = choose|x: int| 0 <= x < views(names@).len() && views(names@)[x] == r;
                            if x < old_names.len() {
                                assert(views(old_names)[x] == r);
                                assert(old_entries[w].0@ == p);
                            } else {
                                assert(views(resources@)[x - old_names.len()] == r);
                            }
                        } else {
                            assert(old_entries[w] == f.entries@[w]);
                        }
                    }
                }
            }
            f
        } else {
            let names = clone_strings(&resources);
            entries.push((key, names));
            let f = ResourceFilter { entries };
            proof {
                let n = old_entries.len() as int;
                assert forall|p: Seq<char>| f.lists_provider(p) <==> (self.lists_provider(p) || p == provider@) by {
                    if self.lists_provider(p) {
                        let w = choose|w: int| 0 <= w < old_entries.len() && #[trigger] old_entries[w].0@ == p;
                        assert(f.entries@[w].0@ == p);
                    }
                    if p == provider@ {
                        assert(f.entries@[n].0@ == p);
                    }
                    if f.lists_provider(p) {
                        let w = choose|w: int| 0 <= w < f.entries@.len() && #[trigger] f.entries@[w].0@ == p;
                        if w < n {
                            assert(old_entries[w].0@ == p);
                        }
                    }
                }
                assert forall|p: Seq<char>, r: Seq<char>|
                    f.selects(p, r) <==> (self.selects(p, r) || (p == provider@ && views(resources@).contains(r))) by {
                    if self.selects(p, r) {
                        let w = choose|w: int| 0 <= w < old_entries.len() && #[trigger] old_entries[w].0@ == p
                            && views(old_entries[w].1@).contains(r);
                        assert(f.entries@[w] == old_entries[w]);
                    }
                    if p == provider@ && views(resources@).contains(r) {
                        assert(f.entries@[n].0@ == p);
                        assert(views(f.entries@[n].1@) == views(resources@));
                    }
                    if f.selects(p, r) {
                        let w = choose|w: int| 0 <= w < f.entries@.len() && #[trigger] f.entries@[w].0@ == p
                            && views(f.entries@[w].1@).contains(r);
                        if w < n {
                            assert(old_entries[w] == f.entries@[w]);
                        } else {
                            assert(views(f.entries@[w].1@) == views(resources@));
                        }
                    }
                }
            }
            f
        }
    }

    /// Whether the resource type `resource` of `provider` is selected.
    pub fn includes(&self, provider: &str, resource: &str) -> (r: bool)
        ensures
            r == self.selects(provider@, resource@),
    {
        let p = owned(provider);
        let x = owned(resource);
        let mut i: usize = 0;
        while i < self.entries.len()
            invariant
                i <= self.entries.len(),
                p@ == provider@,
                x@ == resource@,
                forall|j: int| 0 <= j < i ==> !(self.entries@[j].0@ == provider@
                    && #[trigger] views(self.entries@[j].1@).contains(resource@)),
            decreases self.entries.len() - i,
        {
            let e = &self.entries[i];
            if e.0 == p {
                let mut k: usize = 0;
                while k < e.1.len()
                    invariant
                        k <= e.1.len(),
                        x@ == resource@,
                        i < self.entries.len(),
                        *e == self.entries@[i as int],
                        e.0@ == provider@,
                        forall|m: int| 0 <= m < k ==> e.1@[m]@ != resource@,
                    decreases e.1.len() - k,
                {
                    if e.1[k] == x {
                        proof {
                            assert(views(e.1@)[k as int] == resource@);
                            assert(self.entries@[i as int].0@ == provider@);
                            assert(views(self.entries@[i as int].1@).contains(resource@));
                        }
                        return true;
                    }
                    k = k + 1;
                }
                proof {
                    if views(e.1@).contains(resource@) {
                        let m = choose|m: int| 0 <= m < views(e.1@).len() && views(e.1@)[m] == resource@;
                        assert(e.1@[m]@ == resource@);
                    }
                }
            }
            i = i + 1;
        }
        false
    }

    pub fn duplicate(&self) -> (r: Self)
        ensures
            forall|p: Seq<char>| r.lists_provider(p) == self.lists_provider(p),
            forall|p: Seq<char>, x: Seq<char>| r.selects(p, x) == self.selects(p, x),
    {
        let mut entries: Vec<(String, Vec<String>)> = Vec::new();
        let mut i: usize = 0;
        while i < self.entries.len()
            invariant
                i <= self.entries.len(),
                entries@.len() == i,
                forall|j: int| 0 <= j < i ==> (#[trigger] entries@[j]).0@ == self.entries@[j].0@
                    && views(entries@[j].1@) == views(self.entries@[j].1@),
            decreases self.entries.len() - i,
        {
            let e = &self.entries[i];
            entries.push((e.0.clone(), clone_strings(&e.1)));
            i = i + 1;
        }
        let r = ResourceFilter { entries };
        proof {
            assert forall|p: Seq<char>| r.lists_provider(p) == self.lists_provider(p) by {
                if r.lists_provider(p) {
                    let w = choose|w: int| 0 <= w < r.entries@.len() && #[trigger] r.entries@[w].0@ == p;
                    assert(self.entries@[w].0@ == p);
                }
                if self.lists_provider(p) {
                    let w = choose|w: int| 0 <= w < self.entries@.len() && #[trigger] self.entries@[w].0@ == p;
                    assert(r.entries@[w].0@ == p);
                }
            }
            assert forall|p: Seq<char>, x: Seq<char>| r.selects(p, x) == self.selects(p, x) by {
                if r.selects(p, x) {
                    let w = choose|w: int| 0 <= w < r.entries@.len() && #[trigger] r.entries@[w].0@ == p
                        && views(r.entries@[w].1@).contains(x);
                    assert(self.entries@[w].0@ == p);
                }
                if self.selects(p, x) {
                    let w = choose|w: int| 0 <= w < self.entries@.len() && #[trigger] self.entries@[w].0@ == p
                        && views(self.entries@[w].1@).contains(x);
                    assert(r.entries@[w].0@ == p);
                }
            }
        }
        r
    }
}

impl Default for ResourceFilter {
    /// A filter that selects nothing.
    fn default() -> (f: Self)
        ensures
            forall|p: Seq<char>| !f.lists_provider(p),
            forall|p: Seq<char>, r: Seq<char>| !f.selects(p, r),
    {
        ResourceFilter::new()
    }
}

} // verus!
