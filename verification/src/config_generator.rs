//! Roundtrip binding generation: the decisions of the pipeline that
//! declares the required providers, exports their schema, and generates one
//! bindings file per provider target.

use vstd::prelude::*;
use crate::text::{owned, views, join, join_strings, clone_strings};
use crate::terra::{TerraProvider, ResourceFilter, local_name_of, short_source_of};
use crate::json::{JsonValue, JsonView, object_view, object_insert, object_get};
use crate::schema_bindgen::config::{CodeGeneratorConfig, ConfigView};
use crate::config_exporter::{JsonMap, requirement_json};
use crate::binding_generator::BindingGenerator;

verus! {

/// A provider, by value.
pub struct ProviderView {
    pub name: Seq<char>,
    pub source: Seq<char>,
    pub version: Seq<char>,
}

pub open spec fn provider_view(p: TerraProvider) -> ProviderView {
    ProviderView { name: p.name@, source: p.source@, version: p.version@ }
}

/// The required providers of the given providers, in order, keeping the
/// first provider of each local name.
pub open spec fn required_providers(ps: Seq<ProviderView>) -> JsonMap
    decreases ps.len(),
{
    if ps.len() == 0 {
        Map::empty()
    } else {
        let m = required_providers(ps.drop_last());
        let p = ps.last();
        let local = local_name_of(p.source);
        if m.dom().contains(local) {
            m
        } else {
            m.insert(local, requirement_json(short_source_of(p.source), p.version))
        }
    }
}

/// The required providers name exactly the local names of the providers.
pub proof fn law_required_providers_domain(ps: Seq<ProviderView>, k: Seq<char>)
    ensures
        required_providers(ps).dom().contains(k) <==> exists|i: int|
            0 <= i < ps.len() && #[trigger] local_name_of(ps[i].source) == k,
    decreases ps.len(),
{
    if ps.len() > 0 {
        let pre = ps.drop_last();
        law_required_providers_domain(pre, k);
        if exists|i: int| 0 <= i < pre.len() && #[trigger] local_name_of(pre[i].source) == k {
            let i = choose|i: int| 0 <= i < pre.len() && #[trigger] local_name_of(pre[i].source) == k;
            assert(local_name_of(ps[i].source) == k);
        }
        if exists|i: int| 0 <= i < ps.len() && #[trigger] local_name_of(ps[i].source) == k {
            let i = choose|i: int| 0 <= i < ps.len() && #[trigger] local_name_of(ps[i].source) == k;
            if i < pre.len() {
                assert(local_name_of(pre[i].source) == k);
            }
        }
    }
}

/// Providers are required once per local name: the first provider with a
/// local name gives its source and version.
pub proof fn law_required_providers_first_wins(ps: Seq<ProviderView>, i: int)
    requires
        0 <= i < ps.len(),
        forall|j: int| 0 <= j < i ==> local_name_of(#[trigger] ps[j].source) != local_name_of(ps[i].source),
    ensures
        required_providers(ps).dom().contains(local_name_of(ps[i].source)),
        required_providers(ps)[local_name_of(ps[i].source)]
            == requirement_json(short_source_of(ps[i].source), ps[i].version),
    decreases ps.len(),
{
    let pre = ps.drop_last();
    let k = local_name_of(ps[i].source);
    if i == ps.len() - 1 {
        law_required_providers_domain(pre, k);
        if required_providers(pre).dom().contains(k) {
            let j = choose|j: int| 0 <= j < pre.len() && #[trigger] local_name_of(pre[j].source) == k;
            assert(local_name_of(ps[j].source) == k);
        }
    } else {
        assert forall|j: int| 0 <= j < i implies local_name_of(#[trigger] pre[j].source) != local_name_of(pre[i].source) by {
            assert(pre[j] == ps[j]);
        }
        law_required_providers_first_wins(pre, i);
    }
}

/// The content of `providers.tf.json`.
pub open spec fn providers_tf(ps: Seq<ProviderView>) -> JsonView {
    JsonView::Object(Map::empty().insert(
        "terraform"@,
        JsonView::Object(Map::empty().insert("required_providers"@, JsonView::Object(required_providers(ps)))),
    ))
}

/// Adds the requirement of `p` unless its local name is already required.
pub fn add_requirement(required: &mut Vec<(String, JsonValue)>, p: &TerraProvider)
    ensures
        ({
            let m = object_view(old(required)@);
            let local = local_name_of(p.source@);
            object_view(final(required)@) == if m.dom().contains(local) {
                m
            } else {
                m.insert(local, requirement_json(short_source_of(p.source@), p.version@))
            }
        }),
{
    let local = p.local_name();
    if object_get(required, &local).is_some() {
        return;
    }
    let mut fields: Vec<(String, JsonValue)> = Vec::new();
    proof {
        assert(object_view(Seq::<(String, JsonValue)>::empty()) == Map::<Seq<char>, JsonView>::empty());
    }
    object_insert(&mut fields, owned("source"), JsonValue::String(p.short_source()));
    object_insert(&mut fields, owned("version"), JsonValue::String(p.version.clone()));
    object_insert(required, local, JsonValue::Object(fields));
}

/// `{"terraform": {"required_providers": required}}`.
pub fn providers_document(required: Vec<(String, JsonValue)>) -> (v: JsonValue)
    ensures
        v@ == JsonView::Object(Map::empty().insert(
            "terraform"@,
            JsonView::Object(Map::empty().insert("required_providers"@, JsonView::Object(object_view(required@)))),
        )),
{
    let mut terraform: Vec<(String, JsonValue)> = Vec::new();
    proof {
        assert(object_view(Seq::<(String, JsonValue)>::empty()) == Map::<Seq<char>, JsonView>::empty());
    }
    object_insert(&mut terraform, owned("required_providers"), JsonValue::Object(required));
    let mut root: Vec<(String, JsonValue)> = Vec::new();
    object_insert(&mut root, owned("terraform"), JsonValue::Object(terraform));
    JsonValue::Object(root)
}

/// The lines of the standard preamble of generated provider modules.
pub open spec fn preamble_lines() -> Seq<Seq<char>> {
    seq![
        "//! Auto-generated Terraform provider bindings \u{2014} do not edit by hand."@,
        ""@,
        "#![allow(unused_imports, non_snake_case, non_camel_case_types, non_upper_case_globals)]"@,
        "use std::collections::BTreeMap as Map;"@,
        "use serde::{Serialize, Deserialize};"@,
        "use serde_json;"@,
    ]
}

/// The standard preamble of generated provider modules.
pub open spec fn standard_preamble() -> Seq<char> {
    join(preamble_lines(), "\n"@)
}

/// The standard preamble for generated provider modules.
pub fn build_preamble() -> (s: String)
    ensures
        s@ == standard_preamble(),
{
    let mut lines: Vec<String> = Vec::new();
    lines.push(owned("//! Auto-generated Terraform provider bindings \u{2014} do not edit by hand."));
    lines.push(owned(""));
    lines.push(owned("#![allow(unused_imports, non_snake_case, non_camel_case_types, non_upper_case_globals)]"));
    lines.push(owned("use std::collections::BTreeMap as Map;"));
    lines.push(owned("use serde::{Serialize, Deserialize};"));
    lines.push(owned("use serde_json;"));
    proof {
        assert(views(lines@) =~= preamble_lines());
    }
    join_strings(&lines, "\n")
}

/// The filter of one target: the given resources of its provider.
pub fn target_filter(p: &TerraProvider, resources: &Vec<String>) -> (f: ResourceFilter)
    ensures
        forall|q: Seq<char>, r: Seq<char>|
            f.selects(q, r) <==> (q == p.source@ && views(resources@).contains(r)),
{
    ResourceFilter::default().with_resources(p.source.as_str(), clone_strings(resources))
}

/// Pairs a provider with the output path of its generated bindings.
pub struct TerraProviderGenerator {
    /// The provider to generate bindings for.
    pub provider: TerraProvider,
    /// Destination file path, e.g. `"src/providers/aws_lambda.rs"`.
    pub path: String,
}

impl TerraProviderGenerator {
    pub fn new(provider: TerraProvider, path: &str) -> (g: Self)
        ensures
            g.provider == provider,
            g.path@ == path@,
    {
        TerraProviderGenerator { provider, path: owned(path) }
    }
}

/// The working directory used unless another is given.
pub open spec fn default_work_dir() -> Seq<char> {
    "target/terra-bindings-generator"@
}

/// The options of the bindings generated per target: `UpperCamelCase`
/// names, constructors, trait impls and the standard preamble.
pub open spec fn target_config() -> ConfigView {
    ConfigView {
        use_title_case: true,
        generate_builders: true,
        generate_trait_impls: true,
        custom_preamble: Some(standard_preamble()),
        ..CodeGeneratorConfig::default_view()
    }
}

/// Orchestrates the roundtrip: providers, schema export, code generation.
pub struct ConfigGenerator {
    targets: Vec<(TerraProviderGenerator, Vec<String>)>,
    work_dir: String,
}

impl ConfigGenerator {
    /// The providers of the targets, in order.
    pub closed spec fn providers(&self) -> Seq<ProviderView> {
        self.targets@.map_values(|t: (TerraProviderGenerator, Vec<String>)| provider_view(t.0.provider))
    }

    /// The output paths of the targets, in order.
    pub closed spec fn paths(&self) -> Seq<Seq<char>> {
        self.targets@.map_values(|t: (TerraProviderGenerator, Vec<String>)| t.0.path@)
    }

    /// The resource lists of the targets, in order.
    pub closed spec fn resource_lists(&self) -> Seq<Seq<Seq<char>>> {
        self.targets@.map_values(|t: (TerraProviderGenerator, Vec<String>)| views(t.1@))
    }

    pub closed spec fn spec_work_dir(&self) -> Seq<char> {
        self.work_dir@
    }

    /// Adds a provider target and its resource types.
    pub fn with_resources(self, generator: TerraProviderGenerator, resources: Vec<String>) -> (g: Self)
        ensures
            g.providers() == self.providers().push(provider_view(generator.provider)),
            g.paths() == self.paths().push(generator.path@),
            g.resource_lists() == self.resource_lists().push(views(resources@)),
            g.spec_work_dir() == self.spec_work_dir(),
    {
        let ConfigGenerator { mut targets, work_dir } = self;
        let ghost old_targets = targets@;
        let ghost gv = generator;
        let ghost rv = resources;
        targets.push((generator, resources));
        let g = ConfigGenerator { targets, work_dir };
        proof {
            assert(g.providers() =~= self.providers().push(provider_view(gv.provider)));
            assert(g.paths() =~= self.paths().push(gv.path@));
            assert(g.resource_lists() =~= self.resource_lists().push(views(rv@)));
        }
        g
    }

    /// Uses `dir` as the working directory.
    pub fn with_work_dir(self, dir: &str) -> (g: Self)
        ensures
            g.spec_work_dir() == dir@,
            g.providers() == self.providers(),
            g.paths() == self.paths(),
            g.resource_lists() == self.resource_lists(),
    {
        ConfigGenerator { work_dir: owned(dir), ..self }
    }

    /// The working directory.
    pub fn work_dir(&self) -> (d: &String)
        ensures
            d@ == self.spec_work_dir(),
    {
        &self.work_dir
    }

    /// The content of `providers.tf.json`: the required providers of the
    /// targets, one per local name.
    pub fn providers_tf_json(&self) -> (v: JsonValue)
        ensures
            v@ == providers_tf(self.providers()),
    {
        let mut required: Vec<(String, JsonValue)> = Vec::new();
        let mut i: usize = 0;
        proof {
            assert(object_view(Seq::<(String, JsonValue)>::empty()) == Map::<Seq<char>, JsonView>::empty());
        }
        while i < self.targets.len()
            invariant
                i <= self.targets.len(),
                object_view(required@) == required_providers(self.providers().take(i as int)),
            decreases self.targets.len() - i,
        {
            proof {
                assert(self.providers().take(i + 1).drop_last() =~= self.providers().take(i as int));
                assert(self.providers()[i as int] == provider_view(self.targets@[i as int].0.provider));
            }
            add_requirement(&mut required, &self.targets[i].0.provider);
            i = i + 1;
        }
        proof {
            assert(self.providers().take(self.targets.len() as int) =~= self.providers());
        }
        providers_document(required)
    }

    /// The output path and bindings generator of each target, in order.
    pub fn binding_targets(&self) -> (r: Vec<(String, BindingGenerator)>)
        ensures
            r@.len() == self.paths().len(),
            forall|i: int| 0 <= i < r@.len() ==> {
                &&& (#[trigger] r@[i]).0@ == self.paths()[i]
                &&& r@[i].1.spec_config() == target_config()
                &&& r@[i].1.is_filtered()
                &&& forall|q: Seq<char>, x: Seq<char>| #[trigger] r@[i].1.selects(q, x)
                    <==> (q == self.providers()[i].source && self.resource_lists()[i].contains(x))
            },
    {
        let mut r: Vec<(String, BindingGenerator)> = Vec::new();
        let mut i: usize = 0;
        while i < self.targets.len()
            invariant
                i <= self.targets.len(),
                r@.len() == i,
                forall|j: int| 0 <= j < i ==> {
                    &&& (#[trigger] r@[j]).0@ == self.paths()[j]
                    &&& r@[j].1.spec_config() == target_config()
                    &&& r@[j].1.is_filtered()
                    &&& forall|q: Seq<char>, x: Seq<char>| #[trigger] r@[j].1.selects(q, x)
                        <==> (q == self.providers()[j].source && self.resource_lists()[j].contains(x))
                },
            decreases self.targets.len() - i,
        {
            let t = &self.targets[i];
            let filter = target_filter(&t.0.provider, &t.1);
            let generator = BindingGenerator::new()
                .with_filter(filter)
                .with_title_case(true)
                .with_builders(true)
                .with_trait_impls(true)
                .with_custom_preamble(build_preamble().as_str());
            proof {
                assert(self.paths()[i as int] == t.0.path@);
                assert(self.providers()[i as int] == provider_view(t.0.provider));
                assert(self.resource_lists()[i as int] == views(t.1@));
            }
            r.push((t.0.path.clone(), generator));
            i = i + 1;
        }
        r
    }
}

impl Default for ConfigGenerator {
    fn default() -> (g: Self)
        ensures
            g.providers() == Seq::<ProviderView>::empty(),
            g.paths() == Seq::<Seq<char>>::empty(),
            g.resource_lists() == Seq::<Seq<Seq<char>>>::empty(),
            g.spec_work_dir() == default_work_dir(),
    {
        let g = ConfigGenerator { targets: Vec::new(), work_dir: owned("target/terra-bindings-generator") };
        proof {
            assert(g.providers() =~= Seq::<ProviderView>::empty());
            assert(g.paths() =~= Seq::<Seq<char>>::empty());
            assert(g.resource_lists() =~= Seq::<Seq<Seq<char>>>::empty());
        }
        g
    }
}

} // verus!
