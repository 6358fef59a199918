//! Roundtrip schema and binding generation with a configurable binding
//! generator: the decisions of the pipeline.

use vstd::prelude::*;
use crate::text::{owned, views};
use crate::terra::TerraProvider;
use crate::json::{JsonValue, JsonView, object_view};
use crate::schema_bindgen::config::ConfigView;
use crate::binding_generator::BindingGenerator;
use crate::config_generator::{
    ProviderView, provider_view, required_providers, providers_tf, add_requirement, providers_document,
    build_preamble, standard_preamble, target_filter, target_config, default_work_dir,
};

verus! {

/// Pairs a provider with the output path of its generated bindings.
pub struct ProviderBindingTarget {
    /// The provider to generate bindings for.
    pub provider: TerraProvider,
    /// Destination file path, e.g. `"src/providers/aws_lambda.rs"`.
    pub path: String,
}

impl ProviderBindingTarget {
    pub fn new(provider: TerraProvider, path: &str) -> (t: Self)
        ensures
            t.provider == provider,
            t.path@ == path@,
    {
        ProviderBindingTarget { provider, path: owned(path) }
    }
}

/// Orchestrates the roundtrip with a binding generator that can be
/// customised before generation; each target adds its own filter and the
/// standard preamble.
pub struct SchemaBindingGenerator {
    targets: Vec<(ProviderBindingTarget, Vec<String>)>,
    work_dir: String,
    binding_generator: BindingGenerator,
}

impl SchemaBindingGenerator {
    /// The providers of the targets, in order.
    pub closed spec fn providers(&self) -> Seq<ProviderView> {
        self.targets@.map_values(|t: (ProviderBindingTarget, Vec<String>)| provider_view(t.0.provider))
    }

    /// The output paths of the targets, in order.
    pub closed spec fn paths(&self) -> Seq<Seq<char>> {
        self.targets@.map_values(|t: (ProviderBindingTarget, Vec<String>)| t.0.path@)
    }

    /// The resource lists of the targets, in order.
    pub closed spec fn resource_lists(&self) -> Seq<Seq<Seq<char>>> {
        self.targets@.map_values(|t: (ProviderBindingTarget, Vec<String>)| views(t.1@))
    }

    pub closed spec fn spec_work_dir(&self) -> Seq<char> {
        self.work_dir@
    }

    /// The base binding generator.
    pub closed spec fn base(&self) -> BindingGenerator {
        self.binding_generator
    }

    /// The options of the base binding generator.
    pub open spec fn base_config(&self) -> ConfigView {
        self.base().spec_config()
    }

    /// Adds a provider target and its resource types.
    pub fn with_resources(self, target: ProviderBindingTarget, resources: Vec<String>) -> (g: Self)
        ensures
            g.providers() == self.providers().push(provider_view(target.provider)),
            g.paths() == self.paths().push(target.path@),
            g.resource_lists() == self.resource_lists().push(views(resources@)),
            g.spec_work_dir() == self.spec_work_dir(),
            g.base() == self.base(),
    {
        let SchemaBindingGenerator { mut targets, work_dir, binding_generator } = self;
        let ghost tv = target;
        let ghost rv = resources;
        targets.push((target, resources));
        let g = SchemaBindingGenerator { targets, work_dir, binding_generator };
        proof {
            assert(g.providers() =~= self.providers().push(provider_view(tv.provider)));
            assert(g.paths() =~= self.paths().push(tv.path@));
            assert(g.resource_lists() =~= self.resource_lists().push(views(rv@)));
        }
        g
    }

    /// Uses `dir` as the working directory.
    pub fn with_work_dir(self, dir: &str) -> (g: Self)
        ensures
            g.spec_work_dir() == dir@,
            g.providers() == self.providers(),
            g.paths() == self.paths(),
            g.resource_lists() == self.resource_lists(),
            g.base() == self.base(),
    {
        SchemaBindingGenerator { work_dir: owned(dir), ..self }
    }

    /// Replaces the binding generator; each target still gets its own
    /// filter and the standard preamble.
    pub fn with_binding_generator(self, generator: BindingGenerator) -> (g: Self)
        ensures
            g.base() == generator,
            g.providers() == self.providers(),
            g.paths() == self.paths(),
            g.resource_lists() == self.resource_lists(),
            g.spec_work_dir() == self.spec_work_dir(),
    {
        SchemaBindingGenerator { binding_generator: generator, ..self }
    }

    /// The binding generator.
    pub fn binding_generator(&self) -> (b: &BindingGenerator)
        ensures
            *b == self.base(),
    {
        &self.binding_generator
    }

    /// The binding generator, for changing in place.
    pub fn binding_generator_mut(&mut self) -> (b: &mut BindingGenerator)
        ensures
            *b == old(self).base(),
            final(self).base() == *final(b),
            final(self).providers() == old(self).providers(),
            final(self).paths() == old(self).paths(),
            final(self).resource_lists() == old(self).resource_lists(),
            final(self).spec_work_dir() == old(self).spec_work_dir(),
    {
        &mut self.binding_generator
    }

    /// The working directory.
    pub fn work_dir(&self) -> (d: &String)
        ensures
            d@ == self.spec_work_dir(),
    {
        &self.work_dir
    }

    /// The content of `providers.tf.json`: the required providers of the
    /// targets, one per local name.
    pub fn providers_tf_json(&self) -> (v: JsonValue)
        ensures
            v@ == providers_tf(self.providers()),
    {
        let mut required: Vec<(String, JsonValue)> = Vec::new();
        let mut i: usize = 0;
        proof {
            assert(object_view(Seq::<(String, JsonValue)>::empty()) == Map::<Seq<char>, JsonView>::empty());
        }
        while i < self.targets.len()
            invariant
                i <= self.targets.len(),
                object_view(required@) == required_providers(self.providers().take(i as int)),
            decreases self.targets.len() - i,
        {
            proof {
                assert(self.providers().take(i + 1).drop_last() =~= self.providers().take(i as int));
                assert(self.providers()[i as int] == provider_view(self.targets@[i as int].0.provider));
            }
            add_requirement(&mut required, &self.targets[i].0.provider);
            i = i + 1;
        }
        proof {
            assert(self.providers().take(self.targets.len() as int) =~= self.providers());
        }
        providers_document(required)
    }

    /// The output path and bindings generator of each target: the base
    /// generator with the target's filter and the standard preamble.
    pub fn binding_targets(&self) -> (r: Vec<(String, BindingGenerator)>)
        ensures
            r@.len() == self.paths().len(),
            forall|i: int| 0 <= i < r@.len() ==> {
                &&& (#[trigger] r@[i]).0@ == self.paths()[i]
                &&& r@[i].1.spec_config() == (ConfigView { custom_preamble: Some(standard_preamble()), ..self.base_config() })
                &&& r@[i].1.is_filtered()
                &&& forall|q: Seq<char>, x: Seq<char>| #[trigger] r@[i].1.selects(q, x)
                    <==> (q == self.providers()[i].source && self.resource_lists()[i].contains(x))
            },
    {
        let mut r: Vec<(String, BindingGenerator)> = Vec::new();
        let mut i: usize = 0;
        while i < self.targets.len()
            invariant
                i <= self.targets.len(),
                r@.len() == i,
                forall|j: int| 0 <= j < i ==> {
                    &&& (#[trigger] r@[j]).0@ == self.paths()[j]
                    &&& r@[j].1.spec_config() == (ConfigView { custom_preamble: Some(standard_preamble()), ..self.base_config() })
                    &&& r@[j].1.is_filtered()
                    &&& forall|q: Seq<char>, x: Seq<char>| #[trigger] r@[j].1.selects(q, x)
                        <==> (q == self.providers()[j].source && self.resource_lists()[j].contains(x))
                },
            decreases self.targets.len() - i,
        {
            let t = &self.targets[i];
            let filter = target_filter(&t.0.provider, &t.1);
            let generator = self.binding_generator.duplicate().with_filter(filter).with_custom_preamble(
                build_preamble().as_str(),
            );
            proof {
                assert(self.paths()[i as int] == t.0.path@);
                assert(self.providers()[i as int] == provider_view(t.0.provider));
                assert(self.resource_lists()[i as int] == views(t.1@));
            }
            r.push((t.0.path.clone(), generator));
            i = i + 1;
        }
        r
    }
}

impl Default for SchemaBindingGenerator {
    fn default() -> (g: Self)
        ensures
            g.providers() == Seq::<ProviderView>::empty(),
            g.paths() == Seq::<Seq<char>>::empty(),
            g.resource_lists() == Seq::<Seq<Seq<char>>>::empty(),
            g.spec_work_dir() == default_work_dir(),
            g.base_config() == target_config(),
            !g.base().is_filtered(),
    {
        let binding_generator = BindingGenerator::new()
            .with_title_case(true)
            .with_builders(true)
            .with_trait_impls(true)
            .with_custom_preamble(build_preamble().as_str());
        let g = SchemaBindingGenerator {
            targets: Vec::new(),
            work_dir: owned("target/terra-bindings-generator"),
            binding_generator,
        };
        proof {
            assert(g.providers() =~= Seq::<ProviderView>::empty());
            assert(g.paths() =~= Seq::<Seq<char>>::empty());
            assert(g.resource_lists() =~= Seq::<Seq<Seq<char>>>::empty());
        }
        g
    }
}

} // verus!
