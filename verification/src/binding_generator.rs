//! High-level binding generator: code-generation options, an optional
//! resource filter, and generation of Rust bindings from an exported schema.

use vstd::prelude::*;
use crate::schema_bindgen::config::{CodeGeneratorConfig, ConfigView, DocComments, CommentView, normalize_comments};
use crate::schema_bindgen::emit::{CodeGenerator, GenView, generated_code};
use crate::schema_bindgen::format::Registry;
use crate::terra::{ResourceFilter, ResourceMeta, MetaView, metas_view, duplicate_metas};

verus! {

/// What exporting a provider schema yields for generation: the registry of
/// container formats and, for a filtered export, the metadata of the
/// selected resources and their doc comments.
pub struct SchemaExport {
    pub registry: Registry,
    pub resource_meta: Vec<ResourceMeta>,
    pub comments: DocComments,
}

/// Options for Terraform schema binding generation: the code-generation
/// configuration and an optional resource filter.
pub struct BindingGenerator {
    config: CodeGeneratorConfig,
    filter: Option<ResourceFilter>,
}

/// The configuration used to generate from an export: a filtered generator
/// takes the export's resource metadata and (normalized) comments, an
/// unfiltered one emits the root types.
pub open spec fn effective_config(base: ConfigView, filtered: bool, meta: Seq<MetaView>, comments: Seq<CommentView>) -> ConfigView {
    if filtered {
        ConfigView { resource_meta: meta, comments: normalize_comments(comments), ..base }
    } else {
        ConfigView { generate_roots: true, ..base }
    }
}

/// The generator options used for bindings: `Clone, Debug, PartialEq,
/// PartialOrd` derives, no custom block, `pub` definitions.
pub open spec fn default_options() -> GenView {
    GenView {
        derives: seq!["Clone"@, "Debug"@, "PartialEq"@, "PartialOrd"@],
        block: None,
        track: true,
    }
}

impl BindingGenerator {
    /// The code-generation configuration.
    pub closed spec fn spec_config(&self) -> ConfigView {
        self.config@
    }

    /// Whether a filter is set.
    pub closed spec fn is_filtered(&self) -> bool {
        self.filter is Some
    }

    /// Whether the filter selects `resource` of `provider` (false without a
    /// filter).
    pub closed spec fn selects(&self, provider: Seq<char>, resource: Seq<char>) -> bool {
        match self.filter {
            Some(f) => f.selects(provider, resource),
            None => false,
        }
    }

    /// A generator with the default configuration and no filter.
    pub fn new() -> (g: Self)
        ensures
            g.spec_config() == CodeGeneratorConfig::default_view(),
            !g.is_filtered(),
    {
        BindingGenerator { config: CodeGeneratorConfig::new(), filter: None }
    }

    /// Replaces the whole code-generation configuration.
    pub fn with_code_generator_config(self, config: CodeGeneratorConfig) -> (g: Self)
        ensures
            g.spec_config() == config@,
            g.is_filtered() == self.is_filtered(),
            forall|p: Seq<char>, r: Seq<char>| g.selects(p, r) == self.selects(p, r),
    {
        BindingGenerator { config, ..self }
    }

    /// The current code-generation configuration.
    pub fn code_generator_config(&self) -> (c: &CodeGeneratorConfig)
        ensures
            c@ == self.spec_config(),
    {
        &self.config
    }

    /// The current code-generation configuration, for changing in place.
    pub fn code_generator_config_mut(&mut self) -> (c: &mut CodeGeneratorConfig)
        ensures
            c@ == old(self).spec_config(),
            final(self).spec_config() == final(c)@,
            final(self).is_filtered() == old(self).is_filtered(),
            forall|p: Seq<char>, r: Seq<char>| final(self).selects(p, r) == old(self).selects(p, r),
    {
        &mut self.config
    }

    /// The resource filter, if any.
    pub fn filter(&self) -> (f: Option<&ResourceFilter>)
        ensures
            f is Some == self.is_filtered(),
            f matches Some(x) ==> forall|p: Seq<char>, r: Seq<char>| #[trigger] x.selects(p, r) == self.selects(p, r),
    {
        match &self.filter {
            Some(f) => Some(f),
            None => None,
        }
    }

    /// Enables or disables `new()` constructors.
    pub fn with_builders(self, enabled: bool) -> (g: Self)
        ensures
            g.spec_config() == (ConfigView { generate_builders: enabled, ..self.spec_config() }),
            g.is_filtered() == self.is_filtered(),
            forall|p: Seq<char>, r: Seq<char>| g.selects(p, r) == self.selects(p, r),
    {
        let BindingGenerator { config, filter } = self;
        BindingGenerator { config: config.with_generate_builders(enabled), filter }
    }

    /// Enables or disables `UpperCamelCase` type names.
    pub fn with_title_case(self, enabled: bool) -> (g: Self)
        ensures
            g.spec_config() == (ConfigView { use_title_case: enabled, ..self.spec_config() }),
            g.is_filtered() == self.is_filtered(),
            forall|p: Seq<char>, r: Seq<char>| g.selects(p, r) == self.selects(p, r),
    {
        let BindingGenerator { config, filter } = self;
        BindingGenerator { config: config.with_title_case(enabled), filter }
    }

    /// Sets the resource filter.
    pub fn with_filter(self, filter: ResourceFilter) -> (g: Self)
        ensures
            g.spec_config() == self.spec_config(),
            g.is_filtered(),
            forall|p: Seq<char>, r: Seq<char>| g.selects(p, r) == filter.selects(p, r),
    {
        BindingGenerator { filter: Some(filter), ..self }
    }

    /// Enables or disables `TerraResource` / `TerraJson` impls.
    pub fn with_trait_impls(self, enabled: bool) -> (g: Self)
        ensures
            g.spec_config() == (ConfigView { generate_trait_impls: enabled, ..self.spec_config() }),
            g.is_filtered() == self.is_filtered(),
            forall|p: Seq<char>, r: Seq<char>| g.selects(p, r) == self.selects(p, r),
    {
        let BindingGenerator { config, filter } = self;
        BindingGenerator { config: config.with_generate_trait_impls(enabled), filter }
    }

    /// Replaces the default preamble with `preamble`.
    pub fn with_custom_preamble(self, preamble: &str) -> (g: Self)
        ensures
            g.spec_config() == (ConfigView { custom_preamble: Some(preamble@), ..self.spec_config() }),
            g.is_filtered() == self.is_filtered(),
            forall|p: Seq<char>, r: Seq<char>| g.selects(p, r) == self.selects(p, r),
    {
        let BindingGenerator { config, filter } = self;
        BindingGenerator { config: config.with_custom_preamble(preamble), filter }
    }

    /// When enabled, derives `Default` for every struct, even those with
    /// required fields.
    pub fn with_generate_default(self, enabled: bool) -> (g: Self)
        ensures
            g.spec_config() == (ConfigView { generate_default: enabled, ..self.spec_config() }),
            g.is_filtered() == self.is_filtered(),
            forall|p: Seq<char>, r: Seq<char>| g.selects(p, r) == self.selects(p, r),
    {
        let BindingGenerator { config, filter } = self;
        BindingGenerator { config: config.with_generate_default(enabled), filter }
    }

    /// The configuration used to generate from `export`.
    fn build_config(&self, export: &SchemaExport) -> (c: CodeGeneratorConfig)
        ensures
            c@ == effective_config(self.spec_config(), self.is_filtered(), metas_view(export.resource_meta@),
                export.comments@),
    {
        let config = self.config.duplicate();
        if self.filter.is_some() {
            let c = config.with_resource_meta(duplicate_metas(&export.resource_meta)).with_comments(
                export.comments.duplicate(),
            );
            c
        } else {
            config.with_generate_roots(true)
        }
    }

    /// Generates Rust bindings for an exported schema.
    pub fn generate_to_string(&self, export: &SchemaExport) -> (code: String)
        ensures
            code@ == generated_code(
                effective_config(self.spec_config(), self.is_filtered(), metas_view(export.resource_meta@),
                    export.comments@),
                default_options(),
                export.registry@,
            ),
    {
        let config = self.build_config(export);
        let generator = CodeGenerator::new(&config);
        generator.output(&export.registry)
    }

    /// A copy with the same configuration and filter.
    pub fn duplicate(&self) -> (g: Self)
        ensures
            g.spec_config() == self.spec_config(),
            g.is_filtered() == self.is_filtered(),
            forall|p: Seq<char>, r: Seq<char>| g.selects(p, r) == self.selects(p, r),
    {
        let filter = match &self.filter {
            Some(f) => Some(f.duplicate()),
            None => None,
        };
        BindingGenerator { config: self.config.duplicate(), filter }
    }
}

impl Default for BindingGenerator {
    fn default() -> (g: Self)
        ensures
            g.spec_config() == CodeGeneratorConfig::default_view(),
            !g.is_filtered(),
    {
        BindingGenerator::new()
    }
}

} // verus!
