//! The Rust source emitter: turns a registry of container formats into Rust
//! type definitions, with optional `UpperCamelCase` names, a `Default`
//! derive only where every field is optional (or when forced), inline
//! `new()` constructors and `TerraJson` / `TerraResource` impls.

use vstd::prelude::*;
use crate::text::{
    views, join, replace_all, split_on, after_last, decimal, upper_camel_case, indent_text,
    str_to_uppercase, push_str, owned, replace, join_strings, split, last_segment,
    decimal_string, contains_string, clone_strings, starts_with, to_upper_camel, indent_lines,
    to_uppercase, chars_of,
};
use crate::schema_bindgen::format::{
    Format, Named, VariantFormat, ContainerFormat, QualifiedName, NameView, name_view, Registry,
    RegistryView, is_option, all_optional, is_optional_format, all_fields_optional,
};
use crate::schema_bindgen::config::{CodeGeneratorConfig, ConfigView, ExternalView, external_names, comment_lookup};
use crate::terra::{MetaView, metas_view};
use crate::indent::{EmitState, IndentBuffer, put, indented, unindented, initial_state};

verus! {

// ===========================================================================
// Specification of the generated text
// ===========================================================================

/// The generator's own options, by value.
pub struct GenView {
    /// The derive macros added to every container (besides serde's).
    pub derives: Seq<Seq<char>>,
    /// Text added after the derive line of every container.
    pub block: Option<Seq<char>>,
    /// Whether definitions and fields are marked `pub`.
    pub track: bool,
}

/// Renamings from type names to their `UpperCamelCase` forms.
pub type Renames = Seq<(Seq<char>, Seq<char>)>;

/// The name of a registry entry in the generated code, before renaming:
/// `namespace_name`, or just `name`.
pub open spec fn full_name(k: NameView) -> Seq<char> {
    match k.0 {
        Some(ns) => ns + "_"@ + k.1,
        None => k.1,
    }
}

/// The renaming recorded for `name`, if any (the first one).
pub open spec fn rename_lookup(rs: Renames, name: Seq<char>) -> Option<Seq<char>>
    decreases rs.len(),
{
    if rs.len() == 0 {
        None
    } else if rs[0].0 == name {
        Some(rs[0].1)
    } else {
        rename_lookup(rs.drop_first(), name)
    }
}

/// One renaming per distinct full name whose `UpperCamelCase` form differs
/// from it, in registry order.
pub open spec fn rename_map(reg: RegistryView) -> Renames
    decreases reg.len(),
{
    if reg.len() == 0 {
        seq![]
    } else {
        let rs = rename_map(reg.drop_last());
        let full = full_name(reg.last().0);
        let title = upper_camel_case(full);
        if title != full && rename_lookup(rs, full) is None {
            rs.push((full, title))
        } else {
            rs
        }
    }
}

/// The renamings whose old name has length `l`, in order.
pub open spec fn with_len(rs: Renames, l: nat) -> Renames
    decreases rs.len(),
{
    if rs.len() == 0 {
        seq![]
    } else if rs.last().0.len() == l {
        with_len(rs.drop_last(), l).push(rs.last())
    } else {
        with_len(rs.drop_last(), l)
    }
}

/// The renamings with old names of length at most `l`, longest first,
/// keeping the order among names of equal length.
pub open spec fn by_len_desc(rs: Renames, l: nat) -> Renames
    decreases l,
{
    if l == 0 {
        with_len(rs, 0)
    } else {
        with_len(rs, l) + by_len_desc(rs, (l - 1) as nat)
    }
}

/// The length of the longest old name.
pub open spec fn max_key_len(rs: Renames) -> nat
    decreases rs.len(),
{
    if rs.len() == 0 {
        0
    } else {
        let m = max_key_len(rs.drop_last());
        if rs.last().0.len() > m { rs.last().0.len() } else { m }
    }
}

/// `s` after replacing, in turn, each old name of `rs` by its new name.
pub open spec fn apply_renames(s: Seq<char>, rs: Renames) -> Seq<char>
    decreases rs.len(),
{
    if rs.len() == 0 {
        s
    } else {
        replace_all(apply_renames(s, rs.drop_last()), rs.last().0, rs.last().1)
    }
}

/// A type name as written in the generated code: its renaming when it has
/// one, otherwise every known name inside it replaced, longest first.
pub open spec fn rename(rs: Renames, name: Seq<char>) -> Seq<char> {
    if rs.len() == 0 {
        name
    } else {
        match rename_lookup(rs, name) {
            Some(t) => t,
            None => apply_renames(name, by_len_desc(rs, max_key_len(rs))),
        }
    }
}

pub open spec fn starts_with_vec(s: Seq<char>) -> bool {
    3 <= s.len() && s.take(3) == "Vec"@
}

/// The Rust type of a format in a definition. With `known` (the names of
/// the types already defined, or defined elsewhere), a reference to any other
/// type is boxed.
pub open spec fn quoted_type(f: Format, known: Option<Seq<Seq<char>>>, rs: Renames) -> Seq<char>
    decreases f,
{
    match f {
        Format::TypeName(x) => {
            let d = rename(rs, x@);
            match known {
                Some(set) => if !set.contains(x@) && !starts_with_vec(x@) {
                    "Box<"@ + d + ">"@
                } else {
                    d
                },
                None => d,
            }
        },
        Format::Unit => "()"@,
        Format::Bool => "bool"@,
        Format::I8 => "i8"@,
        Format::I16 => "i16"@,
        Format::I32 => "i32"@,
        Format::I64 => "i64"@,
        Format::I128 => "i128"@,
        Format::U8 => "u8"@,
        Format::U16 => "u16"@,
        Format::U32 => "u32"@,
        Format::U64 => "u64"@,
        Format::U128 => "u128"@,
        Format::F32 => "f32"@,
        Format::F64 => "f64"@,
        Format::Char => "char"@,
        Format::Str => "String"@,
        Format::Bytes => "Bytes"@,
        Format::Option(g) => "Option<"@ + quoted_type(*g, known, rs) + ">"@,
        Format::SeqOf(g) => "Vec<"@ + quoted_type(*g, None, rs) + ">"@,
        Format::MapOf { key, value } => "Map<"@ + quoted_type(*key, None, rs) + ", "@
            + quoted_type(*value, None, rs) + ">"@,
        Format::Tuple(fs) => "("@ + quoted_types(fs@, known, rs) + ")"@,
        Format::TupleArray { content, size } => "["@ + quoted_type(*content, known, rs) + "; "@
            + decimal(size as nat) + "]"@,
    }
}

/// The Rust types of several formats, separated by `, `.
pub open spec fn quoted_types(fs: Seq<Format>, known: Option<Seq<Seq<char>>>, rs: Renames) -> Seq<char>
    decreases fs,
{
    if fs.len() == 0 {
        seq![]
    } else if fs.len() == 1 {
        quoted_type(fs[0], known, rs)
    } else {
        quoted_types(fs.drop_last(), known, rs) + ", "@ + quoted_type(fs.last(), known, rs)
    }
}

/// The Rust type of a format in a constructor signature.
pub open spec fn rust_type(f: Format, title_case: bool) -> Seq<char>
    decreases f,
{
    match f {
        Format::TypeName(x) => if title_case { upper_camel_case(x@) } else { x@ },
        Format::Unit => "()"@,
        Format::Bool => "bool"@,
        Format::I8 => "i8"@,
        Format::I16 => "i16"@,
        Format::I32 => "i32"@,
        Format::I64 => "i64"@,
        Format::I128 => "i128"@,
        Format::U8 => "u8"@,
        Format::U16 => "u16"@,
        Format::U32 => "u32"@,
        Format::U64 => "u64"@,
        Format::U128 => "u128"@,
        Format::F32 => "f32"@,
        Format::F64 => "f64"@,
        Format::Char => "char"@,
        Format::Str => "String"@,
        Format::Bytes => "Bytes"@,
        Format::Option(g) => "Option<"@ + rust_type(*g, title_case) + ">"@,
        Format::SeqOf(g) => "Vec<"@ + rust_type(*g, title_case) + ">"@,
        Format::MapOf { key, value } => "Map<"@ + rust_type(*key, title_case) + ", "@
            + rust_type(*value, title_case) + ">"@,
        Format::Tuple(fs) => "("@ + rust_types(fs@, title_case) + ")"@,
        Format::TupleArray { content, size } => "["@ + rust_type(*content, title_case) + "; "@
            + decimal(size as nat) + "]"@,
    }
}

pub open spec fn rust_types(fs: Seq<Format>, title_case: bool) -> Seq<char>
    decreases fs,
{
    if fs.len() == 0 {
        seq![]
    } else if fs.len() == 1 {
        rust_type(fs[0], title_case)
    } else {
        rust_types(fs.drop_last(), title_case) + ", "@ + rust_type(fs.last(), title_case)
    }
}

/// The natural default value of a format, as a Rust expression.
pub open spec fn default_value(f: Format) -> Seq<char> {
    match f {
        Format::Option(_) => "None"@,
        Format::SeqOf(_) => "Vec::new()"@,
        Format::Str => "String::new()"@,
        Format::Bool => "false"@,
        Format::I8 | Format::I16 | Format::I32 | Format::I64 | Format::I128 => "0"@,
        Format::U8 | Format::U16 | Format::U32 | Format::U64 | Format::U128 => "0"@,
        Format::F32 | Format::F64 => "0.0"@,
        Format::MapOf { .. } => "Map::new()"@,
        _ => "Default::default()"@,
    }
}

/// The doc comment written before the definition at `path`, if any.
pub open spec fn comment_text(cfg: ConfigView, path: Seq<Seq<char>>) -> Seq<char> {
    match comment_lookup(cfg.comments, path) {
        Some(doc) => "\n"@ + replace_all(indent_text(doc, "/// "@), "\n\n"@, "\n///\n"@),
        None => seq![],
    }
}

pub open spec fn emit_comment(st: EmitState, cfg: ConfigView, ns: Seq<Seq<char>>, name: Seq<char>) -> EmitState {
    put(st, comment_text(cfg, ns.push(name)))
}

/// The serde attribute that skips an empty value of a field.
pub open spec fn field_annotation(f: Format) -> Seq<char> {
    match f {
        Format::Str => "#[serde(skip_serializing_if = \"String::is_empty\")]\n"@,
        Format::Option(_) => "#[serde(skip_serializing_if = \"Option::is_none\")]\n"@,
        Format::SeqOf(_) => "#[serde(skip_serializing_if = \"Vec::is_empty\")]\n"@,
        _ => seq![],
    }
}

/// `pub ` for the fields of a struct when visibility is tracked; nothing
/// inside enum variants.
pub open spec fn field_prefix(depth: nat, track: bool) -> Seq<char> {
    if depth <= 1 && track { "pub "@ } else { seq![] }
}

pub open spec fn emit_field(
    st: EmitState,
    cfg: ConfigView,
    ns: Seq<Seq<char>>,
    prefix: Seq<char>,
    f: Named<Format>,
    known: Seq<Seq<char>>,
    rs: Renames,
) -> EmitState {
    let st1 = emit_comment(st, cfg, ns, f.name@);
    let st2 = put(st1, field_annotation(f.value));
    put(st2, prefix + f.name@ + ": "@ + quoted_type(f.value, Some(known), rs) + ",\n"@)
}

pub open spec fn emit_fields(
    st: EmitState,
    cfg: ConfigView,
    ns: Seq<Seq<char>>,
    prefix: Seq<char>,
    fields: Seq<Named<Format>>,
    known: Seq<Seq<char>>,
    rs: Renames,
) -> EmitState
    decreases fields.len(),
{
    if fields.len() == 0 {
        st
    } else {
        emit_field(emit_fields(st, cfg, ns, prefix, fields.drop_last(), known, rs), cfg, ns, prefix, fields.last(), known, rs)
    }
}

pub open spec fn emit_variant(
    st: EmitState,
    cfg: ConfigView,
    g: GenView,
    ns: Seq<Seq<char>>,
    v: Named<VariantFormat>,
    known: Seq<Seq<char>>,
    rs: Renames,
) -> EmitState {
    let name = v.name@;
    let st1 = emit_comment(st, cfg, ns, name);
    match v.value {
        VariantFormat::Unit => put(st1, name + ",\n"@),
        VariantFormat::NewType(f) => put(st1, name + "("@ + quoted_type(*f, Some(known), rs) + "),\n"@),
        VariantFormat::Tuple(fs) => put(st1, name + "("@ + quoted_types(fs@, Some(known), rs) + "),\n"@),
        VariantFormat::Struct(fields) => {
            let st2 = indented(put(st1, name + " {\n"@));
            let st3 = emit_fields(st2, cfg, ns.push(name), field_prefix(2, g.track), fields@, known, rs);
            put(unindented(st3), "},\n"@)
        },
    }
}

pub open spec fn emit_variants(
    st: EmitState,
    cfg: ConfigView,
    g: GenView,
    ns: Seq<Seq<char>>,
    vs: Seq<Named<VariantFormat>>,
    known: Seq<Seq<char>>,
    rs: Renames,
) -> EmitState
    decreases vs.len(),
{
    if vs.len() == 0 {
        st
    } else {
        emit_variant(emit_variants(st, cfg, g, ns, vs.drop_last(), known, rs), cfg, g, ns, vs.last(), known, rs)
    }
}

pub open spec fn serde_derives() -> Seq<Seq<char>> {
    seq!["Serialize"@, "Deserialize"@]
}

pub open spec fn derive_line(g: GenView, extra: Seq<Seq<char>>) -> Seq<char> {
    "#[derive("@ + join(g.derives + extra, ", "@) + ")]\n"@
}

pub open spec fn block_text(g: GenView) -> Seq<char> {
    match g.block {
        Some(t) => t + "\n"@,
        None => seq![],
    }
}

pub open spec fn pub_text(g: GenView) -> Seq<char> {
    if g.track { "pub "@ } else { seq![] }
}

/// The derives of a struct: `Default` is added exactly when every field is
/// optional or the configuration forces it.
pub open spec fn struct_derives(cfg: ConfigView, fields: Seq<Named<Format>>) -> Seq<Seq<char>> {
    if all_optional(fields) || cfg.generate_default {
        serde_derives().push("Default"@)
    } else {
        serde_derives()
    }
}

/// The attribute keeping the serialized name of a namespaced struct.
pub open spec fn rename_attribute(key: NameView) -> Seq<char> {
    match key.0 {
        Some(_) => "#[serde(rename = \""@ + key.1 + "\")]\n"@,
        None => seq![],
    }
}

/// The name under which a container is defined: a struct under its full
/// name, any other container under its name, each as a reference to that
/// name is written.
pub open spec fn container_type_name(rs: Renames, key: NameView, format: ContainerFormat) -> Seq<char> {
    match format {
        ContainerFormat::Struct(_) => rename(rs, full_name(key)),
        _ => rename(rs, key.1),
    }
}

pub open spec fn emit_container(
    st: EmitState,
    cfg: ConfigView,
    g: GenView,
    ns: Seq<Seq<char>>,
    known: Seq<Seq<char>>,
    rs: Renames,
    key: NameView,
    format: ContainerFormat,
) -> EmitState {
    let name = key.1;
    let tn = container_type_name(rs, key, format);
    let st1 = emit_comment(st, cfg, ns, name);
    let head = derive_line(g, serde_derives()) + block_text(g);
    match format {
        ContainerFormat::UnitStruct => put(st1, head + "struct "@ + tn + ";\n\n"@),
        ContainerFormat::NewTypeStruct(f) => put(
            st1,
            head + "struct "@ + tn + "("@ + pub_text(g) + quoted_type(*f, Some(known), rs) + ");\n\n"@,
        ),
        ContainerFormat::TupleStruct(fs) => put(
            st1,
            head + "struct "@ + tn + "("@ + quoted_types(fs@, Some(known), rs) + ");\n\n"@,
        ),
        ContainerFormat::Struct(fields) => {
            let prefix = derive_line(g, struct_derives(cfg, fields@)) + block_text(g) + rename_attribute(key)
                + pub_text(g);
            let st2 = indented(put(st1, prefix + "struct "@ + tn + " {\n"@));
            let st3 = emit_fields(st2, cfg, ns.push(name), field_prefix(1, g.track), fields@, known, rs);
            put(unindented(st3), "}\n\n"@)
        },
        ContainerFormat::Enum(vs) => {
            let st2 = indented(put(st1, head + pub_text(g) + "enum "@ + tn + " {\n"@));
            let st3 = emit_variants(st2, cfg, g, ns.push(name), vs@, known, rs);
            put(unindented(st3), "}\n\n"@)
        },
    }
}

/// The parameters of a constructor: one per required field, in order.
pub open spec fn builder_params(fields: Seq<Named<Format>>, title_case: bool) -> Seq<Seq<char>>
    decreases fields.len(),
{
    if fields.len() == 0 {
        seq![]
    } else if is_option(fields.last().value) {
        builder_params(fields.drop_last(), title_case)
    } else {
        builder_params(fields.drop_last(), title_case).push(
            fields.last().name@ + ": "@ + rust_type(fields.last().value, title_case),
        )
    }
}

/// The field initializers of a constructor: required fields from the
/// parameter of the same name, optional ones from their default.
pub open spec fn builder_field_lines(fields: Seq<Named<Format>>) -> Seq<char>
    decreases fields.len(),
{
    if fields.len() == 0 {
        seq![]
    } else {
        let f = fields.last();
        builder_field_lines(fields.drop_last()) + if is_option(f.value) {
            "            "@ + f.name@ + ": "@ + default_value(f.value) + ",\n"@
        } else {
            "            "@ + f.name@ + ",\n"@
        }
    }
}

/// The `new()` constructor of a struct; nothing when every field is
/// optional.
pub open spec fn builder_text(cfg: ConfigView, struct_name: Seq<char>, fields: Seq<Named<Format>>) -> Seq<char> {
    if all_optional(fields) {
        seq![]
    } else {
        "impl "@ + struct_name + " {\n"@
            + "    pub fn new("@ + join(builder_params(fields, cfg.use_title_case), ", "@) + ") -> Self {\n"@
            + "        Self {\n"@
            + builder_field_lines(fields)
            + "        }\n"@
            + "    }\n"@
            + "}\n\n"@
    }
}

/// The struct name that a resource's metadata stands for in the output.
pub open spec fn meta_struct_name(m: MetaView, title_case: bool) -> Seq<char> {
    if title_case { upper_camel_case(m.struct_name) } else { m.struct_name }
}

/// The first resource metadata naming `struct_name`.
pub open spec fn find_meta(metas: Seq<MetaView>, struct_name: Seq<char>, title_case: bool) -> Option<MetaView>
    decreases metas.len(),
{
    if metas.len() == 0 {
        None
    } else if meta_struct_name(metas[0], title_case) == struct_name {
        Some(metas[0])
    } else {
        find_meta(metas.drop_first(), struct_name, title_case)
    }
}

/// The `TerraProvider` constant for a provider source: its last segment in
/// upper case.
pub open spec fn provider_const(source: Seq<char>) -> Seq<char> {
    str_to_uppercase(after_last(source, '/'))
}

/// The `TerraJson` and `TerraResource` impls of a resource struct; nothing
/// for a struct that no metadata names.
pub open spec fn trait_text(cfg: ConfigView, struct_name: Seq<char>) -> Seq<char> {
    match find_meta(cfg.resource_meta, struct_name, cfg.use_title_case) {
        None => seq![],
        Some(m) =>
            "impl crate::terra::TerraJson for "@ + struct_name + " {\n"@
            + "    fn to_json(&self) -> serde_json::Value {\n"@
            + "        serde_json::to_value(self).expect(\"serialization should not fail\")\n"@
            + "    }\n"@
            + "}\n\n"@
            + "impl crate::terra::TerraResource for "@ + struct_name + " {\n"@
            + "    fn resource_type(&self) -> &'static str { \""@ + m.resource_type + "\" }\n"@
            + "    fn provider(&self) -> &'static crate::terra::TerraProvider { &crate::terra::TerraProvider::"@
            + provider_const(m.provider_source) + " }\n"@
            + "}\n\n"@,
    }
}

/// The `use` lines for the modules that provide external definitions.
pub open spec fn use_lines(defs: Seq<ExternalView>) -> Seq<char>
    decreases defs.len(),
{
    if defs.len() == 0 {
        seq![]
    } else {
        use_lines(defs.drop_last()) + if defs.last().0.len() == 0 {
            seq![]
        } else {
            "use "@ + defs.last().0 + "::{"@ + join(defs.last().1, ", "@) + "};\n"@
        }
    }
}

pub open spec fn allow_line() -> Seq<char> {
    "#![allow(unused_imports, non_snake_case, non_camel_case_types, non_upper_case_globals)]\n"@
}

/// The preamble: the custom one verbatim, or the lint allowances and the
/// imports the definitions need.
pub open spec fn preamble_text(cfg: ConfigView) -> Seq<char> {
    match cfg.custom_preamble {
        Some(p) => p + "\n"@ + "\n"@,
        None => {
            let ext = external_names(cfg.external_definitions);
            allow_line()
                + (if ext.contains("Map"@) { seq![] } else { "use std::collections::BTreeMap as Map;\n"@ })
                + "use serde::{Serialize, Deserialize};\n"@
                + (if ext.contains("Bytes"@) { seq![] } else { "use serde_bytes::ByteBuf as Bytes;\n"@ })
                + use_lines(cfg.external_definitions)
                + "\n"@
        },
    }
}

/// One registry entry: its definition, then, for a struct, its constructor
/// and trait impls when enabled.
pub open spec fn emit_entry(
    st: EmitState,
    cfg: ConfigView,
    g: GenView,
    ns: Seq<Seq<char>>,
    known: Seq<Seq<char>>,
    rs: Renames,
    e: (NameView, ContainerFormat),
) -> EmitState {
    let st1 = emit_container(st, cfg, g, ns, known, rs, e.0, e.1);
    match e.1 {
        ContainerFormat::Struct(fields) => {
            let sn = rename(rs, full_name(e.0));
            let st2 = if cfg.generate_builders { put(st1, builder_text(cfg, sn, fields@)) } else { st1 };
            if cfg.generate_trait_impls { put(st2, trait_text(cfg, sn)) } else { st2 }
        },
        _ => st1,
    }
}

/// The names of the given entries.
pub open spec fn entry_names(entries: RegistryView) -> Seq<Seq<char>> {
    entries.map_values(|e: (NameView, ContainerFormat)| e.0.1)
}

/// The entries in order; each is emitted knowing the names of the external
/// definitions and of the entries before it.
pub open spec fn emit_entries(
    st: EmitState,
    cfg: ConfigView,
    g: GenView,
    ns: Seq<Seq<char>>,
    known: Seq<Seq<char>>,
    rs: Renames,
    entries: RegistryView,
) -> EmitState
    decreases entries.len(),
{
    if entries.len() == 0 {
        st
    } else {
        let prev = entries.drop_last();
        emit_entry(
            emit_entries(st, cfg, g, ns, known, rs, prev),
            cfg, g, ns, known + entry_names(prev), rs, entries.last(),
        )
    }
}

/// The generated source for a registry.
pub open spec fn generated_code(cfg: ConfigView, g: GenView, reg: RegistryView) -> Seq<char> {
    let ns = split_on(cfg.module_name, '.');
    let known = external_names(cfg.external_definitions);
    let rs = if cfg.use_title_case { rename_map(reg) } else { seq![] };
    emit_entries(put(initial_state(), preamble_text(cfg)), cfg, g, ns, known, rs, reg).text
}


// ===========================================================================
// Renaming
// ===========================================================================

pub open spec fn renames_view(v: Seq<(String, String)>) -> Renames {
    v.map_values(|e: (String, String)| (e.0@, e.1@))
}

/// `namespace_name`, or `name`.
fn full_name_of(key: &QualifiedName) -> (r: String)
    ensures
        r@ == full_name(name_view(*key)),
{
    match &key.0 {
        Some(ns) => {
            let mut r = owned(ns.as_str());
            push_str(&mut r, "_");
            push_str(&mut r, key.1.as_str());
            r
        },
        None => owned(key.1.as_str()),
    }
}

/// The renaming recorded for `name`.
fn lookup_rename<'r>(rs: &'r Vec<(String, String)>, name: &String) -> (r: Option<&'r String>)
    ensures
        match r {
            Some(t) => rename_lookup(renames_view(rs@), name@) == Some(t@),
            None => rename_lookup(renames_view(rs@), name@) is None,
        },
{
    let ghost all = renames_view(rs@);
    let mut i: usize = 0;
    proof {
        assert(all.skip(0) =~= all);
    }
    while i < rs.len()
        invariant
            i <= rs.len(),
            all == renames_view(rs@),
            rename_lookup(all, name@) == rename_lookup(all.skip(i as int), name@),
        decreases rs.len() - i,
    {
        proof {
            assert(all.skip(i as int).drop_first() =~= all.skip(i + 1));
            assert(all.skip(i as int)[0] == all[i as int]);
        }
        if rs[i].0 == *name {
            return Some(&rs[i].1);
        }
        i = i + 1;
    }
    proof {
        assert(all.skip(i as int) =~= Seq::<(Seq<char>, Seq<char>)>::empty());
    }
    None
}

/// Records the renaming of `full` to `title`, unless the two are equal or
/// `full` already has a renaming.
pub fn add_rename(rs: &mut Vec<(String, String)>, full: String, title: String)
    ensures
        renames_view(final(rs)@) == (if title@ != full@ && rename_lookup(renames_view(old(rs)@), full@) is None {
            renames_view(old(rs)@).push((full@, title@))
        } else {
            renames_view(old(rs)@)
        }),
{
    if title != full {
        let found = lookup_rename(rs, &full).is_some();
        if !found {
            let ghost prev = rs@;
            let ghost item = (full@, title@);
            rs.push((full, title));
            proof {
                assert(renames_view(rs@) =~= renames_view(prev).push(item));
            }
        }
    }
}

/// The renaming map of a registry.
fn build_rename_map(registry: &Registry) -> (r: Vec<(String, String)>)
    ensures
        renames_view(r@) == rename_map(registry@),
{
    let mut r: Vec<(String, String)> = Vec::new();
    let mut i: usize = 0;
    while i < registry.len()
        invariant
            i <= registry@.len(),
            renames_view(r@) == rename_map(registry@.take(i as int)),
        decreases registry@.len() - i,
    {
        let e = registry.entry(i);
        let full = full_name_of(&e.0);
        let title = to_upper_camel(full.as_str());
        proof {
            assert(registry@.take(i + 1).drop_last() =~= registry@.take(i as int));
            assert(registry@.take(i + 1).last() == registry@[i as int]);
        }
        add_rename(&mut r, full, title);
        i = i + 1;
    }
    proof {
        assert(registry@.take(registry@.len() as int) =~= registry@);
    }
    r
}

proof fn lemma_apply_renames_concat(s: Seq<char>, a: Renames, b: Renames)
    ensures
        apply_renames(apply_renames(s, a), b) == apply_renames(s, a + b),
    decreases b.len(),
{
    if b.len() == 0 {
        assert(a + b =~= a);
    } else {
        assert((a + b).drop_last() =~= a + b.drop_last());
        assert((a + b).last() == b.last());
        lemma_apply_renames_concat(s, a, b.drop_last());
    }
}

proof fn lemma_max_key_len(rs: Renames, i: int)
    requires
        0 <= i < rs.len(),
    ensures
        rs[i].0.len() <= max_key_len(rs),
    decreases rs.len(),
{
    if i < rs.len() - 1 {
        assert(rs.drop_last()[i] == rs[i]);
        lemma_max_key_len(rs.drop_last(), i);
    }
}

/// The length of the longest old name.
fn longest_key(rs: &Vec<(String, String)>) -> (m: usize)
    ensures
        m as nat == max_key_len(renames_view(rs@)),
{
    let ghost all = renames_view(rs@);
    let mut m: usize = 0;
    let mut i: usize = 0;
    while i < rs.len()
        invariant
            i <= rs.len(),
            all == renames_view(rs@),
            m as nat == max_key_len(all.take(i as int)),
        decreases rs.len() - i,
    {
        let n = chars_of(rs[i].0.as_str()).len();
        proof {
            assert(all.take(i + 1).drop_last() =~= all.take(i as int));
            assert(all.take(i + 1).last() == all[i as int]);
        }
        if n > m {
            m = n;
        }
        i = i + 1;
    }
    proof {
        assert(all.take(rs.len() as int) =~= all);
    }
    m
}

/// A type name as written in the generated code under the renamings `rs`.
pub fn rename_type(rs: &Vec<(String, String)>, name: &String) -> (r: String)
    ensures
        r@ == rename(renames_view(rs@), name@),
{
    let ghost all = renames_view(rs@);
    if rs.len() == 0 {
        return owned(name.as_str());
    }
    match lookup_rename(rs, name) {
        Some(t) => {
            return owned(t.as_str());
        },
        None => {},
    }
    let top = longest_key(rs);
    let ghost target = apply_renames(name@, by_len_desc(all, top as nat));
    let mut result = owned(name.as_str());
    let mut l: usize = top;
    proof {
        assert(apply_renames(name@, Seq::<(Seq<char>, Seq<char>)>::empty()) == name@);
        lemma_apply_renames_concat(name@, Seq::<(Seq<char>, Seq<char>)>::empty(), by_len_desc(all, top as nat));
        assert(Seq::<(Seq<char>, Seq<char>)>::empty() + by_len_desc(all, top as nat) =~= by_len_desc(all, top as nat));
    }
    loop
        invariant_except_break
            l <= top,
            all == renames_view(rs@),
            apply_renames(result@, by_len_desc(all, l as nat)) == target,
        ensures
            result@ == target,
        decreases l,
    {
        // Replace the names of length `l`, in order.
        let ghost start = result@;
        let mut j: usize = 0;
        proof {
            assert(all.take(0) =~= Seq::<(Seq<char>, Seq<char>)>::empty());
        }
        while j < rs.len()
            invariant
                j <= rs.len(),
                all == renames_view(rs@),
                result@ == apply_renames(start, with_len(all.take(j as int), l as nat)),
            decreases rs.len() - j,
        {
            let old_name = &rs[j].0;
            let len = chars_of(old_name.as_str()).len();
            proof {
                assert(all.take(j + 1).drop_last() =~= all.take(j as int));
                assert(all.take(j + 1).last() == all[j as int]);
            }
            if len == l {
                result = replace(result.as_str(), old_name.as_str(), rs[j].1.as_str());
                proof {
                    let w = with_len(all.take(j as int), l as nat);
                    assert(with_len(all.take(j + 1), l as nat) == w.push(all[j as int]));
                    assert(w.push(all[j as int]).drop_last() =~= w);
                }
            }
            j = j + 1;
        }
        proof {
            assert(all.take(rs.len() as int) =~= all);
            lemma_apply_renames_concat(start, with_len(all, l as nat),
                if l == 0 { Seq::<(Seq<char>, Seq<char>)>::empty() } else { by_len_desc(all, (l - 1) as nat) });
            if l == 0 {
                assert(with_len(all, 0) + Seq::<(Seq<char>, Seq<char>)>::empty() =~= with_len(all, 0));
            }
        }
        if l == 0 {
            break;
        }
        l = l - 1;
    }
    result
}


// ===========================================================================
// Types
// ===========================================================================

pub open spec fn known_view(known: Option<&Vec<String>>) -> Option<Seq<Seq<char>>> {
    match known {
        Some(v) => Some(views(v@)),
        None => None,
    }
}

/// The name of a primitive format's Rust type.
fn primitive_type(f: &Format) -> (r: String)
    requires
        !(f is TypeName || f is Option || f is SeqOf || f is MapOf || f is Tuple || f is TupleArray),
    ensures
        r@ == quoted_type(*f, None, seq![]),
        forall|known: Option<Seq<Seq<char>>>, rs: Renames| r@ == quoted_type(*f, known, rs),
        forall|t: bool| r@ == rust_type(*f, t),
{
    let s = match f {
        Format::Unit => "()",
        Format::Bool => "bool",
        Format::I8 => "i8",
        Format::I16 => "i16",
        Format::I32 => "i32",
        Format::I64 => "i64",
        Format::I128 => "i128",
        Format::U8 => "u8",
        Format::U16 => "u16",
        Format::U32 => "u32",
        Format::U64 => "u64",
        Format::U128 => "u128",
        Format::F32 => "f32",
        Format::F64 => "f64",
        Format::Char => "char",
        Format::Str => "String",
        _ => "Bytes",
    };
    owned(s)
}

/// The Rust type of a format in a definition.
fn quote_type(rs: &Vec<(String, String)>, f: &Format, known: Option<&Vec<String>>) -> (r: String)
    ensures
        r@ == quoted_type(*f, known_view(known), renames_view(rs@)),
    decreases f,
{
    match f {
        Format::TypeName(x) => {
            let d = rename_type(rs, x);
            match known {
                Some(set) => {
                    if !contains_string(set, x) && !starts_with(x.as_str(), "Vec") {
                        let mut r = owned("Box<");
                        push_str(&mut r, d.as_str());
                        push_str(&mut r, ">");
                        proof {
                            reveal_strlit("Vec");
                        }
                        r
                    } else {
                        proof {
                            reveal_strlit("Vec");
                        }
                        d
                    }
                },
                None => d,
            }
        },
        Format::Option(g) => {
            let mut r = owned("Option<");
            let inner = quote_type(rs, g, known);
            push_str(&mut r, inner.as_str());
            push_str(&mut r, ">");
            r
        },
        Format::SeqOf(g) => {
            let mut r = owned("Vec<");
            let inner = quote_type(rs, g, None);
            push_str(&mut r, inner.as_str());
            push_str(&mut r, ">");
            r
        },
        Format::MapOf { key, value } => {
            let mut r = owned("Map<");
            let k = quote_type(rs, key, None);
            push_str(&mut r, k.as_str());
            push_str(&mut r, ", ");
            let v = quote_type(rs, value, None);
            push_str(&mut r, v.as_str());
            push_str(&mut r, ">");
            r
        },
        Format::Tuple(fs) => {
            let mut r = owned("(");
            let inner = quote_types(rs, fs, known);
            push_str(&mut r, inner.as_str());
            push_str(&mut r, ")");
            r
        },
        Format::TupleArray { content, size } => {
            let mut r = owned("[");
            let inner = quote_type(rs, content, known);
            push_str(&mut r, inner.as_str());
            push_str(&mut r, "; ");
            let n = decimal_string(*size);
            push_str(&mut r, n.as_str());
            push_str(&mut r, "]");
            r
        },
        _ => primitive_type(f),
    }
}

/// The Rust types of several formats, separated by `, `.
fn quote_types(rs: &Vec<(String, String)>, fs: &Vec<Format>, known: Option<&Vec<String>>) -> (r: String)
    ensures
        r@ == quoted_types(fs@, known_view(known), renames_view(rs@)),
    decreases fs,
{
    let mut r = String::new();
    let mut i: usize = 0;
    while i < fs.len()
        invariant
            i <= fs.len(),
            r@ == quoted_types(fs@.take(i as int), known_view(known), renames_view(rs@)),
        decreases fs.len() - i,
    {
        proof {
            assert(fs@.take(i + 1).drop_last() =~= fs@.take(i as int));
            assert(fs@.take(i + 1).last() == fs@[i as int]);
            assert(decreases_to!(fs => fs@[i as int]));
        }
        if i > 0 {
            push_str(&mut r, ", ");
        }
        let t = quote_type(rs, &fs[i], known);
        push_str(&mut r, t.as_str());
        i = i + 1;
        proof {
            if i == 1 {
                assert(r@ =~= quoted_types(fs@.take(1), known_view(known), renames_view(rs@)));
            }
        }
    }
    proof {
        assert(fs@.take(fs.len() as int) =~= fs@);
    }
    r
}

/// The Rust type of a format in a constructor signature.
fn format_to_type(f: &Format, title_case: bool) -> (r: String)
    ensures
        r@ == rust_type(*f, title_case),
    decreases f,
{
    match f {
        Format::TypeName(x) => {
            if title_case {
                to_upper_camel(x.as_str())
            } else {
                owned(x.as_str())
            }
        },
        Format::Option(g) => {
            let mut r = owned("Option<");
            let inner = format_to_type(g, title_case);
            push_str(&mut r, inner.as_str());
            push_str(&mut r, ">");
            r
        },
        Format::SeqOf(g) => {
            let mut r = owned("Vec<");
            let inner = format_to_type(g, title_case);
            push_str(&mut r, inner.as_str());
            push_str(&mut r, ">");
            r
        },
        Format::MapOf { key, value } => {
            let mut r = owned("Map<");
            let k = format_to_type(key, title_case);
            push_str(&mut r, k.as_str());
            push_str(&mut r, ", ");
            let v = format_to_type(value, title_case);
            push_str(&mut r, v.as_str());
            push_str(&mut r, ">");
            r
        },
        Format::Tuple(fs) => {
            let mut r = owned("(");
            let inner = formats_to_types(fs, title_case);
            push_str(&mut r, inner.as_str());
            push_str(&mut r, ")");
            r
        },
        Format::TupleArray { content, size } => {
            let mut r = owned("[");
            let inner = format_to_type(content, title_case);
            push_str(&mut r, inner.as_str());
            push_str(&mut r, "; ");
            let n = decimal_string(*size);
            push_str(&mut r, n.as_str());
            push_str(&mut r, "]");
            r
        },
        _ => primitive_type(f),
    }
}

fn formats_to_types(fs: &Vec<Format>, title_case: bool) -> (r: String)
    ensures
        r@ == rust_types(fs@, title_case),
    decreases fs,
{
    let mut r = String::new();
    let mut i: usize = 0;
    while i < fs.len()
        invariant
            i <= fs.len(),
            r@ == rust_types(fs@.take(i as int), title_case),
        decreases fs.len() - i,
    {
        proof {
            assert(fs@.take(i + 1).drop_last() =~= fs@.take(i as int));
            assert(fs@.take(i + 1).last() == fs@[i as int]);
            assert(decreases_to!(fs => fs@[i as int]));
        }
        if i > 0 {
            push_str(&mut r, ", ");
        }
        let t = format_to_type(&fs[i], title_case);
        push_str(&mut r, t.as_str());
        i = i + 1;
        proof {
            if i == 1 {
                assert(r@ =~= rust_types(fs@.take(1), title_case));
            }
        }
    }
    proof {
        assert(fs@.take(fs.len() as int) =~= fs@);
    }
    r
}

/// The natural default value of a format.
fn default_value_for(f: &Format) -> (r: String)
    ensures
        r@ == default_value(*f),
{
    let s = match f {
        Format::Option(_) => "None",
        Format::SeqOf(_) => "Vec::new()",
        Format::Str => "String::new()",
        Format::Bool => "false",
        Format::I8 | Format::I16 | Format::I32 | Format::I64 | Format::I128 => "0",
        Format::U8 | Format::U16 | Format::U32 | Format::U64 | Format::U128 => "0",
        Format::F32 | Format::F64 => "0.0",
        Format::MapOf { .. } => "Map::new()",
        _ => "Default::default()",
    };
    owned(s)
}


// ===========================================================================
// The generator
// ===========================================================================

/// Rust code generator for a given configuration.
pub struct CodeGenerator<'a> {
    /// Language-independent configuration.
    config: &'a CodeGeneratorConfig,
    /// Which derive macros are added (besides serde's).
    derive_macros: Vec<String>,
    /// Additional text added after the derive line of each container.
    custom_derive_block: Option<String>,
    /// Whether definitions and fields are marked `pub`.
    track_visibility: bool,
}

impl<'a> CodeGenerator<'a> {
    /// The configuration.
    pub closed spec fn config(&self) -> ConfigView {
        self.config@
    }

    /// The generator's own options.
    pub closed spec fn options(&self) -> GenView {
        GenView {
            derives: views(self.derive_macros@),
            block: match self.custom_derive_block {
                Some(t) => Some(t@),
                None => None,
            },
            track: self.track_visibility,
        }
    }

    /// A generator for `config`, deriving `Clone, Debug, PartialEq,
    /// PartialOrd`, with no custom block, marking definitions `pub`.
    pub fn new(config: &'a CodeGeneratorConfig) -> (g: Self)
        ensures
            g.config() == config@,
            g.options() == (GenView {
                derives: seq!["Clone"@, "Debug"@, "PartialEq"@, "PartialOrd"@],
                block: None,
                track: true,
            }),
    {
        let mut derive_macros: Vec<String> = Vec::new();
        derive_macros.push(owned("Clone"));
        derive_macros.push(owned("Debug"));
        derive_macros.push(owned("PartialEq"));
        derive_macros.push(owned("PartialOrd"));
        let g = CodeGenerator { config, derive_macros, custom_derive_block: None, track_visibility: true };
        proof {
            assert(views(g.derive_macros@) =~= seq!["Clone"@, "Debug"@, "PartialEq"@, "PartialOrd"@]);
        }
        g
    }

    /// Which derive macros are added (besides serde's).
    pub fn with_derive_macros(self, derive_macros: Vec<String>) -> (g: Self)
        ensures
            g.config() == self.config(),
            g.options() == (GenView { derives: views(derive_macros@), ..self.options() }),
    {
        CodeGenerator { derive_macros, ..self }
    }

    /// Text added after the derive line of each container.
    pub fn with_custom_derive_block(self, custom_derive_block: Option<String>) -> (g: Self)
        ensures
            g.config() == self.config(),
            g.options() == (GenView {
                block: match custom_derive_block {
                    Some(t) => Some(t@),
                    None => None,
                },
                ..self.options()
            }),
    {
        CodeGenerator { custom_derive_block, ..self }
    }

    /// Whether definitions and fields are marked `pub`.
    pub fn with_track_visibility(self, track_visibility: bool) -> (g: Self)
        ensures
            g.config() == self.config(),
            g.options() == (GenView { track: track_visibility, ..self.options() }),
    {
        CodeGenerator { track_visibility, ..self }
    }
}

/// The state of one generation run.
struct RustEmitter {
    out: IndentBuffer,
    known_sizes: Vec<String>,
    current_namespace: Vec<String>,
    type_renames: Vec<(String, String)>,
}

impl RustEmitter {
    /// The name of a struct in the output: its full name, renamed.
    fn resolve_struct_name(&self, key: &QualifiedName) -> (r: String)
        ensures
            r@ == rename(renames_view(self.type_renames@), full_name(name_view(*key))),
    {
        let full = full_name_of(key);
        rename_type(&self.type_renames, &full)
    }

    spec fn ns(&self) -> Seq<Seq<char>> {
        views(self.current_namespace@)
    }

    spec fn known(&self) -> Seq<Seq<char>> {
        views(self.known_sizes@)
    }

    spec fn rs(&self) -> Renames {
        renames_view(self.type_renames@)
    }

    spec fn same_context(&self, other: &Self) -> bool {
        &&& self.ns() == other.ns()
        &&& self.known() == other.known()
        &&& self.rs() == other.rs()
    }

    fn output_comment(&mut self, g: &CodeGenerator, name: &String)
        ensures
            final(self).out@ == emit_comment(old(self).out@, g.config(), old(self).ns(), name@),
            final(self).same_context(old(self)),
            final(self).out@.indent == old(self).out@.indent,
    {
        let mut path = clone_strings(&self.current_namespace);
        let ghost prev = path@;
        path.push(name.clone());
        proof {
            assert(views(path@) =~= views(prev).push(name@));
        }
        match g.config.comments.get(&path) {
            Some(doc) => {
                let indented_doc = indent_lines(doc.as_str(), "/// ");
                let text = replace(indented_doc.as_str(), "\n\n", "\n///\n");
                let mut t = owned("\n");
                push_str(&mut t, text.as_str());
                self.out.write(t.as_str());
            },
            None => {
                proof {
                    assert(put(self.out@, Seq::<char>::empty()) == self.out@);
                }
            },
        }
        proof {
            crate::indent::lemma_put_keeps_indent(old(self).out@, comment_text(g.config(), views(path@)));
        }
    }

    fn write(&mut self, t: &str)
        ensures
            final(self).out@ == put(old(self).out@, t@),
            final(self).same_context(old(self)),
            final(self).out@.indent == old(self).out@.indent,
    {
        self.out.write(t);
        proof {
            crate::indent::lemma_put_keeps_indent(old(self).out@, t@);
        }
    }

    fn output_fields(&mut self, g: &CodeGenerator, depth: usize, fields: &Vec<Named<Format>>)
        ensures
            final(self).out@ == emit_fields(old(self).out@, g.config(), old(self).ns(),
                field_prefix(depth as nat, g.options().track), fields@, old(self).known(), old(self).rs()),
            final(self).same_context(old(self)),
            final(self).out@.indent == old(self).out@.indent,
    {
        let prefix = if depth <= 1 && g.track_visibility { "pub " } else { "" };
        proof {
            reveal_strlit("");
            assert(prefix@ == field_prefix(depth as nat, g.options().track));
        }
        let ghost start = self.out@;
        let mut i: usize = 0;
        while i < fields.len()
            invariant
                i <= fields.len(),
                self.same_context(old(self)),
                self.out@.indent == old(self).out@.indent,
                start == old(self).out@,
                prefix@ == field_prefix(depth as nat, g.options().track),
                self.out@ == emit_fields(start, g.config(), self.ns(), prefix@, fields@.take(i as int),
                    self.known(), self.rs()),
            decreases fields.len() - i,
        {
            let field = &fields[i];
            proof {
                assert(fields@.take(i + 1).drop_last() =~= fields@.take(i as int));
                assert(fields@.take(i + 1).last() == fields@[i as int]);
            }
            self.output_comment(g, &field.name);
            let annotation = output_field_annotation(&field.value);
            self.write(annotation.as_str());
            let mut line = owned(prefix);
            push_str(&mut line, field.name.as_str());
            push_str(&mut line, ": ");
            let t = quote_type(&self.type_renames, &field.value, Some(&self.known_sizes));
            push_str(&mut line, t.as_str());
            push_str(&mut line, ",\n");
            self.write(line.as_str());
            i = i + 1;
        }
        proof {
            assert(fields@.take(fields.len() as int) =~= fields@);
        }
    }

    fn output_variant(&mut self, g: &CodeGenerator, v: &Named<VariantFormat>)
        requires
            old(self).out@.indent + 4 <= usize::MAX,
        ensures
            final(self).out@ == emit_variant(old(self).out@, g.config(), g.options(), old(self).ns(), *v,
                old(self).known(), old(self).rs()),
            final(self).same_context(old(self)),
            final(self).out@.indent == old(self).out@.indent,
    {
        let name = &v.name;
        self.output_comment(g, name);
        match &v.value {
            VariantFormat::Unit => {
                let mut line = owned(name.as_str());
                push_str(&mut line, ",\n");
                self.write(line.as_str());
            },
            VariantFormat::NewType(f) => {
                let mut line = owned(name.as_str());
                push_str(&mut line, "(");
                let t = quote_type(&self.type_renames, f, Some(&self.known_sizes));
                push_str(&mut line, t.as_str());
                push_str(&mut line, "),\n");
                self.write(line.as_str());
            },
            VariantFormat::Tuple(fs) => {
                let mut line = owned(name.as_str());
                push_str(&mut line, "(");
                let t = quote_types(&self.type_renames, fs, Some(&self.known_sizes));
                push_str(&mut line, t.as_str());
                push_str(&mut line, "),\n");
                self.write(line.as_str());
            },
            VariantFormat::Struct(fields) => {
                let mut line = owned(name.as_str());
                push_str(&mut line, " {\n");
                self.write(line.as_str());
                let ghost outer_ns = self.ns();
                let ghost outer_vec = self.current_namespace@;
                self.current_namespace.push(name.clone());
                proof {
                    assert(self.ns() =~= outer_ns.push(name@));
                }
                self.out.indent();
                self.output_fields(g, 2, fields);
                self.out.unindent();
                let ghost pre_pop = self.current_namespace@;
                let _ = self.current_namespace.pop();
                proof {
                    assert(self.current_namespace@ =~= pre_pop.drop_last());
                    assert(views(pre_pop) == outer_ns.push(name@));
                    assert(self.ns() =~= views(pre_pop).drop_last());
                    assert(self.ns() =~= outer_ns);
                }
                self.write("},\n");
            },
        }
    }

    fn output_variants(&mut self, g: &CodeGenerator, vs: &Vec<Named<VariantFormat>>)
        requires
            old(self).out@.indent + 4 <= usize::MAX,
        ensures
            final(self).out@ == emit_variants(old(self).out@, g.config(), g.options(), old(self).ns(), vs@,
                old(self).known(), old(self).rs()),
            final(self).same_context(old(self)),
            final(self).out@.indent == old(self).out@.indent,
    {
        let ghost start = self.out@;
        let mut i: usize = 0;
        while i < vs.len()
            invariant
                i <= vs.len(),
                self.same_context(old(self)),
                self.out@.indent == old(self).out@.indent,
                old(self).out@.indent + 4 <= usize::MAX,
                start == old(self).out@,
                self.out@ == emit_variants(start, g.config(), g.options(), self.ns(), vs@.take(i as int),
                    self.known(), self.rs()),
            decreases vs.len() - i,
        {
            proof {
                assert(vs@.take(i + 1).drop_last() =~= vs@.take(i as int));
                assert(vs@.take(i + 1).last() == vs@[i as int]);
            }
            self.output_variant(g, &vs[i]);
            i = i + 1;
        }
        proof {
            assert(vs@.take(vs.len() as int) =~= vs@);
        }
    }
}

/// The serde attribute that skips an empty value of a field.
fn output_field_annotation(f: &Format) -> (r: String)
    ensures
        r@ == field_annotation(*f),
{
    match f {
        Format::Str => owned("#[serde(skip_serializing_if = \"String::is_empty\")]\n"),
        Format::Option(_) => owned("#[serde(skip_serializing_if = \"Option::is_none\")]\n"),
        Format::SeqOf(_) => owned("#[serde(skip_serializing_if = \"Vec::is_empty\")]\n"),
        _ => String::new(),
    }
}


/// The derive line of a container, with `Default` when asked.
fn derive_text(g: &CodeGenerator, with_default: bool) -> (r: String)
    ensures
        r@ == derive_line(g.options(), if with_default { serde_derives().push("Default"@) } else { serde_derives() }),
{
    let mut derives = clone_strings(&g.derive_macros);
    let ghost base = views(derives@);
    derives.push(owned("Serialize"));
    derives.push(owned("Deserialize"));
    if with_default {
        derives.push(owned("Default"));
    }
    proof {
        let extra = if with_default { serde_derives().push("Default"@) } else { serde_derives() };
        assert(views(derives@) =~= g.options().derives + extra);
    }
    let mut r = owned("#[derive(");
    let joined = join_strings(&derives, ", ");
    push_str(&mut r, joined.as_str());
    push_str(&mut r, ")]\n");
    r
}

/// The custom block of a container, if any.
fn block(g: &CodeGenerator) -> (r: String)
    ensures
        r@ == block_text(g.options()),
{
    match &g.custom_derive_block {
        Some(t) => {
            let mut r = owned(t.as_str());
            push_str(&mut r, "\n");
            r
        },
        None => String::new(),
    }
}

proof fn lemma_builder_params_empty(fields: Seq<Named<Format>>, title_case: bool)
    ensures
        (builder_params(fields, title_case).len() == 0) == all_optional(fields),
    decreases fields.len(),
{
    if fields.len() > 0 {
        lemma_builder_params_empty(fields.drop_last(), title_case);
        if all_optional(fields) {
            assert forall|i: int| 0 <= i < fields.drop_last().len() implies
                is_option(#[trigger] fields.drop_last()[i].value) by {
                assert(fields.drop_last()[i] == fields[i]);
            }
            assert(is_option(fields[fields.len() - 1].value));
        } else if all_optional(fields.drop_last()) && is_option(fields.last().value) {
            assert forall|i: int| 0 <= i < fields.len() implies is_option(#[trigger] fields[i].value) by {
                if i < fields.len() - 1 {
                    assert(fields.drop_last()[i] == fields[i]);
                }
            }
        }
    }
}

/// The `TerraProvider` constant for a provider source.
fn provider_source_to_const(source: &String) -> (r: String)
    ensures
        r@ == provider_const(source@),
{
    let last = last_segment(source.as_str(), '/');
    to_uppercase(last.as_str())
}

impl RustEmitter {
    /// Writes a struct's fields, one level deeper, within its namespace.
    fn output_struct_body(&mut self, g: &CodeGenerator, name: &String, fields: &Vec<Named<Format>>)
        requires
            old(self).out@.indent + 4 <= usize::MAX,
        ensures
            final(self).out@ == unindented(emit_fields(indented(old(self).out@), g.config(), old(self).ns().push(name@),
                field_prefix(1, g.options().track), fields@, old(self).known(), old(self).rs())),
            final(self).same_context(old(self)),
            final(self).out@.indent == old(self).out@.indent,
    {
        let ghost outer_ns = self.ns();
        self.current_namespace.push(name.clone());
        proof {
            assert(self.ns() =~= outer_ns.push(name@));
        }
        self.out.indent();
        self.output_fields(g, 1, fields);
        self.out.unindent();
        let ghost pre_pop = self.current_namespace@;
        let _ = self.current_namespace.pop();
        proof {
            assert(self.current_namespace@ =~= pre_pop.drop_last());
            assert(self.ns() =~= views(pre_pop).drop_last());
            assert(self.ns() =~= outer_ns);
        }
    }

    /// Writes an enum's variants, one level deeper, within its namespace.
    fn output_enum_body(&mut self, g: &CodeGenerator, name: &String, vs: &Vec<Named<VariantFormat>>)
        requires
            old(self).out@.indent + 8 <= usize::MAX,
        ensures
            final(self).out@ == unindented(emit_variants(indented(old(self).out@), g.config(), g.options(),
                old(self).ns().push(name@), vs@, old(self).known(), old(self).rs())),
            final(self).same_context(old(self)),
            final(self).out@.indent == old(self).out@.indent,
    {
        let ghost outer_ns = self.ns();
        self.current_namespace.push(name.clone());
        proof {
            assert(self.ns() =~= outer_ns.push(name@));
        }
        self.out.indent();
        self.output_variants(g, vs);
        self.out.unindent();
        let ghost pre_pop = self.current_namespace@;
        let _ = self.current_namespace.pop();
        proof {
            assert(self.current_namespace@ =~= pre_pop.drop_last());
            assert(self.ns() =~= views(pre_pop).drop_last());
            assert(self.ns() =~= outer_ns);
        }
    }

    fn output_container(&mut self, g: &CodeGenerator, key: &QualifiedName, format: &ContainerFormat)
        requires
            old(self).out@.indent == 0,
        ensures
            final(self).out@ == emit_container(old(self).out@, g.config(), g.options(), old(self).ns(),
                old(self).known(), old(self).rs(), name_view(*key), *format),
            final(self).same_context(old(self)),
            final(self).out@.indent == 0,
    {
        let name = &key.1;
        self.output_comment(g, name);
        let ghost st1 = self.out@;
        match format {
            ContainerFormat::UnitStruct => {
                let tn = rename_type(&self.type_renames, name);
                let mut line = derive_text(g, false);
                let b = block(g);
                push_str(&mut line, b.as_str());
                push_str(&mut line, "struct ");
                push_str(&mut line, tn.as_str());
                push_str(&mut line, ";\n\n");
                self.write(line.as_str());
            },
            ContainerFormat::NewTypeStruct(f) => {
                let tn = rename_type(&self.type_renames, name);
                let mut line = derive_text(g, false);
                let b = block(g);
                push_str(&mut line, b.as_str());
                push_str(&mut line, "struct ");
                push_str(&mut line, tn.as_str());
                push_str(&mut line, "(");
                if g.track_visibility {
                    push_str(&mut line, "pub ");
                }
                let t = quote_type(&self.type_renames, f, Some(&self.known_sizes));
                push_str(&mut line, t.as_str());
                push_str(&mut line, ");\n\n");
                proof {
                    if !g.track_visibility {
                        assert(line@ =~= derive_line(g.options(), serde_derives()) + block_text(g.options())
                            + "struct "@ + tn@ + "("@ + pub_text(g.options())
                            + quoted_type(**f, Some(self.known()), self.rs()) + ");\n\n"@);
                    }
                }
                self.write(line.as_str());
            },
            ContainerFormat::TupleStruct(fs) => {
                let tn = rename_type(&self.type_renames, name);
                let mut line = derive_text(g, false);
                let b = block(g);
                push_str(&mut line, b.as_str());
                push_str(&mut line, "struct ");
                push_str(&mut line, tn.as_str());
                push_str(&mut line, "(");
                let t = quote_types(&self.type_renames, fs, Some(&self.known_sizes));
                push_str(&mut line, t.as_str());
                push_str(&mut line, ");\n\n");
                self.write(line.as_str());
            },
            ContainerFormat::Struct(fields) => {
                let with_default = all_fields_optional(fields) || g.config.generate_default;
                let mut line = derive_text(g, with_default);
                let b = block(g);
                push_str(&mut line, b.as_str());
                let ghost before_attr = line@;
                if key.0.is_some() {
                    push_str(&mut line, "#[serde(rename = \"");
                    push_str(&mut line, name.as_str());
                    push_str(&mut line, "\")]\n");
                }
                let ghost before_pub = line@;
                if g.track_visibility {
                    push_str(&mut line, "pub ");
                }
                proof {
                    assert(before_pub =~= before_attr + rename_attribute(name_view(*key)));
                    assert(line@ =~= before_pub + pub_text(g.options()));
                }
                let sn = self.resolve_struct_name(key);
                push_str(&mut line, "struct ");
                push_str(&mut line, sn.as_str());
                push_str(&mut line, " {\n");
                self.write(line.as_str());
                self.output_struct_body(g, name, fields);
                self.write("}\n\n");
            },
            ContainerFormat::Enum(vs) => {
                let tn = rename_type(&self.type_renames, name);
                let mut line = derive_text(g, false);
                let b = block(g);
                push_str(&mut line, b.as_str());
                let ghost before_pub = line@;
                if g.track_visibility {
                    push_str(&mut line, "pub ");
                }
                proof {
                    assert(line@ =~= before_pub + pub_text(g.options()));
                }
                push_str(&mut line, "enum ");
                push_str(&mut line, tn.as_str());
                push_str(&mut line, " {\n");
                self.write(line.as_str());
                self.output_enum_body(g, name, vs);
                self.write("}\n\n");
            },
        }
    }

    /// Writes the `new()` constructor of a struct with a required field.
    fn output_builder_impl(&mut self, g: &CodeGenerator, struct_name: &String, fields: &Vec<Named<Format>>)
        ensures
            final(self).out@ == put(old(self).out@, builder_text(g.config(), struct_name@, fields@)),
            final(self).same_context(old(self)),
            final(self).out@.indent == old(self).out@.indent,
    {
        let title_case = g.config.use_title_case;
        let mut params: Vec<String> = Vec::new();
        let mut lines = String::new();
        let mut i: usize = 0;
        while i < fields.len()
            invariant
                i <= fields.len(),
                title_case == g.config().use_title_case,
                views(params@) == builder_params(fields@.take(i as int), title_case),
                lines@ == builder_field_lines(fields@.take(i as int)),
            decreases fields.len() - i,
        {
            let f = &fields[i];
            proof {
                assert(fields@.take(i + 1).drop_last() =~= fields@.take(i as int));
                assert(fields@.take(i + 1).last() == fields@[i as int]);
            }
            push_str(&mut lines, "            ");
            push_str(&mut lines, f.name.as_str());
            if is_optional_format(&f.value) {
                push_str(&mut lines, ": ");
                let d = default_value_for(&f.value);
                push_str(&mut lines, d.as_str());
                push_str(&mut lines, ",\n");
            } else {
                push_str(&mut lines, ",\n");
                let mut p = owned(f.name.as_str());
                push_str(&mut p, ": ");
                let t = format_to_type(&f.value, title_case);
                push_str(&mut p, t.as_str());
                let ghost prev = params@;
                params.push(p);
                proof {
                    assert(views(params@) =~= views(prev).push(params@[prev.len() as int]@));
                }
            }
            i = i + 1;
        }
        proof {
            assert(fields@.take(fields.len() as int) =~= fields@);
            lemma_builder_params_empty(fields@, title_case);
        }
        if params.len() == 0 {
            proof {
                assert(put(self.out@, Seq::<char>::empty()) == self.out@);
            }
            return;
        }
        let mut text = owned("impl ");
        push_str(&mut text, struct_name.as_str());
        push_str(&mut text, " {\n");
        push_str(&mut text, "    pub fn new(");
        let joined = join_strings(&params, ", ");
        push_str(&mut text, joined.as_str());
        push_str(&mut text, ") -> Self {\n");
        push_str(&mut text, "        Self {\n");
        push_str(&mut text, lines.as_str());
        push_str(&mut text, "        }\n");
        push_str(&mut text, "    }\n");
        push_str(&mut text, "}\n\n");
        self.write(text.as_str());
    }

    /// Writes the `TerraJson` and `TerraResource` impls of a resource struct.
    fn output_trait_impls(&mut self, g: &CodeGenerator, struct_name: &String)
        ensures
            final(self).out@ == put(old(self).out@, trait_text(g.config(), struct_name@)),
            final(self).same_context(old(self)),
            final(self).out@.indent == old(self).out@.indent,
    {
        let metas = &g.config.resource_meta;
        let title_case = g.config.use_title_case;
        let ghost all = metas_view(metas@);
        let mut i: usize = 0;
        proof {
            assert(all.skip(0) =~= all);
        }
        while i < metas.len()
            invariant
                i <= metas.len(),
                all == metas_view(metas@),
                title_case == g.config().use_title_case,
                find_meta(all, struct_name@, title_case) == find_meta(all.skip(i as int), struct_name@, title_case),
            ensures
                i <= metas.len(),
                find_meta(all, struct_name@, title_case) == find_meta(all.skip(i as int), struct_name@, title_case),
                i < metas.len() ==> meta_struct_name(all[i as int], title_case) == struct_name@,
            decreases metas.len() - i,
        {
            proof {
                assert(all.skip(i as int).drop_first() =~= all.skip(i + 1));
                assert(all.skip(i as int)[0] == all[i as int]);
            }
            let m = &metas[i];
            let meta_name = if title_case { to_upper_camel(m.struct_name.as_str()) } else { m.struct_name.clone() };
            if meta_name == *struct_name {
                break;
            }
            i = i + 1;
        }
        if i == metas.len() {
            proof {
                assert(all.skip(i as int) =~= Seq::<MetaView>::empty());
                assert(put(self.out@, Seq::<char>::empty()) == self.out@);
            }
            return;
        }
        let m = &metas[i];
        proof {
            assert(all.skip(i as int)[0] == all[i as int]);
        }
        let pc = provider_source_to_const(&m.provider_source);
        let mut text = owned("impl crate::terra::TerraJson for ");
        push_str(&mut text, struct_name.as_str());
        push_str(&mut text, " {\n");
        push_str(&mut text, "    fn to_json(&self) -> serde_json::Value {\n");
        push_str(&mut text, "        serde_json::to_value(self).expect(\"serialization should not fail\")\n");
        push_str(&mut text, "    }\n");
        push_str(&mut text, "}\n\n");
        push_str(&mut text, "impl crate::terra::TerraResource for ");
        push_str(&mut text, struct_name.as_str());
        push_str(&mut text, " {\n");
        push_str(&mut text, "    fn resource_type(&self) -> &'static str { \"");
        push_str(&mut text, m.resource_type.as_str());
        push_str(&mut text, "\" }\n");
        push_str(&mut text, "    fn provider(&self) -> &'static crate::terra::TerraProvider { &crate::terra::TerraProvider::");
        push_str(&mut text, pc.as_str());
        push_str(&mut text, " }\n");
        push_str(&mut text, "}\n\n");
        self.write(text.as_str());
    }

    /// Writes the preamble.
    fn output_preamble(&mut self, g: &CodeGenerator)
        ensures
            final(self).out@ == put(old(self).out@, preamble_text(g.config())),
            final(self).same_context(old(self)),
            final(self).out@.indent == old(self).out@.indent,
    {
        match &g.config.custom_preamble {
            Some(p) => {
                let mut text = owned(p.as_str());
                push_str(&mut text, "\n");
                push_str(&mut text, "\n");
                self.write(text.as_str());
            },
            None => {
                let defs = &g.config.external_definitions;
                let names = defs.all_names();
                let mut text = owned("#![allow(unused_imports, non_snake_case, non_camel_case_types, non_upper_case_globals)]\n");
                let ghost t0 = text@;
                if !contains_string(&names, &owned("Map")) {
                    push_str(&mut text, "use std::collections::BTreeMap as Map;\n");
                }
                let ghost t1 = text@;
                push_str(&mut text, "use serde::{Serialize, Deserialize};\n");
                let ghost t2 = text@;
                if !contains_string(&names, &owned("Bytes")) {
                    push_str(&mut text, "use serde_bytes::ByteBuf as Bytes;\n");
                }
                let ghost t3 = text@;
                let mut uses = String::new();
                let mut i: usize = 0;
                while i < defs.len()
                    invariant
                        i <= defs@.len(),
                        uses@ == use_lines(defs@.take(i as int)),
                    decreases defs@.len() - i,
                {
                    let e = defs.entry(i);
                    proof {
                        assert(defs@.take(i + 1).drop_last() =~= defs@.take(i as int));
                        assert(defs@.take(i + 1).last() == defs@[i as int]);
                    }
                    if !e.0.as_str().is_empty() {
                        push_str(&mut uses, "use ");
                        push_str(&mut uses, e.0.as_str());
                        push_str(&mut uses, "::{");
                        let joined = join_strings(&e.1, ", ");
                        push_str(&mut uses, joined.as_str());
                        push_str(&mut uses, "};\n");
                    } else {
                        proof {
                            assert(uses@ =~= uses@ + Seq::<char>::empty());
                        }
                    }
                    i = i + 1;
                }
                proof {
                    assert(defs@.take(defs@.len() as int) =~= defs@);
                }
                push_str(&mut text, uses.as_str());
                push_str(&mut text, "\n");
                proof {
                    let ext = external_names(g.config().external_definitions);
                    assert(t1 =~= t0 + (if ext.contains("Map"@) { Seq::<char>::empty() } else { "use std::collections::BTreeMap as Map;\n"@ }));
                    assert(t3 =~= t2 + (if ext.contains("Bytes"@) { Seq::<char>::empty() } else { "use serde_bytes::ByteBuf as Bytes;\n"@ }));
                    assert(text@ =~= preamble_text(g.config()));
                }
                self.write(text.as_str());
            },
        }
    }
}


impl<'a> CodeGenerator<'a> {
    /// Writes the container definitions of `registry` as Rust source.
    pub fn output(&self, registry: &Registry) -> (code: String)
        ensures
            code@ == generated_code(self.config(), self.options(), registry@),
    {
        let ghost cfg = self.config();
        let known = self.config.external_definitions.all_names();
        let ns = split(self.config.module_name.as_str(), '.');
        let renames = if self.config.use_title_case { build_rename_map(registry) } else { Vec::new() };
        proof {
            assert(renames_view(renames@) =~= (if cfg.use_title_case { rename_map(registry@) } else {
                Seq::<(Seq<char>, Seq<char>)>::empty() }));
        }
        let mut emitter = RustEmitter {
            out: IndentBuffer::new(),
            known_sizes: known,
            current_namespace: ns,
            type_renames: renames,
        };
        let ghost known0 = emitter.known();
        emitter.output_preamble(self);
        let ghost st0 = emitter.out@;
        let mut i: usize = 0;
        proof {
            assert(registry@.take(0) =~= Seq::<(NameView, ContainerFormat)>::empty());
            assert(entry_names(registry@.take(0)) =~= Seq::<Seq<char>>::empty());
            assert(known0 + entry_names(registry@.take(0)) =~= known0);
        }
        while i < registry.len()
            invariant
                i <= registry@.len(),
                cfg == self.config(),
                emitter.out@.indent == 0,
                emitter.ns() == split_on(cfg.module_name, '.'),
                known0 == external_names(cfg.external_definitions),
                emitter.known() == known0 + entry_names(registry@.take(i as int)),
                emitter.rs() == (if cfg.use_title_case { rename_map(registry@) } else {
                    Seq::<(Seq<char>, Seq<char>)>::empty() }),
                st0 == put(initial_state(), preamble_text(cfg)),
                emitter.out@ == emit_entries(st0, cfg, self.options(), emitter.ns(), known0, emitter.rs(),
                    registry@.take(i as int)),
            decreases registry@.len() - i,
        {
            let e = registry.entry(i);
            proof {
                assert(registry@.take(i + 1).drop_last() =~= registry@.take(i as int));
                assert(registry@.take(i + 1).last() == registry@[i as int]);
            }
            emitter.output_container(self, &e.0, &e.1);
            match &e.1 {
                ContainerFormat::Struct(fields) => {
                    let sn = emitter.resolve_struct_name(&e.0);
                    if self.config.generate_builders {
                        emitter.output_builder_impl(self, &sn, fields);
                    }
                    if self.config.generate_trait_impls {
                        emitter.output_trait_impls(self, &sn);
                    }
                },
                _ => {},
            }
            let ghost prev_known = emitter.known_sizes@;
            emitter.known_sizes.push(e.0.1.clone());
            proof {
                assert(views(emitter.known_sizes@) =~= views(prev_known).push(e.0.1@));
                assert(entry_names(registry@.take(i + 1)) =~= entry_names(registry@.take(i as int)).push(
                    registry@[i as int].0.1));
                assert(emitter.known() =~= known0 + entry_names(registry@.take(i + 1)));
            }
            i = i + 1;
        }
        proof {
            assert(registry@.take(registry@.len() as int) =~= registry@);
        }
        emitter.out.into_string()
    }
}


// ===========================================================================
// Laws of the generated text
// ===========================================================================

proof fn lemma_prefix_trans(a: Seq<char>, b: Seq<char>, c: Seq<char>)
    requires
        a.is_prefix_of(b),
        b.is_prefix_of(c),
    ensures
        a.is_prefix_of(c),
{
    assert forall|i: int| 0 <= i < a.len() implies a[i] == c[i] by {
        assert(a[i] == b[i]);
        assert(b[i] == c[i]);
    }
    assert(a =~= c.subrange(0, a.len() as int));
}

/// At indentation zero, writing appends the text as it is.
proof fn lemma_put_unindented(st: EmitState, t: Seq<char>)
    requires
        st.indent == 0,
    ensures
        put(st, t).text == st.text + t,
    decreases t.len(),
{
    if t.len() == 0 {
        assert(st.text + t =~= st.text);
    } else {
        let c = t[0];
        assert(st.text + crate::indent::spaces(0) =~= st.text);
        let next = if c == '\n' {
            EmitState { text: st.text.push('\n'), indent: st.indent, at_line_start: true }
        } else {
            EmitState {
                text: (if st.at_line_start { st.text + crate::indent::spaces(st.indent) } else { st.text }).push(c),
                indent: st.indent,
                at_line_start: false,
            }
        };
        assert(next.text == st.text.push(c));
        lemma_put_unindented(next, t.drop_first());
        assert(st.text.push(c) + t.drop_first() =~= st.text + t);
    }
}

proof fn lemma_put_prefix(st: EmitState, t: Seq<char>)
    ensures
        st.text.is_prefix_of(put(st, t).text),
{
    crate::indent::lemma_put_keeps_indent(st, t);
}

proof fn lemma_emit_fields_prefix(
    st: EmitState,
    cfg: ConfigView,
    ns: Seq<Seq<char>>,
    prefix: Seq<char>,
    fields: Seq<Named<Format>>,
    known: Seq<Seq<char>>,
    rs: Renames,
)
    ensures
        st.text.is_prefix_of(emit_fields(st, cfg, ns, prefix, fields, known, rs).text),
    decreases fields.len(),
{
    if fields.len() > 0 {
        let st0 = emit_fields(st, cfg, ns, prefix, fields.drop_last(), known, rs);
        lemma_emit_fields_prefix(st, cfg, ns, prefix, fields.drop_last(), known, rs);
        let f = fields.last();
        let st1 = emit_comment(st0, cfg, ns, f.name@);
        let st2 = put(st1, field_annotation(f.value));
        lemma_put_prefix(st0, comment_text(cfg, ns.push(f.name@)));
        lemma_put_prefix(st1, field_annotation(f.value));
        lemma_put_prefix(st2, prefix + f.name@ + ": "@ + quoted_type(f.value, Some(known), rs) + ",\n"@);
        lemma_prefix_trans(st0.text, st1.text, st2.text);
        lemma_prefix_trans(st0.text, st2.text, emit_fields(st, cfg, ns, prefix, fields, known, rs).text);
        lemma_prefix_trans(st.text, st0.text, emit_fields(st, cfg, ns, prefix, fields, known, rs).text);
    }
}

proof fn lemma_emit_variants_prefix(
    st: EmitState,
    cfg: ConfigView,
    g: GenView,
    ns: Seq<Seq<char>>,
    vs: Seq<Named<VariantFormat>>,
    known: Seq<Seq<char>>,
    rs: Renames,
)
    ensures
        st.text.is_prefix_of(emit_variants(st, cfg, g, ns, vs, known, rs).text),
    decreases vs.len(),
{
    if vs.len() > 0 {
        let st0 = emit_variants(st, cfg, g, ns, vs.drop_last(), known, rs);
        lemma_emit_variants_prefix(st, cfg, g, ns, vs.drop_last(), known, rs);
        let v = vs.last();
        let name = v.name@;
        let st1 = emit_comment(st0, cfg, ns, name);
        lemma_put_prefix(st0, comment_text(cfg, ns.push(name)));
        let out = emit_variants(st, cfg, g, ns, vs, known, rs);
        match v.value {
            VariantFormat::Unit => {
                lemma_put_prefix(st1, name + ",\n"@);
            },
            VariantFormat::NewType(f) => {
                lemma_put_prefix(st1, name + "("@ + quoted_type(*f, Some(known), rs) + "),\n"@);
            },
            VariantFormat::Tuple(fs) => {
                lemma_put_prefix(st1, name + "("@ + quoted_types(fs@, Some(known), rs) + "),\n"@);
            },
            VariantFormat::Struct(fields) => {
                let st2 = indented(put(st1, name + " {\n"@));
                lemma_put_prefix(st1, name + " {\n"@);
                let st3 = emit_fields(st2, cfg, ns.push(name), field_prefix(2, g.track), fields@, known, rs);
                lemma_emit_fields_prefix(st2, cfg, ns.push(name), field_prefix(2, g.track), fields@, known, rs);
                lemma_put_prefix(unindented(st3), "},\n"@);
                lemma_prefix_trans(st1.text, st2.text, st3.text);
                lemma_prefix_trans(st1.text, st3.text, out.text);
            },
        }
        lemma_prefix_trans(st0.text, st1.text, out.text);
        lemma_prefix_trans(st.text, st0.text, out.text);
    }
}

proof fn lemma_emit_entry_prefix(
    st: EmitState,
    cfg: ConfigView,
    g: GenView,
    ns: Seq<Seq<char>>,
    known: Seq<Seq<char>>,
    rs: Renames,
    e: (NameView, ContainerFormat),
)
    ensures
        st.text.is_prefix_of(emit_entry(st, cfg, g, ns, known, rs, e).text),
{
    let key = e.0;
    let name = key.1;
    let st1 = emit_comment(st, cfg, ns, name);
    lemma_put_prefix(st, comment_text(cfg, ns.push(name)));
    let head = derive_line(g, serde_derives()) + block_text(g);
    let tn = container_type_name(rs, key, e.1);
    let c = emit_container(st, cfg, g, ns, known, rs, key, e.1);
    match e.1 {
        ContainerFormat::UnitStruct => {
            lemma_put_prefix(st1, head + "struct "@ + tn + ";\n\n"@);
        },
        ContainerFormat::NewTypeStruct(f) => {
            lemma_put_prefix(st1, head + "struct "@ + tn + "("@ + pub_text(g) + quoted_type(*f, Some(known), rs) + ");\n\n"@);
        },
        ContainerFormat::TupleStruct(fs) => {
            lemma_put_prefix(st1, head + "struct "@ + tn + "("@ + quoted_types(fs@, Some(known), rs) + ");\n\n"@);
        },
        ContainerFormat::Struct(fields) => {
            let prefix = derive_line(g, struct_derives(cfg, fields@)) + block_text(g) + rename_attribute(key)
                + pub_text(g);
            let t = prefix + "struct "@ + tn + " {\n"@;
            let st2 = indented(put(st1, t));
            lemma_put_prefix(st1, t);
            let st3 = emit_fields(st2, cfg, ns.push(name), field_prefix(1, g.track), fields@, known, rs);
            lemma_emit_fields_prefix(st2, cfg, ns.push(name), field_prefix(1, g.track), fields@, known, rs);
            lemma_put_prefix(unindented(st3), "}\n\n"@);
            lemma_prefix_trans(st1.text, st2.text, st3.text);
            lemma_prefix_trans(st1.text, st3.text, c.text);
        },
        ContainerFormat::Enum(vs) => {
            let st2 = indented(put(st1, head + pub_text(g) + "enum "@ + tn + " {\n"@));
            lemma_put_prefix(st1, head + pub_text(g) + "enum "@ + tn + " {\n"@);
            let st3 = emit_variants(st2, cfg, g, ns.push(name), vs@, known, rs);
            lemma_emit_variants_prefix(st2, cfg, g, ns.push(name), vs@, known, rs);
            lemma_put_prefix(unindented(st3), "}\n\n"@);
            lemma_prefix_trans(st1.text, st2.text, st3.text);
            lemma_prefix_trans(st1.text, st3.text, c.text);
        },
    }
    lemma_prefix_trans(st.text, st1.text, c.text);
    let out = emit_entry(st, cfg, g, ns, known, rs, e);
    match e.1 {
        ContainerFormat::Struct(fields) => {
            let sn = rename(rs, full_name(e.0));
            let c2 = if cfg.generate_builders { put(c, builder_text(cfg, sn, fields@)) } else { c };
            lemma_put_prefix(c, builder_text(cfg, sn, fields@));
            lemma_put_prefix(c2, trait_text(cfg, sn));
            lemma_prefix_trans(c.text, c2.text, out.text);
            lemma_prefix_trans(st.text, c.text, out.text);
        },
        _ => {},
    }
}

proof fn lemma_emit_entries_prefix(
    st: EmitState,
    cfg: ConfigView,
    g: GenView,
    ns: Seq<Seq<char>>,
    known: Seq<Seq<char>>,
    rs: Renames,
    entries: RegistryView,
)
    ensures
        st.text.is_prefix_of(emit_entries(st, cfg, g, ns, known, rs, entries).text),
    decreases entries.len(),
{
    if entries.len() > 0 {
        let prev = entries.drop_last();
        let st0 = emit_entries(st, cfg, g, ns, known, rs, prev);
        lemma_emit_entries_prefix(st, cfg, g, ns, known, rs, prev);
        lemma_emit_entry_prefix(st0, cfg, g, ns, known + entry_names(prev), rs, entries.last());
        lemma_prefix_trans(st.text, st0.text, emit_entries(st, cfg, g, ns, known, rs, entries).text);
    }
}

/// The generated code begins with its preamble, as written: the custom
/// preamble and a blank line when one is set, the lint allowances and
/// imports otherwise.
pub proof fn law_generated_code_starts_with_preamble(cfg: ConfigView, g: GenView, reg: RegistryView)
    ensures
        preamble_text(cfg).is_prefix_of(generated_code(cfg, g, reg)),
{
    let st = put(initial_state(), preamble_text(cfg));
    lemma_put_unindented(initial_state(), preamble_text(cfg));
    assert(st.text =~= preamble_text(cfg));
    assert(preamble_text(cfg).is_prefix_of(st.text));
    let ns = split_on(cfg.module_name, '.');
    let known = external_names(cfg.external_definitions);
    let rs = if cfg.use_title_case { rename_map(reg) } else { seq![] };
    lemma_emit_entries_prefix(st, cfg, g, ns, known, rs, reg);
}

/// With a custom preamble, the generated code starts with that preamble
/// followed by a blank line.
pub proof fn law_custom_preamble_comes_first(cfg: ConfigView, g: GenView, reg: RegistryView, p: Seq<char>)
    requires
        cfg.custom_preamble == Some(p),
    ensures
        (p + "\n"@ + "\n"@).is_prefix_of(generated_code(cfg, g, reg)),
{
    law_generated_code_starts_with_preamble(cfg, g, reg);
}

/// Without a custom preamble, the first line of the generated code is the
/// crate-level lint allowance.
pub proof fn law_default_preamble_starts_with_allow(cfg: ConfigView, g: GenView, reg: RegistryView)
    requires
        cfg.custom_preamble is None,
    ensures
        allow_line().is_prefix_of(generated_code(cfg, g, reg)),
{
    law_generated_code_starts_with_preamble(cfg, g, reg);
    let pre = preamble_text(cfg);
    let rest = pre.subrange(allow_line().len() as int, pre.len() as int);
    assert(pre =~= allow_line() + rest);
    assert(allow_line().is_prefix_of(pre));
    lemma_prefix_trans(allow_line(), pre, generated_code(cfg, g, reg));
}

/// A struct derives `Default` exactly when all its fields are optional or
/// the configuration forces it.
pub proof fn law_default_derive(cfg: ConfigView, fields: Seq<Named<Format>>)
    ensures
        struct_derives(cfg, fields).contains("Default"@) <==> (all_optional(fields) || cfg.generate_default),
{
    reveal_strlit("Default");
    reveal_strlit("Serialize");
    reveal_strlit("Deserialize");
    let d = struct_derives(cfg, fields);
    if all_optional(fields) || cfg.generate_default {
        assert(d[2] == "Default"@);
    } else {
        assert(d =~= seq!["Serialize"@, "Deserialize"@]);
        if d.contains("Default"@) {
            let i = choose|i: int| 0 <= i < d.len() && d[i] == "Default"@;
            assert(d[i].len() != 7);
        }
    }
}

/// The constructor takes one parameter per required field, in field order,
/// named as the field and typed as the field's Rust type.
pub proof fn law_builder_params_are_required_fields(fields: Seq<Named<Format>>, title_case: bool)
    ensures
        builder_params(fields, title_case) == fields.filter(|f: Named<Format>| !is_option(f.value)).map_values(
            |f: Named<Format>| f.name@ + ": "@ + rust_type(f.value, title_case),
        ),
    decreases fields.len(),
{
    reveal(Seq::filter);
    let req = |f: Named<Format>| !is_option(f.value);
    let param = |f: Named<Format>| f.name@ + ": "@ + rust_type(f.value, title_case);
    if fields.len() == 0 {
        assert(fields.filter(req) =~= seq![]);
    } else {
        law_builder_params_are_required_fields(fields.drop_last(), title_case);
        assert(fields.filter(req) == {
            let sub = fields.drop_last().filter(req);
            if req(fields.last()) { sub.push(fields.last()) } else { sub }
        });
        if req(fields.last()) {
            assert(fields.filter(req).map_values(param) =~= fields.drop_last().filter(req).map_values(param).push(
                param(fields.last())));
        }
    }
}

/// A struct gets a constructor exactly when some field is required; it
/// opens with `impl` and the struct's name.
pub proof fn law_builder_presence(cfg: ConfigView, struct_name: Seq<char>, fields: Seq<Named<Format>>)
    ensures
        (builder_text(cfg, struct_name, fields).len() == 0) <==> all_optional(fields),
        !all_optional(fields) ==> ("impl "@ + struct_name + " {\n"@).is_prefix_of(builder_text(cfg, struct_name, fields)),
{
    reveal_strlit("impl ");
    if !all_optional(fields) {
        let b = builder_text(cfg, struct_name, fields);
        let h = "impl "@ + struct_name + " {\n"@;
        let rest = b.subrange(h.len() as int, b.len() as int);
        assert(b =~= h + rest);
        assert(h.is_prefix_of(b));
        assert(b.len() > 0);
    }
}

proof fn lemma_rename_lookup_push(rs: Renames, p: (Seq<char>, Seq<char>), name: Seq<char>)
    ensures
        rename_lookup(rs.push(p), name) == (if rename_lookup(rs, name) is Some {
            rename_lookup(rs, name)
        } else if p.0 == name {
            Some(p.1)
        } else {
            None
        }),
    decreases rs.len(),
{
    if rs.len() == 0 {
        assert(rs.push(p)[0] == p);
        assert(rs.push(p).drop_first() =~= Seq::<(Seq<char>, Seq<char>)>::empty());
    } else {
        assert(rs.push(p)[0] == rs[0]);
        assert(rs.push(p).drop_first() =~= rs.drop_first().push(p));
        lemma_rename_lookup_push(rs.drop_first(), p, name);
    }
}

/// Every renaming of a registry maps a name to its `UpperCamelCase` form,
/// and every name that this form changes has a renaming.
proof fn lemma_rename_map_lookup(reg: RegistryView, name: Seq<char>)
    ensures
        rename_lookup(rename_map(reg), name) matches Some(t) ==> t == upper_camel_case(name),
        (exists|i: int| 0 <= i < reg.len() && #[trigger] full_name(reg[i].0) == name)
            && upper_camel_case(name) != name ==> rename_lookup(rename_map(reg), name) is Some,
    decreases reg.len(),
{
    if reg.len() > 0 {
        let pre = reg.drop_last();
        lemma_rename_map_lookup(pre, name);
        let rs = rename_map(pre);
        let full = full_name(reg.last().0);
        let title = upper_camel_case(full);
        if title != full && rename_lookup(rs, full) is None {
            lemma_rename_lookup_push(rs, (full, title), name);
        }
        if (exists|i: int| 0 <= i < reg.len() && #[trigger] full_name(reg[i].0) == name) && upper_camel_case(name) != name {
            let i = choose|i: int| 0 <= i < reg.len() && #[trigger] full_name(reg[i].0) == name;
            if i < pre.len() {
                assert(full_name(pre[i].0) == name);
            }
        }
    }
}

/// With `UpperCamelCase` names, a container whose name that form changes is
/// defined under that form (a namespaced one when it is a struct, whose
/// name then includes its namespace).
pub proof fn law_title_case_type_names(reg: RegistryView, i: int)
    requires
        0 <= i < reg.len(),
        upper_camel_case(full_name(reg[i].0)) != full_name(reg[i].0),
        reg[i].0.0 is None || reg[i].1 is Struct,
    ensures
        container_type_name(rename_map(reg), reg[i].0, reg[i].1) == upper_camel_case(full_name(reg[i].0)),
{
    let name = full_name(reg[i].0);
    lemma_rename_map_lookup(reg, name);
}

/// A container is defined under the name that references to it are written
/// with.
pub proof fn law_definition_names_match_references(rs: Renames, key: NameView, format: ContainerFormat)
    requires
        key.0 is None || format is Struct,
    ensures
        forall|x: String| #[trigger] x@ == full_name(key) ==> quoted_type(Format::TypeName(x), None, rs)
            == container_type_name(rs, key, format),
{
}

/// Where no renaming applies, a type in a constructor signature is written
/// as the same type in a definition.
pub proof fn law_signature_types_match_definition_types(f: Format)
    ensures
        rust_type(f, false) == quoted_type(f, None, seq![]),
    decreases f,
{
    match f {
        Format::Option(g) => law_signature_types_match_definition_types(*g),
        Format::SeqOf(g) => law_signature_types_match_definition_types(*g),
        Format::MapOf { key, value } => {
            law_signature_types_match_definition_types(*key);
            law_signature_types_match_definition_types(*value);
        },
        Format::Tuple(fs) => lemma_signature_types_match(fs@),
        Format::TupleArray { content, size } => law_signature_types_match_definition_types(*content),
        _ => {},
    }
}

proof fn lemma_signature_types_match(fs: Seq<Format>)
    ensures
        rust_types(fs, false) == quoted_types(fs, None, seq![]),
    decreases fs,
{
    if fs.len() == 1 {
        law_signature_types_match_definition_types(fs[0]);
    } else if fs.len() > 1 {
        lemma_signature_types_match(fs.drop_last());
        law_signature_types_match_definition_types(fs.last());
    }
}

/// Without `UpperCamelCase` names, every type keeps its name.
pub proof fn law_names_kept_without_title_case(name: Seq<char>)
    ensures
        rename(seq![], name) == name,
{
}

/// Inside `Option`, a type is written as it is written bare: in
/// particular a reference to a type that is not yet defined is boxed there
/// too, so that a recursive optional field has a finite size.
pub proof fn law_option_boxes_like_a_bare_reference(f: Format, k: Seq<Seq<char>>, rs: Renames)
    ensures
        quoted_type(Format::Option(Box::new(f)), Some(k), rs) == "Option<"@ + quoted_type(f, Some(k), rs) + ">"@,
        forall|x: String| #![trigger rename(rs, x@)]
            !k.contains(x@) && !starts_with_vec(x@) ==> quoted_type(
                Format::Option(Box::new(Format::TypeName(x))),
                Some(k),
                rs,
            ) == "Option<Box<"@ + rename(rs, x@) + ">>"@,
{
    reveal_strlit("Option<");
    reveal_strlit("Box<");
    reveal_strlit(">");
    reveal_strlit("Option<Box<");
    reveal_strlit(">>");
    assert forall|x: String| #![trigger rename(rs, x@)]
        !k.contains(x@) && !starts_with_vec(x@) implies quoted_type(
            Format::Option(Box::new(Format::TypeName(x))),
            Some(k),
            rs,
        ) == "Option<Box<"@ + rename(rs, x@) + ">>"@ by {
        let t = Format::TypeName(x);
        assert(quoted_type(t, Some(k), rs) == "Box<"@ + rename(rs, x@) + ">"@);
        assert(quoted_type(Format::Option(Box::new(t)), Some(k), rs) == "Option<"@ + quoted_type(t, Some(k), rs)
            + ">"@);
        assert("Option<"@ + ("Box<"@ + rename(rs, x@) + ">"@) + ">"@ =~= "Option<Box<"@ + rename(rs, x@) + ">>"@);
    }
}

/// Whether every type that `f` refers to has a renaming to its
/// `UpperCamelCase` form in `rs`.
pub open spec fn refs_renamed(f: Format, rs: Renames) -> bool
    decreases f,
{
    match f {
        Format::TypeName(x) => rename_lookup(rs, x@) == Some(upper_camel_case(x@)),
        Format::Option(g) => refs_renamed(*g, rs),
        Format::SeqOf(g) => refs_renamed(*g, rs),
        Format::MapOf { key, value } => refs_renamed(*key, rs) && refs_renamed(*value, rs),
        Format::Tuple(fs) => all_refs_renamed(fs@, rs),
        Format::TupleArray { content, size } => refs_renamed(*content, rs),
        _ => true,
    }
}

pub open spec fn all_refs_renamed(fs: Seq<Format>, rs: Renames) -> bool
    decreases fs,
{
    if fs.len() == 0 {
        true
    } else {
        all_refs_renamed(fs.drop_last(), rs) && refs_renamed(fs.last(), rs)
    }
}

/// With `UpperCamelCase` names, a constructor parameter refers to a type by
/// its converted name.
pub proof fn law_constructor_reference_converted(x: String)
    ensures
        rust_type(Format::TypeName(x), true) == upper_camel_case(x@),
        rust_type(Format::TypeName(x), false) == x@,
{
}

/// With `UpperCamelCase` names, a constructor parameter names the same type
/// as the field it sets, wherever every type it refers to is renamed.
pub proof fn law_constructor_types_match_renamed_field_types(f: Format, rs: Renames)
    requires
        refs_renamed(f, rs),
    ensures
        rust_type(f, true) == quoted_type(f, None, rs),
    decreases f,
{
    match f {
        Format::TypeName(x) => {
            assert(rs.len() > 0);
        },
        Format::Option(g) => law_constructor_types_match_renamed_field_types(*g, rs),
        Format::SeqOf(g) => law_constructor_types_match_renamed_field_types(*g, rs),
        Format::MapOf { key, value } => {
            law_constructor_types_match_renamed_field_types(*key, rs);
            law_constructor_types_match_renamed_field_types(*value, rs);
        },
        Format::Tuple(fs) => lemma_constructor_types_match_renamed(fs@, rs),
        Format::TupleArray { content, size } => law_constructor_types_match_renamed_field_types(*content, rs),
        _ => {},
    }
}

proof fn lemma_constructor_types_match_renamed(fs: Seq<Format>, rs: Renames)
    requires
        all_refs_renamed(fs, rs),
    ensures
        rust_types(fs, true) == quoted_types(fs, None, rs),
    decreases fs,
{
    if fs.len() == 1 {
        assert(fs.drop_last().len() == 0);
        assert(fs[0] == fs.last());
        law_constructor_types_match_renamed_field_types(fs[0], rs);
    } else if fs.len() > 1 {
        lemma_constructor_types_match_renamed(fs.drop_last(), rs);
        law_constructor_types_match_renamed_field_types(fs.last(), rs);
    }
}

/// In a registry's renamings, each reference to a registry type whose
/// `UpperCamelCase` form differs is renamed to that form; so with title case
/// on, a constructor parameter of that type names the type as it is defined.
pub proof fn law_constructor_reference_names_defined_type(reg: RegistryView, i: int, x: String)
    requires
        0 <= i < reg.len(),
        reg[i].0.0 is None,
        x@ == reg[i].0.1,
        upper_camel_case(x@) != x@,
    ensures
        refs_renamed(Format::TypeName(x), rename_map(reg)),
        rust_type(Format::TypeName(x), true) == container_type_name(rename_map(reg), reg[i].0, reg[i].1),
{
    assert(full_name(reg[i].0) == x@);
    lemma_rename_map_lookup(reg, x@);
}

/// The default preamble: the lint allowances; the `Map` import unless an
/// external definition provides `Map`; the serde import; the `Bytes` import
/// unless an external definition provides `Bytes`; the imports of the
/// external modules; a blank line.
pub proof fn law_default_preamble_imports(cfg: ConfigView)
    requires
        cfg.custom_preamble is None,
    ensures
        ({
            let ext = external_names(cfg.external_definitions);
            let map_import = "use std::collections::BTreeMap as Map;\n"@;
            let bytes_import = "use serde_bytes::ByteBuf as Bytes;\n"@;
            let head = allow_line() + (if ext.contains("Map"@) { seq![] } else { map_import })
                + "use serde::{Serialize, Deserialize};\n"@;
            &&& !ext.contains("Bytes"@) ==> preamble_text(cfg) == head + bytes_import
                + use_lines(cfg.external_definitions) + "\n"@
            &&& ext.contains("Bytes"@) ==> preamble_text(cfg) == head + use_lines(cfg.external_definitions)
                + "\n"@
        }),
{
    let ext = external_names(cfg.external_definitions);
    let head = allow_line() + (if ext.contains("Map"@) { seq![] } else { "use std::collections::BTreeMap as Map;\n"@ })
        + "use serde::{Serialize, Deserialize};\n"@;
    if ext.contains("Bytes"@) {
        assert(head + Seq::<char>::empty() =~= head);
    }
}

/// Whether `t` occurs in `s`.
pub open spec fn occurs_in(t: Seq<char>, s: Seq<char>) -> bool {
    exists|p: int| 0 <= p && p + t.len() <= s.len() && #[trigger] s.subrange(p, p + t.len()) == t
}

proof fn lemma_emit_fields_indent(
    st: EmitState,
    cfg: ConfigView,
    ns: Seq<Seq<char>>,
    prefix: Seq<char>,
    fields: Seq<Named<Format>>,
    known: Seq<Seq<char>>,
    rs: Renames,
)
    ensures
        emit_fields(st, cfg, ns, prefix, fields, known, rs).indent == st.indent,
    decreases fields.len(),
{
    if fields.len() > 0 {
        let st0 = emit_fields(st, cfg, ns, prefix, fields.drop_last(), known, rs);
        lemma_emit_fields_indent(st, cfg, ns, prefix, fields.drop_last(), known, rs);
        let f = fields.last();
        let st1 = emit_comment(st0, cfg, ns, f.name@);
        let st2 = put(st1, field_annotation(f.value));
        crate::indent::lemma_put_keeps_indent(st0, comment_text(cfg, ns.push(f.name@)));
        crate::indent::lemma_put_keeps_indent(st1, field_annotation(f.value));
        crate::indent::lemma_put_keeps_indent(st2, prefix + f.name@ + ": "@ + quoted_type(f.value, Some(known), rs) + ",\n"@);
    }
}

proof fn lemma_emit_variants_indent(
    st: EmitState,
    cfg: ConfigView,
    g: GenView,
    ns: Seq<Seq<char>>,
    vs: Seq<Named<VariantFormat>>,
    known: Seq<Seq<char>>,
    rs: Renames,
)
    ensures
        emit_variants(st, cfg, g, ns, vs, known, rs).indent == st.indent,
    decreases vs.len(),
{
    if vs.len() > 0 {
        let st0 = emit_variants(st, cfg, g, ns, vs.drop_last(), known, rs);
        lemma_emit_variants_indent(st, cfg, g, ns, vs.drop_last(), known, rs);
        let v = vs.last();
        let name = v.name@;
        let st1 = emit_comment(st0, cfg, ns, name);
        crate::indent::lemma_put_keeps_indent(st0, comment_text(cfg, ns.push(name)));
        match v.value {
            VariantFormat::Unit => {
                crate::indent::lemma_put_keeps_indent(st1, name + ",\n"@);
            },
            VariantFormat::NewType(f) => {
                crate::indent::lemma_put_keeps_indent(st1, name + "("@ + quoted_type(*f, Some(known), rs) + "),\n"@);
            },
            VariantFormat::Tuple(fs) => {
                crate::indent::lemma_put_keeps_indent(st1, name + "("@ + quoted_types(fs@, Some(known), rs) + "),\n"@);
            },
            VariantFormat::Struct(fields) => {
                let st2 = indented(put(st1, name + " {\n"@));
                crate::indent::lemma_put_keeps_indent(st1, name + " {\n"@);
                let st3 = emit_fields(st2, cfg, ns.push(name), field_prefix(2, g.track), fields@, known, rs);
                lemma_emit_fields_indent(st2, cfg, ns.push(name), field_prefix(2, g.track), fields@, known, rs);
                crate::indent::lemma_put_keeps_indent(unindented(st3), "},\n"@);
            },
        }
    }
}

/// A container's definition starts, at indentation zero, with its comment
/// and then its derive line, and leaves the indentation as it was.
proof fn lemma_container_head(
    st: EmitState,
    cfg: ConfigView,
    g: GenView,
    ns: Seq<Seq<char>>,
    known: Seq<Seq<char>>,
    rs: Renames,
    key: NameView,
    format: ContainerFormat,
)
    requires
        st.indent == 0,
    ensures
        (st.text + comment_text(cfg, ns.push(key.1)) + "#[derive("@).is_prefix_of(
            emit_container(st, cfg, g, ns, known, rs, key, format).text,
        ),
        emit_container(st, cfg, g, ns, known, rs, key, format).indent == 0,
{
    let name = key.1;
    let tn = container_type_name(rs, key, format);
    let c = comment_text(cfg, ns.push(name));
    let st1 = emit_comment(st, cfg, ns, name);
    lemma_put_unindented(st, c);
    crate::indent::lemma_put_keeps_indent(st, c);
    let head = derive_line(g, serde_derives()) + block_text(g);
    let out = emit_container(st, cfg, g, ns, known, rs, key, format);
    let d = "#[derive("@;
    let want = st.text + c + d;
    let x: Seq<char> = match format {
        ContainerFormat::UnitStruct => head + "struct "@ + tn + ";\n\n"@,
        ContainerFormat::NewTypeStruct(f) => head + "struct "@ + tn + "("@ + pub_text(g) + quoted_type(*f, Some(known), rs)
            + ");\n\n"@,
        ContainerFormat::TupleStruct(fs) => head + "struct "@ + tn + "("@ + quoted_types(fs@, Some(known), rs) + ");\n\n"@,
        ContainerFormat::Struct(fields) => derive_line(g, struct_derives(cfg, fields@)) + block_text(g)
            + rename_attribute(key) + pub_text(g) + "struct "@ + tn + " {\n"@,
        ContainerFormat::Enum(vs) => head + pub_text(g) + "enum "@ + tn + " {\n"@,
    };
    let sx = put(st1, x);
    lemma_put_unindented(st1, x);
    crate::indent::lemma_put_keeps_indent(st1, x);
    assert(d.is_prefix_of(x)) by {
        assert(x.subrange(0, d.len() as int) =~= d);
    }
    assert(want.is_prefix_of(sx.text)) by {
        assert(sx.text.subrange(0, want.len() as int) =~= want);
    }
    match format {
        ContainerFormat::Struct(fields) => {
            let st2 = indented(sx);
            let st3 = emit_fields(st2, cfg, ns.push(name), field_prefix(1, g.track), fields@, known, rs);
            lemma_emit_fields_prefix(st2, cfg, ns.push(name), field_prefix(1, g.track), fields@, known, rs);
            lemma_emit_fields_indent(st2, cfg, ns.push(name), field_prefix(1, g.track), fields@, known, rs);
            lemma_put_prefix(unindented(st3), "}\n\n"@);
            crate::indent::lemma_put_keeps_indent(unindented(st3), "}\n\n"@);
            lemma_prefix_trans(sx.text, st3.text, out.text);
            lemma_prefix_trans(want, sx.text, out.text);
        },
        ContainerFormat::Enum(vs) => {
            let st2 = indented(sx);
            let st3 = emit_variants(st2, cfg, g, ns.push(name), vs@, known, rs);
            lemma_emit_variants_prefix(st2, cfg, g, ns.push(name), vs@, known, rs);
            lemma_emit_variants_indent(st2, cfg, g, ns.push(name), vs@, known, rs);
            lemma_put_prefix(unindented(st3), "}\n\n"@);
            crate::indent::lemma_put_keeps_indent(unindented(st3), "}\n\n"@);
            lemma_prefix_trans(sx.text, st3.text, out.text);
            lemma_prefix_trans(want, sx.text, out.text);
        },
        _ => {},
    }
}

/// An entry's text starts with its definition, and leaves the indentation
/// at zero.
proof fn lemma_entry_head(
    st: EmitState,
    cfg: ConfigView,
    g: GenView,
    ns: Seq<Seq<char>>,
    known: Seq<Seq<char>>,
    rs: Renames,
    e: (NameView, ContainerFormat),
)
    requires
        st.indent == 0,
    ensures
        (st.text + comment_text(cfg, ns.push(e.0.1)) + "#[derive("@).is_prefix_of(
            emit_entry(st, cfg, g, ns, known, rs, e).text,
        ),
        emit_entry(st, cfg, g, ns, known, rs, e).indent == 0,
{
    lemma_container_head(st, cfg, g, ns, known, rs, e.0, e.1);
    let c = emit_container(st, cfg, g, ns, known, rs, e.0, e.1);
    let out = emit_entry(st, cfg, g, ns, known, rs, e);
    let want = st.text + comment_text(cfg, ns.push(e.0.1)) + "#[derive("@;
    match e.1 {
        ContainerFormat::Struct(fields) => {
            let sn = rename(rs, full_name(e.0));
            let c2 = if cfg.generate_builders { put(c, builder_text(cfg, sn, fields@)) } else { c };
            lemma_put_prefix(c, builder_text(cfg, sn, fields@));
            crate::indent::lemma_put_keeps_indent(c, builder_text(cfg, sn, fields@));
            lemma_put_prefix(c2, trait_text(cfg, sn));
            crate::indent::lemma_put_keeps_indent(c2, trait_text(cfg, sn));
            lemma_prefix_trans(c.text, c2.text, out.text);
            lemma_prefix_trans(want, c.text, out.text);
        },
        _ => {},
    }
}

proof fn lemma_emit_entries_indent(
    st: EmitState,
    cfg: ConfigView,
    g: GenView,
    ns: Seq<Seq<char>>,
    known: Seq<Seq<char>>,
    rs: Renames,
    entries: RegistryView,
)
    requires
        st.indent == 0,
    ensures
        emit_entries(st, cfg, g, ns, known, rs, entries).indent == 0,
    decreases entries.len(),
{
    if entries.len() > 0 {
        let prev = entries.drop_last();
        lemma_emit_entries_indent(st, cfg, g, ns, known, rs, prev);
        lemma_entry_head(emit_entries(st, cfg, g, ns, known, rs, prev), cfg, g, ns, known + entry_names(prev), rs,
            entries.last());
    }
}

/// The text written for the first `j` entries is a prefix of the text
/// written for all of them.
proof fn lemma_emit_entries_take_prefix(
    st: EmitState,
    cfg: ConfigView,
    g: GenView,
    ns: Seq<Seq<char>>,
    known: Seq<Seq<char>>,
    rs: Renames,
    entries: RegistryView,
    j: int,
)
    requires
        0 <= j <= entries.len(),
    ensures
        emit_entries(st, cfg, g, ns, known, rs, entries.take(j)).text.is_prefix_of(
            emit_entries(st, cfg, g, ns, known, rs, entries).text,
        ),
    decreases entries.len(),
{
    let all = emit_entries(st, cfg, g, ns, known, rs, entries).text;
    if j == entries.len() {
        assert(entries.take(j) =~= entries);
        assert(all.subrange(0, all.len() as int) =~= all);
    } else {
        let prev = entries.drop_last();
        assert(entries.take(j) =~= prev.take(j));
        lemma_emit_entries_take_prefix(st, cfg, g, ns, known, rs, prev, j);
        lemma_emit_entry_prefix(emit_entries(st, cfg, g, ns, known, rs, prev), cfg, g, ns, known + entry_names(prev), rs,
            entries.last());
        lemma_prefix_trans(emit_entries(st, cfg, g, ns, known, rs, prev.take(j)).text,
            emit_entries(st, cfg, g, ns, known, rs, prev).text, all);
    }
}

/// Each definition in the generated code is preceded by the comment stored
/// for it at its path: the module name split at `.`, then the definition's
/// name; the definition's derive line follows it directly.
pub proof fn law_definition_comments(cfg: ConfigView, g: GenView, reg: RegistryView, i: int)
    requires
        0 <= i < reg.len(),
    ensures
        occurs_in(
            comment_text(cfg, split_on(cfg.module_name, '.').push(reg[i].0.1)) + "#[derive("@,
            generated_code(cfg, g, reg),
        ),
{
    let ns = split_on(cfg.module_name, '.');
    let known = external_names(cfg.external_definitions);
    let rs = if cfg.use_title_case { rename_map(reg) } else { seq![] };
    let st0 = put(initial_state(), preamble_text(cfg));
    crate::indent::lemma_put_keeps_indent(initial_state(), preamble_text(cfg));
    let prev = reg.take(i);
    let sti = emit_entries(st0, cfg, g, ns, known, rs, prev);
    lemma_emit_entries_indent(st0, cfg, g, ns, known, rs, prev);
    assert(reg.take(i + 1).drop_last() =~= prev);
    assert(reg.take(i + 1).last() == reg[i]);
    let sti1 = emit_entries(st0, cfg, g, ns, known, rs, reg.take(i + 1));
    lemma_entry_head(sti, cfg, g, ns, known + entry_names(prev), rs, reg[i]);
    lemma_emit_entries_take_prefix(st0, cfg, g, ns, known, rs, reg, i + 1);
    let t = comment_text(cfg, ns.push(reg[i].0.1)) + "#[derive("@;
    let want = sti.text + t;
    assert(sti.text + comment_text(cfg, ns.push(reg[i].0.1)) + "#[derive("@ =~= want);
    let code = generated_code(cfg, g, reg);
    lemma_prefix_trans(want, sti1.text, code);
    let p = sti.text.len() as int;
    assert(code.subrange(p, p + t.len()) =~= t) by {
        assert forall|k: int| 0 <= k < t.len() implies code.subrange(p, p + t.len())[k] == t[k] by {
            assert(want[p + k] == t[k]);
            assert(code[p + k] == want[p + k]);
        }
    }
}

} // verus!
