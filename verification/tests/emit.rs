use hello_tofu::schema_bindgen::config::{CodeGeneratorConfig, DocComments, ExternalDefinitions};
use hello_tofu::schema_bindgen::emit::{add_rename, rename_type, CodeGenerator};
use hello_tofu::schema_bindgen::format::{ContainerFormat, Format, Named, Registry, VariantFormat};
use hello_tofu::terra::ResourceMeta;

const DEFAULT_PREAMBLE: &str = "#![allow(unused_imports, non_snake_case, non_camel_case_types, non_upper_case_globals)]\n\
use std::collections::BTreeMap as Map;\n\
use serde::{Serialize, Deserialize};\n\
use serde_bytes::ByteBuf as Bytes;\n\
\n";

const DERIVES: &str = "#[derive(Clone, Debug, PartialEq, PartialOrd, Serialize, Deserialize)]\n";

fn field(name: &str, value: Format) -> Named<Format> {
    Named { name: name.to_string(), value }
}

#[test]
fn plain_struct_is_emitted_exactly() {
    let config = CodeGeneratorConfig::new();
    let mut registry = Registry::new();
    registry.insert(
        (None, "Point".to_string()),
        ContainerFormat::Struct(vec![field("x", Format::I64), field("y", Format::Option(Box::new(Format::Str)))]),
    );
    let output = CodeGenerator::new(&config).output(&registry);
    let expected = format!(
        "{}{}pub struct Point {{\n    pub x: i64,\n    #[serde(skip_serializing_if = \"Option::is_none\")]\n    pub y: Option<String>,\n}}\n\n",
        DEFAULT_PREAMBLE, DERIVES
    );
    assert_eq!(output, expected);
}

#[test]
fn empty_registry_gives_only_the_preamble() {
    let config = CodeGeneratorConfig::new();
    let output = CodeGenerator::new(&config).output(&Registry::new());
    assert_eq!(output, DEFAULT_PREAMBLE);
}

#[test]
fn first_line_is_the_lint_allowance() {
    let config = CodeGeneratorConfig::new().with_generate_builders(true);
    let mut registry = Registry::new();
    registry.insert((None, "unit".to_string()), ContainerFormat::UnitStruct);
    let output = CodeGenerator::new(&config).output(&registry);
    assert!(output.lines().next().unwrap().starts_with("#![allow(unused_imports"));
    assert!(output.contains("use serde::{Serialize, Deserialize}"));
    assert!(output.contains("use std::collections::BTreeMap as Map"));
}

#[test]
fn enum_variants_are_emitted_exactly() {
    let config = CodeGeneratorConfig::new();
    let mut registry = Registry::new();
    registry.insert(
        (None, "shape".to_string()),
        ContainerFormat::Enum(vec![
            Named { name: "circle".to_string(), value: VariantFormat::NewType(Box::new(Format::F64)) },
            Named {
                name: "rect".to_string(),
                value: VariantFormat::Struct(vec![field("w", Format::U32), field("h", Format::U32)]),
            },
            Named { name: "empty".to_string(), value: VariantFormat::Unit },
            Named { name: "pair".to_string(), value: VariantFormat::Tuple(vec![Format::I8, Format::Bool]) },
        ]),
    );
    let output = CodeGenerator::new(&config).output(&registry);
    let expected = format!(
        "{}{}pub enum shape {{\n    circle(f64),\n    rect {{\n        w: u32,\n        h: u32,\n    }},\n    empty,\n    pair(i8, bool),\n}}\n\n",
        DEFAULT_PREAMBLE, DERIVES
    );
    assert_eq!(output, expected);
}

#[test]
fn unit_newtype_and_tuple_structs() {
    let config = CodeGeneratorConfig::new();
    let mut registry = Registry::new();
    registry.insert((None, "a_unit".to_string()), ContainerFormat::UnitStruct);
    registry.insert((None, "b_new".to_string()), ContainerFormat::NewTypeStruct(Box::new(Format::Bytes)));
    registry.insert(
        (None, "c_tuple".to_string()),
        ContainerFormat::TupleStruct(vec![
            Format::Char,
            Format::TupleArray { content: Box::new(Format::U8), size: 16 },
            Format::Tuple(vec![Format::Unit, Format::U128]),
        ]),
    );
    let output = CodeGenerator::new(&config).output(&registry);
    let expected = format!(
        "{p}{d}struct a_unit;\n\n{d}struct b_new(pub Bytes);\n\n{d}struct c_tuple(char, [u8; 16], ((), u128));\n\n",
        p = DEFAULT_PREAMBLE,
        d = DERIVES
    );
    assert_eq!(output, expected);
}

#[test]
fn title_case_renames_definitions_and_references() {
    let config = CodeGeneratorConfig::new().with_title_case(true);
    let mut registry = Registry::new();
    registry.insert(
        (None, "a_item".to_string()),
        ContainerFormat::Struct(vec![field("child", Format::TypeName("b_item".to_string()))]),
    );
    registry.insert(
        (None, "b_item".to_string()),
        ContainerFormat::Struct(vec![
            field("list", Format::SeqOf(Box::new(Format::TypeName("a_item".to_string())))),
            field("tags", Format::MapOf { key: Box::new(Format::Str), value: Box::new(Format::Str) }),
        ]),
    );
    let output = CodeGenerator::new(&config).output(&registry);
    let expected = format!(
        "{p}{d}pub struct AItem {{\n    pub child: Box<BItem>,\n}}\n\n{d}pub struct BItem {{\n    #[serde(skip_serializing_if = \"Vec::is_empty\")]\n    pub list: Vec<AItem>,\n    pub tags: Map<String, String>,\n}}\n\n",
        p = DEFAULT_PREAMBLE,
        d = DERIVES
    );
    assert_eq!(output, expected);
}

#[test]
fn all_optional_struct_derives_default() {
    let config = CodeGeneratorConfig::new();
    let mut registry = Registry::new();
    registry.insert(
        (None, "opts".to_string()),
        ContainerFormat::Struct(vec![field("a", Format::Option(Box::new(Format::Bool)))]),
    );
    let output = CodeGenerator::new(&config).output(&registry);
    assert!(output.contains("#[derive(Clone, Debug, PartialEq, PartialOrd, Serialize, Deserialize, Default)]\npub struct opts {"));
}

#[test]
fn required_field_struct_has_no_default_derive() {
    let config = CodeGeneratorConfig::new();
    let mut registry = Registry::new();
    registry.insert((None, "req".to_string()), ContainerFormat::Struct(vec![field("a", Format::Str)]));
    let output = CodeGenerator::new(&config).output(&registry);
    assert!(!output.contains("Default"));
    assert!(output.contains("    #[serde(skip_serializing_if = \"String::is_empty\")]\n    pub a: String,\n"));
}

#[test]
fn builder_is_emitted_exactly() {
    let config = CodeGeneratorConfig::new().with_generate_builders(true);
    let mut registry = Registry::new();
    registry.insert(
        (None, "rec".to_string()),
        ContainerFormat::Struct(vec![
            field("name", Format::Str),
            field("tags", Format::Option(Box::new(Format::SeqOf(Box::new(Format::Str))))),
            field("ttl", Format::I64),
        ]),
    );
    let output = CodeGenerator::new(&config).output(&registry);
    let builder = "impl rec {\n    pub fn new(name: String, ttl: i64) -> Self {\n        Self {\n            name,\n            tags: None,\n            ttl,\n        }\n    }\n}\n\n";
    assert!(output.ends_with(builder), "got:\n{}", output);
}

#[test]
fn namespaced_struct_keeps_its_serde_name() {
    let config = CodeGeneratorConfig::new();
    let mut registry = Registry::new();
    registry.insert(
        (Some("resource".to_string()), "my_thing".to_string()),
        ContainerFormat::Struct(vec![field("id", Format::Str)]),
    );
    let output = CodeGenerator::new(&config).output(&registry);
    assert!(output.contains("#[serde(rename = \"my_thing\")]\npub struct resource_my_thing {\n"));
}

#[test]
fn comments_are_written_before_definitions() {
    let mut comments = DocComments::new();
    comments.insert(vec!["m".to_string(), "point".to_string()], "  A point.  ".to_string());
    comments.insert(vec!["m".to_string(), "point".to_string(), "x".to_string()], "The x coordinate.".to_string());
    let config = CodeGeneratorConfig::new().with_module_name("m").with_comments(comments);
    let mut registry = Registry::new();
    registry.insert((None, "point".to_string()), ContainerFormat::Struct(vec![field("x", Format::I64)]));
    let output = CodeGenerator::new(&config).output(&registry);
    let expected = format!(
        "{}\n/// A point.\n{}pub struct point {{\n\n    /// The x coordinate.\n    pub x: i64,\n}}\n\n",
        DEFAULT_PREAMBLE, DERIVES
    );
    assert_eq!(output, expected);
}

#[test]
fn paragraphs_of_a_comment_are_kept_apart() {
    let mut comments = DocComments::new();
    comments.insert(vec!["".to_string(), "e".to_string()], "First.\n\nSecond.".to_string());
    let config = CodeGeneratorConfig::new().with_comments(comments);
    let mut registry = Registry::new();
    registry.insert((None, "e".to_string()), ContainerFormat::UnitStruct);
    let output = CodeGenerator::new(&config).output(&registry);
    assert!(output.contains("\n/// First.\n///\n/// Second.\n#[derive("), "got:\n{}", output);
}

#[test]
fn external_definitions_replace_default_imports() {
    let mut defs = ExternalDefinitions::new();
    defs.insert("my_mod".to_string(), vec!["Map".to_string(), "Thing".to_string()]);
    let config = CodeGeneratorConfig::new().with_external_definitions(defs);
    let mut registry = Registry::new();
    registry.insert(
        (None, "holder".to_string()),
        ContainerFormat::Struct(vec![field("t", Format::TypeName("Thing".to_string())), field("o", Format::TypeName("Other".to_string()))]),
    );
    let output = CodeGenerator::new(&config).output(&registry);
    let expected = format!(
        "#![allow(unused_imports, non_snake_case, non_camel_case_types, non_upper_case_globals)]\n\
use serde::{{Serialize, Deserialize}};\n\
use serde_bytes::ByteBuf as Bytes;\n\
use my_mod::{{Map, Thing}};\n\
\n{}pub struct holder {{\n    pub t: Thing,\n    pub o: Box<Other>,\n}}\n\n",
        DERIVES
    );
    assert_eq!(output, expected);
}

#[test]
fn generator_options_change_derives_block_and_visibility() {
    let config = CodeGeneratorConfig::new();
    let mut registry = Registry::new();
    registry.insert((None, "s".to_string()), ContainerFormat::Struct(vec![field("a", Format::U8)]));
    let output = CodeGenerator::new(&config)
        .with_derive_macros(vec!["Debug".to_string()])
        .with_custom_derive_block(Some("#[serde(deny_unknown_fields)]".to_string()))
        .with_track_visibility(false)
        .output(&registry);
    let expected = format!(
        "{}#[derive(Debug, Serialize, Deserialize)]\n#[serde(deny_unknown_fields)]\nstruct s {{\n    a: u8,\n}}\n\n",
        DEFAULT_PREAMBLE
    );
    assert_eq!(output, expected);
}

#[test]
fn trait_impls_are_emitted_exactly() {
    let meta = vec![ResourceMeta {
        resource_type: "cloudflare_dns_record".to_string(),
        provider_source: "registry.opentofu.org/cloudflare/cloudflare".to_string(),
        struct_name: "rec".to_string(),
    }];
    let config = CodeGeneratorConfig::new().with_generate_trait_impls(true).with_resource_meta(meta);
    let mut registry = Registry::new();
    registry.insert((None, "rec".to_string()), ContainerFormat::Struct(vec![field("a", Format::Option(Box::new(Format::U8)))]));
    registry.insert((None, "zz".to_string()), ContainerFormat::Struct(vec![field("a", Format::Option(Box::new(Format::U8)))]));
    let output = CodeGenerator::new(&config).output(&registry);
    let impls = "impl crate::terra::TerraJson for rec {\n    fn to_json(&self) -> serde_json::Value {\n        serde_json::to_value(self).expect(\"serialization should not fail\")\n    }\n}\n\nimpl crate::terra::TerraResource for rec {\n    fn resource_type(&self) -> &'static str { \"cloudflare_dns_record\" }\n    fn provider(&self) -> &'static crate::terra::TerraProvider { &crate::terra::TerraProvider::CLOUDFLARE }\n}\n\n";
    assert!(output.contains(impls), "got:\n{}", output);
    assert!(!output.contains("for zz"));
}

#[test]
fn renames_are_recorded_once_and_only_when_they_change_the_name() {
    let mut rs: Vec<(String, String)> = Vec::new();
    add_rename(&mut rs, "a_b".to_string(), "AB".to_string());
    add_rename(&mut rs, "Same".to_string(), "Same".to_string());
    add_rename(&mut rs, "a_b".to_string(), "Other".to_string());
    add_rename(&mut rs, "a".to_string(), "A".to_string());
    assert_eq!(rs, vec![("a_b".to_string(), "AB".to_string()), ("a".to_string(), "A".to_string())]);
    assert_eq!(rename_type(&rs, &"a_b".to_string()), "AB");
    assert_eq!(rename_type(&rs, &"a".to_string()), "A");
    assert_eq!(rename_type(&rs, &"x_a_b".to_string()), "x_AB");
    assert_eq!(rename_type(&rs, &"Vec<a>".to_string()), "Vec<A>");
    assert_eq!(rename_type(&Vec::new(), &"a_b".to_string()), "a_b");
}

#[test]
fn title_case_renames_every_container_kind() {
    let config = CodeGeneratorConfig::new().with_title_case(true);
    let mut registry = Registry::new();
    registry.insert(
        (None, "resource_root".to_string()),
        ContainerFormat::Enum(vec![Named {
            name: "aws_thing".to_string(),
            value: VariantFormat::NewType(Box::new(Format::TypeName("my_unit".to_string()))),
        }]),
    );
    registry.insert((None, "my_unit".to_string()), ContainerFormat::UnitStruct);
    registry.insert((None, "my_new".to_string()), ContainerFormat::NewTypeStruct(Box::new(Format::TypeName("resource_root".to_string()))));
    registry.insert((None, "my_tuple".to_string()), ContainerFormat::TupleStruct(vec![Format::U8, Format::U8]));
    let output = CodeGenerator::new(&config).output(&registry);
    let expected = format!(
        "{p}{d}struct MyNew(pub Box<ResourceRoot>);\n\n{d}struct MyTuple(u8, u8);\n\n{d}struct MyUnit;\n\n{d}pub enum ResourceRoot {{\n    aws_thing(MyUnit),\n}}\n\n",
        p = DEFAULT_PREAMBLE,
        d = DERIVES
    );
    assert_eq!(output, expected);
}
