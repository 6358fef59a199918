use hello_tofu::binding_generator::{BindingGenerator, SchemaExport};
use hello_tofu::schema_bindgen::config::{CodeGeneratorConfig, DocComments, ExternalDefinitions};
use hello_tofu::schema_bindgen::format::{all_fields_optional, ContainerFormat, Format, Named, Registry};
use hello_tofu::indent::IndentBuffer;
use hello_tofu::json::{object_get, object_insert, JsonValue};
use hello_tofu::providers::cloudflare_dns::CloudflareDnsRecordDetails;
use hello_tofu::terra::{ResourceFilter, ResourceMeta};
use hello_tofu::text::{decimal_string, join_strings, last_segment, replace, split, starts_with};

#[test]
fn replace_matches_str_replace() {
    assert_eq!(replace("a\n\nb\n\nc", "\n\n", "\n///\n"), "a\n///\nb\n///\nc");
    assert_eq!(replace("aaa", "aa", "b"), "ba");
    assert_eq!(replace("ab", "", "-"), "ab".replace("", "-"));
    assert_eq!(replace("", "x", "y"), "");
}

#[test]
fn split_join_and_segments() {
    assert_eq!(split("a.b..c", '.'), vec!["a", "b", "", "c"]);
    assert_eq!(split("", '.'), vec![""]);
    assert_eq!(join_strings(&vec!["x".to_string(), "y".to_string()], ", "), "x, y");
    assert_eq!(join_strings(&vec![], ", "), "");
    assert_eq!(last_segment("registry.opentofu.org/hashicorp/aws", '/'), "aws");
    assert_eq!(last_segment("trailing/", '/'), "");
    assert!(starts_with("Vec<u8>", "Vec"));
    assert!(!starts_with("Ve", "Vec"));
}

#[test]
fn decimal_digits() {
    assert_eq!(decimal_string(0), "0");
    assert_eq!(decimal_string(7), "7");
    assert_eq!(decimal_string(1024), "1024");
    assert_eq!(decimal_string(usize::MAX), usize::MAX.to_string());
}

#[test]
fn indent_buffer_indents_non_empty_lines() {
    let mut b = IndentBuffer::new();
    b.write("a {\n");
    b.indent();
    b.write("x\n\ny\n");
    b.unindent();
    b.unindent();
    b.write("}\n");
    assert_eq!(b.into_string(), "a {\n    x\n\n    y\n}\n");
}

#[test]
fn registry_keeps_names_in_order() {
    let mut r = Registry::new();
    assert!(r.insert((None, "b".to_string()), ContainerFormat::UnitStruct).is_none());
    assert!(r.insert((Some("ns".to_string()), "a".to_string()), ContainerFormat::UnitStruct).is_none());
    assert!(r.insert((None, "a".to_string()), ContainerFormat::UnitStruct).is_none());
    assert!(r.insert((None, "B".to_string()), ContainerFormat::UnitStruct).is_none());
    let previous = r.insert((None, "b".to_string()), ContainerFormat::TupleStruct(vec![]));
    assert!(matches!(previous, Some(ContainerFormat::UnitStruct)));
    assert_eq!(r.len(), 4);
    let names: Vec<(Option<String>, String)> = (0..r.len()).map(|i| r.entry(i).0.clone()).collect();
    assert_eq!(
        names,
        vec![
            (None, "B".to_string()),
            (None, "a".to_string()),
            (None, "b".to_string()),
            (Some("ns".to_string()), "a".to_string()),
        ]
    );
    assert!(matches!(r.entry(2).1, ContainerFormat::TupleStruct(_)));
}

#[test]
fn optional_fields() {
    let fields = vec![
        Named { name: "a".to_string(), value: Format::Option(Box::new(Format::Str)) },
        Named { name: "b".to_string(), value: Format::SeqOf(Box::new(Format::Str)) },
    ];
    assert!(!all_fields_optional(&fields));
    assert!(all_fields_optional(&vec![]));
}

#[test]
fn comments_are_trimmed_with_one_newline() {
    let mut comments = DocComments::new();
    comments.insert(vec!["m".to_string(), "x".to_string()], "\n  text \n\n".to_string());
    comments.insert(vec!["m".to_string(), "x".to_string()], "  replaced\t".to_string());
    let normalized = comments.normalized();
    assert_eq!(normalized.get(&vec!["m".to_string(), "x".to_string()]).unwrap(), "replaced\n");
    assert!(normalized.get(&vec!["m".to_string()]).is_none());
}

#[test]
fn external_definitions_are_kept_by_module() {
    let mut defs = ExternalDefinitions::new();
    defs.insert("zeta".to_string(), vec!["Z".to_string()]);
    defs.insert("alpha".to_string(), vec!["A".to_string(), "B".to_string()]);
    defs.insert("zeta".to_string(), vec!["Y".to_string()]);
    assert_eq!(defs.len(), 2);
    assert_eq!(defs.entry(0).0, "alpha");
    assert_eq!(defs.entry(1).1, vec!["Y".to_string()]);
    assert_eq!(defs.all_names(), vec!["A", "B", "Y"]);
}

#[test]
fn config_defaults() {
    let c = CodeGeneratorConfig::new();
    assert_eq!(c.module_name, "");
    assert!(c.generate_roots);
    assert!(!c.use_title_case && !c.generate_builders && !c.generate_trait_impls && !c.generate_default);
    assert!(c.custom_preamble.is_none());
    let d = CodeGeneratorConfig::default();
    assert_eq!(d.module_name, c.module_name);
    assert!(!CodeGeneratorConfig::new().with_generate_roots(false).generate_roots);
}

#[test]
fn json_object_first_entry_counts() {
    let mut entries: Vec<(String, JsonValue)> = Vec::new();
    object_insert(&mut entries, "k".to_string(), JsonValue::Bool(false));
    object_insert(&mut entries, "j".to_string(), JsonValue::Null);
    object_insert(&mut entries, "k".to_string(), JsonValue::Bool(true));
    assert_eq!(entries.len(), 2);
    assert!(matches!(object_get(&entries, &"k".to_string()), Some(JsonValue::Bool(true))));
    assert!(object_get(&entries, &"x".to_string()).is_none());
}

#[test]
fn cloudflare_record_constructor() {
    let r = CloudflareDnsRecordDetails::new("www".to_string(), 300, "CNAME".to_string(), "zone".to_string());
    assert_eq!(r.name, "www");
    assert_eq!(r.ttl, 300);
    assert_eq!(r.type_, "CNAME");
    assert_eq!(r.zone_id, "zone");
    assert!(r.content.is_none() && r.proxied.is_none() && r.tags.is_none() && r.data.is_none());
}

fn export() -> SchemaExport {
    let mut registry = Registry::new();
    registry.insert(
        (None, "aws_s3_bucket_details".to_string()),
        ContainerFormat::Struct(vec![Named { name: "bucket".to_string(), value: Format::Str }]),
    );
    let mut comments = DocComments::new();
    comments.insert(vec!["".to_string(), "aws_s3_bucket_details".to_string()], " A bucket. ".to_string());
    SchemaExport {
        registry,
        resource_meta: vec![ResourceMeta {
            resource_type: "aws_s3_bucket".to_string(),
            provider_source: "registry.opentofu.org/hashicorp/aws".to_string(),
            struct_name: "aws_s3_bucket_details".to_string(),
        }],
        comments,
    }
}

#[test]
fn filtered_generation_uses_the_export_metadata() {
    let generator = BindingGenerator::new()
        .with_filter(ResourceFilter::new().with_resources("registry.opentofu.org/hashicorp/aws", vec!["aws_s3_bucket".to_string()]))
        .with_title_case(true)
        .with_builders(true)
        .with_trait_impls(true)
        .with_custom_preamble("// typed");
    let code = generator.generate_to_string(&export());
    assert!(code.starts_with("// typed\n\n"));
    assert!(code.contains("\n/// A bucket.\n#[derive(Clone, Debug, PartialEq, PartialOrd, Serialize, Deserialize)]\npub struct AwsS3BucketDetails {\n"));
    assert!(code.contains("impl AwsS3BucketDetails {\n    pub fn new(bucket: String) -> Self {\n"));
    assert!(code.contains("impl crate::terra::TerraResource for AwsS3BucketDetails {\n    fn resource_type(&self) -> &'static str { \"aws_s3_bucket\" }\n"));
    assert!(code.contains("&crate::terra::TerraProvider::AWS }"));
}

#[test]
fn unfiltered_generation_ignores_the_export_metadata() {
    let generator = BindingGenerator::new().with_trait_impls(true);
    let code = generator.generate_to_string(&export());
    assert!(code.starts_with("#![allow(unused_imports"));
    assert!(code.contains("pub struct aws_s3_bucket_details {"));
    assert!(!code.contains("/// A bucket."));
    assert!(!code.contains("TerraResource"));
}
