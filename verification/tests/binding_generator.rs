use hello_tofu::binding_generator::BindingGenerator;
use hello_tofu::schema_bindgen::config::CodeGeneratorConfig;
use hello_tofu::schema_bindgen::emit::CodeGenerator;
use hello_tofu::schema_bindgen::format::{ContainerFormat, Format, Named, Registry};
use hello_tofu::terra::ResourceMeta;

#[test]
fn test_default_generator() {
    let generator = BindingGenerator::default();
    assert!(generator.filter().is_none());
}

#[test]
fn test_new_equals_default() {
    let a = BindingGenerator::new();
    let b = BindingGenerator::default();
    assert_eq!(a.code_generator_config().use_title_case, b.code_generator_config().use_title_case);
    assert_eq!(a.code_generator_config().generate_builders, b.code_generator_config().generate_builders);
}

#[test]
fn test_with_code_generator_config() {
    let config = CodeGeneratorConfig::new()
        .with_module_name("custom")
        .with_title_case(true)
        .with_generate_builders(false);

    let generator = BindingGenerator::new().with_code_generator_config(config);
    assert!(generator.code_generator_config().use_title_case);
    assert!(!generator.code_generator_config().generate_builders);
}

#[test]
fn test_convenience_forwards() {
    let generator = BindingGenerator::new()
        .with_title_case(true)
        .with_builders(false)
        .with_trait_impls(true)
        .with_generate_default(true);

    assert!(generator.code_generator_config().use_title_case);
    assert!(!generator.code_generator_config().generate_builders);
    assert!(generator.code_generator_config().generate_trait_impls);
    assert!(generator.code_generator_config().generate_default);
}

#[test]
fn test_format_helpers_accessible_via_emit() {
    assert!(matches!(Format::Option(Box::new(Format::Str)), Format::Option(_)));
}

#[test]
fn test_generate_builder_impls_skips_all_optional() {
    let config = CodeGeneratorConfig::new().with_generate_builders(true);

    let mut registry = Registry::new();
    registry.insert(
        (None, "AllOptional".to_string()),
        ContainerFormat::Struct(vec![
            Named { name: "a".to_string(), value: Format::Option(Box::new(Format::Str)) },
            Named { name: "b".to_string(), value: Format::Option(Box::new(Format::Bool)) },
        ]),
    );

    let output = CodeGenerator::new(&config).output(&registry);

    assert!(
        !output.contains("impl AllOptional {"),
        "expected no builder for all-optional struct, got:\n{}",
        output
    );
}

#[test]
fn test_generate_builder_impls_with_required() {
    let config = CodeGeneratorConfig::new().with_generate_builders(true);

    let mut registry = Registry::new();
    registry.insert(
        (None, "MyStruct".to_string()),
        ContainerFormat::Struct(vec![
            Named { name: "name".to_string(), value: Format::Str },
            Named { name: "count".to_string(), value: Format::I64 },
            Named { name: "label".to_string(), value: Format::Option(Box::new(Format::Str)) },
        ]),
    );

    let output = CodeGenerator::new(&config).output(&registry);

    assert!(output.contains("impl MyStruct {"), "missing builder impl");
    assert!(
        output.contains("pub fn new(name: String, count: i64) -> Self {"),
        "incorrect builder signature, got:\n{}",
        output
    );
    assert!(output.contains("name,"));
    assert!(output.contains("count,"));
    assert!(output.contains("label: None,"));
}

#[test]
fn test_generate_builder_impls_with_namespace() {
    let config = CodeGeneratorConfig::new().with_generate_builders(true);

    let mut registry = Registry::new();
    registry.insert(
        (Some("resource".to_string()), "my_thing".to_string()),
        ContainerFormat::Struct(vec![Named { name: "id".to_string(), value: Format::Str }]),
    );

    let output = CodeGenerator::new(&config).output(&registry);

    assert!(
        output.contains("impl resource_my_thing {"),
        "expected namespaced struct name, got:\n{}",
        output
    );
}

#[test]
fn test_generate_builder_impls_title_case() {
    let config = CodeGeneratorConfig::new().with_title_case(true).with_generate_builders(true);

    let mut registry = Registry::new();
    registry.insert(
        (None, "my_struct".to_string()),
        ContainerFormat::Struct(vec![Named { name: "id".to_string(), value: Format::Str }]),
    );

    let output = CodeGenerator::new(&config).output(&registry);

    assert!(
        output.contains("impl MyStruct {"),
        "expected title-case struct name, got:\n{}",
        output
    );
}

#[test]
fn test_generate_terra_impls() {
    let meta = vec![ResourceMeta {
        resource_type: "aws_s3_bucket".to_string(),
        provider_source: "registry.opentofu.org/hashicorp/aws".to_string(),
        struct_name: "AwsS3BucketDetails".to_string(),
    }];

    let config = CodeGeneratorConfig::new()
        .with_title_case(true)
        .with_generate_trait_impls(true)
        .with_generate_builders(false)
        .with_resource_meta(meta);

    let mut registry = Registry::new();
    registry.insert(
        (None, "AwsS3BucketDetails".to_string()),
        ContainerFormat::Struct(vec![Named {
            name: "bucket".to_string(),
            value: Format::Option(Box::new(Format::Str)),
        }]),
    );

    let output = CodeGenerator::new(&config).output(&registry);

    assert!(
        output.contains("impl crate::terra::TerraJson for AwsS3BucketDetails"),
        "missing TerraJson impl, got:\n{}",
        output
    );
    assert!(
        output.contains("impl crate::terra::TerraResource for AwsS3BucketDetails"),
        "missing TerraResource impl, got:\n{}",
        output
    );
    assert!(output.contains("\"aws_s3_bucket\""));
    assert!(output.contains("TerraProvider::AWS"));
}

#[test]
fn test_custom_preamble() {
    let config = CodeGeneratorConfig::new()
        .with_custom_preamble("// custom preamble\nuse custom::stuff;")
        .with_generate_builders(false);

    let registry = Registry::new();

    let output = CodeGenerator::new(&config).output(&registry);

    assert!(
        output.starts_with("// custom preamble"),
        "expected custom preamble at start, got:\n{}",
        output
    );
    assert!(output.contains("use custom::stuff;"));
    assert!(!output.contains("use serde_bytes::ByteBuf as Bytes;"));
}

#[test]
fn test_generate_default_forces_default_derive() {
    let config = CodeGeneratorConfig::new().with_generate_default(true).with_generate_builders(false);

    let mut registry = Registry::new();
    registry.insert(
        (None, "RequiredFields".to_string()),
        ContainerFormat::Struct(vec![Named { name: "name".to_string(), value: Format::Str }]),
    );

    let output = CodeGenerator::new(&config).output(&registry);

    assert!(
        output.contains("Default"),
        "expected Default derive even with required fields, got:\n{}",
        output
    );
}
