use hello_tofu::config_generator::{build_preamble, ConfigGenerator, TerraProviderGenerator};
use hello_tofu::json::{object_get, JsonValue};
use hello_tofu::schema_binding_generator::{ProviderBindingTarget, SchemaBindingGenerator};
use hello_tofu::binding_generator::BindingGenerator;
use hello_tofu::terra::{ResourceFilter, TerraProvider};

fn get<'a>(v: &'a JsonValue, key: &str) -> &'a JsonValue {
    match v {
        JsonValue::Object(entries) => object_get(entries, &key.to_string()).unwrap_or_else(|| panic!("missing {}", key)),
        other => panic!("not an object: {:?}", other),
    }
}

fn text(v: &JsonValue) -> &str {
    match v {
        JsonValue::String(s) => s.as_str(),
        other => panic!("not a string: {:?}", other),
    }
}

fn keys(v: &JsonValue) -> Vec<String> {
    match v {
        JsonValue::Object(entries) => entries.iter().map(|e| e.0.clone()).collect(),
        other => panic!("not an object: {:?}", other),
    }
}

fn aws() -> TerraProvider {
    TerraProvider::new("Amazon Web Services", "registry.opentofu.org/hashicorp/aws", "~> 6.0")
}

fn cloudflare() -> TerraProvider {
    TerraProvider::new("Cloudflare", "registry.opentofu.org/cloudflare/cloudflare", "~> 5")
}

#[test]
fn provider_names_come_from_the_source() {
    let p = aws();
    assert_eq!(p.local_name(), "aws");
    assert_eq!(p.short_source(), "hashicorp/aws");
    let bare = TerraProvider::new("x", "local", "1");
    assert_eq!(bare.local_name(), "local");
    assert_eq!(bare.short_source(), "local");
    let two = TerraProvider::new("x", "hashicorp/null", "1");
    assert_eq!(two.short_source(), "hashicorp/null");
    assert_eq!(two.local_name(), "null");
}

#[test]
fn providers_tf_requires_each_provider_once() {
    let generator = ConfigGenerator::default()
        .with_resources(TerraProviderGenerator::new(aws(), "src/providers/aws_lambda.rs"), vec!["aws_lambda_function".to_string()])
        .with_resources(TerraProviderGenerator::new(cloudflare(), "src/providers/cloudflare_dns.rs"), vec!["cloudflare_dns_record".to_string()])
        .with_resources(
            TerraProviderGenerator::new(
                TerraProvider::new("AWS again", "registry.opentofu.org/hashicorp/aws", "~> 5.0"),
                "src/providers/aws_lightsail.rs",
            ),
            vec!["aws_lightsail_instance".to_string()],
        );
    let v = generator.providers_tf_json();
    let required = get(get(&v, "terraform"), "required_providers");
    assert_eq!(keys(required), vec!["aws", "cloudflare"]);
    assert_eq!(text(get(get(required, "aws"), "source")), "hashicorp/aws");
    assert_eq!(text(get(get(required, "aws"), "version")), "~> 6.0");
    assert_eq!(text(get(get(required, "cloudflare"), "source")), "cloudflare/cloudflare");
    assert_eq!(keys(&v), vec!["terraform"]);
}

#[test]
fn default_work_dir_and_override() {
    let g = ConfigGenerator::default();
    assert_eq!(g.work_dir(), "target/terra-bindings-generator");
    let g = g.with_work_dir("/tmp/tofu");
    assert_eq!(g.work_dir(), "/tmp/tofu");
    let s = SchemaBindingGenerator::default();
    assert_eq!(s.work_dir(), "target/terra-bindings-generator");
}

#[test]
fn standard_preamble_text() {
    let expected = "//! Auto-generated Terraform provider bindings \u{2014} do not edit by hand.\n\
\n\
#![allow(unused_imports, non_snake_case, non_camel_case_types, non_upper_case_globals)]\n\
use std::collections::BTreeMap as Map;\n\
use serde::{Serialize, Deserialize};\n\
use serde_json;";
    assert_eq!(build_preamble(), expected);
}

#[test]
fn config_generator_targets_use_typed_options_and_filters() {
    let generator = ConfigGenerator::default()
        .with_resources(
            TerraProviderGenerator::new(aws(), "out/aws.rs"),
            vec!["aws_lambda_function".to_string(), "aws_s3_bucket".to_string()],
        )
        .with_resources(TerraProviderGenerator::new(cloudflare(), "out/cf.rs"), vec!["cloudflare_dns_record".to_string()]);
    let targets = generator.binding_targets();
    assert_eq!(targets.len(), 2);
    assert_eq!(targets[0].0, "out/aws.rs");
    assert_eq!(targets[1].0, "out/cf.rs");
    let first = &targets[0].1;
    let config = first.code_generator_config();
    assert!(config.use_title_case && config.generate_builders && config.generate_trait_impls);
    assert_eq!(config.custom_preamble.as_deref(), Some(build_preamble().as_str()));
    let filter = first.filter().unwrap();
    assert!(filter.includes("registry.opentofu.org/hashicorp/aws", "aws_s3_bucket"));
    assert!(!filter.includes("registry.opentofu.org/hashicorp/aws", "cloudflare_dns_record"));
    assert!(!filter.includes("registry.opentofu.org/cloudflare/cloudflare", "aws_s3_bucket"));
    let second = targets[1].1.filter().unwrap();
    assert!(second.includes("registry.opentofu.org/cloudflare/cloudflare", "cloudflare_dns_record"));
}

#[test]
fn schema_binding_generator_uses_its_base_generator() {
    let base = BindingGenerator::new().with_title_case(false).with_generate_default(true);
    let mut generator = SchemaBindingGenerator::default()
        .with_binding_generator(base)
        .with_resources(ProviderBindingTarget::new(aws(), "a.rs"), vec!["aws_iam_role".to_string()]);
    generator.binding_generator_mut().code_generator_config_mut().generate_builders = true;
    assert!(generator.binding_generator().code_generator_config().generate_default);
    let targets = generator.binding_targets();
    assert_eq!(targets.len(), 1);
    assert_eq!(targets[0].0, "a.rs");
    let config = targets[0].1.code_generator_config();
    assert!(!config.use_title_case);
    assert!(config.generate_default);
    assert!(config.generate_builders);
    assert_eq!(config.custom_preamble.as_deref(), Some(build_preamble().as_str()));
    assert!(targets[0].1.filter().unwrap().includes("registry.opentofu.org/hashicorp/aws", "aws_iam_role"));
    assert!(generator.binding_generator().code_generator_config().custom_preamble.is_none());
}

#[test]
fn default_schema_binding_generator_options() {
    let generator = SchemaBindingGenerator::default();
    let config = generator.binding_generator().code_generator_config();
    assert!(config.use_title_case && config.generate_builders && config.generate_trait_impls);
    assert_eq!(config.custom_preamble.as_deref(), Some(build_preamble().as_str()));
    assert!(generator.binding_generator().filter().is_none());
    assert!(generator.binding_targets().is_empty());
}

#[test]
fn filter_adds_resources_per_provider() {
    let filter = ResourceFilter::new()
        .with_resources("p", vec!["a".to_string()])
        .with_resources("q", vec!["b".to_string()])
        .with_resources("p", vec!["c".to_string()]);
    assert!(filter.includes("p", "a"));
    assert!(filter.includes("p", "c"));
    assert!(filter.includes("q", "b"));
    assert!(!filter.includes("q", "a"));
    assert!(!filter.includes("r", "a"));
    assert!(!ResourceFilter::new().includes("p", "a"));
    assert!(!ResourceFilter::default().includes("p", "a"));
}
