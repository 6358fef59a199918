use hello_tofu::config_exporter::{ConfigExporter, Output, Variable};
use hello_tofu::json::{object_get, JsonValue};

fn get<'a>(v: &'a JsonValue, key: &str) -> Option<&'a JsonValue> {
    match v {
        JsonValue::Object(entries) => object_get(entries, &key.to_string()),
        _ => None,
    }
}

fn at<'a>(v: &'a JsonValue, path: &[&str]) -> &'a JsonValue {
    let mut cur = v;
    for k in path {
        cur = get(cur, k).unwrap_or_else(|| panic!("missing key {}", k));
    }
    cur
}

fn text(v: &JsonValue) -> &str {
    match v {
        JsonValue::String(s) => s.as_str(),
        other => panic!("not a string: {:?}", other),
    }
}

fn keys(v: &JsonValue) -> Vec<String> {
    match v {
        JsonValue::Object(entries) => entries.iter().map(|e| e.0.clone()).collect(),
        other => panic!("not an object: {:?}", other),
    }
}

fn object(entries: Vec<(&str, JsonValue)>) -> JsonValue {
    JsonValue::Object(entries.into_iter().map(|(k, v)| (k.to_string(), v)).collect())
}

#[test]
fn empty_exporter_exports_an_empty_object() {
    let v = ConfigExporter::new().to_value();
    assert!(keys(&v).is_empty());
    let d = ConfigExporter::default().to_value();
    assert!(keys(&d).is_empty());
}

#[test]
fn documented_example_exports_each_block() {
    let mut exporter = ConfigExporter::new();
    exporter.add_required_provider("aws", "hashicorp/aws", "~> 5.0");
    exporter.add_provider("aws", object(vec![("region", JsonValue::string("us-west-2"))]));
    exporter.add_resource("aws_instance", "web", object(vec![("ami", JsonValue::string("ami-123"))]));
    let v = exporter.to_value();

    assert_eq!(text(at(&v, &["terraform", "required_providers", "aws", "source"])), "hashicorp/aws");
    assert_eq!(text(at(&v, &["terraform", "required_providers", "aws", "version"])), "~> 5.0");
    assert_eq!(text(at(&v, &["provider", "aws", "region"])), "us-west-2");
    assert_eq!(text(at(&v, &["resource", "aws_instance", "web", "ami"])), "ami-123");
    assert_eq!(keys(&v), vec!["terraform", "provider", "resource"]);
}

#[test]
fn resources_of_one_type_share_a_group() {
    let mut exporter = ConfigExporter::new();
    exporter
        .add_resource("aws_s3_bucket", "a", JsonValue::string("first"))
        .add_resource("aws_s3_bucket", "b", JsonValue::string("second"))
        .add_resource("aws_iam_role", "r", JsonValue::Null);
    let v = exporter.to_value();
    assert_eq!(keys(at(&v, &["resource"])), vec!["aws_s3_bucket", "aws_iam_role"]);
    assert_eq!(keys(at(&v, &["resource", "aws_s3_bucket"])), vec!["a", "b"]);
    assert_eq!(text(at(&v, &["resource", "aws_s3_bucket", "b"])), "second");
}

#[test]
fn adding_a_resource_again_replaces_it() {
    let mut exporter = ConfigExporter::new();
    exporter.add_resource("t", "n", JsonValue::string("old"));
    exporter.add_resource("t", "n", JsonValue::string("new"));
    let v = exporter.to_value();
    assert_eq!(keys(at(&v, &["resource", "t"])), vec!["n"]);
    assert_eq!(text(at(&v, &["resource", "t", "n"])), "new");
}

#[test]
fn data_sources_are_exported_under_data() {
    let mut exporter = ConfigExporter::new();
    exporter.add_data_source("aws_ami", "ubuntu", object(vec![("most_recent", JsonValue::Bool(true))]));
    let v = exporter.to_value();
    assert!(matches!(at(&v, &["data", "aws_ami", "ubuntu", "most_recent"]), JsonValue::Bool(true)));
    assert_eq!(keys(&v), vec!["data"]);
}

#[test]
fn variables_keep_only_given_fields() {
    let mut exporter = ConfigExporter::new();
    exporter.add_variable(
        "region",
        Variable {
            var_type: Some("string".to_string()),
            default: Some(JsonValue::string("us-east-1")),
            description: None,
        },
    );
    exporter.add_variable("empty", Variable { var_type: None, default: None, description: Some("d".to_string()) });
    let v = exporter.to_value();
    assert_eq!(keys(at(&v, &["variable", "region"])), vec!["type", "default"]);
    assert_eq!(text(at(&v, &["variable", "region", "type"])), "string");
    assert_eq!(text(at(&v, &["variable", "region", "default"])), "us-east-1");
    assert_eq!(keys(at(&v, &["variable", "empty"])), vec!["description"]);
}

#[test]
fn outputs_and_locals_are_exported() {
    let mut exporter = ConfigExporter::new();
    exporter.add_output(
        "ip",
        Output { value: JsonValue::string("${aws_instance.web.public_ip}"), description: None, sensitive: Some(true) },
    );
    exporter.add_local("env", JsonValue::string("prod"));
    let v = exporter.to_value();
    assert_eq!(keys(at(&v, &["output", "ip"])), vec!["value", "sensitive"]);
    assert!(matches!(at(&v, &["output", "ip", "sensitive"]), JsonValue::Bool(true)));
    assert_eq!(text(at(&v, &["locals", "env"])), "prod");
    assert_eq!(keys(&v), vec!["locals", "output"]);
}

#[test]
fn blocks_come_in_configuration_order() {
    let mut exporter = ConfigExporter::new();
    exporter.add_output("o", Output { value: JsonValue::Null, description: None, sensitive: None });
    exporter.add_data_source("d", "n", JsonValue::Null);
    exporter.add_resource("r", "n", JsonValue::Null);
    exporter.add_local("l", JsonValue::Null);
    exporter.add_variable("v", Variable { var_type: None, default: None, description: None });
    exporter.add_provider("p", JsonValue::Null);
    exporter.add_required_provider("q", "s", "1");
    let v = exporter.to_value();
    assert_eq!(keys(&v), vec!["terraform", "provider", "variable", "locals", "resource", "data", "output"]);
}
