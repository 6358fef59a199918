//! Typed Terraform/OpenTofu bindings generation and configuration export.

pub mod text;
pub mod indent;
pub mod terra;
pub mod schema_bindgen;
pub mod binding_generator;
pub mod json;
pub mod config_exporter;
pub mod config_generator;
pub mod schema_binding_generator;
pub mod providers;
