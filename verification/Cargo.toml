[package]
name = "hello_tofu"
version = "0.1.0"
edition = "2021"
publish = false

[dependencies]
heck = "*"
textwrap = "*"
serde = { version = "*", features = ["derive"] }
serde_json = "*"
serde-reflection = "*"
serde-generate = "*"
