//! Typed provider resource bindings.

pub mod cloudflare_dns;
