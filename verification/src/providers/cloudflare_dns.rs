//! Terraform provider bindings for Cloudflare DNS records.

use vstd::prelude::*;
use std::collections::BTreeMap;

verus! {

/// The arguments and attributes of a `cloudflare_dns_record` resource.
pub struct CloudflareDnsRecordDetails {
    pub comment: Option<String>,
    pub comment_modified_on: Option<String>,
    pub content: Option<String>,
    pub count: Option<i64>,
    pub created_on: Option<String>,
    pub data: Option<BTreeMap<String, String>>,
    pub depends_on: Option<Vec<String>>,
    pub for_each: Option<Vec<String>>,
    pub id: Option<String>,
    pub meta: Option<String>,
    pub modified_on: Option<String>,
    pub name: String,
    pub priority: Option<i64>,
    pub provider: Option<String>,
    pub proxiable: Option<bool>,
    pub proxied: Option<bool>,
    pub settings: Option<BTreeMap<String, String>>,
    pub tags: Option<Vec<String>>,
    pub tags_modified_on: Option<String>,
    pub ttl: i64,
    /// The record type, e.g. "A" or "CNAME" (`type` in the configuration).
    pub type_: String,
    pub zone_id: String,
}

impl CloudflareDnsRecordDetails {
    /// A record with the required arguments set and every optional one
    /// absent.
    pub fn new(name: String, ttl: i64, type_: String, zone_id: String) -> (r: Self)
        ensures
            r.name == name,
            r.ttl == ttl,
            r.type_ == type_,
            r.zone_id == zone_id,
            r.comment is None,
            r.comment_modified_on is None,
            r.content is None,
            r.count is None,
            r.created_on is None,
            r.data is None,
            r.depends_on is None,
            r.for_each is None,
            r.id is None,
            r.meta is None,
            r.modified_on is None,
            r.priority is None,
            r.provider is None,
            r.proxiable is None,
            r.proxied is None,
            r.settings is None,
            r.tags is None,
            r.tags_modified_on is None,
    {
        CloudflareDnsRecordDetails {
            comment: None,
            comment_modified_on: None,
            content: None,
            count: None,
            created_on: None,
            data: None,
            depends_on: None,
            for_each: None,
            id: None,
            meta: None,
            modified_on: None,
            name,
            priority: None,
            provider: None,
            proxiable: None,
            proxied: None,
            settings: None,
            tags: None,
            tags_modified_on: None,
            ttl,
            type_,
            zone_id,
        }
    }
}

} // verus!
