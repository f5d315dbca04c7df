//! Entry requests: builders for creating, reading, updating and deleting
//! one entry of a cache, with optional value and expiry refinements.
#![allow(unused_imports)]
use vstd::prelude::*;
use vstd::string::*;

use crate::request::{
    bare_request, body_view, escape_component, escaped, is_plain_request, pairs_view, Method,
    RequestDescriptor,
};
use crate::text::dec_of;

verus! {

/// The resource path of one entry: the cache's path, the fixed `keys`
/// segment, and the escaped key.
pub open spec fn entry_path(cache: Seq<char>, key: Seq<char>) -> Seq<char> {
    "/v2/caches/"@ + escaped(cache) + "/keys/"@ + escaped(key)
}

fn entry_path_of(cache: &str, key: &str) -> (r: String)
    ensures
        r@ == entry_path(cache@, key@),
{
    let mut p = String::from_str("/v2/caches/");
    let c = escape_component(cache);
    p.append(c.as_str());
    p.append("/keys/");
    let k = escape_component(key);
    p.append(k.as_str());
    proof {
        assert(p@ =~= entry_path(cache@, key@));
    }
    p
}

/// A partially built entry-creation request: the target entry plus the
/// optional value and expiry refinements. Every refinement returns a new
/// value; nothing is mutated in place.
pub struct CreateEntry {
    pub cache: String,
    pub key: String,
    pub value: Option<String>,
    pub ttl_seconds: Option<u64>,
}

/// The builder with its value refinement set.
pub open spec fn spec_with_value(e: CreateEntry, v: String) -> CreateEntry {
    CreateEntry { value: Some(v), ..e }
}

/// The builder with its expiry refinement set.
pub open spec fn spec_with_ttl(e: CreateEntry, seconds: u64) -> CreateEntry {
    CreateEntry { ttl_seconds: Some(seconds), ..e }
}

/// Independent refinements commute: setting the value and the expiry in
/// either order yields the same builder state, so the descriptors built
/// from the two orders are identical.
pub proof fn lemma_refinements_commute(e: CreateEntry, v: String, seconds: u64)
    ensures
        spec_with_ttl(spec_with_value(e, v), seconds) == spec_with_value(
            spec_with_ttl(e, seconds),
            v,
        ),
{
}

/// Begins an entry-creation request with no value and no expiry.
pub fn create(cache: &str, key: &str) -> (r: CreateEntry)
    requires
        cache@.len() > 0,
        key@.len() > 0,
    ensures
        r.cache@ == cache@,
        r.key@ == key@,
        r.value is None,
        r.ttl_seconds is None,
{
    CreateEntry {
        cache: cache.to_owned(),
        key: key.to_owned(),
        value: None,
        ttl_seconds: None,
    }
}

impl CreateEntry {
    /// Returns the builder with the entry's value set.
    pub fn with_value(self, value: String) -> (r: CreateEntry)
        ensures
            r == spec_with_value(self, value),
    {
        CreateEntry { value: Some(value), ..self }
    }

    /// Returns the builder with the entry's time-to-live set, in seconds,
    /// the unit the server expects. Absence, not zero, means no expiry.
    pub fn with_ttl(self, seconds: u64) -> (r: CreateEntry)
        ensures
            r == spec_with_ttl(self, seconds),
    {
        CreateEntry { ttl_seconds: Some(seconds), ..self }
    }

    /// The query parameters the builder state calls for: no `ttl` parameter
    /// at all without an expiry, exactly one with it.
    pub open spec fn spec_params(&self) -> Seq<(Seq<char>, Seq<char>)> {
        match self.ttl_seconds {
            None => Seq::empty(),
            Some(t) => seq![("ttl"@, dec_of(t as nat))],
        }
    }

    /// The finished descriptor: a function of the builder state alone.
    pub fn request(&self) -> (r: RequestDescriptor)
        ensures
            r.method == Method::Post,
            r.path@ == entry_path(self.cache@, self.key@),
            pairs_view(r.params@) == self.spec_params(),
            pairs_view(r.headers@) == seq![("Content-Type"@, "application/octet-stream"@)],
            body_view(r.body) == body_view(self.value),
    {
        let mut params: Vec<(String, String)> = Vec::new();
        match &self.ttl_seconds {
            Some(t) => {
                params.push((String::from_str("ttl"), crate::text::u64_dec(*t)));
            },
            None => {},
        }
        proof {
            assert(pairs_view(params@) =~= self.spec_params());
        }
        let mut headers: Vec<(String, String)> = Vec::new();
        headers.push(
            (String::from_str("Content-Type"), String::from_str("application/octet-stream")),
        );
        proof {
            assert(pairs_view(headers@) =~= seq![("Content-Type"@, "application/octet-stream"@)]);
        }
        let body: Option<String> = match &self.value {
            Some(v) => Some(v.clone()),
            None => None,
        };
        RequestDescriptor {
            method: Method::Post,
            path: entry_path_of(self.cache.as_str(), self.key.as_str()),
            params,
            headers,
            body,
        }
    }
}

/// A descriptor built without an expiry carries no `ttl` parameter at all;
/// one built with an expiry carries exactly one, equal to the seconds given.
pub proof fn lemma_ttl_optionality(e: &CreateEntry)
    ensures
        e.ttl_seconds is None ==> forall|i: int|
            0 <= i < e.spec_params().len() ==> (#[trigger] e.spec_params()[i]).0 != "ttl"@,
        e.ttl_seconds is Some ==> e.spec_params() == seq![
            ("ttl"@, dec_of(e.ttl_seconds->0 as nat)),
        ],
{
}

/// Reads one entry.
pub fn get(cache: &str, key: &str) -> (r: RequestDescriptor)
    requires
        cache@.len() > 0,
        key@.len() > 0,
    ensures
        is_plain_request(r, Method::Get, entry_path(cache@, key@)),
{
    bare_request(Method::Get, entry_path_of(cache, key))
}

/// Asks whether one entry exists.
pub fn exists_req(cache: &str, key: &str) -> (r: RequestDescriptor)
    requires
        cache@.len() > 0,
        key@.len() > 0,
    ensures
        is_plain_request(r, Method::Head, entry_path(cache@, key@)),
{
    bare_request(Method::Head, entry_path_of(cache, key))
}

/// Replaces one entry's value.
pub fn update(cache: &str, key: &str, value: &str) -> (r: RequestDescriptor)
    requires
        cache@.len() > 0,
        key@.len() > 0,
    ensures
        r.method == Method::Put,
        r.path@ == entry_path(cache@, key@),
        pairs_view(r.params@) == Seq::<(Seq<char>, Seq<char>)>::empty(),
        pairs_view(r.headers@) == seq![("Content-Type"@, "application/octet-stream"@)],
        body_view(r.body) == Some(value@),
{
    let mut headers: Vec<(String, String)> = Vec::new();
    headers.push(
        (String::from_str("Content-Type"), String::from_str("application/octet-stream")),
    );
    proof {
        assert(pairs_view(headers@) =~= seq![("Content-Type"@, "application/octet-stream"@)]);
        assert(pairs_view(Seq::<(String, String)>::empty()) =~= Seq::<(
            Seq<char>,
            Seq<char>,
        )>::empty());
    }
    RequestDescriptor {
        method: Method::Put,
        path: entry_path_of(cache, key),
        params: Vec::new(),
        headers,
        body: Some(value.to_owned()),
    }
}

/// Deletes one entry.
pub fn delete(cache: &str, key: &str) -> (r: RequestDescriptor)
    requires
        cache@.len() > 0,
        key@.len() > 0,
    ensures
        is_plain_request(r, Method::Delete, entry_path(cache@, key@)),
{
    bare_request(Method::Delete, entry_path_of(cache, key))
}

} // verus!
