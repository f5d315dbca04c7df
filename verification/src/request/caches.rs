//! Cache requests: the replication-topology configuration model, its JSON
//! codec against the server's configuration schema, and one builder per
//! cache operation.
#![allow(unused_imports)]
use vstd::prelude::*;
use vstd::string::*;

use crate::request::{
    action_request, bare_request, body_view, escape_component, escaped, is_action_request,
    is_plain_request, pairs_view, Method, RequestDescriptor,
};

verus! {

/// The synchronization mode of a clustered topology.
#[derive(Clone, Copy, PartialEq, Eq, Structural, Debug)]
pub enum Mode {
    Sync,
    Async,
}

/// A cache replication topology, the closed set the server understands.
/// The variant tag and the root key of its JSON schema always agree; two
/// configurations with the same topology but different synchronization
/// modes are never equal.
#[derive(Clone, Copy, PartialEq, Eq, Structural, Debug)]
pub enum Cache {
    Local,
    Replicated { mode: Mode },
    Distributed { mode: Mode },
    Invalidation { mode: Mode },
}

/// The exact JSON configuration the server uses for each topology.
pub open spec fn spec_cache_json(c: Cache) -> Seq<char> {
    match c {
        Cache::Local => "{\"local-cache\":{}}"@,
        Cache::Replicated { mode: Mode::Sync } => "{\"replicated-cache\":{\"mode\":\"SYNC\"}}"@,
        Cache::Replicated { mode: Mode::Async } => "{\"replicated-cache\":{\"mode\":\"ASYNC\"}}"@,
        Cache::Distributed { mode: Mode::Sync } => "{\"distributed-cache\":{\"mode\":\"SYNC\"}}"@,
        Cache::Distributed { mode: Mode::Async } => "{\"distributed-cache\":{\"mode\":\"ASYNC\"}}"@,
        Cache::Invalidation { mode: Mode::Sync } => "{\"invalidation-cache\":{\"mode\":\"SYNC\"}}"@,
        Cache::Invalidation { mode: Mode::Async } => "{\"invalidation-cache\":{\"mode\":\"ASYNC\"}}"@,
    }
}

/// Distinct configurations have distinct JSON spellings.
proof fn lemma_cache_json_injective()
    ensures
        forall|a: Cache, b: Cache| spec_cache_json(a) == spec_cache_json(b) ==> a == b,
{
    reveal_strlit("{\"local-cache\":{}}");
    reveal_strlit("{\"replicated-cache\":{\"mode\":\"SYNC\"}}");
    reveal_strlit("{\"replicated-cache\":{\"mode\":\"ASYNC\"}}");
    reveal_strlit("{\"distributed-cache\":{\"mode\":\"SYNC\"}}");
    reveal_strlit("{\"distributed-cache\":{\"mode\":\"ASYNC\"}}");
    reveal_strlit("{\"invalidation-cache\":{\"mode\":\"SYNC\"}}");
    reveal_strlit("{\"invalidation-cache\":{\"mode\":\"ASYNC\"}}");
    assert forall|a: Cache, b: Cache| spec_cache_json(a) == spec_cache_json(b) implies a == b by {
        let sa = spec_cache_json(a);
        let sb = spec_cache_json(b);
        assert(sa.len() == sb.len());
        assert(sa[2] == sb[2]);
    }
}

/// Serializes a topology configuration to the server's JSON schema.
pub fn serialize_cache_config(c: &Cache) -> (r: String)
    ensures
        r@ == spec_cache_json(*c),
{
    match c {
        Cache::Local => String::from_str("{\"local-cache\":{}}"),
        Cache::Replicated { mode: Mode::Sync } => String::from_str(
            "{\"replicated-cache\":{\"mode\":\"SYNC\"}}",
        ),
        Cache::Replicated { mode: Mode::Async } => String::from_str(
            "{\"replicated-cache\":{\"mode\":\"ASYNC\"}}",
        ),
        Cache::Distributed { mode: Mode::Sync } => String::from_str(
            "{\"distributed-cache\":{\"mode\":\"SYNC\"}}",
        ),
        Cache::Distributed { mode: Mode::Async } => String::from_str(
            "{\"distributed-cache\":{\"mode\":\"ASYNC\"}}",
        ),
        Cache::Invalidation { mode: Mode::Sync } => String::from_str(
            "{\"invalidation-cache\":{\"mode\":\"SYNC\"}}",
        ),
        Cache::Invalidation { mode: Mode::Async } => String::from_str(
            "{\"invalidation-cache\":{\"mode\":\"ASYNC\"}}",
        ),
    }
}

/// Reads a topology configuration back from the server's JSON schema.
/// Succeeds exactly on the spellings that `serialize_cache_config` emits,
/// and losslessly: the configuration read back is the one serialized.
pub fn deserialize_cache_config(s: &str) -> (r: Option<Cache>)
    ensures
        r is Some ==> spec_cache_json(r->0) == s@,
        forall|c: Cache| spec_cache_json(c) == s@ ==> r == Some(c),
{
    proof {
        lemma_cache_json_injective();
    }
    let owned: String = s.to_owned();
    if serialize_cache_config(&Cache::Local) == owned {
        return Some(Cache::Local);
    }
    if serialize_cache_config(&(Cache::Replicated { mode: Mode::Sync })) == owned {
        return Some(Cache::Replicated { mode: Mode::Sync });
    }
    if serialize_cache_config(&(Cache::Replicated { mode: Mode::Async })) == owned {
        return Some(Cache::Replicated { mode: Mode::Async });
    }
    if serialize_cache_config(&(Cache::Distributed { mode: Mode::Sync })) == owned {
        return Some(Cache::Distributed { mode: Mode::Sync });
    }
    if serialize_cache_config(&(Cache::Distributed { mode: Mode::Async })) == owned {
        return Some(Cache::Distributed { mode: Mode::Async });
    }
    if serialize_cache_config(&(Cache::Invalidation { mode: Mode::Sync })) == owned {
        return Some(Cache::Invalidation { mode: Mode::Sync });
    }
    if serialize_cache_config(&(Cache::Invalidation { mode: Mode::Async })) == owned {
        return Some(Cache::Invalidation { mode: Mode::Async });
    }
    None
}

/// Round trip: reading back the serialized form of any topology
/// configuration yields that configuration again.
pub proof fn lemma_cache_config_round_trip(a: Cache, b: Cache)
    requires
        spec_cache_json(a) == spec_cache_json(b),
    ensures
        a == b,
{
    lemma_cache_json_injective();
}

/// The resource path of a named cache: the fixed segment and the escaped
/// name.
pub open spec fn cache_path(name: Seq<char>) -> Seq<char> {
    "/v2/caches/"@ + escaped(name)
}

fn cache_path_of(name: &str) -> (r: String)
    ensures
        r@ == cache_path(name@),
{
    let mut p = String::from_str("/v2/caches/");
    let e = escape_component(name);
    p.append(e.as_str());
    p
}

/// The descriptor that creates a cache: it posts the configuration JSON.
pub open spec fn is_cache_create(r: RequestDescriptor, name: Seq<char>, c: Cache) -> bool {
    &&& r.method == Method::Post
    &&& r.path@ == cache_path(name)
    &&& pairs_view(r.params@) == Seq::<(Seq<char>, Seq<char>)>::empty()
    &&& pairs_view(r.headers@) == seq![("Content-Type"@, "application/json"@)]
    &&& body_view(r.body) == Some(spec_cache_json(c))
}

/// Creates a cache with the given topology configuration.
pub fn create(name: &str, config: &Cache) -> (r: RequestDescriptor)
    requires
        name@.len() > 0,
    ensures
        is_cache_create(r, name@, *config),
{
    let body = serialize_cache_config(config);
    let mut headers: Vec<(String, String)> = Vec::new();
    headers.push((String::from_str("Content-Type"), String::from_str("application/json")));
    proof {
        assert(pairs_view(headers@) =~= seq![("Content-Type"@, "application/json"@)]);
        assert(pairs_view(Seq::<(String, String)>::empty()) =~= Seq::<(
            Seq<char>,
            Seq<char>,
        )>::empty());
    }
    RequestDescriptor {
        method: Method::Post,
        path: cache_path_of(name),
        params: Vec::new(),
        headers,
        body: Some(body),
    }
}

/// Creates a cache with the local (non-clustered) topology.
pub fn create_local(name: &str) -> (r: RequestDescriptor)
    requires
        name@.len() > 0,
    ensures
        is_cache_create(r, name@, Cache::Local),
{
    create(name, &Cache::Local)
}

/// Creates a cache with the synchronously replicated topology.
pub fn create_replicated_sync(name: &str) -> (r: RequestDescriptor)
    requires
        name@.len() > 0,
    ensures
        is_cache_create(r, name@, Cache::Replicated { mode: Mode::Sync }),
{
    create(name, &(Cache::Replicated { mode: Mode::Sync }))
}

/// Creates a cache with the asynchronously replicated topology.
pub fn create_replicated_async(name: &str) -> (r: RequestDescriptor)
    requires
        name@.len() > 0,
    ensures
        is_cache_create(r, name@, Cache::Replicated { mode: Mode::Async }),
{
    create(name, &(Cache::Replicated { mode: Mode::Async }))
}

/// Creates a cache with the synchronously distributed topology.
pub fn create_distributed_sync(name: &str) -> (r: RequestDescriptor)
    requires
        name@.len() > 0,
    ensures
        is_cache_create(r, name@, Cache::Distributed { mode: Mode::Sync }),
{
    create(name, &(Cache::Distributed { mode: Mode::Sync }))
}

/// Creates a cache with the asynchronously distributed topology.
pub fn create_distributed_async(name: &str) -> (r: RequestDescriptor)
    requires
        name@.len() > 0,
    ensures
        is_cache_create(r, name@, Cache::Distributed { mode: Mode::Async }),
{
    create(name, &(Cache::Distributed { mode: Mode::Async }))
}

/// Creates a cache with the synchronous invalidation topology.
pub fn create_invalidation_sync(name: &str) -> (r: RequestDescriptor)
    requires
        name@.len() > 0,
    ensures
        is_cache_create(r, name@, Cache::Invalidation { mode: Mode::Sync }),
{
    create(name, &(Cache::Invalidation { mode: Mode::Sync }))
}

/// Creates a cache with the asynchronous invalidation topology.
pub fn create_invalidation_async(name: &str) -> (r: RequestDescriptor)
    requires
        name@.len() > 0,
    ensures
        is_cache_create(r, name@, Cache::Invalidation { mode: Mode::Async }),
{
    create(name, &(Cache::Invalidation { mode: Mode::Async }))
}

/// Reads a cache's full description.
pub fn get(name: &str) -> (r: RequestDescriptor)
    requires
        name@.len() > 0,
    ensures
        is_plain_request(r, Method::Get, cache_path(name@)),
{
    bare_request(Method::Get, cache_path_of(name))
}

/// Reads a cache's configuration.
pub fn get_config(name: &str) -> (r: RequestDescriptor)
    requires
        name@.len() > 0,
    ensures
        is_action_request(r, Method::Get, cache_path(name@), "config"@),
{
    action_request(Method::Get, cache_path_of(name), "config")
}

/// Deletes a cache.
pub fn delete(name: &str) -> (r: RequestDescriptor)
    requires
        name@.len() > 0,
    ensures
        is_plain_request(r, Method::Delete, cache_path(name@)),
{
    bare_request(Method::Delete, cache_path_of(name))
}

/// Asks whether a cache exists.
pub fn exists_req(name: &str) -> (r: RequestDescriptor)
    requires
        name@.len() > 0,
    ensures
        is_plain_request(r, Method::Head, cache_path(name@)),
{
    bare_request(Method::Head, cache_path_of(name))
}

/// Lists the names of all caches.
pub fn list() -> (r: RequestDescriptor)
    ensures
        is_plain_request(r, Method::Get, "/v2/caches"@),
{
    bare_request(Method::Get, String::from_str("/v2/caches"))
}

/// Removes every entry of a cache.
pub fn clear(name: &str) -> (r: RequestDescriptor)
    requires
        name@.len() > 0,
    ensures
        is_action_request(r, Method::Post, cache_path(name@), "clear"@),
{
    action_request(Method::Post, cache_path_of(name), "clear")
}

/// Reads the number of entries of a cache.
pub fn size(name: &str) -> (r: RequestDescriptor)
    requires
        name@.len() > 0,
    ensures
        is_action_request(r, Method::Get, cache_path(name@), "size"@),
{
    action_request(Method::Get, cache_path_of(name), "size")
}

/// Reads a cache's statistics.
pub fn stats(name: &str) -> (r: RequestDescriptor)
    requires
        name@.len() > 0,
    ensures
        is_action_request(r, Method::Get, cache_path(name@), "stats"@),
{
    action_request(Method::Get, cache_path_of(name), "stats")
}

/// Lists the keys of a cache.
pub fn keys(name: &str) -> (r: RequestDescriptor)
    requires
        name@.len() > 0,
    ensures
        is_action_request(r, Method::Get, cache_path(name@), "keys"@),
{
    action_request(Method::Get, cache_path_of(name), "keys")
}

} // verus!
