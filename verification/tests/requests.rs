use infinispan::request::caches::{self, Cache, Mode};
use infinispan::request::counters::{self, CounterConfig};
use infinispan::request::entries;
use infinispan::request::Method;

fn pair(k: &str, v: &str) -> (String, String) {
    (k.to_string(), v.to_string())
}

#[test]
fn create_local_descriptor() {
    let d = caches::create_local("test_cache");
    assert_eq!(d.method, Method::Post);
    assert_eq!(d.path, "/v2/caches/test_cache");
    assert!(d.params.is_empty());
    assert_eq!(d.headers, vec![pair("Content-Type", "application/json")]);
    assert_eq!(d.body, Some("{\"local-cache\":{}}".to_string()));
}

#[test]
fn create_topologies_carry_their_json() {
    let d = caches::create_replicated_sync("x");
    assert_eq!(d.body, Some("{\"replicated-cache\":{\"mode\":\"SYNC\"}}".to_string()));
    let d = caches::create_distributed_async("x");
    assert_eq!(d.body, Some("{\"distributed-cache\":{\"mode\":\"ASYNC\"}}".to_string()));
    let d = caches::create(
        "x",
        &Cache::Invalidation { mode: Mode::Async },
    );
    assert_eq!(d.body, Some("{\"invalidation-cache\":{\"mode\":\"ASYNC\"}}".to_string()));
}

#[test]
fn cache_operations_have_fixed_shapes() {
    let d = caches::get("c");
    assert_eq!((d.method, d.path.as_str()), (Method::Get, "/v2/caches/c"));
    assert!(d.params.is_empty() && d.body.is_none());

    let d = caches::delete("c");
    assert_eq!(d.method, Method::Delete);

    let d = caches::exists_req("c");
    assert_eq!(d.method, Method::Head);

    let d = caches::list();
    assert_eq!((d.method, d.path.as_str()), (Method::Get, "/v2/caches"));

    let d = caches::get_config("c");
    assert_eq!(d.params, vec![pair("action", "config")]);

    let d = caches::clear("c");
    assert_eq!((d.method, d.params[0].1.as_str()), (Method::Post, "clear"));

    let d = caches::size("c");
    assert_eq!(d.params, vec![pair("action", "size")]);

    let d = caches::stats("c");
    assert_eq!(d.params, vec![pair("action", "stats")]);

    let d = caches::keys("c");
    assert_eq!(d.params, vec![pair("action", "keys")]);
}

#[test]
fn resource_names_are_escaped() {
    let d = caches::get("my cache/1");
    assert_eq!(d.path, "/v2/caches/my%20cache%2F1");
    let d = entries::get("c", "k y");
    assert_eq!(d.path, "/v2/caches/c/keys/k%20y");
}

#[test]
fn translation_is_deterministic() {
    let d = caches::size("test_cache");
    let a = d.to_http_req("http://localhost:11222");
    let b = d.to_http_req("http://localhost:11222");
    assert_eq!(a.method, b.method);
    assert_eq!(a.uri, b.uri);
    assert_eq!(a.headers, b.headers);
    assert_eq!(a.body, b.body);
    assert_eq!(a.uri, "http://localhost:11222/v2/caches/test_cache?action=size");
}

#[test]
fn refinement_order_is_irrelevant() {
    let one = entries::create("c", "k")
        .with_value("a_value".to_string())
        .with_ttl(5)
        .request();
    let two = entries::create("c", "k")
        .with_ttl(5)
        .with_value("a_value".to_string())
        .request();
    assert_eq!(one.method, two.method);
    assert_eq!(one.path, two.path);
    assert_eq!(one.params, two.params);
    assert_eq!(one.headers, two.headers);
    assert_eq!(one.body, two.body);
}

#[test]
fn ttl_parameter_is_emitted_only_when_set() {
    let bare = entries::create("c", "k").request();
    assert!(bare.params.iter().all(|p| p.0 != "ttl"));
    assert!(bare.params.is_empty());

    let with = entries::create("c", "k").with_ttl(5).request();
    let ttls: Vec<_> = with.params.iter().filter(|p| p.0 == "ttl").collect();
    assert_eq!(ttls.len(), 1);
    assert_eq!(ttls[0].1, "5");
}

#[test]
fn entry_operations_have_fixed_shapes() {
    let d = entries::create("some_cache", "some_entry")
        .with_value("a_value".to_string())
        .request();
    assert_eq!(d.method, Method::Post);
    assert_eq!(d.path, "/v2/caches/some_cache/keys/some_entry");
    assert_eq!(d.body, Some("a_value".to_string()));

    let d = entries::update("c", "k", "new_val");
    assert_eq!(d.method, Method::Put);
    assert_eq!(d.body, Some("new_val".to_string()));

    let d = entries::exists_req("c", "k");
    assert_eq!(d.method, Method::Head);
    let d = entries::delete("c", "k");
    assert_eq!(d.method, Method::Delete);
}

#[test]
fn weak_counter_descriptor_defaults() {
    let b = counters::create_weak("test_counter");
    assert_eq!(b.config, CounterConfig::Weak { initial_value: 0, concurrency: 16 });
    let d = b.request();
    assert_eq!(d.method, Method::Post);
    assert_eq!(d.path, "/v2/counters/test_counter");
    assert_eq!(
        d.body,
        Some("{\"weak-counter\":{\"initial-value\":0,\"concurrency-level\":16}}".to_string())
    );
}

#[test]
fn strong_counter_descriptor_with_value() {
    let d = counters::create_strong("c1").with_value(10).request();
    assert_eq!(d.body, Some("{\"strong-counter\":{\"initial-value\":10}}".to_string()));
}

#[test]
fn counter_lifecycle_descriptors() {
    let create = counters::create_strong("c1").with_value(10).request();
    assert_eq!(create.path, "/v2/counters/c1");

    let inc = counters::increment("c1").by_delta(2).request();
    assert_eq!(inc.method, Method::Post);
    assert_eq!(inc.params, vec![pair("action", "increment"), pair("delta", "2")]);

    let read = counters::get("c1");
    assert_eq!((read.method, read.path.as_str()), (Method::Get, "/v2/counters/c1"));

    let cas = counters::compare_and_set("c1", 12, 20);
    assert_eq!(
        cas.params,
        vec![pair("action", "compareAndSet"), pair("expect", "12"), pair("update", "20")]
    );

    let stale = counters::compare_and_set("c1", 12, 30);
    assert_eq!(stale.params[1], pair("expect", "12"));
}

#[test]
fn counter_operations_have_fixed_shapes() {
    let d = counters::increment("c").request();
    assert_eq!(d.params, vec![pair("action", "increment")]);

    let d = counters::decrement("c");
    assert_eq!(d.params, vec![pair("action", "decrement")]);

    let d = counters::reset("c");
    assert_eq!(d.params, vec![pair("action", "reset")]);

    let d = counters::get_config("c");
    assert_eq!((d.method, d.path.as_str()), (Method::Get, "/v2/counters/c/config"));

    let d = counters::delete("c");
    assert_eq!(d.method, Method::Delete);

    let d = counters::list();
    assert_eq!((d.method, d.path.as_str()), (Method::Get, "/v2/counters"));

    let d = counters::compare_and_swap("c", -1, 7);
    assert_eq!(
        d.params,
        vec![pair("action", "compareAndSwap"), pair("expect", "-1"), pair("update", "7")]
    );
}
