use infinispan::request::caches::{deserialize_cache_config, serialize_cache_config, Cache, Mode};
use infinispan::request::counters::{
    deserialize_counter_config, serialize_counter_config, CounterConfig,
};
use infinispan::text::{i64_dec, u64_dec};

fn cache_variants() -> Vec<Cache> {
    vec![
        Cache::Local,
        Cache::Replicated { mode: Mode::Sync },
        Cache::Replicated { mode: Mode::Async },
        Cache::Distributed { mode: Mode::Sync },
        Cache::Distributed { mode: Mode::Async },
        Cache::Invalidation { mode: Mode::Sync },
        Cache::Invalidation { mode: Mode::Async },
    ]
}

#[test]
fn cache_config_round_trip_every_variant() {
    for c in cache_variants() {
        let text = serialize_cache_config(&c);
        assert_eq!(deserialize_cache_config(text.as_str()), Some(c));
    }
}

#[test]
fn cache_config_exact_json() {
    assert_eq!(serialize_cache_config(&Cache::Local), "{\"local-cache\":{}}");
    assert_eq!(
        serialize_cache_config(&Cache::Replicated { mode: Mode::Sync }),
        "{\"replicated-cache\":{\"mode\":\"SYNC\"}}"
    );
    assert_eq!(
        serialize_cache_config(&Cache::Distributed { mode: Mode::Async }),
        "{\"distributed-cache\":{\"mode\":\"ASYNC\"}}"
    );
    assert_eq!(
        serialize_cache_config(&Cache::Invalidation { mode: Mode::Sync }),
        "{\"invalidation-cache\":{\"mode\":\"SYNC\"}}"
    );
}

#[test]
fn cache_config_rejects_other_text() {
    assert_eq!(deserialize_cache_config(""), None);
    assert_eq!(deserialize_cache_config("{\"local-cache\":{}} "), None);
    assert_eq!(deserialize_cache_config("{\"replicated-cache\":{\"mode\":\"sync\"}}"), None);
}

#[test]
fn cache_topology_equality() {
    let local = deserialize_cache_config("{\"replicated-cache\":{\"mode\":\"SYNC\"}}");
    assert_eq!(local, Some(Cache::Replicated { mode: Mode::Sync }));
    assert_ne!(
        Cache::Replicated { mode: Mode::Sync },
        Cache::Replicated { mode: Mode::Async }
    );
    assert_ne!(
        Cache::Replicated { mode: Mode::Sync },
        Cache::Distributed { mode: Mode::Sync }
    );
}

#[test]
fn counter_config_round_trip_every_variant() {
    let cases = vec![
        CounterConfig::Weak { initial_value: 0, concurrency: 16 },
        CounterConfig::Weak { initial_value: 10, concurrency: 16 },
        CounterConfig::Weak { initial_value: -5, concurrency: 1 },
        CounterConfig::Weak { initial_value: i64::MIN, concurrency: u32::MAX },
        CounterConfig::Strong { initial_value: 0 },
        CounterConfig::Strong { initial_value: 10 },
        CounterConfig::Strong { initial_value: -1 },
        CounterConfig::Strong { initial_value: i64::MAX },
        CounterConfig::Strong { initial_value: i64::MIN },
    ];
    for c in cases {
        let text = serialize_counter_config(&c);
        assert_eq!(deserialize_counter_config(text.as_str()), Some(c));
    }
}

#[test]
fn counter_config_exact_json() {
    assert_eq!(
        serialize_counter_config(&CounterConfig::Strong { initial_value: 10 }),
        "{\"strong-counter\":{\"initial-value\":10}}"
    );
    assert_eq!(
        serialize_counter_config(&CounterConfig::Weak { initial_value: -7, concurrency: 16 }),
        "{\"weak-counter\":{\"initial-value\":-7,\"concurrency-level\":16}}"
    );
}

#[test]
fn counter_config_rejects_non_canonical_text() {
    assert_eq!(deserialize_counter_config(""), None);
    assert_eq!(deserialize_counter_config("{\"strong-counter\":{\"initial-value\":-0}}"), None);
    assert_eq!(deserialize_counter_config("{\"strong-counter\":{\"initial-value\":007}}"), None);
    assert_eq!(
        deserialize_counter_config("{\"strong-counter\":{\"initial-value\":10}} "),
        None
    );
    assert_eq!(
        deserialize_counter_config("{\"weak-counter\":{\"initial-value\":1}}"),
        None
    );
    assert_eq!(
        deserialize_counter_config("{\"strong-counter\":{\"initial-value\":99999999999999999999}}"),
        None
    );
}

#[test]
fn decimal_spelling_exact() {
    assert_eq!(u64_dec(0), "0");
    assert_eq!(u64_dec(907), "907");
    assert_eq!(u64_dec(u64::MAX), "18446744073709551615");
    assert_eq!(i64_dec(0), "0");
    assert_eq!(i64_dec(-123), "-123");
    assert_eq!(i64_dec(i64::MIN), "-9223372036854775808");
    assert_eq!(i64_dec(i64::MAX), "9223372036854775807");
}
