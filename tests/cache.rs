use airtable_proxy::cache::{RequestCache, Stats};
use airtable_proxy::json::JsonValue;
use std::cell::Cell;

fn text(s: &str) -> JsonValue {
    JsonValue::Text(s.to_string())
}

fn is_text(v: &JsonValue, s: &str) -> bool {
    matches!(v, JsonValue::Text(t) if t == s)
}

#[test]
fn fresh_cache_counts_nothing() {
    let cache = RequestCache::new();
    assert_eq!(cache.stats(), Stats { hits: 0, misses: 0 });
}

#[test]
fn second_lookup_is_served_without_producer() {
    let mut cache = RequestCache::new();
    let first_calls = Cell::new(0u32);
    let second_calls = Cell::new(0u32);
    let r1: Result<JsonValue, ()> = cache.get_or_insert_with("k".to_string(), |_| {
        first_calls.set(first_calls.get() + 1);
        Ok(text("v1"))
    });
    let r2: Result<JsonValue, ()> = cache.get_or_insert_with("k".to_string(), |_| {
        second_calls.set(second_calls.get() + 1);
        Ok(text("v2"))
    });
    assert_eq!(first_calls.get(), 1);
    assert_eq!(second_calls.get(), 0);
    assert!(is_text(&r1.unwrap(), "v1"));
    assert!(is_text(&r2.unwrap(), "v1"));
    assert_eq!(cache.stats(), Stats { hits: 1, misses: 1 });
}

#[test]
fn producer_gets_the_key() {
    let mut cache = RequestCache::new();
    let r: Result<JsonValue, ()> = cache.get_or_insert_with("https://x/y".to_string(), |k| Ok(JsonValue::Text(k)));
    assert!(is_text(&r.unwrap(), "https://x/y"));
}

#[test]
fn failed_producer_stores_nothing() {
    let mut cache = RequestCache::new();
    let r: Result<JsonValue, &str> = cache.get_or_insert_with("k".to_string(), |_| Err("down"));
    assert_eq!(r.unwrap_err(), "down");
    let calls = Cell::new(0u32);
    let again: Result<JsonValue, &str> = cache.get_or_insert_with("k".to_string(), |_| {
        calls.set(calls.get() + 1);
        Ok(text("up"))
    });
    assert_eq!(calls.get(), 1);
    assert!(is_text(&again.unwrap(), "up"));
    assert_eq!(cache.stats(), Stats { hits: 0, misses: 2 });
}

#[test]
fn clear_resets_counters_and_forgets_entries() {
    let mut cache = RequestCache::new();
    let _: Result<JsonValue, ()> = cache.get_or_insert_with("k".to_string(), |_| Ok(text("v")));
    let _: Result<JsonValue, ()> = cache.get_or_insert_with("k".to_string(), |_| Ok(text("v")));
    assert_eq!(cache.stats(), Stats { hits: 1, misses: 1 });
    cache.clear();
    assert_eq!(cache.stats(), Stats { hits: 0, misses: 0 });
    let calls = Cell::new(0u32);
    let _: Result<JsonValue, ()> = cache.get_or_insert_with("k".to_string(), |_| {
        calls.set(calls.get() + 1);
        Ok(text("fresh"))
    });
    assert_eq!(calls.get(), 1);
    assert_eq!(cache.stats(), Stats { hits: 0, misses: 1 });
}

#[test]
fn distinct_keys_are_distinct_entries() {
    let mut cache = RequestCache::new();
    cache.insert("a".to_string(), text("1"));
    cache.insert("b".to_string(), text("2"));
    cache.insert("a".to_string(), text("3"));
    assert!(is_text(&cache.get(&"a".to_string()).unwrap(), "1"));
    assert!(is_text(&cache.get(&"b".to_string()).unwrap(), "2"));
    assert!(cache.get(&"c".to_string()).is_none());
    assert_eq!(cache.stats(), Stats { hits: 0, misses: 0 });
}
