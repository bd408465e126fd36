//! The identifier cache and its persisted text form: get-or-create
//! semantics, identifier freshness, and the serialize/parse round trip.

use esbuild_bundle::cache::BundleCache;
use esbuild_bundle::codec::{parse_cache, serialize_cache};

fn is_alnum(c: char) -> bool {
    c.is_ascii_alphanumeric()
}

#[test]
fn fresh_identifier_is_32_alphanumeric_characters() {
    let mut cache = BundleCache::empty();
    let (id, is_new) = cache.get_or_create("src/app.ts");
    assert!(is_new);
    assert_eq!(id.len(), 32);
    assert!(id.chars().all(is_alnum));
}

#[test]
fn get_or_create_is_idempotent() {
    let mut cache = BundleCache::empty();
    let (first, first_new) = cache.get_or_create("src/app.ts");
    let (second, second_new) = cache.get_or_create("src/app.ts");
    assert!(first_new);
    assert!(!second_new);
    assert_eq!(first, second);
    assert_eq!(cache.len(), 1);
}

#[test]
fn existing_entry_keeps_its_identifier() {
    let entries = vec![(String::from("src/app.ts"), String::from("Zz0123456789Zz0123456789Zz012345"))];
    let mut cache = BundleCache::from_entries(entries).unwrap();
    let (id, is_new) = cache.get_or_create("src/app.ts");
    assert!(!is_new);
    assert_eq!(id, "Zz0123456789Zz0123456789Zz012345");
    assert_eq!(cache.len(), 1);
}

#[test]
fn distinct_entry_points_get_distinct_entries() {
    let mut cache = BundleCache::empty();
    let (a, _) = cache.get_or_create("src/a.ts");
    let (_b, _) = cache.get_or_create("src/b.ts");
    assert_eq!(cache.len(), 2);
    let (a_again, is_new) = cache.get_or_create("src/a.ts");
    assert!(!is_new);
    assert_eq!(a, a_again);
}

#[test]
fn repeated_keys_are_refused() {
    let entries = vec![
        (String::from("src/a.ts"), String::from("x")),
        (String::from("src/a.ts"), String::from("y")),
    ];
    assert!(BundleCache::from_entries(entries).is_none());
}

#[test]
fn round_trip_reproduces_the_mapping() {
    let entries = vec![
        (String::from("src/app.ts"), String::from("A0b1C2d3E4f5G6h7I8j9K0l1M2n3O4p5")),
        (String::from("lib/other.ts"), String::from("q6R7s8T9u0V1w2X3y4Z5a6B7c8D9e0F1")),
    ];
    let cache = BundleCache::from_entries(entries.clone()).unwrap();
    let text = serialize_cache(&cache);
    let reparsed = parse_cache(text.as_str()).unwrap();
    assert_eq!(reparsed, entries);
}

#[test]
fn round_trip_of_the_empty_cache() {
    let cache = BundleCache::empty();
    let text = serialize_cache(&cache);
    assert_eq!(text, "{}");
    let reparsed = parse_cache(text.as_str()).unwrap();
    assert!(reparsed.is_empty());
}

#[test]
fn round_trip_with_escaped_characters() {
    let entries = vec![
        (String::from("weird \"name\".ts"), String::from("id1")),
        (String::from("back\\slash\nand\ttabs"), String::from("id2")),
    ];
    let cache = BundleCache::from_entries(entries.clone()).unwrap();
    let text = serialize_cache(&cache);
    let reparsed = parse_cache(text.as_str()).unwrap();
    assert_eq!(reparsed, entries);
}

#[test]
fn serialized_form_is_pretty_printed_json() {
    let entries = vec![
        (String::from("src/app.ts"), String::from("X")),
        (String::from("src/lib.ts"), String::from("Y")),
    ];
    let cache = BundleCache::from_entries(entries).unwrap();
    let text = serialize_cache(&cache);
    assert_eq!(text, "{\n  \"src/app.ts\": \"X\",\n  \"src/lib.ts\": \"Y\"\n}");
    let independent: std::collections::HashMap<String, String> =
        serde_json::from_str(&text).unwrap();
    assert_eq!(independent.get("src/app.ts").map(String::as_str), Some("X"));
    assert_eq!(independent.get("src/lib.ts").map(String::as_str), Some("Y"));
    assert_eq!(independent.len(), 2);
}

#[test]
fn parser_accepts_externally_written_json() {
    let text = "{\n  \"src/app.ts\": \"abc\",\n  \"oddly \\\"quoted\\\"\": \"def\"\n}";
    let parsed = parse_cache(text).unwrap();
    assert_eq!(
        parsed,
        vec![
            (String::from("src/app.ts"), String::from("abc")),
            (String::from("oddly \"quoted\""), String::from("def")),
        ]
    );
}

#[test]
fn parser_rejects_malformed_text() {
    assert!(parse_cache("").is_none());
    assert!(parse_cache("not json").is_none());
    assert!(parse_cache("{\"a\": \"b\"").is_none());
    assert!(parse_cache("{\"a\": 3}").is_none());
    assert!(parse_cache("{\"a\": \"b\"} trailing").is_none());
}
