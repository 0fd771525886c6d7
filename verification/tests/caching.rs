//! Tests of the TTL tree cache.

use hgk_desktop::cache::{TreeCache, TTL_MS};
use hgk_desktop::tree::A11yNode;

fn leaf(role: &str, name: &str, bus: &str, path: &str) -> A11yNode {
    A11yNode {
        role: role.to_string(),
        name: name.to_string(),
        bus_name: bus.to_string(),
        path: path.to_string(),
        children: Vec::new(),
    }
}

#[test]
fn cache_round_trip_immediate() {
    let mut cache = TreeCache::new();
    let nodes = vec![leaf("frame", "main", ":1.7", "/org/a11y/root")];
    cache.put(":1.7", "/org/a11y/root", 3, nodes, 1_000);
    let got = cache.get(":1.7", "/org/a11y/root", 3, 1_000).expect("fresh entry");
    assert_eq!(got.len(), 1);
    assert_eq!(got[0].role, "frame");
    assert_eq!(got[0].name, "main");
    assert_eq!(got[0].bus_name, ":1.7");
}

#[test]
fn cache_expires_after_ttl() {
    let mut cache = TreeCache::new();
    cache.put(":1.7", "/r", 2, vec![leaf("frame", "a", ":1.7", "/r")], 1_000);
    assert!(cache.get(":1.7", "/r", 2, 1_000 + TTL_MS - 1).is_some());
    assert!(cache.get(":1.7", "/r", 2, 1_000 + TTL_MS).is_none());
}

#[test]
fn cache_key_includes_depth() {
    let mut cache = TreeCache::new();
    cache.put(":1.7", "/r", 2, vec![leaf("frame", "a", ":1.7", "/r")], 0);
    assert!(cache.get(":1.7", "/r", 3, 0).is_none());
    assert!(cache.get(":1.7", "/other", 2, 0).is_none());
    assert!(cache.get(":1.8", "/r", 2, 0).is_none());
    assert!(cache.get(":1.7", "/r", 2, 0).is_some());
}

#[test]
fn cache_put_overwrites() {
    let mut cache = TreeCache::new();
    cache.put(":1.7", "/r", 2, vec![leaf("frame", "old", ":1.7", "/r")], 0);
    cache.put(":1.7", "/r", 2, vec![leaf("frame", "new", ":1.7", "/r")], 10);
    assert_eq!(cache.len(), 1);
    let got = cache.get(":1.7", "/r", 2, 10).expect("entry");
    assert_eq!(got[0].name, "new");
}

#[test]
fn invalidate_bus_removes_exactly_that_bus() {
    let mut cache = TreeCache::new();
    cache.put(":1.7", "/r", 2, vec![leaf("frame", "a", ":1.7", "/r")], 0);
    cache.put(":1.7", "/r", 3, vec![leaf("frame", "a", ":1.7", "/r")], 0);
    cache.put(":1.8", "/r", 2, vec![leaf("frame", "b", ":1.8", "/r")], 0);
    cache.invalidate_bus(":1.7");
    assert_eq!(cache.len(), 1);
    assert!(cache.get(":1.7", "/r", 2, 0).is_none());
    assert!(cache.get(":1.7", "/r", 3, 0).is_none());
    assert!(cache.get(":1.8", "/r", 2, 0).is_some());
}

#[test]
fn clear_empties_the_cache() {
    let mut cache = TreeCache::new();
    cache.put(":1.7", "/r", 2, vec![leaf("frame", "a", ":1.7", "/r")], 0);
    cache.put(":1.8", "/r", 2, vec![leaf("frame", "b", ":1.8", "/r")], 0);
    cache.clear();
    assert_eq!(cache.len(), 0);
    assert!(cache.get(":1.7", "/r", 2, 0).is_none());
}

#[test]
fn evict_expired_keeps_fresh_entries() {
    let mut cache = TreeCache::new();
    cache.put(":1.7", "/r", 2, vec![leaf("frame", "a", ":1.7", "/r")], 0);
    cache.put(":1.8", "/r", 2, vec![leaf("frame", "b", ":1.8", "/r")], 4_000);
    cache.evict_expired(5_500);
    assert_eq!(cache.len(), 1);
    assert!(cache.get(":1.7", "/r", 2, 5_500).is_none());
    assert!(cache.get(":1.8", "/r", 2, 5_500).is_some());
}
