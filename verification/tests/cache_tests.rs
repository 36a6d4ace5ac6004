use plugin_host::cache::HandlerCache;
use plugin_host::registry::PluginHandle;
use plugin_host::registry::Registry;
use plugin_host::manifest::PluginInfo;
use plugin_host::manifest::PluginInfoWrapper;

fn wrapper(id: &str, name: &str) -> PluginInfoWrapper {
    PluginInfoWrapper::new(
        id.to_string(),
        PluginInfo::new(name, "1.0", "f.so", "u.html"),
        None,
    )
}

#[test]
fn cache_hits_and_misses() {
    let mut cache: HandlerCache<i32> = HandlerCache::new(3);
    assert_eq!(cache.capacity(), 3);
    assert_eq!(cache.get("a"), None);
    cache.put("a", 1);
    cache.put("b", 2);
    assert_eq!(cache.len(), 2);
    assert_eq!(cache.get("a"), Some(1));
    assert_eq!(cache.get("b"), Some(2));
    assert_eq!(cache.get("c"), None);
}

#[test]
fn cache_never_exceeds_capacity_and_evicts_lru() {
    let mut cache: HandlerCache<i32> = HandlerCache::new(2);
    cache.put("a", 1);
    cache.put("b", 2);
    cache.put("c", 3);
    // Capacity 2: inserting a third distinct id evicted the least recently
    // used one, which was "a".
    assert_eq!(cache.len(), 2);
    assert_eq!(cache.get("a"), None);
    assert_eq!(cache.get("b"), Some(2));
    assert_eq!(cache.get("c"), Some(3));
}

#[test]
fn cache_get_refreshes_recency() {
    let mut cache: HandlerCache<i32> = HandlerCache::new(2);
    cache.put("a", 1);
    cache.put("b", 2);
    // Touching "a" makes "b" the least recently used entry.
    assert_eq!(cache.get("a"), Some(1));
    cache.put("c", 3);
    assert_eq!(cache.get("b"), None);
    assert_eq!(cache.get("a"), Some(1));
    assert_eq!(cache.get("c"), Some(3));
}

#[test]
fn cache_put_replaces_value() {
    let mut cache: HandlerCache<i32> = HandlerCache::new(2);
    cache.put("a", 1);
    cache.put("a", 9);
    assert_eq!(cache.len(), 1);
    assert_eq!(cache.get("a"), Some(9));
}

#[test]
fn cache_evict_removes_entry() {
    let mut cache: HandlerCache<i32> = HandlerCache::new(2);
    cache.put("a", 1);
    assert_eq!(cache.evict("a"), Some(1));
    assert_eq!(cache.get("a"), None);
    assert_eq!(cache.evict("a"), None);
}

#[test]
fn registry_insert_replace_remove() {
    let mut reg: Registry<u64> = Registry::new();
    assert!(!reg.contains("x"));
    reg.insert_entry(PluginHandle::new(wrapper("x", "first"), 1));
    reg.insert_entry(PluginHandle::new(wrapper("y", "second"), 2));
    assert_eq!(reg.len(), 2);
    reg.insert_entry(PluginHandle::new(wrapper("x", "third"), 3));
    assert_eq!(reg.len(), 2);
    assert_eq!(reg.get_info("x").unwrap().info.name, "third");
    assert_eq!(*reg.lib_of("x").unwrap(), 3);
    assert_eq!(reg.infos().len(), 2);

    let removed = reg.remove_entry("x").unwrap();
    assert_eq!(removed.info().info.name, "third");
    assert!(!reg.contains("x"));
    assert!(reg.remove_entry("x").is_none());
    assert_eq!(reg.len(), 1);
}
