use wrkflw_actions::action::{ActionType, ResolvedAction};
use wrkflw_actions::cache::{BoundedCache, MAX_CACHE_ENTRIES};

#[test]
fn test_cache_respects_max_capacity() {
    let mut cache = BoundedCache::new();
    // Fill beyond capacity
    for i in 0..MAX_CACHE_ENTRIES + 10 {
        cache.insert(
            format!("owner/repo@v{}", i),
            ResolvedAction {
                action_type: ActionType::Node { version: 20 },
                definition: None,
            },
        );
    }
    assert!(
        cache.len() <= MAX_CACHE_ENTRIES,
        "Cache size {} exceeds max {}",
        cache.len(),
        MAX_CACHE_ENTRIES
    );
    // Oldest entries should have been evicted
    assert!(cache.get("owner/repo@v0").is_none());
    // Newest entries should still be present
    assert!(cache
        .get(&format!("owner/repo@v{}", MAX_CACHE_ENTRIES + 9))
        .is_some());
}

#[test]
fn test_cache_duplicate_insert_does_not_grow() {
    let mut cache = BoundedCache::new();
    cache.insert(
        "owner/repo@v1".to_string(),
        ResolvedAction {
            action_type: ActionType::Node { version: 20 },
            definition: None,
        },
    );
    cache.insert(
        "owner/repo@v1".to_string(),
        ResolvedAction {
            action_type: ActionType::Node { version: 16 },
            definition: None,
        },
    );
    assert_eq!(cache.len(), 1);
    // Value should be updated
    match &cache.get("owner/repo@v1").unwrap().action_type {
        ActionType::Node { version } => assert_eq!(*version, 16),
        other => panic!("Expected Node, got {:?}", other),
    }
}

fn node(version: u32) -> ResolvedAction {
    ResolvedAction {
        action_type: ActionType::Node { version },
        definition: None,
    }
}

#[test]
fn the_newest_entries_are_kept() {
    let mut cache = BoundedCache::new();
    assert_eq!(cache.len(), 0);
    for i in 0..300u32 {
        cache.insert(format!("k{}", i), node(i));
        assert_eq!(cache.len(), std::cmp::min(i as usize + 1, 256));
    }
    for i in 0..300u32 {
        let expected = node(i);
        let expected = if i < 44 { None } else { Some(&expected) };
        assert_eq!(cache.get(&format!("k{}", i)), expected);
    }
}

#[test]
fn a_duplicate_keeps_its_place() {
    let mut cache = BoundedCache::new();
    for i in 0..256u32 {
        cache.insert(format!("k{}", i), node(i));
    }
    // Neither a new value nor a reading makes the oldest entry younger.
    cache.insert("k0".to_string(), node(1000));
    assert_eq!(cache.len(), 256);
    assert_eq!(cache.get("k0"), Some(&node(1000)));
    cache.insert("new".to_string(), node(1));
    assert_eq!(cache.len(), 256);
    assert_eq!(cache.get("k0"), None);
    assert_eq!(cache.get("k1"), Some(&node(1)));
    assert_eq!(cache.get("new"), Some(&node(1)));
}
