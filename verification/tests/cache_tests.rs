use ohms_agent::cache::CacheService;
use ohms_agent::cache::DEFAULT_MAX_CACHE_SIZE;
use ohms_agent::memory::MemoryService;

#[test]
fn test_put_get_round_trip() {
    let mut cache = CacheService::new(100);
    cache.put("a".to_string(), vec![1, 2, 3], 1).unwrap();
    assert_eq!(cache.get("a", 2), Some(vec![1, 2, 3]));
    assert_eq!(cache.get("missing", 3), None);
    assert_eq!(cache.len(), 1);
}

#[test]
fn test_eviction_evicts_exactly_the_lru_entry() {
    // Budget 10, entries of sizes 4, 4, 4 inserted and accessed in order
    // A, B, C, then A again; inserting a new entry of size 5 evicts exactly
    // B — the least recently used resident — and not C.
    let mut cache = CacheService::new(10);
    cache.put("A".to_string(), vec![0; 4], 1).unwrap();
    cache.put("B".to_string(), vec![0; 4], 2).unwrap();
    // C does not fit beside A and B: the oldest entry A is evicted.
    cache.put("C".to_string(), vec![0; 4], 3).unwrap();
    assert!(!cache.contains_key("A"));
    assert!(cache.contains_key("B"));
    assert!(cache.contains_key("C"));
    // Accessing A is a miss and does not touch recency of B or C.
    assert_eq!(cache.get("A", 4), None);
    // D of size 5 needs room: exactly B — the oldest — leaves; C stays.
    cache.put("D".to_string(), vec![0; 5], 5).unwrap();
    assert!(!cache.contains_key("B"));
    assert!(cache.contains_key("C"));
    assert!(cache.contains_key("D"));
    assert_eq!(cache.utilization(), (9, 10));
}

#[test]
fn test_get_touch_protects_from_eviction() {
    let mut cache = CacheService::new(10);
    cache.put("A".to_string(), vec![0; 4], 1).unwrap();
    cache.put("B".to_string(), vec![0; 4], 2).unwrap();
    // Touch A: B becomes the least recently used.
    assert!(cache.get("A", 3).is_some());
    cache.put("C".to_string(), vec![0; 4], 4).unwrap();
    assert!(cache.contains_key("A"));
    assert!(!cache.contains_key("B"));
    assert!(cache.contains_key("C"));
}

#[test]
fn test_utilization_accounting() {
    // After any sequence of puts and gets, utilization reports the true sum
    // of resident entry sizes over the budget.
    let mut cache = CacheService::new(100);
    assert_eq!(cache.utilization(), (0, 100));
    cache.put("a".to_string(), vec![9; 10], 1).unwrap();
    assert_eq!(cache.utilization(), (10, 100));
    cache.put("b".to_string(), vec![9; 20], 2).unwrap();
    assert_eq!(cache.utilization(), (30, 100));
    // Replacement under the same key does not double count.
    cache.put("a".to_string(), vec![9; 40], 3).unwrap();
    assert_eq!(cache.utilization(), (60, 100));
    // Gets never change the total.
    assert!(cache.get("a", 4).is_some());
    assert!(cache.get("nope", 5).is_none());
    assert_eq!(cache.utilization(), (60, 100));
    // Eviction keeps the books straight.
    cache.put("c".to_string(), vec![9; 50], 6).unwrap();
    assert_eq!(cache.utilization(), (90, 100));
    assert!(!cache.contains_key("b"));
}

#[test]
fn test_oversized_entry_drains_cache_and_enters() {
    // An entry larger than the whole budget drains the cache and is still
    // inserted; the budget is momentarily exceeded by that one entry.
    let mut cache = CacheService::new(10);
    cache.put("a".to_string(), vec![1; 4], 1).unwrap();
    cache.put("big".to_string(), vec![2; 25], 2).unwrap();
    assert!(!cache.contains_key("a"));
    assert!(cache.contains_key("big"));
    assert_eq!(cache.utilization(), (25, 10));
    assert_eq!(cache.len(), 1);
}

#[test]
fn test_prefetch_layers_inserts_placeholders() {
    let mut cache = CacheService::with_default_budget();
    assert_eq!(cache.utilization().1, DEFAULT_MAX_CACHE_SIZE);
    let ids = vec!["l1".to_string(), "l2".to_string()];
    cache.prefetch_layers(&ids, 1).unwrap();
    assert!(cache.contains_key("l1"));
    assert!(cache.contains_key("l2"));
    let data = cache.get("l1", 2).unwrap();
    assert_eq!(data.len(), 1024 * 1024);
    assert!(data.iter().all(|&b| b == 0));
}

#[test]
fn test_keys_in_residence_order() {
    let mut cache = CacheService::new(100);
    cache.put("b".to_string(), vec![1], 1).unwrap();
    cache.put("a".to_string(), vec![2], 2).unwrap();
    assert_eq!(cache.keys(), vec!["b".to_string(), "a".to_string()]);
}

#[test]
fn test_memory_store_retrieve_round_trip() {
    let mut mem = MemoryService::new();
    mem.store("k".to_string(), vec![1, 2, 3], 60, true, 0).unwrap();
    assert_eq!(mem.retrieve("k", 1).unwrap(), vec![1, 2, 3]);
    mem.store("p".to_string(), vec![4, 5], 60, false, 0).unwrap();
    assert_eq!(mem.retrieve("p", 1).unwrap(), vec![4, 5]);
    assert_eq!(
        mem.retrieve("absent", 1).unwrap_err(),
        ohms_agent::errors::AgentError::NotFound
    );
}

#[test]
fn test_memory_expiry() {
    let mut mem = MemoryService::new();
    mem.store("k".to_string(), vec![1], 1, false, 0).unwrap();
    // One second is a billion nanoseconds; past that the entry is gone.
    assert!(mem.retrieve("k", 2_000_000_000).is_err());
    assert!(mem.retrieve("k", 0).is_err());

    mem.store("a".to_string(), vec![1], 1, false, 0).unwrap();
    mem.store("b".to_string(), vec![2, 3], 100, true, 0).unwrap();
    mem.clear_expired(2_000_000_000);
    let stats = mem.get_stats(2_000_000_000);
    assert_eq!(stats.total_entries, 1);
    assert_eq!(stats.active_entries, 1);
    assert_eq!(stats.total_size_bytes, 2);
    assert_eq!(stats.encrypted_entries, 1);
}

#[test]
fn test_cipher_involution_and_effect() {
    let data = vec![0u8, 1, 2, 250, 17, 99];
    let enc = MemoryService::encrypt_data(&data);
    assert_ne!(enc, data, "the cipher must change the bytes");
    assert_eq!(MemoryService::decrypt_data(&enc), data);
}
