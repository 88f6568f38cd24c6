use plansight::grouping::{
    fingerprint_for, hex_fingerprint, FingerprintCache, FingerprintResolver, GrouperIntake,
    GROUP_RETENTION_WARN_THRESHOLD, MAX_FINGERPRINT_CACHE_ENTRIES,
};
use plansight::models::DateFilter;

#[test]
fn fingerprint_cache_evicts_least_recently_used() {
    let mut cache = FingerprintCache::with_capacity(2);
    cache.insert(1, "a".to_string());
    cache.insert(2, "b".to_string());
    // Touch key 1 so key 2 becomes the least-recently-used.
    assert_eq!(cache.get(1).as_deref(), Some("a"));
    // Inserting a third key evicts the LRU (key 2), not key 1.
    cache.insert(3, "c".to_string());
    assert_eq!(cache.get(2), None, "LRU entry must be evicted");
    assert_eq!(cache.get(1).as_deref(), Some("a"), "touched entry survives");
    assert_eq!(cache.get(3).as_deref(), Some("c"));
    assert_eq!(cache.len(), 2, "cache stays bounded at its capacity");
}

#[test]
fn fingerprint_cache_reinsert_refreshes_without_growing() {
    let mut cache = FingerprintCache::with_capacity(2);
    cache.insert(1, "a".to_string());
    cache.insert(1, "a2".to_string()); // same key updates in place
    assert_eq!(cache.len(), 1);
    assert_eq!(cache.get(1).as_deref(), Some("a2"));
}

#[test]
fn fingerprint_cache_zero_cap_is_unbounded() {
    let mut cache = FingerprintCache::with_capacity(0);
    for i in 0..10 {
        cache.insert(i, format!("f{i}"));
    }
    assert_eq!(cache.len(), 10, "cap 0 disables eviction");
}

#[test]
fn cache_clear_and_default() {
    let mut cache = FingerprintCache::default();
    assert!(cache.is_empty());
    cache.insert(7, "x".to_string());
    assert!(!cache.is_empty());
    cache.clear();
    assert_eq!(cache.len(), 0);
    assert_eq!(cache.get(7), None);
    assert_eq!(MAX_FINGERPRINT_CACHE_ENTRIES, 100_000);
}

#[test]
fn eviction_follows_recency_over_many_inserts() {
    let mut cache = FingerprintCache::with_capacity(3);
    for i in 0..3u64 {
        cache.insert(i, format!("f{i}"));
    }
    // Recency now 0 < 1 < 2; touch 0, then 1 is the oldest.
    assert!(cache.get(0).is_some());
    cache.insert(10, "g".to_string());
    assert_eq!(cache.get(1), None);
    // Then 2 is the oldest.
    cache.insert(11, "h".to_string());
    assert_eq!(cache.get(2), None);
    assert_eq!(cache.get(0).as_deref(), Some("f0"));
    assert_eq!(cache.len(), 3);
}

#[test]
fn hex_fingerprint_is_sixteen_lowercase_digits() {
    assert_eq!(hex_fingerprint(0), "0000000000000000");
    assert_eq!(hex_fingerprint(0xdead_beef), "00000000deadbeef");
    assert_eq!(hex_fingerprint(u64::MAX), "ffffffffffffffff");
    assert_eq!(hex_fingerprint(0x0123_4567_89ab_cdef), format!("{:016x}", 0x0123_4567_89ab_cdefu64));
}

#[test]
fn query_hash_is_xxh3_of_the_text() {
    // Without a normaliser the fingerprint is the text's XXH3 hash in hex.
    let mut cache = FingerprintCache::with_capacity(10);
    let one = fingerprint_for(&mut cache, "SELECT 1", |_t: &str| None);
    assert_eq!(one, format!("{:016x}", xxhash_rust::xxh3::xxh3_64(b"SELECT 1")));
    let two = fingerprint_for(&mut cache, "SELECT 2", |_t: &str| None);
    assert_ne!(one, two);
    // The hash of the empty input is the XXH3 default-secret value.
    assert_eq!(fingerprint_for(&mut cache, "", |_t: &str| None), "2d06800538d394c2");
}

#[test]
fn fingerprint_for_uses_the_normalizer_then_the_cache() {
    let mut cache = FingerprintCache::with_capacity(10);
    let f = fingerprint_for(&mut cache, "SELECT 1", |_t: &str| Some("select ?".to_string()));
    assert_eq!(f, "select ?");
    assert_eq!(cache.len(), 1);
    // A hit answers from the cache without consulting the normalizer.
    let g = fingerprint_for(&mut cache, "SELECT 1", |_t: &str| -> Option<String> { panic!("normalizer called on a hit") });
    assert_eq!(g, "select ?");
}

#[test]
fn fingerprint_for_falls_back_to_the_hash() {
    let mut cache = FingerprintCache::with_capacity(10);
    let text = "SELEC broken";
    let f = fingerprint_for(&mut cache, text, |_t: &str| None);
    assert_eq!(f, format!("{:016x}", xxhash_rust::xxh3::xxh3_64(text.as_bytes())));
    assert_eq!(f.len(), 16);
}

#[test]
fn resolver_memoises_the_previous_text() {
    let mut r = FingerprintResolver::with_capacity(10);
    let a = r.fingerprint("SELECT 1", |_t: &str| Some("fp1".to_string()));
    assert_eq!(a, "fp1");
    // The memo answers the same text again without asking the normalizer.
    let b = r.fingerprint("SELECT 1", |_t: &str| -> Option<String> { panic!("memo missed") });
    assert_eq!(b, "fp1");
    let c = r.fingerprint("SELECT 2", |_t: &str| Some("fp2".to_string()));
    assert_eq!(c, "fp2");
    assert_eq!(r.cache_size(), 2);
    r.clear();
    assert_eq!(r.cache_size(), 0);
}

#[test]
fn intake_window_and_cap() {
    let filter = DateFilter::new(Some(100), Some(200));
    let mut g = GrouperIntake::new().with_filter(filter).with_max_plans(2);
    assert!(!g.offer(50), "before the window");
    assert!(!g.truncated());
    assert!(g.offer(100));
    assert!(g.offer(200));
    assert!(g.is_full());
    assert!(!g.offer(150), "past the cap");
    assert!(g.truncated());
    assert_eq!(g.accepted(), 2);
    g.reset_batch();
    assert_eq!(g.accepted(), 0);
    assert!(!g.truncated());
}

#[test]
fn intake_unlimited_and_merge() {
    let mut a = GrouperIntake::new();
    for t in 0..5 {
        assert!(a.offer(t));
    }
    let mut b = GrouperIntake::new().with_max_plans(1);
    assert!(b.offer(0));
    assert!(!b.offer(1));
    a.merge(&b);
    assert_eq!(a.accepted(), 6);
    assert!(a.truncated());
    a.set_max_plans(6);
    assert!(a.is_full());
}

#[test]
fn high_cardinality_warning_fires_once() {
    let mut g = GrouperIntake::new().with_group_warn_threshold(3);
    assert!(!g.note_group_count(2));
    assert!(g.note_group_count(3));
    assert!(g.warned_high_cardinality());
    assert!(!g.note_group_count(10), "only once per grouper");
    g.reset_batch();
    assert!(g.warned_high_cardinality(), "not reset per batch");
    assert!(!GrouperIntake::new().note_group_count(GROUP_RETENTION_WARN_THRESHOLD - 1));
}
