use mkworld_overlay::cache::{TtlCache, EVICT_AFTER_MS, FRESH_FOR_MS};
use mkworld_overlay::record::{PlayerRecord, UpstreamRecord};
use mkworld_overlay::transform::transform;

fn record(name: &str) -> PlayerRecord<f64> {
    transform(UpstreamRecord {
        name: name.to_string(),
        country_code: None,
        country_name: None,
        mmr: Some(1000.0),
        max_mmr: None,
        overall_rank: None,
        events_played: None,
        win_rate: Some(0.5),
        win_loss_last_ten: None,
        gain_loss_last_ten: None,
        largest_gain: None,
        average_score: None,
        average_last_ten: None,
        rank: Some("Gold".to_string()),
        mmr_changes: vec![],
    })
}

#[test]
fn windows_are_one_and_two_minutes() {
    assert_eq!(FRESH_FOR_MS, 60_000);
    assert_eq!(EVICT_AFTER_MS, 120_000);
}

#[test]
fn new_cache_holds_nothing() {
    let cache: TtlCache<f64> = TtlCache::new();
    assert!(!cache.holds("foo:mkworld24p"));
    assert_eq!(cache.lookup("foo:mkworld24p", 0), None);
    assert_eq!(cache.stored_at("foo:mkworld24p"), None);
}

#[test]
fn store_then_lookup_returns_the_record() {
    let mut cache = TtlCache::new();
    cache.store("foo:mkworld24p".to_string(), record("Foo"), 1_000);
    assert_eq!(cache.lookup("foo:mkworld24p", 1_000), Some(record("Foo")));
}

#[test]
fn lookup_within_the_window_returns_the_record() {
    let mut cache = TtlCache::new();
    cache.store("foo:mkworld24p".to_string(), record("Foo"), 1_000);
    assert_eq!(cache.lookup("foo:mkworld24p", 1_000 + 59_999), Some(record("Foo")));
}

#[test]
fn lookup_after_sixty_seconds_finds_nothing_fresh() {
    let mut cache = TtlCache::new();
    cache.store("foo:mkworld24p".to_string(), record("Foo"), 1_000);
    assert_eq!(cache.lookup("foo:mkworld24p", 1_000 + 60_000), None);
    assert_eq!(cache.lookup("foo:mkworld24p", 1_000 + 500_000), None);
    assert!(cache.holds("foo:mkworld24p"));
    assert_eq!(cache.stored_at("foo:mkworld24p"), Some(1_000));
}

#[test]
fn lookup_does_not_evict() {
    let mut cache = TtlCache::new();
    cache.store("foo:mkworld24p".to_string(), record("Foo"), 0);
    assert_eq!(cache.lookup("foo:mkworld24p", 1_000_000), None);
    assert!(cache.holds("foo:mkworld24p"));
    assert_eq!(cache.lookup("foo:mkworld24p", 10), Some(record("Foo")));
}

#[test]
fn store_sweeps_other_expired_entries_only() {
    let mut cache = TtlCache::new();
    cache.store("old:mkworld24p".to_string(), record("Old"), 0);
    cache.store("edge:mkworld24p".to_string(), record("Edge"), 30_000);
    cache.store("young:mkworld24p".to_string(), record("Young"), 30_001);
    cache.store("new:mkworld24p".to_string(), record("New"), 150_000);
    assert!(!cache.holds("old:mkworld24p"));
    assert!(!cache.holds("edge:mkworld24p"));
    assert!(cache.holds("young:mkworld24p"));
    assert!(cache.holds("new:mkworld24p"));
    assert_eq!(cache.stored_at("young:mkworld24p"), Some(30_001));
    assert_eq!(cache.lookup("young:mkworld24p", 30_002), Some(record("Young")));
}

#[test]
fn store_replaces_the_entry_of_its_key() {
    let mut cache = TtlCache::new();
    cache.store("foo:mkworld24p".to_string(), record("First"), 0);
    cache.store("foo:mkworld24p".to_string(), record("Second"), 70_000);
    assert_eq!(cache.lookup("foo:mkworld24p", 70_000), Some(record("Second")));
    assert_eq!(cache.stored_at("foo:mkworld24p"), Some(70_000));
}

#[test]
fn store_refreshes_an_expired_entry_of_its_key() {
    let mut cache = TtlCache::new();
    cache.store("foo:mkworld24p".to_string(), record("First"), 0);
    cache.store("foo:mkworld24p".to_string(), record("Second"), 500_000);
    assert_eq!(cache.lookup("foo:mkworld24p", 500_001), Some(record("Second")));
}

#[test]
fn keys_are_compared_exactly() {
    let mut cache = TtlCache::new();
    cache.store("foo:mkworld24p".to_string(), record("Foo"), 0);
    assert_eq!(cache.lookup("foo:mkworld12p", 0), None);
    assert_eq!(cache.lookup("Foo:mkworld24p", 0), None);
    assert_eq!(cache.lookup("foo:mkworld24", 0), None);
}

#[test]
fn clock_gone_back_counts_as_age_zero() {
    let mut cache = TtlCache::new();
    cache.store("foo:mkworld24p".to_string(), record("Foo"), 200_000);
    assert_eq!(cache.lookup("foo:mkworld24p", 5), Some(record("Foo")));
    cache.store("bar:mkworld24p".to_string(), record("Bar"), 5);
    assert!(cache.holds("foo:mkworld24p"));
}

#[test]
fn times_near_the_top_of_the_range() {
    let mut cache = TtlCache::new();
    cache.store("foo:mkworld24p".to_string(), record("Foo"), u64::MAX - 10);
    assert_eq!(cache.lookup("foo:mkworld24p", u64::MAX), Some(record("Foo")));
    cache.store("bar:mkworld24p".to_string(), record("Bar"), u64::MAX);
    assert!(cache.holds("foo:mkworld24p"));
}
