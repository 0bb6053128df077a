use fetch_cache::cache::{Cache, EntryState, FetchError};

#[test]
fn ensure_twice_schedules_one_fetch() {
    // A test-double fetcher counts how many population tasks were scheduled.
    let mut cache: Cache<Vec<u8>> = Cache::new();
    let mut fetches: u32 = 0;
    if cache.ensure(String::from("a")) {
        fetches += 1;
    }
    if cache.ensure(String::from("a")) {
        fetches += 1;
    }
    assert_eq!(fetches, 1);
    assert_eq!(cache.len(), 1);
}

#[test]
fn get_unknown_then_pending() {
    let mut cache: Cache<u64> = Cache::new();
    let key = String::from("https://example.test/r.png");
    // never requested: unknown, not Pending
    assert!(cache.get(&key).is_none());
    cache.ensure(key.clone());
    // requested but not yet completed: Pending, not unknown
    assert!(matches!(cache.get(&key), Some(EntryState::Pending)));
}

#[test]
fn terminal_state_persists() {
    let mut cache: Cache<u64> = Cache::new();
    let key = String::from("k");
    assert!(cache.ensure(key.clone()));
    assert!(cache.complete(&key, Ok(7)));
    assert!(matches!(cache.get(&key), Some(EntryState::Ready(7))));
    // a later write-back for the same key is discarded
    assert!(!cache.complete(&key, Err(FetchError::Network)));
    assert!(matches!(cache.get(&key), Some(EntryState::Ready(7))));
    // ensure does not disturb a terminal entry either
    assert!(!cache.ensure(key.clone()));
    assert!(matches!(cache.get(&key), Some(EntryState::Ready(7))));
}

#[test]
fn failed_key_reports_failed_never_ready() {
    let mut cache: Cache<u64> = Cache::new();
    let key = String::from("bad");
    assert!(cache.ensure(key.clone()));
    // the fetcher is configured to fail for this key
    assert!(cache.complete(&key, Err(FetchError::Decode)));
    assert!(matches!(cache.get(&key), Some(EntryState::Failed)));
    // and it stays Failed
    assert!(!cache.complete(&key, Ok(1)));
    assert!(matches!(cache.get(&key), Some(EntryState::Failed)));
}

#[test]
fn clear_then_ensure_refetches() {
    let mut cache: Cache<u64> = Cache::new();
    let key = String::from("k");
    assert!(cache.ensure(key.clone()));
    assert!(cache.complete(&key, Ok(3)));
    cache.clear();
    assert!(cache.get(&key).is_none());
    // a stale task from before the clear writes back: discarded, harmless
    assert!(!cache.complete(&key, Ok(3)));
    assert!(cache.get(&key).is_none());
    // a fresh ensure schedules exactly one new fetch
    assert!(cache.ensure(key.clone()));
    assert!(!cache.ensure(key.clone()));
    assert!(matches!(cache.get(&key), Some(EntryState::Pending)));
    // the new task's result lands
    assert!(cache.complete(&key, Ok(4)));
    assert!(matches!(cache.get(&key), Some(EntryState::Ready(4))));
}

#[test]
fn stale_write_lands_in_fresh_pending_entry() {
    // clear, re-ensure, then the *old* task's result arrives first: it lands
    // in the fresh Pending entry, which the fresh task's write then finds
    // terminal and leaves alone.
    let mut cache: Cache<u64> = Cache::new();
    let key = String::from("k");
    cache.ensure(key.clone());
    cache.clear();
    cache.ensure(key.clone());
    assert!(cache.complete(&key, Ok(1)));
    assert!(!cache.complete(&key, Ok(2)));
    assert!(matches!(cache.get(&key), Some(EntryState::Ready(1))));
}

#[test]
fn hundred_keys_fetched_exactly_once_each() {
    // 100 distinct keys ensured by 10 interleaved callers: each key is
    // requested by every caller, yet each is fetched exactly once.
    let mut cache: Cache<u64> = Cache::new();
    let mut fetch_counts = [0u32; 100];
    for caller in 0..10 {
        for k in 0..100 {
            let key = format!("https://example.test/{}.png", (k + caller * 7) % 100);
            if cache.ensure(key) {
                fetch_counts[(k + caller * 7) % 100] += 1;
            }
        }
    }
    assert_eq!(cache.len(), 100);
    for k in 0..100 {
        assert_eq!(fetch_counts[k], 1);
    }
    // after all population tasks settle, every entry is terminal
    for k in 0..100 {
        let key = format!("https://example.test/{}.png", k);
        assert!(cache.complete(&key, Ok(k as u64)));
    }
    for k in 0..100 {
        let key = format!("https://example.test/{}.png", k);
        assert!(matches!(cache.get(&key), Some(EntryState::Ready(_))));
    }
    assert_eq!(cache.len(), 100);
}

#[test]
fn empty_cache_len_and_get() {
    let cache: Cache<u64> = Cache::new();
    assert_eq!(cache.len(), 0);
    assert!(cache.get(&String::new()).is_none());
}

#[test]
fn empty_string_is_a_key_like_any_other() {
    let mut cache: Cache<u64> = Cache::new();
    let key = String::new();
    assert!(cache.ensure(key.clone()));
    assert!(matches!(cache.get(&key), Some(EntryState::Pending)));
    assert_eq!(cache.len(), 1);
}

#[test]
fn complete_for_never_requested_key_is_discarded() {
    let mut cache: Cache<u64> = Cache::new();
    let key = String::from("never");
    assert!(!cache.complete(&key, Ok(9)));
    assert!(cache.get(&key).is_none());
    assert_eq!(cache.len(), 0);
}
