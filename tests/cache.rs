use stonks::cache::{elapsed_secs, TimedCache, NANOS_PER_SEC};

const SEC: u64 = NANOS_PER_SEC;

#[test]
fn fresh_value_is_a_hit() {
    let mut c: TimedCache<u8, String> = TimedCache::with_lifespan(10);
    c.cache_set_at(1, "one".to_string(), 5 * SEC);
    assert_eq!(c.cache_get_at(&1, 5 * SEC), Some(&"one".to_string()));
    assert_eq!(c.cache_hits(), Some(1));
    assert_eq!(c.cache_misses(), Some(0));
}

#[test]
fn value_expires_after_lifespan_and_is_evicted() {
    let mut c: TimedCache<u8, String> = TimedCache::with_lifespan(10);
    c.cache_set_at(1, "one".to_string(), 0);
    assert_eq!(c.cache_get_at(&1, 10 * SEC - 1), Some(&"one".to_string()));
    assert_eq!(c.cache_get_at(&1, 10 * SEC), None);
    assert_eq!(c.cache_size(), 0);
    assert_eq!(c.cache_get_at(&1, 0), None);
    assert_eq!(c.cache_hits(), Some(1));
    assert_eq!(c.cache_misses(), Some(2));
}

#[test]
fn missing_key_is_a_miss_without_other_effect() {
    let mut c: TimedCache<u8, u32> = TimedCache::with_lifespan(10);
    c.cache_set_at(1, 7, 0);
    assert_eq!(c.cache_get_at(&2, 0), None);
    assert_eq!(c.cache_size(), 1);
    assert_eq!(c.cache_misses(), Some(1));
}

#[test]
fn counters_sum_to_number_of_reads() {
    let mut c: TimedCache<u8, u32> = TimedCache::with_lifespan(3);
    c.cache_set_at(1, 10, 0);
    c.cache_set_at(2, 20, 0);
    let reads: [(u8, u64); 6] = [(1, 0), (2, SEC), (3, SEC), (1, 4 * SEC), (1, 4 * SEC), (2, 2 * SEC)];
    let mut last_hits = 0;
    let mut last_misses = 0;
    for (key, now) in reads.iter() {
        c.cache_get_at(key, *now);
        let hits = c.cache_hits().unwrap();
        let misses = c.cache_misses().unwrap();
        assert!(hits >= last_hits && misses >= last_misses);
        last_hits = hits;
        last_misses = misses;
    }
    c.cache_remove(&2);
    c.cache_clear();
    assert_eq!(last_hits + last_misses, 6);
    assert_eq!(c.cache_hits(), Some(3));
    assert_eq!(c.cache_misses(), Some(3));
}

#[test]
fn shortened_lifespan_makes_next_read_a_miss() {
    let mut c: TimedCache<u8, u32> = TimedCache::with_lifespan(100);
    c.cache_set_at(1, 10, 0);
    assert_eq!(c.cache_get_at(&1, 50 * SEC), Some(&10));
    c.cache_set_lifespan(20);
    assert_eq!(c.cache_lifespan(), Some(20));
    assert_eq!(c.cache_get_at(&1, 50 * SEC), None);
    assert_eq!(c.cache_misses(), Some(1));
    assert_eq!(c.cache_size(), 0);
}

#[test]
fn zero_lifespan_never_hits() {
    let mut c: TimedCache<u8, u32> = TimedCache::with_lifespan(0);
    c.cache_set_at(1, 10, 0);
    assert_eq!(c.cache_get_at(&1, 0), None);
}

#[test]
fn set_overwrites_and_restamps() {
    let mut c: TimedCache<u8, u32> = TimedCache::with_lifespan(10);
    c.cache_set_at(1, 10, 0);
    c.cache_set_at(1, 11, 8 * SEC);
    assert_eq!(c.cache_get_at(&1, 15 * SEC), Some(&11));
    assert_eq!(c.cache_hits(), Some(1));
    assert_eq!(c.cache_size(), 1);
}

#[test]
fn remove_returns_value_even_when_stale() {
    let mut c: TimedCache<u8, u32> = TimedCache::with_lifespan(1);
    c.cache_set_at(1, 10, 0);
    assert_eq!(c.cache_remove(&1), Some(10));
    assert_eq!(c.cache_remove(&1), None);
    assert_eq!(c.cache_hits(), Some(0));
    assert_eq!(c.cache_misses(), Some(0));
}

#[test]
fn clear_and_reset_keep_counters() {
    let mut c: TimedCache<u8, u32> = TimedCache::with_lifespan_and_capacity(10, 4);
    c.cache_set_at(1, 10, 0);
    c.cache_get_at(&1, 0);
    c.cache_clear();
    assert_eq!(c.cache_size(), 0);
    c.cache_set_at(2, 20, 0);
    c.cache_get_at(&3, 0);
    c.cache_reset();
    assert_eq!(c.cache_size(), 0);
    assert_eq!(c.cache_hits(), Some(1));
    assert_eq!(c.cache_misses(), Some(1));
    assert_eq!(c.cache_lifespan(), Some(10));
}

#[test]
fn get_mut_changes_value_and_keeps_stamp() {
    let mut c: TimedCache<u8, u32> = TimedCache::with_lifespan(10);
    c.cache_set_at(1, 10, 0);
    if let Some(v) = c.cache_get_mut_at(&1, SEC) {
        *v = 99;
    }
    assert_eq!(c.cache_get_at(&1, 9 * SEC), Some(&99));
    assert_eq!(c.cache_get_mut_at(&1, 10 * SEC), None);
    assert_eq!(c.cache_hits(), Some(2));
    assert_eq!(c.cache_misses(), Some(1));
}

#[test]
fn clock_backed_operations() {
    let mut c: TimedCache<String, u32> = TimedCache::with_lifespan(3600);
    c.cache_set("k".to_string(), 5);
    assert_eq!(c.cache_get(&"k".to_string()), Some(&5));
    if let Some(v) = c.cache_get_mut(&"k".to_string()) {
        *v = 6;
    }
    assert_eq!(c.cache_get(&"k".to_string()), Some(&6));
    assert_eq!(c.cache_get(&"other".to_string()), None);
}

#[test]
fn elapsed_seconds_are_whole_and_saturate() {
    assert_eq!(elapsed_secs(0, 2 * SEC + SEC / 2), 2);
    assert_eq!(elapsed_secs(5 * SEC, SEC), 0);
    assert_eq!(elapsed_secs(SEC, SEC), 0);
}
