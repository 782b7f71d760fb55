use rustisaur_stdlib::store::cache::{CacheStats, CacheStore, CachedValue};
use rustisaur_stdlib::store::counter::wrap_inc;
use rustisaur_stdlib::store::db::{
    after_open_failure, blob_hex, insert_sql, open_failure_message, DatabaseStats,
    MAX_OPEN_ATTEMPTS,
};

fn text(v: &CachedValue) -> &str {
    match v {
        CachedValue::String(s) => s.as_str(),
        _ => panic!("expected a string"),
    }
}

#[test]
fn get_after_set_gives_the_value() {
    let mut c = CacheStore::new();
    c.set_at("k".to_string(), CachedValue::String("v".to_string()), None, 1_000);
    let got = c.get_at("k", 5_000_000).unwrap();
    assert_eq!(text(&got), "v");
    assert_eq!(c.get_stats(), (1, 0, 1, 0, 0));
}

#[test]
fn entries_expire_after_their_time_to_live() {
    let mut c = CacheStore::new();
    c.set_at("k".to_string(), CachedValue::Boolean(true), Some(2), 10_000);
    assert!(c.get_at("k", 2_000_010_000).is_some());
    assert!(c.get_at("k", 2_000_010_001).is_none());
    assert_eq!(c.len(), 0);
    assert_eq!(c.get_stats(), (1, 1, 1, 0, 1));
}

#[test]
fn huge_time_to_live_saturates() {
    let mut c = CacheStore::new();
    c.set_at("k".to_string(), CachedValue::Nil, Some(u64::MAX), 5);
    assert!(c.get_at("k", u64::MAX).is_some());
}

#[test]
fn missing_and_deleted_keys() {
    let mut c = CacheStore::new();
    assert!(c.get_at("nope", 0).is_none());
    c.set_at("a".to_string(), CachedValue::Number(1.5f64.to_bits()), None, 0);
    assert!(c.delete("a"));
    assert!(!c.delete("a"));
    assert!(c.get_at("a", 0).is_none());
    assert_eq!(c.get_stats(), (0, 2, 1, 1, 0));
}

#[test]
fn existence_checks_evict_expired_entries() {
    let mut c = CacheStore::with_capacity(8);
    c.set_at("x".to_string(), CachedValue::Nil, Some(1), 0);
    assert!(c.key_exists_at("x", 1_000_000_000));
    assert!(!c.key_exists_at("x", 1_000_000_001));
    assert!(!c.key_exists_at("x", 0));
    assert_eq!(c.get_stats(), (0, 0, 1, 0, 1));
}

#[test]
fn clock_reading_operations() {
    let mut c = CacheStore::default();
    c.set("a".to_string(), CachedValue::String("1".to_string()), Some(3600));
    assert!(c.key_exists("a"));
    assert!(c.get("a").is_some());
    assert_eq!(c.cleanup_expired(), 0);
    c.batch_set(vec![("b".to_string(), CachedValue::Nil, None)]);
    let got = c.batch_get(&["a".to_string(), "zz".to_string()]);
    assert!(got[0].is_some() && got[1].is_none());
}

#[test]
fn cleanup_removes_exactly_the_expired_entries() {
    let mut c = CacheStore::new();
    c.set_at("old".to_string(), CachedValue::Nil, Some(1), 0);
    c.set_at("new".to_string(), CachedValue::Nil, Some(100), 0);
    c.set_at("forever".to_string(), CachedValue::Nil, None, 0);
    assert_eq!(c.cleanup_expired_at(50_000_000_000), 1);
    let mut keys = c.keys();
    keys.sort();
    assert_eq!(keys, vec!["forever".to_string(), "new".to_string()]);
    assert_eq!(c.get_stats().4, 1);
    assert_eq!(c.cleanup_expired_at(50_000_000_000), 0);
}

#[test]
fn clear_len_and_keys() {
    let mut c = CacheStore::new();
    assert!(c.is_empty());
    c.set_at("a".to_string(), CachedValue::Nil, None, 0);
    c.set_at("b".to_string(), CachedValue::Nil, None, 0);
    c.set_at("a".to_string(), CachedValue::Boolean(false), None, 0);
    assert_eq!(c.len(), 2);
    assert!(!c.is_empty());
    c.clear();
    assert_eq!(c.len(), 0);
    assert!(c.keys().is_empty());
    assert_eq!(c.get_stats().2, 3);
}

#[test]
fn increments_keep_the_expiry_and_refuse_non_numbers() {
    let mut c = CacheStore::new();
    assert_eq!(c.number_for_incr("n"), Ok(None));
    c.store_number("n", 2.0f64.to_bits());
    assert_eq!(c.number_for_incr("n"), Ok(Some(2.0f64.to_bits())));
    c.set_at("t".to_string(), CachedValue::Nil, Some(1), 0);
    assert_eq!(c.number_for_incr("t"), Ok(None));
    c.store_number("t", 5.0f64.to_bits());
    assert!(c.get_at("t", 2_000_000_000).is_none());
    c.set_at("s".to_string(), CachedValue::String("x".to_string()), None, 0);
    assert_eq!(c.number_for_incr("s"), Err("Value is not a number".to_string()));
    let got = c.get_at("n", 0).unwrap();
    match *got {
        CachedValue::Number(bits) => assert_eq!(f64::from_bits(bits), 2.0),
        _ => panic!("expected a number"),
    }
}

#[test]
fn batch_operations() {
    let mut c = CacheStore::new();
    c.batch_set_at(
        vec![
            ("a".to_string(), CachedValue::String("1".to_string()), None),
            ("b".to_string(), CachedValue::String("2".to_string()), Some(1)),
            ("a".to_string(), CachedValue::String("3".to_string()), None),
        ],
        0,
    );
    assert_eq!(c.len(), 2);
    let got = c.batch_get_at(&["a".to_string(), "b".to_string(), "c".to_string()], 5_000_000_000);
    assert_eq!(text(got[0].as_ref().unwrap()), "3");
    assert!(got[1].is_none());
    assert!(got[2].is_none());
    assert_eq!(c.batch_delete(&["a".to_string(), "a".to_string(), "q".to_string()]), 1);
    assert_eq!(c.get_stats(), (1, 2, 3, 1, 1));
}

#[test]
fn table_values_are_stored_whole() {
    let mut c = CacheStore::new();
    let table = CachedValue::Table(vec![(
        CachedValue::String("k".to_string()),
        CachedValue::Table(vec![(CachedValue::Number(1), CachedValue::Boolean(true))]),
    )]);
    c.set_at("t".to_string(), table, None, 0);
    let got = c.get_at("t", 0).unwrap();
    match &*got {
        CachedValue::Table(pairs) => {
            assert_eq!(pairs.len(), 1);
            assert_eq!(text(&pairs[0].0), "k");
        },
        _ => panic!("expected a table"),
    }
}

#[test]
fn cache_counters_wrap() {
    let mut s = CacheStats { hits: u64::MAX, misses: 0, sets: 0, deletes: 0, evictions: 0 };
    s.record_hit();
    s.record_miss();
    s.record_set();
    s.record_delete();
    s.record_eviction();
    assert_eq!((s.hits, s.misses, s.sets, s.deletes, s.evictions), (0, 1, 1, 1, 1));
    assert_eq!(wrap_inc(41), 42);
}

// ----------------------------------------------------------------------
// SQLite bookkeeping
// ----------------------------------------------------------------------

#[test]
fn statements_are_counted_by_their_first_word() {
    let mut s = DatabaseStats::default();
    s.record_statement("insert into t values (1)");
    s.record_statement("UPDATE t SET a = 2");
    s.record_statement("delete from t");
    s.record_statement("  INSERT INTO t VALUES (3)");
    s.record_statement("CREATE TABLE x (a)");
    assert_eq!((s.inserts, s.updates, s.deletes), (1, 1, 1));
    s.record_query();
    s.record_transaction();
    s.record_error();
    s.record_insert();
    s.record_update();
    s.record_delete();
    assert_eq!((s.queries, s.inserts, s.updates, s.deletes, s.transactions, s.errors), (1, 2, 2, 2, 1, 1));
}

#[test]
fn batch_insert_statement() {
    let cols = vec!["name".to_string(), "age".to_string()];
    assert_eq!(insert_sql("people", &cols), "INSERT INTO people (name, age) VALUES (?, ?)");
    let none: Vec<String> = Vec::new();
    assert_eq!(insert_sql("t", &none), "INSERT INTO t () VALUES ()");
}

#[test]
fn blobs_read_as_hex() {
    assert_eq!(blob_hex(&[0x00, 0x0f, 0xa5, 0xff]), "000fa5ff");
    assert_eq!(blob_hex(&[]), "");
    assert_eq!(blob_hex(&[1, 2, 3]).len(), 6);
}

#[test]
fn opening_is_tried_three_times() {
    assert_eq!(MAX_OPEN_ATTEMPTS, 3);
    assert_eq!(after_open_failure(0), (1, Some(100)));
    assert_eq!(after_open_failure(1), (2, Some(200)));
    assert_eq!(after_open_failure(2), (3, None));
    assert_eq!(
        open_failure_message("locked"),
        "Failed to open database after 3 attempts: locked"
    );
}

#[test]
fn setting_a_key_leaves_the_others_alone() {
    let mut c = CacheStore::new();
    c.set_at("a".to_string(), CachedValue::String("x".to_string()), None, 0);
    c.set_at("b".to_string(), CachedValue::String("y".to_string()), None, 0);
    c.set_at("b".to_string(), CachedValue::String("z".to_string()), None, 0);
    assert_eq!(text(&c.get_at("a", 0).unwrap()), "x");
    assert_eq!(text(&c.get_at("b", 0).unwrap()), "z");
}

#[test]
fn zero_ttl_lives_until_the_next_nanosecond() {
    let mut c = CacheStore::new();
    c.set_at("z".to_string(), CachedValue::Nil, Some(0), 7);
    assert!(c.get_at("z", 7).is_some());
    assert!(c.get_at("z", 8).is_none());
}
