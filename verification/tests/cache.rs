use forgekit_core::cache::{
    cache_file_name, cache_key_of_file, stale_files, BuildCache, CacheFile, CacheStats, HitRate,
};
use forgekit_core::glob::{glob_regex_source, glob_to_regex};

fn fresh() -> BuildCache {
    BuildCache::new("cache-dir".to_string())
}

#[test]
fn test_cache_creation() {
    let cache = fresh();
    assert_eq!(cache.cache_dir(), "cache-dir");
    let stats = cache.stats();
    assert_eq!(stats.item_count, 0);
    assert_eq!(stats.total_size, 0);
}

#[test]
fn cache_test_set_and_get() {
    let mut cache = fresh();
    let data = vec![1, 2, 3, 4, 5];
    cache.set("test_key", data.clone());
    let retrieved = cache.get("test_key", None);
    assert_eq!(retrieved, Some(data));
}

#[test]
fn test_cache_miss() {
    let mut cache = fresh();
    let retrieved = cache.get("nonexistent", None);
    assert_eq!(retrieved, None);
}

#[test]
fn test_clear_cache() {
    let mut cache = fresh();
    cache.set("key1", vec![1, 2, 3]);
    cache.set("key2", vec![4, 5, 6]);
    cache.clear();
    assert_eq!(cache.get("key1", None), None);
    assert_eq!(cache.get("key2", None), None);
}

#[test]
fn test_cache_stats() {
    let mut cache = fresh();
    cache.set("key1", vec![1, 2, 3]);
    cache.set("key2", vec![4, 5, 6]);
    let _ = cache.get("key1", None);
    let _ = cache.get("key1", None);
    let _ = cache.get("nonexistent", None);
    let stats = cache.stats();
    assert_eq!(stats.item_count, 2);
    assert_eq!(stats.hits, 2);
    assert_eq!(stats.misses, 1);
    assert_eq!(stats.total_size, 6);
}

#[test]
fn test_invalidate_pattern() {
    let mut cache = fresh();
    cache.set("build_1", vec![1, 2, 3]);
    cache.set("build_2", vec![4, 5, 6]);
    cache.set("test_1", vec![7, 8, 9]);
    cache.invalidate("build_*");
    assert_eq!(cache.get("build_1", None), None);
    assert_eq!(cache.get("build_2", None), None);
    assert_eq!(cache.get("test_1", None), Some(vec![7, 8, 9]));
}

#[test]
fn test_load_from_disk() {
    let mut cache = fresh();
    let files = vec![CacheFile { name: "test_key.cache".to_string(), data: vec![1, 2, 3] }];
    cache.load_from_disk(&files);
    assert!(cache.in_memory("test_key"));
}

#[test]
fn hit_rate_is_hits_over_lookups() {
    let mut cache = fresh();
    assert_eq!(cache.get("missing", None), None);
    let s1 = cache.stats();
    assert_eq!((s1.hits, s1.misses), (0, 1));
    cache.set("missing", vec![9]);
    assert_eq!(s1.misses, cache.stats().misses);
    assert_eq!(cache.get("missing", None), Some(vec![9]));
    let s2 = cache.stats();
    assert_eq!((s2.hits, s2.misses), (1, 1));
    assert_eq!(cache.get("missing", None), Some(vec![9]));
    let s3 = cache.stats();
    assert_eq!((s3.hits, s3.misses), (2, 1));
    let rate = s3.hit_rate();
    assert_eq!(rate, HitRate { numerator: 2, denominator: 3 });
    let as_float = rate.numerator as f64 / rate.denominator as f64;
    assert!((as_float - 2.0 / 3.0).abs() < 1e-12);
}

#[test]
fn hit_rate_without_lookups_is_zero() {
    let stats = CacheStats::new();
    assert_eq!(stats.hit_rate(), HitRate { numerator: 0, denominator: 1 });
    assert_eq!(CacheStats::default(), stats);
}

#[test]
fn disk_warm_up_serves_the_file() {
    let mut cache = fresh();
    let files = vec![
        CacheFile { name: "notes.txt".to_string(), data: vec![0] },
        CacheFile { name: "foo.cache".to_string(), data: vec![10, 20, 30] },
    ];
    cache.load_from_disk(&files);
    let before = cache.stats();
    assert_eq!((before.hits, before.misses), (0, 0));
    assert_eq!(before.item_count, 1);
    assert!(!cache.in_memory("notes.txt"));
    assert_eq!(cache.get("foo", None), Some(vec![10, 20, 30]));
    let after = cache.stats();
    assert_eq!((after.hits, after.misses), (1, 0));
}

#[test]
fn disk_fallback_counts_as_hit_and_is_kept() {
    let mut cache = fresh();
    assert!(!cache.in_memory("blob"));
    assert_eq!(cache.get("blob", Some(vec![4, 2])), Some(vec![4, 2]));
    assert!(cache.in_memory("blob"));
    assert_eq!(cache.get("blob", None), Some(vec![4, 2]));
    let stats = cache.stats();
    assert_eq!((stats.hits, stats.misses, stats.item_count, stats.total_size), (2, 0, 1, 2));
}

#[test]
fn lookups_can_be_counted() {
    let mut cache = fresh();
    assert!(cache.can_count_lookup());
    let _ = cache.get("k", None);
    assert!(cache.can_count_lookup());
    assert!(cache.payload_fits());
}

#[test]
fn memory_wins_over_disk() {
    let mut cache = fresh();
    cache.set("k", vec![1]);
    assert_eq!(cache.get("k", Some(vec![2])), Some(vec![1]));
}

#[test]
fn set_overwrites_in_place() {
    let mut cache = fresh();
    cache.set("a", vec![1]);
    cache.set("b", vec![2, 2]);
    cache.set("a", vec![3, 3, 3]);
    let stats = cache.stats();
    assert_eq!(stats.item_count, 2);
    assert_eq!(stats.total_size, 5);
    assert_eq!(cache.get("a", None), Some(vec![3, 3, 3]));
}

#[test]
fn the_cache_ending_is_taken_off_once() {
    let mut cache = fresh();
    let files = vec![
        CacheFile { name: "x.cache".to_string(), data: vec![1] },
        CacheFile { name: "x.cache.cache".to_string(), data: vec![2] },
        CacheFile { name: "notes.txt".to_string(), data: vec![9] },
    ];
    cache.load_from_disk(&files);
    assert_eq!(cache.stats().item_count, 2);
    assert_eq!(cache.get("x", None), Some(vec![1]));
    assert_eq!(cache.get("x.cache", None), Some(vec![2]));
    assert!(!cache.in_memory("notes.txt"));
    assert!(!cache.in_memory("notes"));
}

#[test]
fn every_key_comes_back_after_a_restart() {
    for key in ["plain", "x.cache", "x.cache.cache", "", "with space", ".cache"] {
        let mut first = fresh();
        first.set(key, vec![7, 7]);
        let files = vec![CacheFile { name: cache_file_name(key), data: vec![7, 7] }];
        let mut second = fresh();
        second.load_from_disk(&files);
        assert_eq!(second.get(key, None), first.get(key, None), "{:?}", key);
        assert_eq!(second.get(key, None), Some(vec![7, 7]), "{:?}", key);
    }
}

#[test]
fn file_names_and_keys() {
    assert_eq!(cache_file_name("build_1"), "build_1.cache");
    assert_eq!(cache_key_of_file("build_1.cache"), Some("build_1".to_string()));
    assert_eq!(cache_key_of_file("x.cache.cache"), Some("x.cache".to_string()));
    assert_eq!(cache_key_of_file(".cache"), Some(String::new()));
    assert_eq!(cache_key_of_file("build_1.tmp"), None);
    assert_eq!(cache_key_of_file("cache"), None);
}

#[test]
fn glob_translation() {
    assert_eq!(glob_regex_source("build_*"), "(?s)^build_.*$");
    assert_eq!(glob_regex_source("a.b?c"), "(?s)^a\\.b.c$");
    assert_eq!(glob_regex_source(""), "(?s)^$");
}

#[test]
fn glob_matching_is_anchored() {
    let m = glob_to_regex("build_*");
    assert!(m.is_match("build_"));
    assert!(m.is_match("build_1"));
    assert!(!m.is_match("rebuild_1"));
    assert!(!m.is_match("build"));
    let q = glob_to_regex("a?c");
    assert!(q.is_match("abc"));
    assert!(!q.is_match("ac"));
    assert!(!q.is_match("abbc"));
    let dot = glob_to_regex("a.c");
    assert!(dot.is_match("a.c"));
    assert!(!dot.is_match("abc"));
}

#[test]
fn wildcards_stand_for_any_character() {
    let star = glob_to_regex("build_*");
    assert!(star.is_match("build_\n1"));
    assert!(star.is_match("build_a\nb\n"));
    assert!(!star.is_match("x\nbuild_1"));
    let one = glob_to_regex("a?c");
    assert!(one.is_match("a\nc"));
    assert!(!one.is_match("a\n\nc"));
    let exact = glob_to_regex("key");
    assert!(!exact.is_match("key\n"));
    let mut cache = fresh();
    cache.set("a\nb", vec![1]);
    cache.set("ab", vec![2]);
    cache.invalidate("a?b");
    assert_eq!(cache.get("a\nb", None), None);
    assert_eq!(cache.get("ab", None), Some(vec![2]));
}

#[test]
fn malformed_pattern_matches_everything() {
    let m = glob_to_regex("build_(");
    assert!(m.is_match("anything"));
    assert!(m.is_match(""));
    let mut cache = fresh();
    cache.set("one", vec![1]);
    cache.set("two", vec![2]);
    cache.invalidate("[");
    assert_eq!(cache.stats().item_count, 0);
}

#[test]
fn star_invalidates_all_and_counters_stay() {
    let mut cache = fresh();
    cache.set("one", vec![1]);
    let _ = cache.get("one", None);
    cache.invalidate("*");
    let stats = cache.stats();
    assert_eq!((stats.item_count, stats.hits, stats.misses), (0, 1, 0));
}

#[test]
fn stale_files_follow_the_pattern() {
    let names = vec![
        "build_1.cache".to_string(),
        "test_1.cache".to_string(),
        "build_2.cache".to_string(),
        "build_3.txt".to_string(),
    ];
    assert_eq!(
        stale_files("build_*", &names),
        vec!["build_1.cache".to_string(), "build_2.cache".to_string()]
    );
    assert_eq!(stale_files("nothing", &names), Vec::<String>::new());
    let nested = vec!["x.cache".to_string(), "x.cache.cache".to_string()];
    assert_eq!(stale_files("x", &nested), vec!["x.cache".to_string()]);
    assert_eq!(stale_files("x.cache", &nested), vec!["x.cache.cache".to_string()]);
    assert_eq!(stale_files("x*", &nested), nested);
}
