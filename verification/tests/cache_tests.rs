use retroarch_fast_indexer::cache::{CacheEntry, CacheError, CrcCache, FileMeta, HashStep};

#[test]
fn test_cache_operations() {
    let meta = Some(FileMeta { size: 9, modified: 1000 });

    let mut cache = CrcCache::new();

    // Initially no CRC32
    assert!(cache.get_crc32("/tmp/test.rom", meta, 1).unwrap().is_none());

    // Set CRC32
    cache.set_crc32("/tmp/test.rom", 0x12345678, meta, 2).unwrap();

    // Should now return the CRC32
    assert_eq!(cache.get_crc32("/tmp/test.rom", meta, 3).unwrap(), Some(0x12345678));

    // Save and reload
    let written = cache.save_to_file("/tmp/test_cache.json".to_string());
    let mut reloaded_cache = CrcCache::load_from_file("/tmp/test_cache.json".to_string(), Some(written));

    // Should still have the CRC32
    assert_eq!(reloaded_cache.get_crc32("/tmp/test.rom", meta, 4).unwrap(), Some(0x12345678));
}

#[test]
fn changed_size_or_time_drops_the_entry() {
    let stored = FileMeta { size: 9, modified: 1000 };
    for changed in [FileMeta { size: 10, modified: 1000 }, FileMeta { size: 9, modified: 1001 }] {
        let mut cache = CrcCache::new();
        cache.set_crc32("/r/a.bin", 7, Some(stored), 1).unwrap();
        assert_eq!(cache.get_crc32("/r/a.bin", Some(changed), 2).unwrap(), None);
        // the stale entry is gone, also for the old metadata
        assert_eq!(cache.get_crc32("/r/a.bin", Some(stored), 3).unwrap(), None);
        assert!(cache.entries().is_empty());
    }
}

#[test]
fn lookup_marks_the_entry_as_accessed() {
    let meta = FileMeta { size: 1, modified: 2 };
    let mut cache = CrcCache::new();
    cache.set_crc32("/r/a.bin", 7, Some(meta), 100).unwrap();
    cache.set_crc32("/r/b.bin", 8, Some(meta), 100).unwrap();
    assert_eq!(cache.get_crc32("/r/a.bin", Some(meta), 500).unwrap(), Some(7));
    assert_eq!(
        cache.entries(),
        vec![
            ("/r/a.bin".to_string(), CacheEntry { crc32: 7, file_size: 1, modified_time: 2, last_accessed: 500 }),
            ("/r/b.bin".to_string(), CacheEntry { crc32: 8, file_size: 1, modified_time: 2, last_accessed: 100 }),
        ]
    );
    // a store replaces the entry
    cache.set_crc32("/r/a.bin", 9, Some(FileMeta { size: 3, modified: 4 }), 600).unwrap();
    assert_eq!(cache.get_crc32("/r/a.bin", Some(meta), 700).unwrap(), None);
}

#[test]
fn unreadable_metadata_is_an_error_and_changes_nothing() {
    let mut cache = CrcCache::new();
    assert!(matches!(
        cache.set_crc32("/r/a.bin", 7, None, 1),
        Err(CacheError::MetadataUnreadable(p)) if p == "/r/a.bin"
    ));
    assert!(matches!(cache.get_crc32("/r/a.bin", None, 1), Err(CacheError::MetadataUnreadable(_))));
    assert!(cache.entries().is_empty());
    assert_eq!(cache.auto_save(), None);
}

#[test]
fn save_is_due_for_unsaved_changes_of_a_cache_with_a_file() {
    let meta = Some(FileMeta { size: 1, modified: 2 });
    let mut cache = CrcCache::new();
    cache.set_crc32("/r/a.bin", 7, meta, 1).unwrap();
    assert_eq!(cache.auto_save(), None);
    cache.mark_saved("/c/cache.json".to_string());
    assert_eq!(cache.auto_save(), None);
    assert_eq!(cache.drop(), None);
    cache.get_crc32("/r/missing.bin", meta, 2).unwrap();
    assert_eq!(cache.auto_save(), None);
    cache.get_crc32("/r/a.bin", meta, 2).unwrap();
    assert_eq!(cache.auto_save(), Some("/c/cache.json".to_string()));
    assert_eq!(cache.drop(), Some("/c/cache.json".to_string()));
    let mut loaded = CrcCache::from_entries("/c/other.json".to_string(), cache.entries());
    assert_eq!(loaded.auto_save(), None);
    assert_eq!(loaded.clear(), Some("/c/other.json".to_string()));
    assert!(loaded.entries().is_empty());
    assert_eq!(CrcCache::new().clear(), None);
}

#[test]
fn reading_back_what_was_written_answers_as_before() {
    let mut cache = CrcCache::new();
    for (i, path) in ["/r/a", "/r/b", "/r/c", "/r/b"].iter().enumerate() {
        let meta = FileMeta { size: i as u64, modified: 10 * i as u64 };
        cache.set_crc32(path, i as u32, Some(meta), 5).unwrap();
    }
    let mut reloaded = CrcCache::from_entries("cache.json".to_string(), cache.entries());
    assert_eq!(reloaded.entries(), cache.entries());
    for (path, meta) in [
        ("/r/a", FileMeta { size: 0, modified: 0 }),
        ("/r/b", FileMeta { size: 3, modified: 30 }),
        ("/r/b", FileMeta { size: 1, modified: 10 }),
        ("/r/c", FileMeta { size: 2, modified: 20 }),
        ("/r/d", FileMeta { size: 0, modified: 0 }),
    ] {
        assert_eq!(
            reloaded.get_crc32(path, Some(meta), 9).unwrap(),
            cache.get_crc32(path, Some(meta), 9).unwrap()
        );
    }
    // of two pairs with one path the later one counts
    let e = CacheEntry { crc32: 1, file_size: 1, modified_time: 1, last_accessed: 1 };
    let twice = CrcCache::from_entries(
        "cache.json".to_string(),
        vec![("/r/a".to_string(), e), ("/r/a".to_string(), CacheEntry { crc32: 2, ..e })],
    );
    assert_eq!(twice.entries(), vec![("/r/a".to_string(), CacheEntry { crc32: 2, ..e })]);
}

#[test]
fn sweep_drops_entries_that_were_not_accessed_for_too_long() {
    let meta = Some(FileMeta { size: 1, modified: 1 });
    let day = 24 * 60 * 60;
    let mut cache = CrcCache::new();
    cache.set_crc32("/r/old", 1, meta, 1000).unwrap();
    cache.set_crc32("/r/edge", 2, meta, 1000 + day).unwrap();
    cache.set_crc32("/r/new", 3, meta, 1000 + 2 * day - 1).unwrap();
    cache.set_crc32("/r/future", 4, meta, 1000 + 9 * day).unwrap();
    cache.mark_saved("c.json".to_string());
    let now = 1000 + 2 * day;
    assert_eq!(cache.clean_old_entries(u64::MAX, now), 0);
    assert_eq!(cache.clean_old_entries(u64::MAX / 86400 + 1, now), 0);
    assert_eq!(cache.auto_save(), None);
    // an entry whose age is just the horizon stays
    assert_eq!(cache.clean_old_entries(1, now), 1);
    assert_eq!(cache.auto_save(), Some("c.json".to_string()));
    let left: Vec<String> = cache.entries().into_iter().map(|(p, _)| p).collect();
    assert_eq!(left, vec!["/r/edge".to_string(), "/r/new".to_string(), "/r/future".to_string()]);
    assert_eq!(cache.clean_old_entries(0, now), 2);
    let left: Vec<String> = cache.entries().into_iter().map(|(p, _)| p).collect();
    assert_eq!(left, vec!["/r/future".to_string()]);
}

#[test]
fn sweep_with_a_horizon_beyond_all_ages_removes_nothing() {
    let mut cache = CrcCache::new();
    cache.set_crc32("/r/a", 1, Some(FileMeta { size: 1, modified: 1 }), 0).unwrap();
    assert_eq!(cache.clean_old_entries(u64::MAX, u64::MAX), 0);
    assert_eq!(cache.entries().len(), 1);
}

#[test]
fn cache_figures() {
    let meta = FileMeta { size: 512, modified: 1704067200 };
    let mut cache = CrcCache::new();
    cache.set_crc32("/r/a", 1, Some(FileMeta { size: 1, modified: 1 }), 1).unwrap();
    let stats = cache.get_stats(Some(meta));
    assert_eq!(stats.total_entries, 1);
    assert_eq!(stats.cache_size, 0);
    assert_eq!((stats.cache_hits, stats.cache_misses, stats.total_requests), (0, 0, 0));
    assert_eq!(stats.last_updated, "No cache file");
    cache.mark_saved("c.json".to_string());
    let stats = cache.get_stats(Some(meta));
    assert_eq!((stats.total_entries, stats.cache_size), (1, 512));
    assert_eq!(stats.last_updated, "2024-01-01 00:00:00");
    let stats = cache.get_stats(None);
    assert_eq!((stats.cache_size, stats.last_updated.as_str()), (0, "Never"));
    let stats = cache.get_stats(Some(FileMeta { size: 3, modified: 86399 }));
    assert_eq!((stats.cache_size, stats.last_updated.as_str()), (3, "1970-01-01 23:59:59"));
    let stats = cache.get_stats(Some(FileMeta { size: 3, modified: u64::MAX }));
    assert_eq!(stats.last_updated, "1969-12-31 23:59:59");
    let stats = cache.get_stats(Some(FileMeta { size: 3, modified: i64::MAX as u64 }));
    assert_eq!((stats.cache_size, stats.last_updated.as_str()), (3, "Unknown"));
}

#[test]
fn what_is_saved_and_loaded_answers_as_before() {
    let meta = FileMeta { size: 7, modified: 70 };
    let mut cache = CrcCache::new();
    cache.set_crc32("/r/a", 1, Some(meta), 5).unwrap();
    cache.set_crc32("/r/b", 2, Some(meta), 5).unwrap();
    let written = cache.save_to_file("c.json".to_string());
    assert_eq!(written.len(), 2);
    assert_eq!(cache.auto_save(), None);
    let mut loaded = CrcCache::load_from_file("c.json".to_string(), Some(written));
    for path in ["/r/a", "/r/b", "/r/c"] {
        assert_eq!(
            loaded.get_crc32(path, Some(meta), 9).unwrap(),
            cache.get_crc32(path, Some(meta), 9).unwrap()
        );
    }
    assert_eq!(loaded.get_crc32("/r/a", Some(meta), 9).unwrap(), Some(1));
    // a lookup that hit leaves the cache to be saved to its file
    assert_eq!(loaded.auto_save(), Some("c.json".to_string()));
}

#[test]
fn a_missing_or_damaged_file_gives_an_empty_cache() {
    let mut missing = CrcCache::load_from_file("c.json".to_string(), None);
    assert!(missing.entries().is_empty());
    missing.set_crc32("/r/a", 1, Some(FileMeta { size: 1, modified: 1 }), 1).unwrap();
    assert_eq!(missing.auto_save(), None);
    let mut usual = CrcCache::with_default_location("c.json".to_string(), None);
    assert!(usual.entries().is_empty());
    assert_eq!(usual.auto_save(), None);
    usual.set_crc32("/r/a", 1, Some(FileMeta { size: 1, modified: 1 }), 1).unwrap();
    assert_eq!(usual.auto_save(), Some("c.json".to_string()));
}

#[test]
fn steps_for_the_checksum_of_a_file() {
    let meta = FileMeta { size: 3, modified: 30 };
    let mut cache = CrcCache::new();
    assert_eq!(cache.begin_hash("/r/a", Some(meta), 1), HashStep::Compute);
    assert_eq!(cache.finish_hash("/r/a", Some(7), Some(meta), 2), Some(7));
    assert_eq!(cache.begin_hash("/r/a", Some(meta), 3), HashStep::Known(7));
    assert_eq!(
        cache.entries(),
        vec![("/r/a".to_string(), CacheEntry { crc32: 7, file_size: 3, modified_time: 30, last_accessed: 3 })]
    );
    // a file that changed is computed anew, and its old entry is gone
    let changed = FileMeta { size: 4, modified: 30 };
    assert_eq!(cache.begin_hash("/r/a", Some(changed), 4), HashStep::Compute);
    assert!(cache.entries().is_empty());
    // nothing is remembered of a failed computation or of a file without metadata
    assert_eq!(cache.finish_hash("/r/a", None, Some(changed), 5), None);
    assert_eq!(cache.finish_hash("/r/a", Some(9), None, 5), Some(9));
    assert!(cache.entries().is_empty());
    assert_eq!(cache.begin_hash("/r/a", None, 6), HashStep::Compute);
}
