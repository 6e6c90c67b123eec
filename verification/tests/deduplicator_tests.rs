use retroarch_fast_indexer::deduplicator::{
    DedupError, DeduplicationConfig, DeduplicationReport, DeduplicationResult, DuplicateGroup,
    DuplicationStrategy, FileAction, FileStat, Region, RomDeduplicator, RomQuality, Strategy,
};
use retroarch_fast_indexer::scanner::RomFile;

#[test]
fn test_region_detection() {
    assert_eq!(Region::from_filename("Super Mario Bros. (USA).nes"), Region::USA);
    assert_eq!(Region::from_filename("Final Fantasy (Japan).sfc"), Region::Japan);
    assert_eq!(Region::from_filename("Sonic (Europe).md"), Region::Europe);
    assert_eq!(Region::from_filename("Test Game.nes"), Region::Unknown);
}

#[test]
fn test_quality_assessment() {
    assert_eq!(RomQuality::assess_from_filename("Super Mario Bros.nes"), RomQuality::Excellent);
    assert_eq!(RomQuality::assess_from_filename("Game [b].nes"), RomQuality::Poor);
    assert_eq!(RomQuality::assess_from_filename("Game [h1].nes"), RomQuality::Fair);
    assert_eq!(RomQuality::assess_from_filename("Game [f1].nes"), RomQuality::Good);
}

#[test]
fn test_duplicate_group() {
    let group = DuplicateGroup::new(0x12345678);
    assert_eq!(group.roms.len(), 0);
    assert!(group.best_rom.is_none());
}

#[test]
fn test_deduplication_config() {
    let config = DeduplicationConfig::default();
    assert_eq!(config.strategy, DuplicationStrategy::ByFilenameQuality);
    assert!(config.dry_run == false);
}

#[test]
fn region_tags_in_any_case_and_in_their_order() {
    assert_eq!(Region::from_filename("game (usa).nes"), Region::USA);
    assert_eq!(Region::from_filename("GAME (U).NES"), Region::USA);
    assert_eq!(Region::from_filename("Game (World).nes"), Region::World);
    assert_eq!(Region::from_filename("Game (J) (E).nes"), Region::Europe);
    assert_eq!(Region::from_filename("Game (Asia) (Korea).nes"), Region::Asia);
    assert_eq!(Region::from_filename("Game (Korea).nes"), Region::Korea);
    assert_eq!(Region::from_filename("Game (Brazil) (Australia).nes"), Region::Brazil);
    assert_eq!(Region::from_filename("Game (Australia).nes"), Region::Australia);
    assert_eq!(Region::from_filename("Game (Germany).nes"), Region::Germany);
    assert_eq!(Region::from_filename("Game (France).nes"), Region::France);
    assert_eq!(Region::from_filename("Game (Spain).nes"), Region::Spain);
    assert_eq!(Region::from_filename("Game (Italy).nes"), Region::Italy);
    assert_eq!(Region::from_filename("Game USA.nes"), Region::Unknown);
    // str::to_lowercase also lowers letters beyond ASCII
    assert_eq!(Region::from_filename("Game (\u{212A}OREA).nes"), Region::Korea);
}

#[test]
fn region_priorities_and_quality_scores() {
    let order = [
        Region::USA,
        Region::World,
        Region::Europe,
        Region::Japan,
        Region::Asia,
        Region::Korea,
        Region::Australia,
        Region::Brazil,
        Region::Germany,
        Region::France,
        Region::Spain,
        Region::Italy,
    ];
    for (i, r) in order.iter().enumerate() {
        assert_eq!(r.priority_score(), i as u32 + 1);
    }
    assert_eq!(Region::Unknown.priority_score(), 100);
    assert_eq!(RomQuality::Excellent.score(), 4);
    assert_eq!(RomQuality::Good.score(), 3);
    assert_eq!(RomQuality::Fair.score(), 2);
    assert_eq!(RomQuality::Poor.score(), 1);
}

#[test]
fn quality_marks() {
    assert_eq!(RomQuality::assess_from_filename("Game (BAD).nes"), RomQuality::Poor);
    assert_eq!(RomQuality::assess_from_filename("Game [corrupt] [f1].nes"), RomQuality::Poor);
    assert_eq!(RomQuality::assess_from_filename("Game [T+Eng].nes"), RomQuality::Fair);
    assert_eq!(RomQuality::assess_from_filename("Game (Hack) (Fixed).nes"), RomQuality::Fair);
    assert_eq!(RomQuality::assess_from_filename("Game (Translation).nes"), RomQuality::Fair);
    assert_eq!(RomQuality::assess_from_filename("Game (Fixed).nes"), RomQuality::Good);
    assert_eq!(RomQuality::assess_from_filename("Game [!].nes"), RomQuality::Excellent);
}

fn rom(path: &str, size: u64, crc: Option<u32>) -> RomFile {
    let mut r = RomFile::new(path.to_string());
    r.size = size;
    r.crc32 = crc;
    r
}

fn no_stats() -> Vec<FileStat> {
    Vec::new()
}

#[test]
fn region_priority_keeps_the_usa_record() {
    let roms = vec![
        rom("/r/Game (Europe).bin", 10, Some(7)),
        rom("/r/Game (USA).bin", 20, Some(7)),
        rom("/r/Game (Japan).bin", 30, Some(7)),
    ];
    let report = RomDeduplicator::new()
        .with_strategy(Strategy::RegionPriority)
        .deduplicate(&roms, &no_stats())
        .unwrap();
    assert_eq!(report.duplicate_groups, 1);
    assert_eq!(report.duplicates_found, 3);
    assert_eq!(report.files_removed, 2);
    assert_eq!(report.kept_files, vec!["/r/Game (USA).bin".to_string()]);
    assert_eq!(
        report.removed_files,
        vec!["/r/Game (Europe).bin".to_string(), "/r/Game (Japan).bin".to_string()]
    );
    assert_eq!(report.space_freed, 40);
    assert_eq!(report.backup_location, None);
}

#[test]
fn end_to_end_five_files_one_pair() {
    let roms = vec![
        rom("/r/One.bin", 100, Some(1)),
        rom("/r/Game (Europe).bin", 222, Some(2)),
        rom("/r/Three.bin", 300, Some(3)),
        rom("/r/Game (USA).bin", 111, Some(2)),
        rom("/r/Five.bin", 500, Some(5)),
    ];
    let dedup = RomDeduplicator::new();
    let report = dedup.deduplicate(&roms, &no_stats()).unwrap();
    assert_eq!(report.duplicate_groups, 1);
    assert_eq!(report.duplicates_found, 2);
    assert_eq!(report.files_removed, 1);
    assert_eq!(report.space_freed, 222);
    assert_eq!(report.kept_files, vec!["/r/Game (USA).bin".to_string()]);
    assert_eq!(report.removed_files, vec!["/r/Game (Europe).bin".to_string()]);
}

#[test]
fn second_run_on_what_was_kept_finds_nothing() {
    let roms = vec![
        rom("/r/a (USA).bin", 1, Some(1)),
        rom("/r/a (Japan).bin", 2, Some(1)),
        rom("/r/b.bin", 3, Some(2)),
        rom("/r/a (Europe).bin", 4, Some(1)),
        rom("/r/c [b].bin", 5, Some(3)),
        rom("/r/c.bin", 6, Some(3)),
    ];
    for strategy in [
        Strategy::RegionPriority,
        Strategy::FileSize,
        Strategy::DirectoryPriority,
        Strategy::FilenameQuality,
    ] {
        let dedup = RomDeduplicator::new().with_strategy(strategy);
        let first = dedup.deduplicate(&roms, &no_stats()).unwrap();
        assert_eq!(first.duplicate_groups, 2);
        assert_eq!(first.files_removed, 3);
        let left: Vec<RomFile> = roms
            .iter()
            .filter(|r| !first.removed_files.contains(&r.path))
            .cloned()
            .collect();
        assert_eq!(left.len(), 3);
        let second = dedup.deduplicate(&left, &no_stats()).unwrap();
        assert_eq!(second.duplicate_groups, 0);
        assert_eq!(second.duplicates_found, 0);
        assert_eq!(second.files_removed, 0);
        assert_eq!(second.space_freed, 0);
        assert!(second.removed_files.is_empty());
        assert!(second.kept_files.is_empty());
    }
}

#[test]
fn dry_run_reports_the_same_and_touches_nothing() {
    let roms = vec![
        rom("/r/x (USA).bin", 10, Some(9)),
        rom("/r/sub/x (Europe).bin", 20, Some(9)),
        rom("/r/y.bin", 30, Some(8)),
    ];
    let wet = RomDeduplicator::new().with_backup(true).with_backup_directory("/bak".to_string());
    let dry = RomDeduplicator::new()
        .with_backup(true)
        .with_backup_directory("/bak".to_string())
        .with_dry_run(true);
    let wet_report = wet.deduplicate(&roms, &no_stats()).unwrap();
    let dry_report = dry.deduplicate(&roms, &no_stats()).unwrap();
    assert_eq!(dry_report.removed_files, wet_report.removed_files);
    assert_eq!(dry_report.kept_files, wet_report.kept_files);
    assert_eq!(dry_report.space_freed, wet_report.space_freed);
    assert_eq!(dry_report.files_removed, 1);
    assert_eq!(dry_report.space_freed, 20);
    assert_eq!(dry_report.backup_location, None);
    assert_eq!(wet_report.backup_location, Some("/bak".to_string()));
    assert!(dry.planned_actions(&dry_report).is_empty());
    let actions = wet.planned_actions(&wet_report);
    assert_eq!(actions.len(), 3);
    assert!(matches!(&actions[0], FileAction::CreateDir(d) if d == "/bak"));
    assert!(matches!(&actions[1], FileAction::Copy { from, to }
        if from == "/r/sub/x (Europe).bin" && to == "/bak/x (Europe).bin"));
    assert!(matches!(&actions[2], FileAction::Delete(p) if p == "/r/sub/x (Europe).bin"));
}

#[test]
fn removal_without_backup_only_deletes() {
    let roms = vec![rom("/r/a.bin", 1, Some(1)), rom("/r/b.bin", 1, Some(1))];
    let dedup = RomDeduplicator::new();
    let report = dedup.deduplicate(&roms, &no_stats()).unwrap();
    let actions = dedup.planned_actions(&report);
    assert_eq!(actions.len(), 1);
    assert!(matches!(&actions[0], FileAction::Delete(p) if p == "/r/b.bin"));
    let with_default_dir = RomDeduplicator::new().with_backup(true);
    let report = with_default_dir.deduplicate(&roms, &no_stats()).unwrap();
    assert_eq!(report.backup_location, Some("./backup".to_string()));
    let actions = with_default_dir.planned_actions(&report);
    assert!(matches!(&actions[0], FileAction::CreateDir(d) if d == "./backup"));
    assert!(matches!(&actions[1], FileAction::Copy { to, .. } if to == "./backup/b.bin"));
}

#[test]
fn file_size_keeps_the_first_of_the_largest() {
    let roms = vec![
        rom("/r/a.bin", 5, Some(1)),
        rom("/r/b.bin", 9, Some(1)),
        rom("/r/c.bin", 9, Some(1)),
        rom("/r/d.bin", 0, Some(1)),
    ];
    let stats = vec![
        FileStat { hash: None, len: Some(100), modified: None },
        FileStat { hash: None, len: None, modified: None },
        FileStat { hash: None, len: None, modified: None },
        FileStat { hash: None, len: Some(7), modified: None },
    ];
    let dedup = RomDeduplicator::new().with_strategy(Strategy::FileSize);
    let report = dedup.deduplicate(&roms, &stats).unwrap();
    assert_eq!(report.kept_files, vec!["/r/b.bin".to_string()]);
    // the size of a record counts before the length of its file; a size of zero does not
    assert_eq!(report.space_freed, 5 + 9 + 7);
    assert_eq!(dedup.select_by_file_size(&roms, &stats), 1);
}

#[test]
fn modification_date_keeps_the_latest_and_needs_every_date() {
    let roms = vec![
        rom("/r/a.bin", 1, Some(1)),
        rom("/r/b.bin", 1, Some(1)),
        rom("/r/c.bin", 1, Some(1)),
        rom("/r/single.bin", 1, Some(2)),
    ];
    let dated = |times: [Option<u64>; 4]| -> Vec<FileStat> {
        times.iter().map(|t| FileStat { hash: None, len: None, modified: *t }).collect()
    };
    let dedup = RomDeduplicator::new().with_strategy(Strategy::ModificationDate);
    let report = dedup
        .deduplicate(&roms, &dated([Some(10), Some(30), Some(30), None]))
        .unwrap();
    assert_eq!(report.kept_files, vec!["/r/b.bin".to_string()]);
    let failed = dedup.deduplicate(&roms, &dated([Some(10), None, None, Some(1)]));
    assert!(matches!(failed, Err(DedupError::MetadataUnreadable(p)) if p == "/r/b.bin"));
    assert!(matches!(
        dedup.deduplicate(&roms, &no_stats()),
        Err(DedupError::MetadataUnreadable(p)) if p == "/r/a.bin"
    ));
}

#[test]
fn directory_priority_takes_the_first_record_under_the_first_directory() {
    let roms = vec![
        rom("/other/Game (USA).bin", 1, Some(1)),
        rom("/second/Game.bin", 1, Some(1)),
        rom("/first/sub/Game [b].bin", 1, Some(1)),
        rom("/first/Game.bin", 1, Some(1)),
        rom("/firstly/Game.bin", 1, Some(1)),
    ];
    let dedup = RomDeduplicator::new()
        .with_strategy(Strategy::DirectoryPriority)
        .with_priority_directories(vec!["/first/".to_string(), "/second".to_string()]);
    let report = dedup.deduplicate(&roms, &no_stats()).unwrap();
    assert_eq!(report.kept_files, vec!["/first/sub/Game [b].bin".to_string()]);
    assert_eq!(dedup.directory_rank("/firstly/Game.bin"), 2);
    assert_eq!(dedup.directory_rank("/second/x"), 1);
    assert_eq!(dedup.directory_rank("first/x"), 2);
    // without a record under a priority directory, quality decides
    let elsewhere = RomDeduplicator::new()
        .with_strategy(Strategy::DirectoryPriority)
        .with_priority_directories(vec!["/nowhere".to_string()]);
    let report = elsewhere.deduplicate(&roms[1..4], &no_stats()).unwrap();
    assert_eq!(report.kept_files, vec!["/second/Game.bin".to_string()]);
}

#[test]
fn quality_comes_before_region() {
    let roms = vec![
        rom("/r/Game (USA) [b].bin", 1, Some(1)),
        rom("/r/Game (Japan) [h1].bin", 1, Some(1)),
        rom("/r/Game (Italy).bin", 1, Some(1)),
        rom("/r/Game (Spain).bin", 1, Some(1)),
    ];
    let dedup = RomDeduplicator::new();
    assert_eq!(dedup.select_by_filename_quality(&roms), 3);
    assert_eq!(dedup.select_by_region_priority(&roms), 0);
    assert_eq!(dedup.select_by_directory_priority(&roms), 3);
    assert_eq!(dedup.select_best_rom(&roms, &no_stats()).unwrap(), 3);
    assert_eq!(dedup.rank_of(Strategy::RegionPriority, &roms[0], FileStat { hash: None, len: None, modified: None }), 14);
    assert_eq!(dedup.rank_of(Strategy::FilenameQuality, &roms[2], FileStat { hash: None, len: None, modified: None }), -588);
    assert_eq!(dedup.select_by_region_priority(&[]), 0);
}

#[test]
fn records_without_a_checksum_use_the_computed_one() {
    let roms = vec![
        rom("/r/a.bin", 1, None),
        rom("/r/b.bin", 2, Some(5)),
        rom("/r/c.bin", 3, None),
    ];
    let stats = vec![
        FileStat { hash: Some(5), len: None, modified: None },
        FileStat { hash: Some(6), len: None, modified: None },
    ];
    let failed = RomDeduplicator::new().deduplicate(&roms, &stats);
    assert!(matches!(failed, Err(DedupError::HashUnavailable(p)) if p == "/r/c.bin"));
    let report = RomDeduplicator::new().deduplicate(&roms[..2], &stats).unwrap();
    assert_eq!(report.duplicate_groups, 1);
    assert_eq!(report.kept_files, vec!["/r/a.bin".to_string()]);
    assert_eq!(report.removed_files, vec!["/r/b.bin".to_string()]);
}

#[test]
fn groups_come_in_the_order_of_their_first_members() {
    let roms = vec![
        rom("/r/b1 (Japan).bin", 1, Some(2)),
        rom("/r/a1 (Japan).bin", 1, Some(1)),
        rom("/r/a2 (USA).bin", 1, Some(1)),
        rom("/r/b2 (USA).bin", 1, Some(2)),
        rom("/r/b3 (Europe).bin", 1, Some(2)),
    ];
    let report = RomDeduplicator::new().deduplicate(&roms, &no_stats()).unwrap();
    assert_eq!(report.duplicate_groups, 2);
    assert_eq!(report.duplicates_found, 5);
    assert_eq!(
        report.kept_files,
        vec!["/r/b2 (USA).bin".to_string(), "/r/a2 (USA).bin".to_string()]
    );
    assert_eq!(
        report.removed_files,
        vec![
            "/r/b1 (Japan).bin".to_string(),
            "/r/b3 (Europe).bin".to_string(),
            "/r/a1 (Japan).bin".to_string()
        ]
    );
    let empty = RomDeduplicator::new().deduplicate(&[], &no_stats()).unwrap();
    assert_eq!((empty.duplicate_groups, empty.files_removed, empty.space_freed), (0, 0, 0));
}

#[test]
fn space_freed_stops_at_the_largest_number() {
    let roms = vec![
        rom("/r/a.bin", 1, Some(1)),
        rom("/r/b.bin", u64::MAX, Some(1)),
        rom("/r/c.bin", u64::MAX, Some(1)),
    ];
    let report = RomDeduplicator::new()
        .with_strategy(Strategy::RegionPriority)
        .deduplicate(&roms, &no_stats())
        .unwrap();
    assert_eq!(report.files_removed, 2);
    assert_eq!(report.space_freed, u64::MAX);
}

#[test]
fn written_report_is_exact() {
    let dedup = RomDeduplicator::new().with_dry_run(true);
    let report = DeduplicationReport {
        duplicate_groups: 1,
        duplicates_found: 3,
        files_removed: 2,
        space_freed: 1234,
        backup_location: None,
        removed_files: vec!["/r/a.bin".to_string(), "/r/b.bin".to_string()],
        kept_files: vec!["/r/c.bin".to_string()],
    };
    assert_eq!(
        dedup.generate_report(&report),
        "# ROM Deduplication Report\n\n**Strategy**: FilenameQuality\n**Dry Run**: true\n**Backup Enabled**: false\n\n## Summary\n\n- Duplicate Groups: 1\n- Total Duplicates Found: 3\n- Files Removed: 2\n- Space Freed: 1234 bytes\n\n## Removed Files\n\n- `/r/a.bin`\n- `/r/b.bin`\n\n## Kept Files\n\n- `/r/c.bin`\n"
    );
    assert_eq!(
        RomDeduplicator::new()
            .with_strategy(Strategy::ModificationDate)
            .with_backup(true)
            .generate_report(&DeduplicationReport::default()),
        "# ROM Deduplication Report\n\n**Strategy**: ModificationDate\n**Dry Run**: false\n**Backup Enabled**: true\n\n## Summary\n\n- Duplicate Groups: 0\n- Total Duplicates Found: 0\n- Files Removed: 0\n- Space Freed: 0 bytes\n\n"
    );
}

#[test]
fn duplicate_group_chooses_by_its_own_ranks() {
    let mut group = DuplicateGroup::new(7);
    group.select_best(DuplicationStrategy::ByFileSize, &[], &[]);
    assert_eq!(group.best_rom, None);
    assert!(group.get_best_rom().is_none());
    assert!(group.get_duplicates().is_empty());
    group.add_rom(rom("/a/Game (Japan).bin", 5, Some(7)));
    group.add_rom(rom("/b/Game (USA) [b].bin", 9, Some(7)));
    group.add_rom(rom("/c/Game (Europe).bin", 9, Some(7)));
    assert!(group.get_duplicates().is_empty());
    let stats = vec![
        FileStat { hash: None, len: None, modified: None },
        FileStat { hash: None, len: None, modified: Some(0) },
        FileStat { hash: None, len: None, modified: Some(0) },
    ];
    // Japan 4 - 4 = 0, USA with a bad dump 1 - 1 = 0, Europe 3 - 4 = -1
    group.select_best(DuplicationStrategy::ByRegionPriority, &[], &stats);
    assert_eq!(group.best_rom, Some(2));
    group.select_best(DuplicationStrategy::ByFileSize, &[], &stats);
    assert_eq!(group.best_rom, Some(1));
    group.select_best(DuplicationStrategy::ByModificationDate, &[], &stats);
    assert_eq!(group.best_rom, Some(1));
    group.select_best(DuplicationStrategy::ByModificationDate, &[], &[]);
    assert_eq!(group.best_rom, Some(0));
    let dirs = vec!["/x".to_string(), "/c".to_string(), "/b".to_string()];
    group.select_best(DuplicationStrategy::ByDirectoryPriority, &dirs, &stats);
    assert_eq!(group.best_rom, Some(2));
    group.select_best(DuplicationStrategy::ByDirectoryPriority, &[], &stats);
    assert_eq!(group.best_rom, Some(0));
    group.select_best(DuplicationStrategy::ByFilenameQuality, &[], &stats);
    assert_eq!(group.best_rom, Some(2));
    assert_eq!(group.get_best_rom().unwrap().path, "/c/Game (Europe).bin");
    let rest: Vec<&str> = group.get_duplicates().iter().map(|r| r.path.as_str()).collect();
    assert_eq!(rest, vec!["/a/Game (Japan).bin", "/b/Game (USA) [b].bin"]);
    assert_eq!(group.crc32, 7);
}

#[test]
fn result_counts_start_at_zero() {
    let result = DeduplicationResult::default();
    assert_eq!(result.total_roms, 0);
    assert_eq!(result.deduplication_basis_points(), 0);
    let result = DeduplicationResult { total_roms: 3, duplicates_removed: 1, ..result };
    assert_eq!(result.deduplication_basis_points(), 3333);
    let config = DeduplicationConfig::default();
    assert!(config.directory_priorities.is_empty());
    assert!(!config.create_backup);
    assert_eq!(config.backup_directory, None);
}

#[test]
fn account_of_file_operations() {
    let mut done = retroarch_fast_indexer::deduplicator::Execution::new();
    let dir = FileAction::CreateDir("/bak".to_string());
    let copy_a = FileAction::Copy { from: "/r/a".to_string(), to: "/bak/a".to_string() };
    let copy_b = FileAction::Copy { from: "/r/b".to_string(), to: "/bak/b".to_string() };
    let delete_a = FileAction::Delete("/r/a".to_string());
    let delete_b = FileAction::Delete("/r/b".to_string());
    let delete_c = FileAction::Delete("/r/c".to_string());
    assert!(done.permits(&dir));
    done.record(&dir, Ok(()));
    assert!(done.permits(&copy_a));
    done.record(&copy_a, Err("disk full".to_string()));
    // the file that has no backup stays
    assert!(!done.permits(&delete_a));
    assert!(done.permits(&copy_b));
    done.record(&copy_b, Ok(()));
    assert!(done.permits(&delete_b));
    done.record(&delete_b, Ok(()));
    assert!(done.permits(&delete_c));
    done.record(&delete_c, Err("denied".to_string()));
    assert_eq!(done.removed, vec!["/r/b".to_string()]);
    assert_eq!(
        done.failures,
        vec![
            ("/r/a".to_string(), "disk full".to_string()),
            ("/r/c".to_string(), "denied".to_string())
        ]
    );
    assert!(!done.must_stop());
    // without the directory for backups the run stops: nothing more is permitted
    let mut other = retroarch_fast_indexer::deduplicator::Execution::new();
    other.record(&dir, Err("read-only".to_string()));
    assert_eq!(other.failures, vec![("/bak".to_string(), "read-only".to_string())]);
    assert!(other.removed.is_empty());
    assert!(other.must_stop());
    assert!(!other.permits(&copy_b));
    assert!(!other.permits(&delete_c));
}

#[test]
fn report_after_a_failed_deletion() {
    let roms = vec![
        rom("/r/a (USA).bin", 10, Some(1)),
        rom("/r/a (Europe).bin", 20, Some(1)),
        rom("/r/b (USA).bin", 30, Some(2)),
        rom("/r/b (Japan).bin", 0, Some(2)),
    ];
    let stats = vec![
        FileStat { hash: None, len: Some(1), modified: None },
        FileStat { hash: None, len: Some(2), modified: None },
        FileStat { hash: None, len: Some(3), modified: None },
        FileStat { hash: None, len: Some(44), modified: None },
    ];
    let deduplicator = RomDeduplicator::new();
    let planned = deduplicator.deduplicate(&roms, &stats).unwrap();
    assert_eq!(planned.removed_files, vec!["/r/a (Europe).bin", "/r/b (Japan).bin"]);
    assert_eq!(planned.space_freed, 64);
    let actions = deduplicator.planned_actions(&planned);
    let mut done = retroarch_fast_indexer::deduplicator::Execution::new();
    // the first file cannot be deleted, the second can
    done.record(&actions[0], Err("gone".to_string()));
    done.record(&actions[1], Ok(()));
    let report = deduplicator.final_report(&roms, &stats, &planned, &done);
    assert_eq!(report.removed_files, vec!["/r/b (Japan).bin"]);
    assert_eq!(report.files_removed, 1);
    assert_eq!(report.space_freed, 44);
    assert_eq!(report.kept_files, planned.kept_files);
    assert_eq!(report.duplicate_groups, 2);
    assert_eq!(report.duplicates_found, 4);
    assert_eq!(done.failures, vec![("/r/a (Europe).bin".to_string(), "gone".to_string())]);
    // nothing was tried in a dry run: the report tells what would have happened
    let dry = RomDeduplicator::new().with_dry_run(true);
    let would = dry.deduplicate(&roms, &stats).unwrap();
    let none = retroarch_fast_indexer::deduplicator::Execution::new();
    let told = dry.final_report(&roms, &stats, &would, &none);
    assert_eq!(told.removed_files, planned.removed_files);
    assert_eq!((told.files_removed, told.space_freed), (2, 64));
}
