use retroarch_fast_indexer::dat_downloader::{
    retry_delay, sort_sources, DatDownloadConfig, DatDownloadResult, DatDownloader, DatManager,
    DatMetadata, DatSource, DownloadError, DownloadInfo, DownloadStep,
};

#[test]
fn test_dat_downloader_creation() {
    let config = DatDownloadConfig::default();
    let downloader = DatDownloader::new(config);
    assert_eq!(downloader.source_list().len(), 8);
    assert_eq!(downloader.settings().timeout_seconds, 30);
}

#[test]
fn test_default_sources() {
    let sources = DatDownloader::load_default_sources();
    assert!(!sources.is_empty());
    assert!(sources.iter().any(|s| s.system == "nes"));
    assert!(sources.iter().any(|s| s.system == "snes"));
}

#[test]
fn test_add_custom_source() {
    let config = DatDownloadConfig::default();
    let mut downloader = DatDownloader::new(config);

    let custom_source = DatSource {
        name: "Custom Test".to_string(),
        url: "http://example.com/test.dat".to_string(),
        system: "test".to_string(),
        description: "Test DAT".to_string(),
        priority: 1,
    };

    downloader.add_source(custom_source);
    assert!(downloader.get_available_systems().contains(&"test".to_string()));
}

fn source(name: &str, system: &str, priority: u32) -> DatSource {
    DatSource {
        name: name.to_string(),
        url: format!("http://example.com/{}.dat", name),
        system: system.to_string(),
        description: String::new(),
        priority,
    }
}

fn names(list: &[DatSource]) -> Vec<&str> {
    list.iter().map(|s| s.name.as_str()).collect()
}

#[test]
fn default_sources_are_listed_by_priority() {
    let sources = DatDownloader::load_default_sources();
    let systems: Vec<&str> = sources.iter().map(|s| s.system.as_str()).collect();
    assert_eq!(systems, vec!["nes", "snes", "n64", "gb", "gba", "genesis", "psx", "gamecube"]);
    let priorities: Vec<u32> = sources.iter().map(|s| s.priority).collect();
    assert_eq!(priorities, vec![1, 1, 1, 1, 1, 1, 2, 2]);
    assert_eq!(sources[6].url, "http://redump.org/datfile/psx/");
    assert_eq!(sources[0].name, "No-Intro Nintendo Entertainment System");
}

#[test]
fn added_sources_go_behind_those_of_their_priority() {
    let mut downloader = DatDownloader::new(DatDownloadConfig::default());
    downloader.add_source(source("first", "nes", 0));
    downloader.add_source(source("middle", "snes", 1));
    downloader.add_source(source("last", "new", 9));
    downloader.add_source(source("also first", "new", 0));
    let all = names(downloader.source_list());
    assert_eq!(all.len(), 12);
    assert_eq!(&all[..2], &["first", "also first"]);
    assert_eq!(all[8], "middle");
    assert_eq!(all[9], "Redump Sony PlayStation");
    assert_eq!(all[11], "last");
    assert_eq!(
        downloader.get_available_systems(),
        vec!["nes", "new", "snes", "n64", "gb", "gba", "genesis", "psx", "gamecube"]
    );
    assert_eq!(downloader.source_for("nes").unwrap().name, "first");
    assert_eq!(downloader.source_for("psx").unwrap().name, "Redump Sony PlayStation");
    assert!(matches!(downloader.source_for("saturn"), Err(DownloadError::NoSource(s)) if s == "saturn"));
}

#[test]
fn sorting_by_priority_keeps_the_order_of_equals() {
    let list = vec![source("a", "x", 2), source("b", "x", 1), source("c", "x", 2), source("d", "x", 1)];
    assert_eq!(names(&sort_sources(&list)), vec!["b", "d", "a", "c"]);
    assert!(sort_sources(&Vec::new()).is_empty());
}

#[test]
fn settings_of_a_downloader() {
    let downloader = DatDownloader::new(DatDownloadConfig::default())
        .with_timeout(5)
        .with_output_directory("/dats".to_string());
    assert_eq!(downloader.settings().timeout_seconds, 5);
    assert_eq!(downloader.settings().download_directory, "/dats");
    assert_eq!(downloader.settings().retry_attempts, 3);
    assert_eq!(downloader.get_dat_path("nes"), "/dats/nes.dat");
}

fn meta(downloaded_at: u64) -> DatMetadata {
    DatMetadata {
        source_url: "u".to_string(),
        downloaded_at,
        file_size: 77,
        checksum: "c".to_string(),
        system: "nes".to_string(),
    }
}

const DAY: u64 = 86400;

#[test]
fn fresh_catalogs_are_not_fetched_again() {
    let downloader = DatDownloader::new(DatDownloadConfig::default());
    let now = 100 * DAY;
    assert!(downloader.needs_download(false, None, now));
    assert!(!downloader.needs_download(false, Some(&meta(now - 7 * DAY + 1)), now));
    assert!(downloader.needs_download(false, Some(&meta(now - 7 * DAY)), now));
    assert!(downloader.needs_download(true, Some(&meta(now)), now));
    assert!(!downloader.needs_download(false, Some(&meta(now + 5)), now));
}

fn done(step: DownloadStep) -> DatDownloadResult {
    match step {
        DownloadStep::Done(r) => r,
        DownloadStep::Request { .. } => panic!("a result was expected"),
    }
}

#[test]
fn steps_of_one_fetch() {
    let config = DatDownloadConfig { download_directory: "/d".to_string(), ..DatDownloadConfig::default() };
    let src = source("S", "nes", 1);
    let now = 100 * DAY;
    let skipped = done(config.start_download(&src, Some(&meta(now - DAY)), now));
    assert!(skipped.success && skipped.skipped);
    assert_eq!(skipped.file_path, Some("/d/nes.dat".to_string()));
    assert_eq!((skipped.file_size, skipped.download_time_ms), (77, 0));
    assert_eq!((skipped.source_name.as_str(), skipped.system.as_str()), ("S", "nes"));
    assert!(matches!(
        config.start_download(&src, Some(&meta(now - 8 * DAY)), now),
        DownloadStep::Request { attempt: 1, wait_seconds: 0 }
    ));
    assert!(matches!(
        config.start_download(&src, None, now),
        DownloadStep::Request { attempt: 1, wait_seconds: 0 }
    ));
    assert!(matches!(
        config.after_attempt(&src, 1, Err("timeout".to_string()), 10),
        DownloadStep::Request { attempt: 2, wait_seconds: 1 }
    ));
    assert!(matches!(
        config.after_attempt(&src, 2, Err("timeout".to_string()), 20),
        DownloadStep::Request { attempt: 3, wait_seconds: 2 }
    ));
    let failed = done(config.after_attempt(&src, 3, Err("refused".to_string()), 30));
    assert!(!failed.success && !failed.skipped);
    assert_eq!(failed.error, Some("refused".to_string()));
    assert_eq!((failed.file_path.clone(), failed.file_size, failed.download_time_ms), (None, 0, 30));
    let info = DownloadInfo { file_size: 5, checksum: "abc".to_string() };
    let worked = done(config.after_attempt(&src, 2, Ok(info), 25));
    assert!(worked.success && !worked.skipped);
    assert_eq!(worked.file_path, Some("/d/nes.dat".to_string()));
    assert_eq!((worked.file_size, worked.download_time_ms, worked.error.clone()), (5, 25, None));
    let never = DatDownloadConfig { retry_attempts: 0, ..DatDownloadConfig::default() };
    let none = done(never.start_download(&src, None, now));
    assert!(!none.success && none.error.is_none());
    let info = DownloadInfo { file_size: 5, checksum: "abc".to_string() };
    let m = DatDownloadConfig::metadata_for(&src, &info, 42);
    assert_eq!(
        (m.source_url.as_str(), m.downloaded_at, m.file_size, m.checksum.as_str(), m.system.as_str()),
        ("http://example.com/S.dat", 42, 5, "abc", "nes")
    );
}

#[test]
fn waits_double_as_far_as_they_fit() {
    assert_eq!(retry_delay(0), 0);
    assert_eq!(retry_delay(1), 1);
    assert_eq!(retry_delay(2), 2);
    assert_eq!(retry_delay(5), 16);
    assert_eq!(retry_delay(64), 1 << 63);
    assert_eq!(retry_delay(65), u64::MAX);
    assert_eq!(retry_delay(u32::MAX), u64::MAX);
}

fn fetched(success: bool, skipped: bool) -> DatDownloadResult {
    DatDownloadResult {
        source_name: "s".to_string(),
        system: "nes".to_string(),
        success,
        file_path: None,
        file_size: 0,
        download_time_ms: 0,
        error: None,
        skipped,
    }
}

#[test]
fn update_fails_where_a_fetch_failed() {
    let manager = DatManager::new(DatDownloadConfig::default());
    assert_eq!(manager.available_systems().len(), 8);
    assert_eq!(manager.downloader().get_dat_path("gb"), "./dat_files/gb.dat");
    let s = manager.update_all_dats(&vec![fetched(true, false), fetched(true, true)]).unwrap();
    assert_eq!((s.successful, s.skipped, s.failed), (1, 1, 0));
    assert!(matches!(
        manager.update_all_dats(&vec![fetched(false, false), fetched(true, true), fetched(false, true)]),
        Err(DownloadError::Failed(2))
    ));
    assert!(manager.update_all_dats(&Vec::new()).is_ok());
}

#[test]
fn digest_of_fetched_bytes() {
    let info = retroarch_fast_indexer::dat_downloader::download_info(b"hello world");
    assert_eq!(info.file_size, 11);
    assert_eq!(info.checksum, "5eb63bbbe01eeed093cb22bb8f5acdc3");
    let downloader = DatDownloader::new(DatDownloadConfig::default());
    assert_eq!(downloader.calculate_checksum(b""), "d41d8cd98f00b204e9800998ecf8427e");
}
