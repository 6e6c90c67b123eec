use retroarch_fast_indexer::platform::Platform;
use retroarch_fast_indexer::watch::{
    LoopAction, LoopEvent, ChangeKind, FileEvent, PathKind, RomWatcher, WatchConfig, WatchError, WatchService, WatchStats,
};

#[test]
fn test_watcher_creation() {
    let config = WatchConfig::default();
    let watcher = RomWatcher::new(config);
    assert!(watcher.is_ok());
}

#[test]
fn test_file_relevance() {
    let config = WatchConfig::default();
    let watcher = RomWatcher::new(config).unwrap();

    assert!(watcher.is_relevant_file("test.nes"));
    assert!(watcher.is_relevant_file("test.zip"));
    assert!(!watcher.is_relevant_file("test.txt"));
    assert!(!watcher.is_relevant_file("test.jpg"));
}

#[test]
fn test_watch_directory() {
    let config = WatchConfig::default();
    let mut watcher = RomWatcher::new(config).unwrap();

    let result = watcher.watch_directory("/tmp/roms", PathKind::Directory);
    assert!(result.is_ok());

    assert_eq!(watcher.watched_directories().len(), 1);
    assert!(watcher.watched_directories().contains(&"/tmp/roms".to_string()));
}

#[test]
fn only_directories_are_watched_and_each_once() {
    let mut watcher = RomWatcher::new(WatchConfig::default()).unwrap();
    assert!(watcher.watch_directory("/missing", PathKind::Missing).is_ok());
    assert!(watcher.watch_directory("/file", PathKind::File).is_ok());
    assert!(watcher.watch_directory("/a", PathKind::Directory).is_ok());
    assert!(watcher.watch_directory("/b", PathKind::Directory).is_ok());
    assert!(watcher.watch_directory("/a", PathKind::Directory).is_ok());
    assert_eq!(watcher.watched_directories(), vec!["/a".to_string(), "/b".to_string()]);
    assert_eq!(
        watcher.stats(),
        WatchStats { watched_directories: 2, pending_events: 0, last_scan: None }
    );
}

#[test]
fn containers_matter_only_where_they_count() {
    let config = WatchConfig { include_archives: false, ..WatchConfig::default() };
    let watcher = RomWatcher::new(config).unwrap();
    assert!(watcher.is_relevant_file("/r/Game.NES"));
    assert!(!watcher.is_relevant_file("/r/set.zip"));
    assert!(!watcher.is_relevant_file("/r/nes"));
}

fn paths(list: &[&str]) -> Vec<String> {
    list.iter().map(|p| p.to_string()).collect()
}

#[test]
fn notices_become_changes() {
    let watcher = RomWatcher::new(WatchConfig::default()).unwrap();
    assert!(matches!(
        watcher.convert_event(ChangeKind::Create, &paths(&["/r/a.nes"])).unwrap(),
        Some(FileEvent::Created(p)) if p == "/r/a.nes"
    ));
    assert!(matches!(
        watcher.convert_event(ChangeKind::Modify, &paths(&["/r/a.nes", "/r/b.nes"])).unwrap(),
        Some(FileEvent::Modified(p)) if p == "/r/a.nes"
    ));
    assert!(matches!(
        watcher.convert_event(ChangeKind::Remove, &paths(&["/r/a.nes"])).unwrap(),
        Some(FileEvent::Deleted(p)) if p == "/r/a.nes"
    ));
    assert!(matches!(
        watcher.convert_event(ChangeKind::Other, &paths(&["/r/a.nes", "/r/b.txt"])).unwrap(),
        Some(FileEvent::Renamed { from, to }) if from == "/r/a.nes" && to == "/r/b.txt"
    ));
    assert!(watcher.convert_event(ChangeKind::Other, &paths(&["/r/a.nes"])).unwrap().is_none());
    assert!(watcher.convert_event(ChangeKind::Access, &paths(&["/r/a.nes"])).unwrap().is_none());
    assert!(watcher.convert_event(ChangeKind::Any, &paths(&["/r/a.nes"])).unwrap().is_none());
    assert!(watcher.convert_event(ChangeKind::Create, &paths(&["/r/a.txt"])).unwrap().is_none());
    assert!(watcher.convert_event(ChangeKind::Create, &paths(&[])).unwrap().is_none());
}

fn targets(events: &[FileEvent]) -> Vec<String> {
    events
        .iter()
        .map(|e| match e {
            FileEvent::Created(p) => format!("created {}", p),
            FileEvent::Modified(p) => format!("modified {}", p),
            FileEvent::Deleted(p) => format!("deleted {}", p),
            FileEvent::Renamed { from, to } => format!("renamed {} {}", from, to),
        })
        .collect()
}

#[test]
fn only_the_last_change_of_a_path_stays() {
    let watcher = RomWatcher::new(WatchConfig::default()).unwrap();
    let events = vec![
        FileEvent::Created("/r/a".to_string()),
        FileEvent::Modified("/r/b".to_string()),
        FileEvent::Modified("/r/a".to_string()),
        FileEvent::Renamed { from: "/r/x".to_string(), to: "/r/b".to_string() },
        FileEvent::Deleted("/r/x".to_string()),
    ];
    assert_eq!(
        targets(&watcher.deduplicate_events(events)),
        vec!["modified /r/a", "renamed /r/x /r/b", "deleted /r/x"]
    );
    assert!(watcher.deduplicate_events(Vec::new()).is_empty());
}

#[test]
fn batches_are_due_by_size_or_by_time() {
    let config = WatchConfig { batch_size: 3, scan_delay: 100, ..WatchConfig::default() };
    let mut watcher = RomWatcher::new(config).unwrap();
    assert!(!watcher.should_process_batch(0));
    assert!(watcher.process_events(Vec::new(), 5).unwrap().is_empty());
    assert_eq!(watcher.stats().last_scan, None);
    // nothing was scanned yet: the first change is due at once
    let out = watcher.process_events(vec![FileEvent::Created("/r/a".to_string())], 10).unwrap();
    assert_eq!(targets(&out), vec!["created /r/a"]);
    assert_eq!(watcher.stats().last_scan, Some(10));
    // too early and too few
    let out = watcher.process_events(vec![FileEvent::Created("/r/b".to_string())], 50).unwrap();
    assert!(out.is_empty());
    assert_eq!(watcher.stats().pending_events, 1);
    assert!(!watcher.should_process_batch(109));
    assert!(watcher.should_process_batch(110));
    // enough of them
    let out = watcher
        .process_events(
            vec![FileEvent::Modified("/r/b".to_string()), FileEvent::Deleted("/r/c".to_string())],
            60,
        )
        .unwrap();
    assert_eq!(targets(&out), vec!["modified /r/b", "deleted /r/c"]);
    assert_eq!(watcher.stats(), WatchStats { watched_directories: 0, pending_events: 0, last_scan: Some(60) });
    // late enough
    let out = watcher.process_events(vec![FileEvent::Created("/r/d".to_string())], 160).unwrap();
    assert_eq!(targets(&out), vec!["created /r/d"]);
}

#[test]
fn service_collects_its_settings() {
    let mut service = WatchService::new()
        .with_debounce_duration(50)
        .with_batch_size(7)
        .with_include_archives(false)
        .with_platforms(Platform::Linux, Platform::Switch)
        .with_output_dir("/out".to_string());
    assert!(matches!(
        service.add_watch_directory("/missing".to_string(), PathKind::Missing),
        Err(WatchError::DirectoryMissing(p)) if p == "/missing"
    ));
    assert!(service.add_watch_directory("/a".to_string(), PathKind::Directory).is_ok());
    assert!(service.add_watch_directory("/b".to_string(), PathKind::File).is_ok());
    assert!(service.add_watch_directory("/a".to_string(), PathKind::Directory).is_ok());
    let watcher = service.start_watching().unwrap();
    assert_eq!(watcher.watched_directories(), vec!["/a".to_string(), "/b".to_string()]);
    assert!(!watcher.is_relevant_file("set.zip"));
    assert!(WatchService::default().start_watching().unwrap().watched_directories().is_empty());
    assert_eq!(
        WatchConfig::default(),
        WatchConfig { debounce_duration: 500, batch_size: 100, scan_delay: 2000, include_archives: true }
    );
}

#[test]
fn directories_leave_the_watch() {
    let mut watcher = RomWatcher::new(WatchConfig::default()).unwrap();
    for d in ["/a", "/b", "/c"] {
        watcher.watch_directory(d, PathKind::Directory).unwrap();
    }
    watcher.unwatch_directory("/b");
    watcher.unwatch_directory("/missing");
    assert_eq!(watcher.watched_directories(), vec!["/a".to_string(), "/c".to_string()]);
}

#[test]
fn changes_that_wait_name_the_directories_to_scan() {
    let config = WatchConfig { batch_size: 100, scan_delay: 50, ..WatchConfig::default() };
    let mut watcher = RomWatcher::new(config).unwrap();
    assert!(watcher.process_pending_events(10).is_empty());
    assert_eq!(watcher.stats().last_scan, None);
    let notice = |kind: ChangeKind, list: &[&str]| LoopEvent::Notice { kind, paths: paths(list) };
    for event in [
        notice(ChangeKind::Create, &["/r/nes/a.nes"]),
        notice(ChangeKind::Modify, &["/r/snes/b.sfc"]),
        notice(ChangeKind::Create, &["/r/nes/readme.txt"]),
        notice(ChangeKind::Other, &["/r/nes/c.nes", "/r/gb/c.gb"]),
        notice(ChangeKind::Remove, &["d.nes"]),
        LoopEvent::Fault,
    ] {
        assert!(matches!(watcher.event_loop_step(event, 5), LoopAction::Continue(d) if d.is_empty()));
    }
    assert_eq!(watcher.stats().pending_events, 4);
    match watcher.event_loop_step(LoopEvent::Timeout, 20) {
        LoopAction::Continue(dirs) => assert_eq!(dirs, vec!["/r/nes", "/r/snes", "/r/gb", ""]),
        LoopAction::Stop => panic!("the loop goes on"),
    }
    assert_eq!(watcher.stats(), WatchStats { watched_directories: 0, pending_events: 0, last_scan: Some(20) });
    // too soon after the last scan: the change waits
    assert!(matches!(
        watcher.event_loop_step(notice(ChangeKind::Create, &["/r/nes/e.nes"]), 30),
        LoopAction::Continue(d) if d.is_empty()
    ));
    assert!(watcher.process_pending_events(69).is_empty());
    assert_eq!(watcher.stats().pending_events, 1);
    assert_eq!(watcher.process_pending_events(70), vec!["/r/nes".to_string()]);
    assert_eq!(watcher.stats().last_scan, Some(70));
    assert!(matches!(watcher.event_loop_step(LoopEvent::Disconnected, 80), LoopAction::Stop));
}

#[test]
fn a_full_batch_is_worked_off_at_once() {
    let config = WatchConfig { batch_size: 2, scan_delay: 50, ..WatchConfig::default() };
    let mut watcher = RomWatcher::new(config).unwrap();
    let first = LoopEvent::Notice { kind: ChangeKind::Create, paths: paths(&["/r/a.nes"]) };
    assert!(matches!(watcher.event_loop_step(first, 1), LoopAction::Continue(d) if d.is_empty()));
    let second = LoopEvent::Notice { kind: ChangeKind::Create, paths: paths(&["/q/b.nes"]) };
    assert!(matches!(
        watcher.event_loop_step(second, 2),
        LoopAction::Continue(d) if d == vec!["/r".to_string(), "/q".to_string()]
    ));
}
