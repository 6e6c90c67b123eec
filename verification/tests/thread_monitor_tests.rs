use retroarch_fast_indexer::scanner::ThreadStatus;
use retroarch_fast_indexer::thread_monitor::{
    status_message, truncate_filename, truncate_text, ThreadMonitor,
};

fn st(v: &[char]) -> String {
    v.iter().collect()
}

fn cs(s: &str) -> Vec<char> {
    s.chars().collect()
}

#[test]
fn long_texts_are_cut() {
    assert_eq!(st(&truncate_text(&cs("abcdefghij"), 10)), "abcdefghij");
    assert_eq!(st(&truncate_text(&cs("abcdefghijk"), 10)), "abcdefg...");
    assert_eq!(st(&truncate_text(&cs("abcdef"), 3)), "...");
    assert_eq!(st(&truncate_text(&cs("abcdef"), 2)), "...");
    assert_eq!(st(&truncate_text(&cs("abcdef"), 0)), "...");
    assert_eq!(st(&truncate_text(&cs(""), 0)), "");
    assert_eq!(st(&truncate_filename("/roms/nes/A very long name of a game.nes", 12)), "A very lo...");
    assert_eq!(st(&truncate_filename("/roms/nes/", 12)), "nes");
}

#[test]
fn lines_for_the_statuses() {
    assert_eq!(status_message(&ThreadStatus::Idle), "\u{1F538} Aguardando...");
    assert_eq!(
        status_message(&ThreadStatus::ScanningFile("/r/a.nes".to_string())),
        "\u{1F50D} Escaneando: a.nes"
    );
    assert_eq!(
        status_message(&ThreadStatus::ExtractingArchive {
            file: "/r/abcdefghijklmnopqrstuvwxyz.zip".to_string(),
            progress: 40
        }),
        "\u{1F4E6} Extraindo abcdefghijklmnopq... (40.0%)"
    );
    assert_eq!(
        status_message(&ThreadStatus::CalculatingCrc("a.nes".to_string())),
        "\u{1F522} CRC32: a.nes"
    );
    assert_eq!(
        status_message(&ThreadStatus::ProcessingComplete("C:\\r\\a.nes".to_string())),
        "\u{2705} Conclu\u{ED}do: a.nes"
    );
    assert_eq!(
        status_message(&ThreadStatus::Error(
            "/r/a.nes".to_string(),
            "the file could not be read at all".to_string()
        )),
        "\u{274C} Erro em a.nes: the file could no..."
    );
}

#[test]
fn workers_are_counted() {
    let mut monitor = ThreadMonitor::new(10, 4, true);
    assert_eq!(monitor.get_thread_stats(), (0, 0, 0));
    monitor.register_thread(3, 100);
    monitor.register_thread(1, 101);
    assert_eq!(monitor.get_thread_stats(), (2, 0, 0));
    assert_eq!(
        monitor.update_thread_status(3, ThreadStatus::ScanningFile("/r/a.nes".to_string())),
        Some("\u{1F50D} Escaneando: a.nes".to_string())
    );
    assert_eq!(monitor.get_thread_stats(), (2, 1, 0));
    assert!(monitor.update_thread_status(3, ThreadStatus::ProcessingComplete("/r/a.nes".to_string())).is_some());
    assert!(monitor.update_thread_status(1, ThreadStatus::ProcessingComplete("/r/b.nes".to_string())).is_some());
    assert!(monitor.update_thread_status(1, ThreadStatus::ProcessingComplete("/r/c.nes".to_string())).is_some());
    assert_eq!(monitor.get_thread_stats(), (2, 2, 3));
    assert_eq!(monitor.completed(), 3);
    // a worker that is not registered changes nothing
    assert_eq!(monitor.update_thread_status(7, ThreadStatus::ProcessingComplete("x".to_string())), None);
    assert_eq!(monitor.completed(), 3);
    assert!(monitor.update_thread_status(1, ThreadStatus::Idle).is_some());
    assert_eq!(monitor.get_thread_stats(), (2, 1, 3));
    // registering again starts the worker anew
    monitor.register_thread(1, 200);
    assert_eq!(monitor.get_thread_stats(), (2, 1, 1));
    monitor.unregister_thread(3);
    monitor.unregister_thread(3);
    assert_eq!(monitor.get_thread_stats(), (1, 0, 0));
    assert_eq!(monitor.completed(), 3);
}

#[test]
fn a_quiet_monitor_shows_no_lines() {
    let mut monitor = ThreadMonitor::new(1, 1, false);
    monitor.register_thread(0, 0);
    assert_eq!(monitor.update_thread_status(0, ThreadStatus::ProcessingComplete("a".to_string())), None);
    assert_eq!(monitor.get_thread_stats(), (1, 1, 1));
    assert_eq!(monitor.completed(), 1);
}
