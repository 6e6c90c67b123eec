use retroarch_fast_indexer::error::ScannerError;
use retroarch_fast_indexer::scanner::{FileFacts, RomFile, Scanner, ThreadStatus};

#[test]
fn test_system_detection() {
    let rom = RomFile::new("test.z64".to_string());
    assert_eq!(rom.detect_system().unwrap(), "Nintendo - Nintendo 64");

    let rom = RomFile::new("test.gba".to_string());
    assert_eq!(rom.detect_system().unwrap(), "Nintendo - Game Boy Advance");
}

#[test]
fn test_extension_filtering() {
    let scanner = Scanner::new();

    assert!(scanner.is_rom_file("game.z64"));
    assert!(scanner.is_rom_file("game.iso"));
    assert!(!scanner.is_rom_file("readme.txt"));
}

#[test]
fn test_custom_extensions() {
    let scanner = Scanner::new().with_extensions(Some(&["rom".to_string(), "bin".to_string()]));

    assert!(scanner.is_rom_file("game.rom"));
    assert!(scanner.is_rom_file("game.bin"));
    assert!(!scanner.is_rom_file("game.z64"));
}

#[test]
fn new_record_takes_name_and_extension_from_the_path() {
    let rom = RomFile::new("/roms/N64/Super Mario 64.Z64".to_string());
    assert_eq!(rom.path, "/roms/N64/Super Mario 64.Z64");
    assert_eq!(rom.filename, "Super Mario 64.Z64");
    assert_eq!(rom.extension, "z64");
    assert_eq!((rom.size, rom.crc32, rom.system.clone(), rom.is_archive), (0, None, None, false));
    let rom = RomFile::new("C:\\roms\\game".to_string());
    assert_eq!((rom.filename.as_str(), rom.extension.as_str()), ("game", ""));
    let rom = RomFile::new("/roms/.hidden".to_string());
    assert_eq!((rom.filename.as_str(), rom.extension.as_str()), (".hidden", ""));
    let rom = RomFile::new("/roms/dir/".to_string());
    assert_eq!(rom.filename, "dir");
    let rom = RomFile::new("..".to_string());
    assert_eq!(rom.filename, "");
}

fn system_of(path: &str) -> Option<String> {
    RomFile::new(path.to_string()).detect_system()
}

#[test]
fn plain_extensions_tell_the_system() {
    for (path, system) in [
        ("a.nes", "Nintendo - Nintendo Entertainment System"),
        ("a.unif", "Nintendo - Nintendo Entertainment System"),
        ("a.fig", "Nintendo - Super Nintendo Entertainment System"),
        ("a.v64", "Nintendo - Nintendo 64"),
        ("a.gb", "Nintendo - Game Boy"),
        ("a.gbc", "Nintendo - Game Boy Color"),
        ("a.ids", "Nintendo - Nintendo DS"),
        ("a.cxi", "Nintendo - Nintendo 3DS"),
        ("a.sg", "Sega - Master System - Mark III"),
        ("a.32x", "Sega - 32X"),
        ("a.gg", "Sega - Game Gear"),
        ("a.a78", "Atari - 7800"),
        ("a.sgx", "NEC - PC Engine - TurboGrafx 16"),
        ("a.wsc", "Bandai - WonderSwan"),
        ("a.neo", "SNK - Neo Geo"),
    ] {
        assert_eq!(system_of(path), Some(system.to_string()));
    }
    assert_eq!(system_of("a.txt"), None);
    assert_eq!(system_of("a"), None);
}

#[test]
fn shared_extensions_need_a_hint_from_the_path() {
    assert_eq!(system_of("/roms/x/a.iso"), None);
    assert_eq!(system_of("/roms/GameCube/a.iso"), Some("Nintendo - GameCube".to_string()));
    assert_eq!(system_of("/roms/x/a.rvz"), None);
    // the file's own name is part of the path
    assert_eq!(system_of("/roms/x/a.gcm"), Some("Nintendo - GameCube".to_string()));
    assert_eq!(system_of("/roms/psx/a.iso"), Some("Sony - PlayStation".to_string()));
    assert_eq!(system_of("/roms/ps2/a.iso"), Some("Sony - PlayStation 2".to_string()));
    assert_eq!(system_of("/roms/psp/a.iso"), Some("Sony - PlayStation Portable".to_string()));
    assert_eq!(system_of("/roms/Genesis/a.bin"), Some("Sega - Mega Drive - Genesis".to_string()));
    assert_eq!(system_of("/roms/x/a.md"), Some("Sega - Mega Drive - Genesis".to_string()));
    assert_eq!(system_of("/roms/x/a.gen"), None);
    assert_eq!(system_of("/roms/atari/a.bin"), Some("Atari - 2600".to_string()));
    assert_eq!(system_of("/roms/x/a.a26"), None);
    assert_eq!(system_of("/roms/dreamcast/a.chd"), Some("Sega - Dreamcast".to_string()));
    assert_eq!(system_of("/roms/ps1/a.chd"), Some("Sony - PlayStation".to_string()));
    // the earlier rule wins where several hints are given
    assert_eq!(system_of("/roms/genesis-psx/a.bin"), Some("Sega - Mega Drive - Genesis".to_string()));
}

#[test]
fn containers_are_arcade_unless_named_like_console_roms() {
    assert_eq!(system_of("/roms/x/pacman.zip"), Some("MAME".to_string()));
    assert_eq!(system_of("/roms/x/a very long name of a set.7z"), Some("MAME".to_string()));
    assert_eq!(system_of("/roms/x/old.rar"), Some("MAME".to_string()));
    assert_eq!(system_of("/roms/x/Super Game (USA).zip"), None);
    assert_eq!(system_of("/roms/snes/Super Game (USA).zip"),
        Some("Nintendo - Super Nintendo Entertainment System".to_string()));
    assert_eq!(system_of("/roms/n64/Super Game [!].7z"), Some("Nintendo - Nintendo 64".to_string()));
    assert_eq!(system_of("/roms/mame/Super Game (USA).zip"), Some("MAME".to_string()));
    assert_eq!(system_of("/roms/fbneo/Super Game (USA).zip"), Some("MAME".to_string()));
    // a short name with a version is still an arcade name
    assert_eq!(system_of("/roms/x/version 1.zip"), Some("MAME".to_string()));
    assert_eq!(system_of("/roms/x/long game version 1.zip"), None);
    // exactly twelve characters are short, thirteen are not
    assert!(RomFile::new("/roms/x/abcdefghijkl.zip".to_string()).is_mame());
    assert!(RomFile::new("/roms/x/abcdefghijklm rev 1.zip".to_string()).is_mame() == false);
    assert!(!RomFile::new("/roms/x/game.nes".to_string()).is_mame());
    assert!(RomFile::new("/arcade/game.nes".to_string()).is_mame());
}

#[test]
fn path_heuristics() {
    let rom = RomFile::new("/roms/Famicom/a.bin".to_string());
    assert_eq!(rom.detect_system_from_path(), Some("Nintendo - Nintendo Entertainment System".to_string()));
    assert_eq!(rom.detect_system_from_path_conservative(), Some("Nintendo - Nintendo Entertainment System".to_string()));
    let rom = RomFile::new("/roms/my snes games/a.bin".to_string());
    assert_eq!(rom.detect_system_from_path(), Some("Nintendo - Nintendo Entertainment System".to_string()));
    assert_eq!(rom.detect_system_from_path_conservative(), None);
    let rom = RomFile::new("/arcade/gba/a.bin".to_string());
    assert_eq!(rom.detect_system_from_path(), Some("Nintendo - Game Boy Advance".to_string()));
    assert_eq!(rom.detect_system_from_path_conservative(), None);
    let rom = RomFile::new("D:\\roms\\mega_drive\\a.bin".to_string());
    assert_eq!(rom.detect_system_from_path_conservative(), Some("Sega - Mega Drive - Genesis".to_string()));
}

#[test]
fn candidates_by_extension() {
    let scanner = Scanner::new();
    assert!(scanner.is_rom_file("/x/GAME.NES"));
    assert!(scanner.is_rom_file("/x/set.zip"));
    assert!(scanner.is_rom_file("/x/set.RAR"));
    assert!(!scanner.is_rom_file("/x/nes"));
    assert!(!scanner.is_rom_file("/x/.nes"));
    let custom = Scanner::new().with_extensions(Some(&["ROM".to_string()]));
    assert!(custom.is_rom_file("a.rom"));
    assert!(custom.is_rom_file("a.Rom"));
    assert!(!custom.is_rom_file("a.zip"));
    let none = Scanner::new().with_extensions(Some(&[]));
    assert!(!none.is_rom_file("a.nes"));
    let back = none.with_extensions(None);
    assert!(back.is_rom_file("a.nes"));
}

fn facts(path: &str, size: Option<u64>, hash: Option<u32>) -> FileFacts {
    FileFacts { path: path.to_string(), size, hash }
}

#[test]
fn records_get_size_checksum_system_and_container_flag() {
    let mut scanner = Scanner::new().with_verbose(true);
    assert!(scanner.needs_hash("/r/a.zip"));
    let rom = scanner.process_file(&facts("/r/a.zip", Some(42), Some(0xAB))).unwrap().unwrap();
    assert_eq!(rom.path, "/r/a.zip");
    assert_eq!(rom.filename, "a.zip");
    assert_eq!(rom.extension, "zip");
    assert_eq!(rom.size, 42);
    assert_eq!(rom.crc32, Some(0xAB));
    assert_eq!(rom.system, Some("MAME".to_string()));
    assert!(rom.is_archive);
    // the checksum is remembered and wins over a fresh one
    assert!(!scanner.needs_hash("/r/a.zip"));
    let again = scanner.process_file_simple(&facts("/r/a.zip", Some(43), Some(0xCD))).unwrap().unwrap();
    assert_eq!((again.size, again.crc32), (43, Some(0xAB)));
    let unhashed = scanner.process_file(&facts("/r/b.nes", Some(1), None)).unwrap().unwrap();
    assert_eq!(unhashed.crc32, None);
    assert!(!unhashed.is_archive);
    assert!(scanner.needs_hash("/r/b.nes"));
    assert!(matches!(
        scanner.process_file(&facts("/r/c.nes", None, Some(1))),
        Err(ScannerError::MetadataUnreadable(p)) if p == "/r/c.nes"
    ));
    assert!(scanner.needs_hash("/r/c.nes"));
}

#[test]
fn scanner_without_checksums_ignores_them() {
    let mut scanner = Scanner::new().with_calculate_crc(false);
    assert!(!scanner.needs_hash("/r/a.nes"));
    let rom = scanner.finish_record("/r/a.nes", 5, Some(1));
    assert_eq!(rom.crc32, None);
    let mut scanner = scanner.with_calculate_crc(true);
    assert!(scanner.needs_hash("/r/a.nes"));
    assert_eq!(scanner.finish_record("/r/a.nes", 5, Some(2)).crc32, Some(2));
}

#[test]
fn scan_keeps_candidates_in_order_and_skips_unreadable_files() {
    let listing = vec![
        facts("/r/b.nes", Some(2), Some(20)),
        facts("/r/readme.txt", Some(1), Some(10)),
        facts("/r/a.sfc", None, Some(30)),
        facts("/r/c.z64", Some(3), None),
        facts("/r/b.nes", Some(4), Some(21)),
    ];
    let mut scanner = Scanner::new();
    let roms = scanner.scan_directory("/r", Some(&listing)).unwrap();
    let seen: Vec<(&str, u64, Option<u32>)> =
        roms.iter().map(|r| (r.path.as_str(), r.size, r.crc32)).collect();
    assert_eq!(
        seen,
        vec![("/r/b.nes", 2, Some(20)), ("/r/c.z64", 3, None), ("/r/b.nes", 4, Some(20))]
    );
    assert_eq!(roms[0].system, Some("Nintendo - Nintendo Entertainment System".to_string()));
    let simple = scanner.scan_directory_simple("/r", Some(&Vec::new())).unwrap();
    assert!(simple.is_empty());
}

#[test]
fn scan_of_a_missing_directory_is_an_error() {
    let mut scanner = Scanner::new();
    assert!(matches!(
        scanner.scan_directory("/missing", None),
        Err(ScannerError::DirectoryNotFound(p)) if p == "/missing"
    ));
    assert!(matches!(
        scanner.scan_directory_simple("/missing", None),
        Err(ScannerError::DirectoryNotFound(p)) if p == "/missing"
    ));
}

#[test]
fn statuses_shown_while_a_file_is_processed() {
    let mut scanner = Scanner::new();
    let (rom, shown) = scanner.process_file_with_monitor(&facts("/r/a.zip", Some(1), Some(2)));
    assert_eq!(rom.unwrap().unwrap().crc32, Some(2));
    assert_eq!(shown.len(), 8);
    assert!(matches!(&shown[0], ThreadStatus::ScanningFile(p) if p == "/r/a.zip"));
    for (k, status) in shown[1..7].iter().enumerate() {
        assert!(matches!(status, ThreadStatus::ExtractingArchive { file, progress }
            if file == "/r/a.zip" && *progress == 20 * k as u32));
    }
    assert!(matches!(&shown[7], ThreadStatus::CalculatingCrc(p) if p == "/r/a.zip"));
    let (_, shown) = scanner.process_file_with_monitor(&facts("/r/a.nes", Some(1), None));
    assert_eq!(shown.len(), 2);
    let (rom, shown) = scanner.process_file_with_monitor(&facts("/r/a.nes", None, None));
    assert!(rom.is_err());
    assert_eq!(shown.len(), 1);
    let mut quiet = Scanner::new().with_calculate_crc(false);
    let (_, shown) = quiet.process_file_with_monitor(&facts("/r/a.nes", Some(1), None));
    assert_eq!(shown.len(), 1);
}

#[test]
fn a_new_scanner_has_at_least_one_worker() {
    // the scan of no files works with whatever number of workers the machine gives
    let mut scanner = Scanner::new();
    assert!(scanner.scan_directory("/r", Some(&Vec::new())).unwrap().is_empty());
}

#[test]
fn scan_that_tells_what_is_shown() {
    let listing = vec![
        facts("/r/a.nes", Some(1), Some(10)),
        facts("/r/readme.txt", Some(1), None),
        facts("/r/b.zip", None, None),
    ];
    let mut scanner = Scanner::new();
    let (roms, shown) = scanner.scan_directory_monitored("/r", Some(&listing));
    assert_eq!(roms.unwrap().len(), 1);
    assert_eq!(shown.len(), 5);
    assert!(matches!(&shown[0], ThreadStatus::ScanningFile(p) if p == "/r/a.nes"));
    assert!(matches!(&shown[1], ThreadStatus::CalculatingCrc(p) if p == "/r/a.nes"));
    assert!(matches!(&shown[2], ThreadStatus::ProcessingComplete(p) if p == "/r/a.nes"));
    assert!(matches!(&shown[3], ThreadStatus::ScanningFile(p) if p == "/r/b.zip"));
    assert!(matches!(&shown[4], ThreadStatus::Error(p, e) if p == "/r/b.zip" && e == "metadata unreadable"));
    let (missing, shown) = scanner.scan_directory_monitored("/none", None);
    assert!(matches!(missing, Err(ScannerError::DirectoryNotFound(p)) if p == "/none"));
    assert!(shown.is_empty());
}
