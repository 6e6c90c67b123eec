use retroarch_fast_indexer::{Config, CrcCache, Platform, PlaylistBuilder, Scanner};
use retroarch_fast_indexer::scanner::FileFacts;

/// Basic integration test for scanner functionality
#[test]
fn test_scanner_basic_functionality() {
    let listing = vec![
        FileFacts { path: "roms/test.nes".to_string(), size: Some(12), hash: Some(1) },
        FileFacts { path: "roms/test.sfc".to_string(), size: Some(12), hash: Some(2) },
        FileFacts { path: "roms/test.z64".to_string(), size: Some(12), hash: Some(3) },
    ];

    // Create scanner
    let mut scanner = Scanner::new().with_threads(2).with_recursive(true);

    let roms = scanner.scan_directory("roms", Some(&listing)).unwrap();
    assert_eq!(roms.len(), 3);
}

/// Test platform functionality
#[test]
fn test_platform_functionality() {
    let _platform_win = Platform::Windows;
    let _platform_switch = Platform::Switch;

    // Test platform types can be created
    assert!(true);
}

/// Test playlist builder creation
#[test]
fn test_playlist_builder() {
    let _builder = PlaylistBuilder::new();

    // Test that builder was created successfully
    assert!(true); // Builder created without panic
}

/// Test basic config functionality
#[test]
fn test_config_creation() {
    let _config = Config::default();

    // Test that config has expected defaults
    assert!(true); // Config created without panic
}

/// Test CRC cache creation
#[test]
fn test_cache_creation() {
    let _cache = CrcCache::new();

    // Test that cache was created successfully
    assert!(true); // Cache created without panic
}

/// Test basic module functionality
#[test]
fn test_module_integration() {
    // Test that all main modules can be imported and basic types created
    let _scanner = Scanner::new();
    let _builder = PlaylistBuilder::new();
    let _config = Config::default();
    let _cache = CrcCache::new();
    let _platform = Platform::Windows;

    // If we reach here, all modules are properly integrated
    assert!(true);
}
