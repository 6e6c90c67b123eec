use retroarch_fast_indexer::platform::{Platform, PlatformPathConverter};

#[test]
fn test_platform_display_names() {
    assert_eq!(Platform::Windows.display_name(), "Windows (PC)");
    assert_eq!(Platform::Switch.display_name(), "Nintendo Switch");
    assert_eq!(Platform::SteamDeck.display_name(), "Steam Deck");
}

#[test]
fn test_path_conversion() {
    let converter = PlatformPathConverter::new(Platform::Windows, Platform::Switch);

    let windows_path = "D:\\ROMs\\n64\\Super Mario 64.z64";
    let switch_path = converter.convert_rom_path(windows_path);
    assert!(switch_path.contains("/retroarch/roms"));
    assert!(switch_path.contains("Super Mario 64.z64"));
}

#[test]
fn test_core_conversion() {
    let converter = PlatformPathConverter::new(Platform::Windows, Platform::Switch);

    let windows_core = "C:\\RetroArch\\cores\\mupen64plus_next_libretro.dll";
    let switch_core = converter.convert_core_path(windows_core);
    assert!(switch_core.contains("mupen64plus_next"));
    assert!(switch_core.ends_with("_libnx.a"));
}

#[test]
fn rom_path_conversion_is_exact() {
    let to_switch = PlatformPathConverter::new(Platform::Windows, Platform::Switch);
    assert_eq!(
        to_switch.convert_rom_path("D:\\ROMs\\n64\\Super Mario 64.z64"),
        "/retroarch/roms/n64/Super Mario 64.z64"
    );
    let to_windows = PlatformPathConverter::new(Platform::Linux, Platform::Windows);
    assert_eq!(
        to_windows.convert_rom_path("/home/user/roms/snes/Game.sfc"),
        "D:/Games/ROMs\\snes\\Game.sfc"
    );
    // no known directory name: the last two components
    assert_eq!(
        to_switch.convert_rom_path("E:\\stuff\\n64\\Game.z64"),
        "/retroarch/roms/n64/Game.z64"
    );
    assert_eq!(to_switch.convert_rom_path("Game.z64"), "/retroarch/roms/Game.z64");
    // the first name of the list wins, not the first in the path
    assert_eq!(
        to_switch.convert_rom_path("/Games/x/roms/y/a.bin"),
        "/retroarch/roms/y/a.bin"
    );
}

#[test]
fn core_path_conversion_is_exact() {
    let to_switch = PlatformPathConverter::new(Platform::Windows, Platform::Switch);
    assert_eq!(
        to_switch.convert_core_path("C:\\RetroArch\\cores\\mupen64plus_next_libretro.dll"),
        "/switch/retroarch/cores/mupen64plus_next_libnx.a"
    );
    let to_linux = PlatformPathConverter::new(Platform::Android, Platform::Linux);
    assert_eq!(
        to_linux.convert_core_path("/data/data/com.retroarch/cores/snes9x_libretro_android.so"),
        "/usr/lib/libretro/snes9x.so"
    );
}

#[test]
fn same_platform_keeps_paths() {
    let same = PlatformPathConverter::new(Platform::Linux, Platform::Linux);
    assert_eq!(same.convert_rom_path("/any/where.bin"), "/any/where.bin");
    assert_eq!(same.convert_core_path("/x/core_libretro.so"), "/x/core_libretro.so");
}

#[test]
fn platform_tables() {
    assert_eq!(Platform::MacOS.short_name(), "macOS");
    assert_eq!(Platform::Raspberry.to_string(), "Raspberry");
    assert_eq!(Platform::Android.default_roms_path(), "/storage/emulated/0/RetroArch/roms");
    assert_eq!(Platform::SteamDeck.default_roms_path(), "/home/deck/ROMs");
    assert_eq!(Platform::Raspberry.default_cores_path(), "/opt/retropie/libretrocores");
    assert_eq!(Platform::Linux.core_extension(), ".so");
    assert_eq!(Platform::MacOS.core_extension(), ".dylib");
    assert_eq!(Platform::Android.core_extension(), "_android.so");
    assert_eq!(Platform::Windows.path_separator(), '\\');
    assert_eq!(Platform::Switch.path_separator(), '/');
    assert!(!Platform::Windows.is_unix_like());
    assert!(Platform::Android.is_unix_like());
    assert!(Platform::Windows.supports_archives());
    assert!(!Platform::Windows.has_case_sensitive_filesystem());
    assert!(!Platform::MacOS.has_case_sensitive_filesystem());
    assert!(Platform::Linux.has_case_sensitive_filesystem());
}

#[test]
fn pieces_of_the_conversion() {
    let c = PlatformPathConverter::new(Platform::Windows, Platform::Linux);
    assert_eq!(c.extract_relative_path("C:\\RetroArch\\roms\\gb\\a.gb"), "gb/a.gb");
    assert_eq!(c.extract_relative_path("a/b/c/d.bin"), "c/d.bin");
    assert_eq!(c.extract_relative_path("/d.bin"), "/d.bin");
    assert_eq!(c.extract_core_name("cores/mgba_libretro_libnx.a"), "mgba");
    assert_eq!(c.build_target_path("gb\\a.gb", true), "/home/user/ROMs/gb/a.gb");
    assert_eq!(c.build_target_path("x.so", false), "/usr/lib/libretro/x.so");
}
