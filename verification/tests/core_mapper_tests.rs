use retroarch_fast_indexer::core_mapper::{CoreInfo, CoreMapper};
use retroarch_fast_indexer::platform::Platform;

#[test]
fn test_core_mapping() {
    let mapper = CoreMapper::new();

    let (core_path, core_name) = mapper
        .get_default_core("Nintendo - Nintendo 64", Platform::Windows)
        .unwrap();

    assert!(core_path.contains("mupen64plus_next_libretro.dll"));
    assert_eq!(core_name, "Mupen64Plus-Next");
}

#[test]
fn test_platform_core_conversion() {
    let mapper = CoreMapper::new();

    let (windows_core, _) = mapper
        .get_default_core("Nintendo - Nintendo 64", Platform::Windows)
        .unwrap();

    let (switch_core, _) = mapper
        .get_default_core("Nintendo - Nintendo 64", Platform::Switch)
        .unwrap();

    assert!(windows_core.contains(".dll"));
    assert!(switch_core.contains("_libnx.a"));
}

#[test]
fn test_system_support() {
    let mapper = CoreMapper::new();
    let systems = mapper.get_supported_systems();

    assert!(systems.contains(&"Nintendo - Nintendo 64".to_string()));
    assert!(systems.contains(&"Nintendo - Super Nintendo Entertainment System".to_string()));
    assert!(systems.contains(&"Sony - PlayStation".to_string()));
}

#[test]
fn test_mgba_multi_system_support() {
    let mapper = CoreMapper::new();

    // mGBA should support multiple Game Boy systems
    let (gba_core, gba_name) = mapper
        .get_default_core("Nintendo - Game Boy Advance", Platform::Windows)
        .unwrap();

    let (gb_core, gb_name) = mapper
        .get_default_core("Nintendo - Game Boy", Platform::Windows)
        .unwrap();

    assert_eq!(gba_name, "mGBA");
    assert_eq!(gb_name, "mGBA");
    assert_eq!(gba_core, gb_core);
}

#[test]
fn default_core_paths_are_exact() {
    let mapper = CoreMapper::new();
    assert_eq!(
        mapper.get_default_core("Nintendo - Nintendo 64", Platform::Windows),
        Some((
            "C:/RetroArch/cores/mupen64plus_next_libretro.dll".to_string(),
            "Mupen64Plus-Next".to_string()
        ))
    );
    assert_eq!(
        mapper.get_default_core("Sega - Game Gear", Platform::Android),
        Some((
            "/data/data/com.retroarch/cores/genesis_plus_gx_libretro_android.so".to_string(),
            "Genesis Plus GX".to_string()
        ))
    );
    assert_eq!(
        mapper.get_default_core("Sony - PlayStation", Platform::MacOS),
        Some((
            "/Applications/RetroArch.app/Contents/Resources/cores/pcsx_rearmed_libretro.dylib"
                .to_string(),
            "PCSX ReARMed".to_string()
        ))
    );
}

#[test]
fn core_without_a_build_for_the_platform_is_detected_later() {
    let mapper = CoreMapper::new();
    assert_eq!(
        mapper.get_default_core("MAME", Platform::Switch),
        Some(("DETECT".to_string(), "MAME (Current)".to_string()))
    );
    assert_eq!(
        mapper.get_default_core("Nintendo - Nintendo 64", Platform::Raspberry),
        Some(("DETECT".to_string(), "Mupen64Plus-Next".to_string()))
    );
    assert_eq!(mapper.get_default_core("Unknown System", Platform::Linux), None);
}

#[test]
fn standard_systems_in_the_order_of_registration() {
    let mapper = CoreMapper::new();
    assert_eq!(
        mapper.get_supported_systems(),
        vec![
            "Nintendo - Nintendo 64".to_string(),
            "Nintendo - Super Nintendo Entertainment System".to_string(),
            "Nintendo - Game Boy Advance".to_string(),
            "Nintendo - Game Boy Color".to_string(),
            "Nintendo - Game Boy".to_string(),
            "Sega - Mega Drive - Genesis".to_string(),
            "Sega - Master System - Mark III".to_string(),
            "Sega - Game Gear".to_string(),
            "Sony - PlayStation".to_string(),
            "Nintendo - Nintendo Entertainment System".to_string(),
            "MAME".to_string(),
        ]
    );
    assert_eq!(mapper.get_all_cores().len(), 7);
    assert_eq!(mapper.get_core_info("snes9x").unwrap().display_name, "Snes9x");
    assert!(mapper.get_core_info("missing").is_none());
}

#[test]
fn added_core_takes_over_its_systems() {
    let mut mapper = CoreMapper::new();
    let core = CoreInfo::new("ParaLLEl N64".to_string(), "parallel_n64".to_string())
        .with_systems(vec!["Nintendo - Nintendo 64".to_string(), "Nintendo - 64DD".to_string()])
        .with_platform_core(Platform::Linux, "old.so".to_string())
        .with_platform_core(Platform::Linux, "parallel_n64_libretro.so".to_string());
    assert_eq!(
        core.get_core_for_platform(Platform::Linux),
        Some("parallel_n64_libretro.so".to_string())
    );
    assert_eq!(core.get_core_for_platform(Platform::Windows), None);
    mapper.add_core("parallel_n64".to_string(), core);
    assert_eq!(
        mapper.get_default_core("Nintendo - Nintendo 64", Platform::Linux),
        Some(("/usr/lib/libretro/parallel_n64_libretro.so".to_string(), "ParaLLEl N64".to_string()))
    );
    assert_eq!(
        mapper.get_default_core("Nintendo - 64DD", Platform::Windows),
        Some(("DETECT".to_string(), "ParaLLEl N64".to_string()))
    );
    assert_eq!(mapper.get_supported_systems().len(), 12);
}
