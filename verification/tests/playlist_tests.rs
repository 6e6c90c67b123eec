use retroarch_fast_indexer::dat_parser::DatCollection;
use retroarch_fast_indexer::platform::Platform;
use retroarch_fast_indexer::playlist::{Playlist, PlaylistBuilder, PlaylistItem};
use retroarch_fast_indexer::scanner::RomFile;

#[test]
fn test_playlist_creation() {
    let mut playlist = Playlist::new();
    assert_eq!(playlist.version, "1.5");
    assert_eq!(playlist.items.len(), 0);

    let item = PlaylistItem::new("/path/to/game.rom".to_string(), "Test Game".to_string());
    playlist.add_item(item);

    assert_eq!(playlist.items.len(), 1);
    assert_eq!(playlist.items[0].label, "Test Game");
}

#[test]
fn test_filename_cleaning() {
    let builder = PlaylistBuilder::new();

    let cleaned = builder.clean_filename("Super Mario Bros (USA) [!].nes");
    assert_eq!(cleaned, "Super Mario Bros USA !");

    let cleaned = builder.clean_filename("Zelda [Rev A].z64");
    assert_eq!(cleaned, "Zelda Rev A");
}

#[test]
fn filename_cleaning_edge_cases() {
    let builder = PlaylistBuilder::new();
    assert_eq!(builder.clean_filename("noextension"), "noextension");
    assert_eq!(builder.clean_filename(".hidden"), "");
    assert_eq!(builder.clean_filename("a.b.c"), "a.b");
    assert_eq!(builder.clean_filename("  ((x))  [y].bin"), "x y");
    assert_eq!(builder.clean_filename(""), "");
}

#[test]
fn checksum_tag_has_eight_upper_case_digits() {
    let item = PlaylistItem::new("p".to_string(), "l".to_string()).with_crc32(0x12345678);
    assert_eq!(item.crc32, Some("12345678|crc".to_string()));
    let item = PlaylistItem::new("p".to_string(), "l".to_string()).with_crc32(0xab);
    assert_eq!(item.crc32, Some("000000AB|crc".to_string()));
    let item = PlaylistItem::new("p".to_string(), "l".to_string())
        .with_core("c".to_string(), "n".to_string())
        .with_db_name("d.lpl".to_string());
    assert_eq!(item.core_path, Some("c".to_string()));
    assert_eq!(item.core_name, Some("n".to_string()));
    assert_eq!(item.db_name, Some("d.lpl".to_string()));
    assert_eq!(item.crc32, None);
}

fn labels(p: &Playlist) -> Vec<String> {
    p.items.iter().map(|i| i.label.clone()).collect()
}

#[test]
fn sorting_is_by_code_point_and_stable() {
    let mut playlist = Playlist::new();
    for (path, label) in [("1", "b"), ("2", "B"), ("3", "a"), ("4", "ab"), ("5", "a"), ("6", "")] {
        playlist.add_item(PlaylistItem::new(path.to_string(), label.to_string()));
    }
    playlist.sort_by_label();
    assert_eq!(labels(&playlist), vec!["", "B", "a", "a", "ab", "b"]);
    let paths: Vec<String> = playlist.items.iter().map(|i| i.path.clone()).collect();
    assert_eq!(paths, vec!["6", "2", "3", "5", "4", "1"]);
}

#[test]
fn repeats_of_path_and_checksum_are_dropped() {
    let mut playlist = Playlist::new();
    playlist.add_item(PlaylistItem::new("a".to_string(), "first".to_string()).with_crc32(1));
    playlist.add_item(PlaylistItem::new("a".to_string(), "second".to_string()).with_crc32(1));
    playlist.add_item(PlaylistItem::new("a".to_string(), "third".to_string()).with_crc32(2));
    playlist.add_item(PlaylistItem::new("a".to_string(), "fourth".to_string()));
    playlist.add_item(PlaylistItem::new("b".to_string(), "fifth".to_string()).with_crc32(1));
    playlist.add_item(PlaylistItem::new("a".to_string(), "sixth".to_string()));
    playlist.deduplicate();
    assert_eq!(labels(&playlist), vec!["first", "third", "fourth", "fifth"]);
}

fn rom(path: &str, crc: Option<u32>, system: Option<&str>) -> RomFile {
    let mut r = RomFile::new(path.to_string());
    r.crc32 = crc;
    r.system = system.map(|s| s.to_string());
    r
}

#[test]
fn master_playlist_takes_classified_records() {
    let mut dat = DatCollection::new();
    dat.parse_simple_dat("000000AA=Zelda (USA)\n", "nes.dat").unwrap();
    let builder = PlaylistBuilder::new()
        .with_platforms(Platform::Linux, Platform::Switch)
        .with_dat_collection(dat)
        .with_verbose(true);
    let roms = vec![
        rom("/home/user/roms/nes/zelda.nes", Some(0xAA), Some("Nintendo - Nintendo Entertainment System")),
        rom("/home/user/roms/nes/Mario (USA).nes", Some(0xBB), Some("Nintendo - Nintendo Entertainment System")),
        rom("/home/user/roms/x/unknown.bin", None, None),
        rom("/home/user/roms/n64/Game.z64", None, Some("Nintendo - Nintendo 64")),
    ];
    let playlist = builder.build_master(&roms).unwrap();
    assert_eq!(labels(&playlist), vec!["Game", "Mario USA", "Zelda (USA)"]);
    assert_eq!(playlist.default_core_path, None);
    let zelda = &playlist.items[2];
    assert_eq!(zelda.path, "/retroarch/roms/nes/zelda.nes");
    assert_eq!(zelda.crc32, Some("000000AA|crc".to_string()));
    assert_eq!(zelda.db_name, Some("Nintendo - Nintendo Entertainment System.lpl".to_string()));
    assert_eq!(zelda.core_path, Some("/switch/retroarch/cores/fceumm_libretro_libnx.a".to_string()));
    assert_eq!(zelda.core_name, Some("FCEUmm".to_string()));
    let game = &playlist.items[0];
    assert_eq!(game.crc32, None);
    assert_eq!(game.core_name, Some("Mupen64Plus-Next".to_string()));
}

#[test]
fn playlists_by_system() {
    let builder = PlaylistBuilder::new();
    let roms = vec![
        rom("C:\\roms\\b.nes", None, Some("Nintendo - Nintendo Entertainment System")),
        rom("C:\\roms\\x.bin", None, None),
        rom("C:\\roms\\a.z64", None, Some("Nintendo - Nintendo 64")),
        rom("C:\\roms\\a.nes", None, Some("Nintendo - Nintendo Entertainment System")),
        rom("C:\\roms\\odd.xyz", None, Some("Homemade")),
    ];
    let by_system = builder.build_by_system(&roms).unwrap();
    assert_eq!(by_system.len(), 3);
    let nes = by_system.get("Nintendo - Nintendo Entertainment System").unwrap();
    assert_eq!(labels(nes), vec!["a", "b"]);
    assert_eq!(nes.default_core_name, Some("FCEUmm".to_string()));
    assert_eq!(
        nes.default_core_path,
        Some("C:/RetroArch/cores/fceumm_libretro.dll".to_string())
    );
    let n64 = by_system.get("Nintendo - Nintendo 64").unwrap();
    assert_eq!(labels(n64), vec!["a"]);
    let odd = by_system.get("Homemade").unwrap();
    assert_eq!(odd.default_core_name, None);
    assert_eq!(odd.items[0].core_path, Some("DETECT".to_string()));
    assert_eq!(odd.items[0].core_name, Some("DETECT".to_string()));
    assert!(by_system.get("MAME").is_none());
}

#[test]
fn forced_system_takes_every_record() {
    let builder = PlaylistBuilder::new();
    let roms = vec![
        rom("C:\\roms\\b.zip", None, Some("Nintendo - Nintendo 64")),
        rom("C:\\roms\\a.zip", None, None),
    ];
    let playlist = builder.build_single_system_playlist(&roms, "MAME").unwrap();
    assert_eq!(labels(&playlist), vec!["a", "b"]);
    assert_eq!(playlist.default_core_name, Some("MAME (Current)".to_string()));
    assert_eq!(playlist.items[0].db_name, Some("MAME.lpl".to_string()));
    assert_eq!(playlist.items[1].db_name, Some("MAME.lpl".to_string()));
}
