use retroarch_fast_indexer::dat_block::{find_inline, take_fields};
use retroarch_fast_indexer::dat_parser::{create_simple_dat, DatCollection};
use retroarch_fast_indexer::mame_xml::{MameXmlDatabase, XmlEvent};

#[test]
fn test_simple_dat_parsing() {
    let dat_content = r#"
# Test DAT file
# CRC32=Name format

12345678=Super Mario Bros (USA)
ABCDEF01=The Legend of Zelda (USA)
        "#;

    let mut collection = DatCollection::new();
    collection.parse_simple_dat(dat_content, "/tmp/test.dat").unwrap();

    assert_eq!(collection.total_entries(), 2);
    assert_eq!(collection.get_name_by_crc(0x12345678).unwrap(), "Super Mario Bros (USA)");
    assert_eq!(collection.get_name_by_crc(0xABCDEF01).unwrap(), "The Legend of Zelda (USA)");
}

#[test]
fn dat_parser_test_invalid_crc_handling() {
    let dat_content = r#"
INVALID_CRC=Invalid Game
12345678=Valid Game
        "#;

    let mut collection = DatCollection::new();
    collection.parse_simple_dat(dat_content, "test.dat").unwrap();

    // Should only have the valid entry
    assert_eq!(collection.total_entries(), 1);
    assert_eq!(collection.get_name_by_crc(0x12345678).unwrap(), "Valid Game");
}

#[test]
fn test_create_simple_dat() {
    let entries = [(0x12345678, "Game 1"), (0xABCDEF01, "Game 2")];

    let dat_content = create_simple_dat(&entries);

    assert!(dat_content.contains("12345678=Game 1"));
    assert!(dat_content.contains("ABCDEF01=Game 2"));
}

#[test]
fn test_mame_clrmamepro_dat_parsing() {
    let sample_dat = r#"clrmamepro (
    name "MAME 0.245"
    description "MAME 0.245"
)

game (
    name "1942"
    description "1942 (Revision B)"
    rom ( name "srb-03.m3" size 2048 crc 36d7200e sha1 b13e04e8b53c76e5c0f2045b5d72f13a7027a2c4 )
    rom ( name "srb-04.m4" size 2048 crc 3ebf6858 sha1 c2d12cd37b16033e0bb4a0c8bcb8a12175e72de5 )
)

game (
    name "pacman"
    description "Pac-Man (Midway)"
    rom ( name "pacman.6e" size 4096 crc c1e6ab10 sha1 e87e059c5be45753f7e9f33dff8f35211c9b91c1 )
    rom ( name "pacman.6f" size 4096 crc 1a6fb2d4 sha1 674d3a7f00d8be5e38b1fdc208ebef5a92d38329 )
)
"#;

    // Parse the DAT
    let mut collection = DatCollection::new();
    collection.load_dat_file("mame.dat", sample_dat).expect("Failed to parse DAT");

    // Test lookups
    assert!(collection.find_by_crc32(0x36d7200e).is_some());
    assert!(collection.find_by_crc32(0xc1e6ab10).is_some());

    let entry1942 = collection.find_by_crc32(0x36d7200e).unwrap();
    assert_eq!(entry1942.name, "1942 (Revision B)");

    let entry_pacman = collection.find_by_crc32(0xc1e6ab10).unwrap();
    assert_eq!(entry_pacman.name, "Pac-Man (Midway)");

    // Test name lookup
    assert_eq!(collection.get_name_by_crc(0x36d7200e).unwrap(), "1942 (Revision B)");
    assert_eq!(collection.get_name_by_crc(0xc1e6ab10).unwrap(), "Pac-Man (Midway)");
}

#[test]
fn test_mame_multiline_game_format() {
    let sample_dat = r#"clrmamepro (
    name "MAME"
)

game
(
    name "streetfighter"
    description "Street Fighter (US, Set 1)"
    rom
    (
        name "sf_36.bin"
        size 32768
        crc 4b5b7d8d
        sha1 4d3c263e2d13c0b395ad55d07d2e7ca1ba3bb16e
    )
)
"#;

    let mut collection = DatCollection::new();
    collection.load_dat_file("mame.dat", sample_dat).expect("Failed to parse DAT");

    let entry = collection.find_by_crc32(0x4b5b7d8d).unwrap();
    assert_eq!(entry.name, "Street Fighter (US, Set 1)");
}

#[test]
fn dat_parser_tests_test_invalid_crc_handling() {
    let sample_dat = r#"clrmamepro (
    name "TEST"
)

game (
    name "badrom"
    description "Bad ROM Example"
    rom ( name "bad.bin" size 1024 crc INVALID sha1 abcdef )
)
"#;

    let mut collection = DatCollection::new();

    // Should not fail, just skip invalid entries
    collection.load_dat_file("test.dat", sample_dat).expect("Failed to parse DAT");

    // Should have no entries due to invalid CRC
    assert_eq!(collection.total_entries(), 0);
}

#[test]
fn test_debug_mame_parsing() {
    let sample_dat = r#"
game (
    name "1942"
    description "1942 (Revision B)"
    rom ( name "srb-03.m3" size 2048 crc 36d7200e sha1 b13e04e8b53c76e5c0f2045b5d72f13a7027a2c4 )
)

game (
    name "pacman"
    description "Pac-Man (Midway)"
    rom ( name "pacman.6e" size 4096 crc c1e6ab10 sha1 e87e059c5be45753f7e9f33dff8f35211c9b91c1 )
)
"#;

    let mut collection = DatCollection::new();
    collection.load_dat_file("debug.dat", sample_dat).expect("Failed to parse DAT");

    println!("Total entries loaded: {}", collection.total_entries());

    let crc1 = 0x36d7200e;
    let crc2 = 0xc1e6ab10;

    println!("Looking for CRC: {:08X}", crc1);
    if let Some(entry) = collection.find_by_crc32(crc1) {
        println!("Found: {}", entry.name);
    } else {
        println!("Not found!");
    }

    println!("Looking for CRC: {:08X}", crc2);
    if let Some(entry) = collection.find_by_crc32(crc2) {
        println!("Found: {}", entry.name);
    } else {
        println!("Not found!");
    }

    println!("All loaded entries:");
    for _i in 0..collection.total_entries() {
        if let Some(name) = collection.get_name_by_crc(crc1) {
            println!("  {:08X} -> {}", crc1, name);
            break;
        }
    }
}

#[test]
fn debug_multiline_test() {
    let sample_dat = r#"clrmamepro (
    name "MAME"
)

game
(
    name "streetfighter"
    description "Street Fighter (US, Set 1)"
    rom
    (
        name "sf_36.bin"
        size 32768
        crc 4b5b7d8d
        sha1 4d3c263e2d13c0b395ad55d07d2e7ca1ba3bb16e
    )
)
"#;

    let mut collection = DatCollection::new();
    collection.load_dat_file("debug.dat", sample_dat).expect("Failed to parse DAT");

    println!("Total entries: {}", collection.total_entries());

    let expected_crc = 0x4b5b7d8d;
    println!("Looking for CRC32: 0x{:08x}", expected_crc);

    match collection.find_by_crc32(expected_crc) {
        Some(entry) => println!("Found entry: {}", entry.name),
        None => println!("Entry not found!"),
    }
}

#[test]
fn test_debug_multiple_games() {
    let sample_dat = r#"clrmamepro (
    name "MAME 0.245"
    description "MAME 0.245"
)

game (
    name "1942"
    description "1942 (Revision B)"
    rom ( name "srb-03.m3" size 2048 crc 36d7200e sha1 b13e04e8b53c76e5c0f2045b5d72f13a7027a2c4 )
    rom ( name "srb-04.m4" size 2048 crc 3ebf6858 sha1 c2d12cd37b16033e0bb4a0c8bcb8a12175e72de5 )
)

game (
    name "pacman"
    description "Pac-Man (Midway)"
    rom ( name "pacman.6e" size 4096 crc c1e6ab10 sha1 e87e059c5be45753f7e9f33dff8f35211c9b91c1 )
    rom ( name "pacman.6f" size 4096 crc 1a6fb2d4 sha1 674d3a7f00d8be5e38b1fdc208ebef5a92d38329 )
)
"#;

    println!("Sample DAT content:");
    println!("{}", sample_dat);

    let mut collection = DatCollection::new();
    collection.load_dat_file("multi.dat", sample_dat).expect("Failed to parse DAT");

    println!("Total entries loaded: {}", collection.total_entries());

    let crc1 = 0x36d7200e;
    let crc2 = 0x3ebf6858;
    let crc3 = 0xc1e6ab10;
    let crc4 = 0x1a6fb2d4;

    println!("Looking for CRC1: {:08X}", crc1);
    if let Some(entry) = collection.find_by_crc32(crc1) {
        println!("  Found: {}", entry.name);
    } else {
        println!("  Not found!");
    }

    println!("Looking for CRC2: {:08X}", crc2);
    if let Some(entry) = collection.find_by_crc32(crc2) {
        println!("  Found: {}", entry.name);
    } else {
        println!("  Not found!");
    }

    println!("Looking for CRC3: {:08X}", crc3);
    if let Some(entry) = collection.find_by_crc32(crc3) {
        println!("  Found: {}", entry.name);
    } else {
        println!("  Not found!");
    }

    println!("Looking for CRC4: {:08X}", crc4);
    if let Some(entry) = collection.find_by_crc32(crc4) {
        println!("  Found: {}", entry.name);
    } else {
        println!("  Not found!");
    }
}

#[test]
fn test_simple_single_game() {
    let sample_dat = r#"clrmamepro (
    name "MAME"
)

game (
    name "pacman"
    description "Pac-Man (Midway)"
    rom ( name "pacman.6e" size 4096 crc c1e6ab10 sha1 e87e059c5be45753f7e9f33dff8f35211c9b91c1 )
)
"#;

    let mut collection = DatCollection::new();
    collection.load_dat_file("single.dat", sample_dat).expect("Failed to parse DAT");

    println!("Total entries: {}", collection.total_entries());

    let crc = 0xc1e6ab10;
    println!("Looking for CRC: {:08X}", crc);

    if let Some(entry) = collection.find_by_crc32(crc) {
        println!("Found: {} (CRC: {:08X})", entry.name, entry.crc32);
        assert_eq!(entry.name, "Pac-Man (Midway)");
    } else {
        println!("Not found!");
        panic!("Entry not found for CRC {:08X}", crc);
    }
}

#[test]
fn two_games_with_two_roms_each_give_four_mappings() {
    let dat = "game (\n\tname \"alpha\"\n\tdescription \"Alpha Game\"\n\trom ( name a1 size 10 crc 0000000a )\n\trom ( name a2 size 20 crc 0x0000000B )\n)\ngame (\n\tname \"beta\"\n\trom ( name b1 crc (\"0000000c\") size 30 )\n\trom\n\t(\n\t\tname \"b2\"\n\t\tsize 40\n\t\tcrc 0000000d\n\t)\n)\n";
    let mut collection = DatCollection::new();
    collection.load_from_file("sets/arcade.dat", dat).unwrap();
    assert_eq!(collection.total_entries(), 4);
    assert_eq!(collection.systems_count(), 1);
    assert_eq!(collection.get_name_by_crc(0xA).unwrap(), "Alpha Game");
    assert_eq!(collection.get_name_by_crc(0xB).unwrap(), "Alpha Game");
    assert_eq!(collection.get_name_by_crc(0xC).unwrap(), "beta");
    assert_eq!(collection.get_name_by_crc(0xD).unwrap(), "beta");
    assert_eq!(collection.get_name_by_crc(0xE), None);
    let rows = collection.get_system_entries("arcade").unwrap();
    assert_eq!(rows.len(), 4);
    assert_eq!(rows[0].size, Some(10));
    assert_eq!(rows[1].size, Some(20));
    assert_eq!(rows[2].size, Some(30));
    assert_eq!(rows[3].size, Some(40));
    assert_eq!(rows[3].crc32, 0xD);
    assert!(rows[0].md5.is_none() && rows[0].sha1.is_none());
    assert!(collection.get_system_entries("other").is_none());
}

#[test]
fn later_rows_replace_earlier_ones_with_the_same_checksum() {
    let mut collection = DatCollection::new();
    collection.parse_simple_dat("1=First\n2=Other\n1=Second\n", "a.dat").unwrap();
    assert_eq!(collection.total_entries(), 2);
    assert_eq!(collection.get_name_by_crc(1).unwrap(), "Second");
    collection.parse_simple_dat("2:Third\n", "b.dat").unwrap();
    assert_eq!(collection.get_name_by_crc(2).unwrap(), "Third");
    assert_eq!(collection.systems_count(), 2);
    assert_eq!(collection.get_system_entries("a").unwrap().len(), 3);
}

#[test]
fn line_format_separators_comments_and_bad_lines() {
    let mut collection = DatCollection::new();
    let content = "# comment\n; comment\n\n  0a = Spaced Name  \r\n0B:Colon=Name\n0c|Pipe\nno separator\nzz=bad\n=empty\n+d=Plus\n123456789=too long\n";
    collection.parse_simple_dat(content, "lines.dat").unwrap();
    assert_eq!(collection.total_entries(), 4);
    assert_eq!(collection.get_name_by_crc(0xA).unwrap(), "Spaced Name");
    // the first separator that occurs cuts the line, the rest is the name
    assert_eq!(collection.get_name_by_crc(0xB).unwrap(), "Colon=Name");
    assert_eq!(collection.get_name_by_crc(0xC).unwrap(), "Pipe");
    assert_eq!(collection.get_name_by_crc(0xD).unwrap(), "Plus");
}

#[test]
fn the_name_may_hold_other_separators() {
    let mut collection = DatCollection::new();
    collection.parse_simple_dat("ABCDEF01|Zelda: Link\n1:a=b|c\n2=x:y\n", "t.dat").unwrap();
    assert_eq!(collection.get_name_by_crc(0xABCDEF01), Some("Zelda: Link".to_string()));
    assert_eq!(collection.get_name_by_crc(1), Some("a=b|c".to_string()));
    assert_eq!(collection.get_name_by_crc(2), Some("x:y".to_string()));
    assert_eq!(collection.total_entries(), 3);
}

#[test]
fn markup_is_told_by_the_start_of_the_text() {
    let mut collection = DatCollection::new();
    collection.load_dat_file("x.dat", "1=a<?xml\n").unwrap();
    assert_eq!(collection.get_name_by_crc(1), Some("a<?xml".to_string()));
    collection.load_dat_file("y.dat", " \n\t<?xml version=\"1.0\"?>\n2=b\n").unwrap();
    assert_eq!(collection.total_entries(), 1);
}

#[test]
fn a_line_with_a_non_hex_checksum_gives_nothing() {
    let mut collection = DatCollection::new();
    collection.parse_simple_dat("GHIJ=Name\n", "x.dat").unwrap();
    assert_eq!(collection.total_entries(), 0);
    assert_eq!(collection.systems_count(), 0);
    collection.parse_simple_dat("00ff00ff=Name\n", "x.dat").unwrap();
    assert_eq!(collection.total_entries(), 1);
    assert_eq!(collection.get_name_by_crc(0x00FF00FF), Some("Name".to_string()));
}

#[test]
fn format_is_told_by_the_content() {
    let mut collection = DatCollection::new();
    collection.load_dat_file("x.dat", "<?xml version=\"1.0\"?>\n1=Name\n").unwrap();
    assert_eq!(collection.total_entries(), 0);
    collection.load_dat_file("x.dat", "1=Name\n").unwrap();
    assert_eq!(collection.total_entries(), 1);
    // the word clrmamepro makes it a block catalog, in which lines give nothing
    collection.load_dat_file("x.dat", "clrmamepro\n2=Name\n").unwrap();
    assert_eq!(collection.total_entries(), 1);
}

#[test]
fn block_on_one_line_ends_there() {
    let dat = "game ( name \"one\" rom ( name a crc 00000001 ) )\ngame (\n name \"two\"\n rom ( name b crc 00000002 )\n)\n";
    let mut collection = DatCollection::new();
    collection.load_dat_file("x.dat", dat).unwrap();
    assert_eq!(collection.total_entries(), 2);
    assert_eq!(collection.get_name_by_crc(1).unwrap(), "one");
    assert_eq!(collection.get_name_by_crc(2).unwrap(), "two");
}

#[test]
fn blocks_on_one_line_carry_their_description() {
    let dat = "game ( name \"a\" description \"A\" rom ( name \"a.bin\" size 1 crc 11111111 ) )\ngame ( name \"b\" description \"B\" rom ( name \"b.bin\" size 1 crc 22222222 ) )\n";
    let mut collection = DatCollection::new();
    collection.parse_clrmamepro_dat(dat, "x.dat").unwrap();
    assert_eq!(collection.total_entries(), 2);
    assert_eq!(collection.get_name_by_crc(0x11111111), Some("A".to_string()));
    assert_eq!(collection.get_name_by_crc(0x22222222), Some("B".to_string()));
    assert_eq!(collection.find_by_crc32(0x11111111).unwrap().size, Some(1));
}

#[test]
fn a_rom_before_the_name_of_its_game_carries_that_name() {
    let dat = "game (\n rom ( name a crc 00000001 )\n name \"late\"\n rom\n (\n  name \"inner\"\n  crc 00000002\n )\n description \"Later Still\"\n)\ngame (\n rom ( name b crc 00000003 )\n)\n";
    let mut collection = DatCollection::new();
    collection.load_dat_file("x.dat", dat).unwrap();
    assert_eq!(collection.get_name_by_crc(1), Some("Later Still".to_string()));
    assert_eq!(collection.get_name_by_crc(2), Some("Later Still".to_string()));
    assert_eq!(collection.get_name_by_crc(3), Some("Unknown ROM (CRC: 00000003)".to_string()));
}

#[test]
fn too_many_closing_parentheses_end_the_block() {
    let dat = "game (\n name \"one\"\n rom ( name a crc 00000001 ) ) ) )\n name \"stray\"\n rom ( name b crc 00000002 )\n";
    let mut collection = DatCollection::new();
    collection.load_dat_file("x.dat", dat).unwrap();
    assert_eq!(collection.total_entries(), 0);
}

#[test]
fn pieces_of_the_block_parser() {
    let collection = DatCollection::new();
    assert_eq!(collection.extract_quoted_value("name \"a \"b\" c\""), Some("a \"b\" c".to_string()));
    assert_eq!(collection.extract_quoted_value("name \"only one"), None);
    assert_eq!(collection.extract_quoted_value("no quotes"), None);
    assert_eq!(collection.extract_quoted_value("\"\""), Some(String::new()));

    let entry = collection
        .parse_rom_line("rom ( name x size 12 crc aa crc bb size zz )", "name", "desc")
        .unwrap();
    assert_eq!(entry.crc32, 0xBB);
    assert_eq!(entry.size, Some(12));
    assert_eq!(entry.name, "desc");
    let entry = collection.parse_rom_line("rom ( crc 0Xff )", "name", "").unwrap();
    assert_eq!((entry.crc32, entry.name.as_str(), entry.size), (0xFF, "name", None));
    assert!(collection.parse_rom_line("rom ( crc )", "", "").is_none());
    assert!(collection.parse_rom_line("rom ( size 3 )", "n", "d").is_none());
    assert!(collection.parse_rom_line("rom ( crc", "n", "d").is_none());

    let (entry, used) = collection
        .parse_multiline_rom_block(&["rom", "(", "name \"r\"", "size 7", "crc 1f", ")", "after"], "", "")
        .unwrap();
    assert_eq!((entry.crc32, entry.name.as_str(), entry.size, used), (0x1F, "r", Some(7), 6));
    assert!(collection.parse_multiline_rom_block(&["rom", "name \"r\"", "crc 1f"], "", "").is_none());
    assert!(collection.parse_multiline_rom_block(&["name"], "", "").is_none());
    assert!(collection.parse_multiline_rom_block(&[], "", "").is_none());

    let rows = collection
        .parse_clrmamepro_game_block("name \"g\"\nrom\n(\ncrc xyz\n)\nrom ( crc 5 )\n", "")
        .unwrap();
    assert_eq!(rows.len(), 1);
    assert_eq!((rows[0].crc32, rows[0].name.as_str()), (5, "g"));
    assert_eq!(collection.extract_system_name_from_path("dats/Nintendo - NES.dat"), "Nintendo - NES");
}

#[test]
fn simple_dat_text_is_exact() {
    assert_eq!(create_simple_dat(&[]), "# Simple DAT format\n# CRC32=Name\n\n");
    assert_eq!(
        create_simple_dat(&[(0xAB, "Game 1"), (0xFFFFFFFF, "")]),
        "# Simple DAT format\n# CRC32=Name\n\n000000AB=Game 1\nFFFFFFFF=\n"
    );
    let mut collection = DatCollection::new();
    collection
        .load_dat_file("made.dat", &create_simple_dat(&[(0xAB, "Game 1"), (0xCD, "Game 2")]))
        .unwrap();
    assert_eq!(collection.get_name_by_crc(0xAB).unwrap(), "Game 1");
    assert_eq!(collection.get_name_by_crc(0xCD).unwrap(), "Game 2");
}

#[test]
fn secondary_source_gives_descriptions_by_short_name() {
    let mut collection = DatCollection::new();
    assert_eq!(collection.get_mame_name_by_filename("pacman.zip"), None);
    assert_eq!(collection.get_mame_description_by_dat_name("pacman"), None);
    let db = MameXmlDatabase::parse_events(&vec![
        XmlEvent::Start {
            name: "game".to_string(),
            attributes: vec![("name".to_string(), "pacman".to_string())],
        },
        XmlEvent::Text("Pac-Man (Midway)".to_string()),
        XmlEvent::End("description".to_string()),
        XmlEvent::End("game".to_string()),
        XmlEvent::Eof,
    ])
    .unwrap();
    collection.load_mame_xml_database(None).unwrap();
    assert_eq!(collection.get_mame_description_by_dat_name("pacman"), None);
    collection.load_mame_xml_database_from_file(None, Some(db)).unwrap();
    assert_eq!(
        collection.get_mame_name_by_filename("pacman.v2.zip"),
        Some("Pac-Man (Midway)".to_string())
    );
    assert_eq!(
        collection.get_mame_description_by_dat_name("pacman"),
        Some("Pac-Man (Midway)".to_string())
    );
    assert_eq!(collection.get_mame_description_by_dat_name("puckman"), None);
}

#[test]
fn test_mame_xml_parsing() {
    let xml_content = r#"
        <mame>
            <game name="puckman" sourcefile="pacman.c">
                <description>PuckMan (Japan set 1)</description>
                <year>1980</year>
                <manufacturer>Namco</manufacturer>
            </game>
            <game name="pacman" cloneof="puckman" romof="puckman">
                <description>Pac-Man (Midway)</description>
                <year>1980</year>
                <manufacturer>Midway</manufacturer>
            </game>
        </mame>
        "#;

    let database = MameXmlDatabase::parse_xml_content(xml_content).unwrap();

    assert_eq!(database.get_description("puckman"), Some("PuckMan (Japan set 1)"));
    assert_eq!(database.get_description("pacman"), Some("Pac-Man (Midway)"));
    assert!(database.contains_rom("puckman"));
    assert!(database.contains_rom("pacman"));
    assert!(!database.contains_rom("nonexistent"));

    let game_info = database.get_game_info("pacman").unwrap();
    assert_eq!(game_info.year, Some("1980".to_string()));
    assert_eq!(game_info.manufacturer, Some("Midway".to_string()));
    assert_eq!(game_info.clone_of, Some("puckman".to_string()));
}

#[test]
fn metadata_document_details() {
    let xml = "<mame><game name=\"a\"><description>A &amp; B</description></game>\
               <game name=\"b\"><year>1999</year></game>\
               <game><description>nameless</description></game>\
               <game name=\"c\" name=\"d\"/></mame>";
    let database = MameXmlDatabase::parse_xml_content(xml).unwrap();
    assert_eq!(database.stats(), (1, 1));
    assert_eq!(database.get_all_rom_names(), vec!["a"]);
    assert_eq!(database.get_description("a"), Some("A & B"));
    let info = database.get_game_info("a").unwrap();
    assert_eq!((info.name.as_str(), info.year.clone(), info.rom_of.clone()), ("a", None, None));
    assert!(MameXmlDatabase::parse_xml_content("<mame><game></mame>").is_err());
    assert_eq!(MameXmlDatabase::load_embedded().unwrap().stats(), (0, 0));
    assert_eq!(MameXmlDatabase::new().stats(), (0, 0));
}

#[test]
fn events_after_the_end_are_not_read_and_failures_stop_the_reading() {
    let game = |name: &str| {
        vec![
            XmlEvent::Start {
                name: "game".to_string(),
                attributes: vec![
                    ("name".to_string(), "old".to_string()),
                    ("name".to_string(), name.to_string()),
                ],
            },
            XmlEvent::Text("ignored".to_string()),
            XmlEvent::End("other".to_string()),
            XmlEvent::Other,
            XmlEvent::Text("Described".to_string()),
            XmlEvent::End("description".to_string()),
            XmlEvent::End("game".to_string()),
        ]
    };
    let mut events = game("first");
    events.push(XmlEvent::Eof);
    events.extend(game("second"));
    let db = MameXmlDatabase::parse_events(&events).unwrap();
    assert_eq!(db.get_all_rom_names(), vec!["first"]);

    let mut events = game("first");
    events.push(XmlEvent::Failed("broken".to_string()));
    assert_eq!(
        MameXmlDatabase::parse_events(&events).err(),
        Some("Error parsing MAME XML: broken".to_string())
    );

    // a text whose escapes cannot be resolved fails under its own words
    let mut events = game("first");
    events.push(XmlEvent::BadText("bad escape".to_string()));
    events.extend(game("second"));
    assert_eq!(MameXmlDatabase::parse_events(&events).err(), Some("bad escape".to_string()));
    let failed = MameXmlDatabase::parse_xml_content(
        "<mame><game name=\"a\"><description>&bogus;</description></game></mame>",
    );
    let message = failed.err().unwrap();
    assert!(!message.is_empty());
    assert!(!message.starts_with("Error parsing MAME XML"));
}

#[test]
fn catalogs_of_a_directory() {
    let files = vec![
        ("/dats/nes.dat".to_string(), "1=One\n2=Two\n".to_string()),
        ("/dats/notes.txt".to_string(), "3=Three\n".to_string()),
        ("/dats/snes.DAT".to_string(), "4=Four\n".to_string()),
        ("/dats/empty.dat".to_string(), "# nothing\n".to_string()),
        ("/dats/gb.dat".to_string(), "2=Two again\n5=Five\n".to_string()),
    ];
    let collection = DatCollection::load_directory(Some(&files), None).unwrap();
    assert_eq!(collection.total_entries(), 3);
    assert_eq!(collection.systems_count(), 2);
    assert_eq!(collection.get_name_by_crc(2), Some("Two again".to_string()));
    assert_eq!(collection.get_name_by_crc(3), None);
    assert_eq!(collection.get_name_by_crc(4), None);
    let names: Vec<String> = collection.all_entries().iter().map(|e| e.name.clone()).collect();
    assert_eq!(names, vec!["One", "Two", "Two again", "Five"]);
    let none = DatCollection::load_directory(None, None).unwrap();
    assert_eq!(none.total_entries(), 0);
    assert_eq!(none.systems_count(), 0);
}

#[test]
fn fields_written_within_a_line() {
    let line: Vec<char> = "( name \"a b\" year 1984 description \"A (B)\" rom ( name \"x\" )".chars().collect();
    let name: String = find_inline(&line, "name \"").unwrap().into_iter().collect();
    let desc: String = find_inline(&line, "description \"").unwrap().into_iter().collect();
    assert_eq!((name.as_str(), desc.as_str()), ("a b", "A (B)"));
    let open: Vec<char> = "name \"never closed".chars().collect();
    assert!(find_inline(&open, "name \"").is_none());
    assert!(find_inline(&line, "size \"").is_none());
    let (n, d) = take_fields(&line, vec!['o'], vec!['p']);
    assert_eq!((n.iter().collect::<String>(), d.iter().collect::<String>()), ("a b".to_string(), "A (B)".to_string()));
    let rom_only: Vec<char> = "rom ( name \"x\" description \"y\" crc 1 )".chars().collect();
    let (n, d) = take_fields(&rom_only, vec!['o'], vec!['p']);
    assert_eq!((n, d), (vec!['o'], vec!['p']));
}
