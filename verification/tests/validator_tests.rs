use retroarch_fast_indexer::dat_parser::DatEntry;
use retroarch_fast_indexer::scanner::RomFile;
use retroarch_fast_indexer::validation_text::rate_in_tenths;
use retroarch_fast_indexer::validator::{RomValidator, ValidationReport, ValidationResult};

#[test]
fn test_validator_creation() {
    let validator = RomValidator::new();
    assert!(validator.has_no_catalogs());
    assert!(validator.homebrew_pattern_count() != 0);
}

#[test]
fn test_homebrew_detection() {
    let validator = RomValidator::new();

    assert!(validator.is_homebrew_pattern("Test Game (Homebrew).nes"));
    assert!(validator.is_homebrew_pattern("Hack [h1].sfc"));
    assert!(!validator.is_homebrew_pattern("Super Mario Bros.nes"));
}

#[test]
fn test_region_extraction() {
    let validator = RomValidator::new();

    assert_eq!(validator.extract_region("Super Mario Bros. (USA)"), Some("USA".to_string()));
    assert_eq!(validator.extract_region("Final Fantasy (Japan)"), Some("Japan".to_string()));
    assert_eq!(validator.extract_region("Test Game"), None);
}

#[test]
fn test_name_normalization() {
    let validator = RomValidator::new();

    assert_eq!(validator.normalize_name("Super Mario Bros."), "super mario bros");
    assert_eq!(validator.normalize_name("Test-Game_v1.0!"), "testgamev10");
}

#[test]
fn name_normalization_keeps_letters_of_all_scripts() {
    let validator = RomValidator::new();
    assert_eq!(validator.normalize_name("  \u{00C9}cole \t N\u{00B0}5  "), "\u{00E9}cole n5");
    assert_eq!(validator.normalize_name(""), "");
}

#[test]
fn region_tags_are_case_sensitive_and_ordered() {
    let validator = RomValidator::new();
    assert_eq!(validator.extract_region("Game (usa)"), None);
    assert_eq!(validator.extract_region("Game (Japan) (Europe)"), Some("Europe".to_string()));
    assert_eq!(validator.extract_region("Game (Italy)"), Some("Italy".to_string()));
}

#[test]
fn versions_are_found_by_pattern() {
    let validator = RomValidator::new();
    assert_eq!(validator.extract_version("Game (Rev 12) (v1.1)"), Some("(Rev 12)".to_string()));
    assert_eq!(validator.extract_version("Game (v10.02)"), Some("(v10.02)".to_string()));
    assert_eq!(validator.extract_version("Game (Version 3)"), Some("(Version 3)".to_string()));
    assert_eq!(validator.extract_version("Game (Rev A)"), None);
    assert_eq!(validator.extract_version("Game (v1)"), None);
}

fn entry(name: &str) -> DatEntry {
    DatEntry { crc32: 1, name: name.to_string(), size: None, md5: None, sha1: None }
}

#[test]
fn bad_dump_marks_in_catalog_names() {
    let validator = RomValidator::new();
    assert!(validator.is_bad_dump_entry(&entry("Game [B]")));
    assert!(validator.is_bad_dump_entry(&entry("Game (Corrupt)")));
    assert!(!validator.is_bad_dump_entry(&entry("Game [b1]")));
}

fn rom(path: &str, crc: Option<u32>) -> RomFile {
    let mut r = RomFile::new(path.to_string());
    r.crc32 = crc;
    r
}

fn loaded() -> RomValidator {
    let mut validator = RomValidator::new();
    validator
        .load_dat_collection("nes", "dats/nes.dat", "1=Super Game (USA) (Rev 2)\n2=Bad Game [b]\n3=Other\n")
        .unwrap();
    validator.load_dat_collection("snes", "dats/snes.dat", "3=Shadowed\n4=Zed\n0A=Alpha\n").unwrap();
    validator
}

#[test]
fn verdicts_on_single_records() {
    let validator = loaded();
    assert!(!validator.has_no_catalogs());
    assert_eq!(validator.available_systems(), vec!["nes".to_string(), "snes".to_string()]);
    let unused: Result<u32, String> = Err("unused".to_string());
    assert!(matches!(
        validator.validate_rom(&rom("/r/super game usa rev 2.nes", Some(1)), unused.clone()).unwrap(),
        ValidationResult::Valid { dat_name, region, version }
            if dat_name == "Super Game (USA) (Rev 2)"
                && region == Some("USA".to_string())
                && version == Some("(Rev 2)".to_string())
    ));
    assert!(matches!(
        validator.validate_rom(&rom("/r/renamed.nes", None), Ok(1)).unwrap(),
        ValidationResult::ValidButRenamed { dat_name, expected_name, .. }
            if dat_name == "Super Game (USA) (Rev 2)" && expected_name == "Super Game (USA) (Rev 2)"
    ));
    assert!(matches!(
        validator.validate_rom(&rom("/r/bad game b.nes", Some(2)), unused.clone()).unwrap(),
        ValidationResult::BadDump { dat_name, reason }
            if dat_name == "Bad Game [b]" && reason == "Marked as bad dump in DAT"
    ));
    // the first catalog that knows the checksum decides
    assert!(matches!(
        validator.validate_rom(&rom("/r/other.nes", Some(3)), unused.clone()).unwrap(),
        ValidationResult::Valid { dat_name, .. } if dat_name == "Other"
    ));
    assert!(matches!(
        validator.validate_rom(&rom("/r/My Game (PD).nes", Some(99)), unused.clone()).unwrap(),
        ValidationResult::Homebrew { detected_name } if detected_name == "My Game (PD).nes"
    ));
    assert!(matches!(
        validator.validate_rom(&rom("/r/(PD)/plain.nes", Some(99)), unused.clone()).unwrap(),
        ValidationResult::Unknown
    ));
    assert!(matches!(
        validator.validate_rom(&rom("/r/gone.nes", None), Err("no such file".to_string())).unwrap(),
        ValidationResult::Corrupted { error } if error == "no such file"
    ));
}

#[test]
fn report_on_a_collection() {
    let validator = loaded();
    let roms = vec![
        rom("/r/super game usa rev 2.nes", Some(1)),
        rom("/r/renamed.nes", None),
        rom("/r/unknown.nes", Some(50)),
        rom("/r/bad.nes", Some(2)),
        rom("/r/fan (Homebrew).nes", Some(51)),
        rom("/r/gone.nes", None),
        rom("/r/unknown.nes", Some(4)),
        rom("/r/also unknown.nes", Some(52)),
    ];
    let hashes: Vec<Result<u32, String>> = vec![
        Err("unused".to_string()),
        Ok(1),
        Err("unused".to_string()),
        Err("unused".to_string()),
        Err("unused".to_string()),
        Err("unreadable".to_string()),
    ];
    let report: ValidationReport = validator.validate_collection(&roms, &hashes).unwrap();
    assert_eq!(report.total_roms, 8);
    assert_eq!(report.valid_roms, 1);
    assert_eq!(report.renamed_roms, 2);
    assert_eq!(report.unknown_roms, 2);
    assert_eq!(report.bad_dumps, 1);
    assert_eq!(report.homebrew_roms, 1);
    assert_eq!(report.corrupted_roms, 1);
    assert_eq!(report.validation_basis_points(), 3750);
    // the later verdict on a path replaces the earlier one
    assert_eq!(report.validation_results.len(), 7);
    assert_eq!(report.unknown_roms(), vec![&"/r/also unknown.nes".to_string()]);
    let renamed: Vec<(String, String)> = report
        .roms_needing_rename()
        .iter()
        .map(|(p, n)| (p.to_string(), n.to_string()))
        .collect();
    assert_eq!(
        renamed,
        vec![
            ("/r/renamed.nes".to_string(), "Super Game (USA) (Rev 2)".to_string()),
            ("/r/unknown.nes".to_string(), "Zed".to_string())
        ]
    );
    let bad: Vec<(String, String)> =
        report.bad_dumps().iter().map(|(p, n)| (p.to_string(), n.to_string())).collect();
    assert_eq!(bad, vec![("/r/bad.nes".to_string(), "Marked as bad dump in DAT".to_string())]);
    // rows whose checksum no record has, sorted by name
    let missing: Vec<(u32, String)> =
        report.missing_from_collection.iter().map(|e| (e.crc32, e.name.clone())).collect();
    assert_eq!(
        missing,
        vec![(0xA, "Alpha".to_string()), (3, "Other".to_string()), (3, "Shadowed".to_string())]
    );
}

#[test]
fn empty_collection_is_fully_valid() {
    let report = RomValidator::new().validate_collection(&[], &[]).unwrap();
    assert_eq!(report.total_roms, 0);
    assert_eq!(report.validation_basis_points(), 10000);
    assert!(report.unknown_roms().is_empty());
    assert!(report.missing_from_collection.is_empty());
}

#[test]
fn written_report() {
    let validator = loaded();
    let roms = vec![
        rom("/r/renamed.nes", None),
        rom("/r/unknown.nes", Some(50)),
        rom("/r/bad.nes", Some(2)),
    ];
    let hashes: Vec<Result<u32, String>> = vec![Ok(1)];
    let (report, text) = validator.generate_report(&roms, &hashes).unwrap();
    assert_eq!(report.total_roms, 3);
    assert_eq!(text, report.to_text());
    let expected = "# ROM Collection Validation Report\n\n\
**Total ROMs**: 3\n\
**Validation Rate**: 33.3%\n\n\
## Summary\n\n\
- \u{e2}\u{153}\u{2026} Valid: 0\n\
- \u{f0}\u{178}\u{201d}\u{201e} Need Rename: 1\n\
- \u{e2}\u{201c} Unknown: 1\n\
- \u{f0}\u{178}\u{a0} Homebrew: 0\n\
- \u{e2}\u{152} Bad Dumps: 1\n\
- \u{f0}\u{178}\u{2019}\u{a5} Corrupted: 0\n\n\
## Unknown ROMs\n\n\
- `/r/unknown.nes`\n\n\
## ROMs Needing Rename\n\n\
- `/r/renamed.nes` \u{e2}\u{2020}\u{2019} `Super Game (USA) (Rev 2)`\n\n\
## Bad Dumps\n\n\
- `/r/bad.nes`: Marked as bad dump in DAT\n\n\
## Missing from Collection\n\n\
- Alpha (CRC32: 0000000A)\n\
- Other (CRC32: 00000003)\n\
- Shadowed (CRC32: 00000003)\n\
- Zed (CRC32: 00000004)\n";
    assert_eq!(text, expected);
}

#[test]
fn written_report_without_lists() {
    let (_, text) = RomValidator::new().generate_report(&[], &[]).unwrap();
    assert!(text.starts_with("# ROM Collection Validation Report\n\n**Total ROMs**: 0\n**Validation Rate**: 100.0%\n\n## Summary\n\n"));
    assert!(text.ends_with("Corrupted: 0\n\n"));
}

#[test]
fn rates_are_rounded_to_the_nearest_tenth() {
    assert_eq!(rate_in_tenths(1, 16), 62);
    assert_eq!(rate_in_tenths(3, 16), 188);
    assert_eq!(rate_in_tenths(1, 3), 333);
    assert_eq!(rate_in_tenths(2, 3), 667);
    assert_eq!(rate_in_tenths(5, 5), 1000);
    assert_eq!(rate_in_tenths(0, 0), 1000);
    assert_eq!(format!("{:.1}", 6.25_f64), "6.2");
    assert_eq!(format!("{:.1}", 18.75_f64), "18.8");
}

#[test]
fn a_catalog_loaded_again_replaces_the_earlier_one() {
    let mut validator = loaded();
    validator.load_dat_collection("nes", "dats/other.dat", "9=Nine\n").unwrap();
    assert_eq!(validator.available_systems(), vec!["nes".to_string(), "snes".to_string()]);
    let names: Vec<String> = validator.all_catalog_entries().iter().map(|e| e.name.clone()).collect();
    assert_eq!(names, vec!["Nine", "Shadowed", "Zed", "Alpha"]);
    assert!(matches!(
        validator.validate_rom(&rom("/r/x.nes", Some(1)), Err("unused".to_string())).unwrap(),
        ValidationResult::Unknown
    ));
    assert!(matches!(
        validator.validate_rom(&rom("/r/nine.nes", Some(9)), Err("unused".to_string())).unwrap(),
        ValidationResult::Valid { dat_name, .. } if dat_name == "Nine"
    ));
}
