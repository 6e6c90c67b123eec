use retroarch_fast_indexer::archive::{
    is_rom_extension, AnyReader, ArchiveEntry, ArchiveError, ArchiveFormat, ArchiveReader,
    ArchiveReaderFactory, SevenZipReader, VirtualRomFile, ZipReader,
};
use retroarch_fast_indexer::crc32::{calculate_crc32_zip_entry, ZipFailure};
use retroarch_fast_indexer::seven_zip::{
    pick_named, sevenz_entries, sevenz_extract, SevenZFailure, SevenZipRead,
};

#[test]
fn test_archive_format_detection() {
    assert_eq!(ArchiveFormat::detect_from_path("test.zip"), ArchiveFormat::Zip);
    assert_eq!(ArchiveFormat::detect_from_path("test.7z"), ArchiveFormat::SevenZip);
    assert_eq!(ArchiveFormat::detect_from_path("test.rar"), ArchiveFormat::Unknown);
}

#[test]
fn test_rom_extension_detection() {
    assert!(is_rom_extension("nes"));
    assert!(is_rom_extension("sfc"));
    assert!(is_rom_extension("z64"));
    assert!(!is_rom_extension("txt"));
    assert!(!is_rom_extension("jpg"));
}

#[test]
fn format_by_extension_is_case_sensitive() {
    assert_eq!(ArchiveFormat::detect_from_path("dir/Game.ZIP"), ArchiveFormat::Unknown);
    assert_eq!(ArchiveFormat::detect_from_path("dir.zip/game"), ArchiveFormat::Unknown);
    assert_eq!(ArchiveFormat::detect_from_path("C:\\roms\\set.zip"), ArchiveFormat::Zip);
    assert_eq!(ArchiveFormat::detect_from_path(".zip"), ArchiveFormat::Unknown);
}

#[test]
fn format_by_magic_bytes() {
    assert_eq!(ArchiveFormat::detect_from_bytes(b"PK\x03\x04rest"), ArchiveFormat::Zip);
    assert_eq!(ArchiveFormat::detect_from_bytes(b"PK\x05\x06"), ArchiveFormat::Zip);
    assert_eq!(ArchiveFormat::detect_from_bytes(b"PK\x07\x08"), ArchiveFormat::Zip);
    assert_eq!(ArchiveFormat::detect_from_bytes(b"PK\x03\x05"), ArchiveFormat::Unknown);
    assert_eq!(ArchiveFormat::detect_from_bytes(b"7z\xBC\xAF\x27\x1C"), ArchiveFormat::SevenZip);
    assert_eq!(ArchiveFormat::detect_from_bytes(b"7z\xBC\xAF\x27"), ArchiveFormat::Unknown);
    assert_eq!(ArchiveFormat::detect_from_bytes(b"PK\x03"), ArchiveFormat::Unknown);
    assert_eq!(ArchiveFormat::detect_from_bytes(b""), ArchiveFormat::Unknown);
}

/// A ZIP archive with the two stored members `game.NES` ("hello") and `docs/`.
fn sample_zip() -> Vec<u8> {
    let mut z: Vec<u8> = Vec::new();
    // local header of game.NES
    z.extend_from_slice(b"PK\x03\x04");
    z.extend_from_slice(&[20, 0, 0, 0, 0, 0, 0, 0, 0, 0]);
    z.extend_from_slice(&0x3610A686u32.to_le_bytes());
    z.extend_from_slice(&5u32.to_le_bytes());
    z.extend_from_slice(&5u32.to_le_bytes());
    z.extend_from_slice(&8u16.to_le_bytes());
    z.extend_from_slice(&0u16.to_le_bytes());
    z.extend_from_slice(b"game.NES");
    z.extend_from_slice(b"hello");
    let second = z.len() as u32;
    // local header of docs/
    z.extend_from_slice(b"PK\x03\x04");
    z.extend_from_slice(&[20, 0, 0, 0, 0, 0, 0, 0, 0, 0]);
    z.extend_from_slice(&0u32.to_le_bytes());
    z.extend_from_slice(&0u32.to_le_bytes());
    z.extend_from_slice(&0u32.to_le_bytes());
    z.extend_from_slice(&5u16.to_le_bytes());
    z.extend_from_slice(&0u16.to_le_bytes());
    z.extend_from_slice(b"docs/");
    let directory = z.len() as u32;
    // central directory
    z.extend_from_slice(b"PK\x01\x02");
    z.extend_from_slice(&[20, 0, 20, 0, 0, 0, 0, 0, 0, 0, 0, 0]);
    z.extend_from_slice(&0x3610A686u32.to_le_bytes());
    z.extend_from_slice(&5u32.to_le_bytes());
    z.extend_from_slice(&5u32.to_le_bytes());
    z.extend_from_slice(&8u16.to_le_bytes());
    z.extend_from_slice(&[0, 0, 0, 0, 0, 0, 0, 0, 0, 0, 0, 0]);
    z.extend_from_slice(&0u32.to_le_bytes());
    z.extend_from_slice(b"game.NES");
    z.extend_from_slice(b"PK\x01\x02");
    z.extend_from_slice(&[20, 0, 20, 0, 0, 0, 0, 0, 0, 0, 0, 0]);
    z.extend_from_slice(&0u32.to_le_bytes());
    z.extend_from_slice(&0u32.to_le_bytes());
    z.extend_from_slice(&0u32.to_le_bytes());
    z.extend_from_slice(&5u16.to_le_bytes());
    z.extend_from_slice(&[0, 0, 0, 0, 0, 0, 0, 0, 0, 0, 0, 0]);
    z.extend_from_slice(&second.to_le_bytes());
    z.extend_from_slice(b"docs/");
    let size = z.len() as u32 - directory;
    // end of central directory
    z.extend_from_slice(b"PK\x05\x06");
    z.extend_from_slice(&[0, 0, 0, 0]);
    z.extend_from_slice(&2u16.to_le_bytes());
    z.extend_from_slice(&2u16.to_le_bytes());
    z.extend_from_slice(&size.to_le_bytes());
    z.extend_from_slice(&directory.to_le_bytes());
    z.extend_from_slice(&0u16.to_le_bytes());
    z
}

#[test]
fn zip_listing_skips_directories_and_lowers_extensions() {
    let mut reader = ZipReader::new(sample_zip()).unwrap();
    let entries = reader.list_entries().unwrap();
    assert_eq!(entries.len(), 1);
    assert_eq!(entries[0].name, "game.NES");
    assert_eq!(entries[0].size, 5);
    assert_eq!(entries[0].extension, "nes");
    assert!(entries[0].is_rom);
}

#[test]
fn zip_member_is_extracted_and_hashed() {
    let mut reader = ZipReader::new(sample_zip()).unwrap();
    assert_eq!(reader.extract_entry("game.NES").unwrap(), b"hello".to_vec());
    assert!(matches!(
        reader.extract_entry("missing.bin"),
        Err(ArchiveError::Zip(ZipFailure::Missing))
    ));
    assert_eq!(calculate_crc32_zip_entry(&sample_zip(), "game.NES"), Ok(0x3610A686));
    assert_eq!(
        calculate_crc32_zip_entry(&sample_zip(), "other"),
        Err(ZipFailure::Missing)
    );
    assert_eq!(calculate_crc32_zip_entry(b"not a zip", "game.NES"), Err(ZipFailure::Open));
}

#[test]
fn bytes_that_are_no_zip_give_no_reader() {
    assert!(matches!(
        ZipReader::new(b"plain text".to_vec()),
        Err(ArchiveError::Zip(ZipFailure::Open))
    ));
}

#[test]
fn factory_goes_by_the_extension() {
    assert!(matches!(
        ArchiveReaderFactory::create_from_file("a/set.zip", sample_zip(), Err(SevenZFailure::Open)),
        Ok(AnyReader::Zip(_))
    ));
    assert!(matches!(
        ArchiveReaderFactory::create_from_file("a/set.7z", Vec::new(), read_7z(&sample_7z())),
        Ok(AnyReader::SevenZip(_))
    ));
    assert!(matches!(
        ArchiveReaderFactory::create_from_file("a/set.7z", sample_zip(), read_7z(&sample_zip())),
        Err(ArchiveError::SevenZip(SevenZFailure::Open))
    ));
    assert!(matches!(
        ArchiveReaderFactory::create_from_file("a/set.rar", sample_zip(), Err(SevenZFailure::Open)),
        Err(ArchiveError::Unsupported(p)) if p == "a/set.rar"
    ));
    assert!(matches!(
        ArchiveReaderFactory::create_from_file("a/set.zip", b"junk".to_vec(), Err(SevenZFailure::Open)),
        Err(ArchiveError::Zip(ZipFailure::Open))
    ));
}

#[test]
fn virtual_rom_names_archive_and_member() {
    let entry = ArchiveEntry {
        name: "game.nes".to_string(),
        size: 5,
        is_rom: true,
        extension: "nes".to_string(),
    };
    let rom = VirtualRomFile::new("roms/set.zip".to_string(), entry);
    assert_eq!(rom.archive_path, "roms/set.zip");
    assert_eq!(rom.entry_name, "game.nes");
    assert_eq!(rom.size, 5);
    assert_eq!(rom.extension, "nes");
    assert_eq!(rom.virtual_path, "roms/set.zip#game.nes");
}

#[test]
fn virtual_rom_extracts_its_member() {
    let entry = ArchiveEntry {
        name: "game.NES".to_string(),
        size: 5,
        is_rom: true,
        extension: "nes".to_string(),
    };
    let rom = VirtualRomFile::new("roms/set.zip".to_string(), entry.clone());
    assert_eq!(rom.extract_data(sample_zip(), Err(SevenZFailure::Open)).unwrap(), b"hello".to_vec());
    let other = VirtualRomFile::new("roms/set.7z".to_string(), entry);
    assert!(matches!(
        other.extract_data(sample_zip(), read_7z(&sample_zip())),
        Err(ArchiveError::SevenZip(SevenZFailure::Open))
    ));
    assert_eq!(other.extract_data(Vec::new(), read_7z(&sample_7z())).unwrap(), b"hello".to_vec());
}

/// What the outside reader gives for the bytes of a 7z archive.
fn read_7z(data: &[u8]) -> Result<SevenZipRead, SevenZFailure> {
    let source = std::io::Cursor::new(data);
    let mut reader =
        sevenz_rust::SevenZReader::new(source, data.len() as u64, sevenz_rust::Password::empty())
            .map_err(|_| SevenZFailure::Open)?;
    let listing = reader
        .archive()
        .files
        .iter()
        .map(|e| (e.name().to_string(), e.size(), e.is_directory()))
        .collect();
    let mut members: Vec<(String, Vec<u8>)> = Vec::new();
    let done = reader.for_each_entries(|entry, stream| {
        let mut bytes = Vec::new();
        std::io::Read::read_to_end(stream, &mut bytes)?;
        members.push((entry.name().to_string(), bytes));
        Ok(true)
    });
    let contents = match done {
        Ok(()) => Ok(members),
        Err(_) => Err(SevenZFailure::Read),
    };
    Ok(SevenZipRead { listing, contents })
}

/// A 7z archive with the members `game.NES` ("hello"), `docs` (a directory),
/// `empty.txt` (no bytes) and `sub/other.sfc` ("second").
fn sample_7z() -> Vec<u8> {
    let mut writer = sevenz_rust::SevenZWriter::new(std::io::Cursor::new(Vec::new())).unwrap();
    let mut file = sevenz_rust::SevenZArchiveEntry::new();
    file.name = "game.NES".to_string();
    writer.push_archive_entry(file, Some(&b"hello"[..])).unwrap();
    let mut dir = sevenz_rust::SevenZArchiveEntry::new();
    dir.name = "docs".to_string();
    dir.is_directory = true;
    writer.push_archive_entry::<&[u8]>(dir, None).unwrap();
    let mut empty = sevenz_rust::SevenZArchiveEntry::new();
    empty.name = "empty.txt".to_string();
    writer.push_archive_entry::<&[u8]>(empty, None).unwrap();
    let mut other = sevenz_rust::SevenZArchiveEntry::new();
    other.name = "sub/other.sfc".to_string();
    writer.push_archive_entry(other, Some(&b"second"[..])).unwrap();
    writer.finish().unwrap().into_inner()
}

#[test]
fn seven_zip_archive_lists_its_files() {
    let reader = SevenZipReader::new(read_7z(&sample_7z())).unwrap();
    let entries = reader.entries().unwrap();
    let seen: Vec<(&str, u64, bool, &str)> = entries
        .iter()
        .map(|e| (e.name.as_str(), e.size, e.is_rom, e.extension.as_str()))
        .collect();
    assert_eq!(
        seen,
        vec![
            ("game.NES", 5, true, "nes"),
            ("empty.txt", 0, false, "txt"),
            ("sub/other.sfc", 6, true, "sfc")
        ]
    );
}

#[test]
fn seven_zip_archive_gives_the_bytes_of_a_member() {
    let mut reader = SevenZipReader::new(read_7z(&sample_7z())).unwrap();
    assert_eq!(reader.extract("game.NES").unwrap(), b"hello".to_vec());
    assert_eq!(reader.extract("sub/other.sfc").unwrap(), b"second".to_vec());
    assert_eq!(reader.extract("empty.txt").unwrap(), Vec::<u8>::new());
    assert_eq!(reader.extract_entry("game.NES").unwrap(), b"hello".to_vec());
    assert_eq!(reader.list_entries().unwrap().len(), 3);
    assert!(matches!(
        reader.extract("game.nes"),
        Err(ArchiveError::SevenZip(SevenZFailure::Missing))
    ));
    let read = read_7z(&sample_7z()).unwrap();
    assert_eq!(sevenz_extract(&read.contents, "game.NES"), Ok(b"hello".to_vec()));
    assert_eq!(sevenz_extract(&Err(SevenZFailure::Read), "game.NES"), Err(SevenZFailure::Read));
    assert_eq!(sevenz_extract(&Ok(Vec::new()), "game.NES"), Err(SevenZFailure::Missing));
    let listing = vec![
        ("dir".to_string(), 0, true),
        ("dir/a.GBA".to_string(), 7, false),
        ("b".to_string(), 9, false),
    ];
    let listed: Vec<(String, u64, bool, String)> = sevenz_entries(&listing)
        .into_iter()
        .map(|e| (e.name, e.size, e.is_rom, e.extension))
        .collect();
    assert_eq!(
        listed,
        vec![
            ("dir/a.GBA".to_string(), 7, true, "gba".to_string()),
            ("b".to_string(), 9, false, String::new())
        ]
    );
    assert!(sevenz_entries(&Vec::new()).is_empty());
}

#[test]
fn bytes_that_are_no_seven_zip_give_no_reader() {
    assert!(matches!(
        SevenZipReader::new(read_7z(b"plain text")),
        Err(ArchiveError::SevenZip(SevenZFailure::Open))
    ));
    assert!(matches!(
        SevenZipReader::new(Err(SevenZFailure::Read)),
        Err(ArchiveError::SevenZip(SevenZFailure::Read))
    ));
}

#[test]
fn first_member_of_a_name_is_picked() {
    let contents = vec![
        ("a".to_string(), vec![1u8]),
        ("b".to_string(), vec![2u8]),
        ("a".to_string(), vec![3u8]),
    ];
    assert_eq!(pick_named(&contents, "a"), Some(vec![1u8]));
    assert_eq!(pick_named(&contents, "b"), Some(vec![2u8]));
    assert_eq!(pick_named(&contents, "c"), None);
    assert_eq!(pick_named(&Vec::new(), "a"), None);
}

#[test]
fn readers_of_either_format() {
    let mut zip =
        ArchiveReaderFactory::create_from_file("set.zip", sample_zip(), Err(SevenZFailure::Open))
            .unwrap();
    assert_eq!(zip.extract("game.NES").unwrap(), b"hello".to_vec());
    assert_eq!(zip.list_entries().unwrap().len(), 1);
    let mut seven =
        ArchiveReaderFactory::create_from_file("set.7z", Vec::new(), read_7z(&sample_7z())).unwrap();
    assert_eq!(seven.extract_entry("sub/other.sfc").unwrap(), b"second".to_vec());
    assert_eq!(seven.entries().unwrap().len(), 3);
}

/// A ZIP archive with the one stored member `a.bin` ("hello"), whose entry in the
/// central directory carries the extra field of AES encryption although its
/// flags do not say that it is encrypted.
fn aes_marked_zip() -> Vec<u8> {
    let mut z: Vec<u8> = Vec::new();
    z.extend_from_slice(b"PK\x03\x04");
    z.extend_from_slice(&[20, 0, 0, 0, 0, 0, 0, 0, 0, 0]);
    z.extend_from_slice(&0x3610A686u32.to_le_bytes());
    z.extend_from_slice(&5u32.to_le_bytes());
    z.extend_from_slice(&5u32.to_le_bytes());
    z.extend_from_slice(&5u16.to_le_bytes());
    z.extend_from_slice(&0u16.to_le_bytes());
    z.extend_from_slice(b"a.bin");
    z.extend_from_slice(b"hello");
    let directory = z.len() as u32;
    z.extend_from_slice(b"PK\x01\x02");
    z.extend_from_slice(&[20, 0, 20, 0, 0, 0, 0, 0, 0, 0, 0, 0]);
    z.extend_from_slice(&0x3610A686u32.to_le_bytes());
    z.extend_from_slice(&5u32.to_le_bytes());
    z.extend_from_slice(&5u32.to_le_bytes());
    z.extend_from_slice(&5u16.to_le_bytes());
    z.extend_from_slice(&11u16.to_le_bytes());
    z.extend_from_slice(&[0, 0, 0, 0, 0, 0, 0, 0, 0, 0]);
    z.extend_from_slice(&0u32.to_le_bytes());
    z.extend_from_slice(b"a.bin");
    z.extend_from_slice(&0x9901u16.to_le_bytes());
    z.extend_from_slice(&7u16.to_le_bytes());
    z.extend_from_slice(&2u16.to_le_bytes());
    z.extend_from_slice(&0x4541u16.to_le_bytes());
    z.push(3);
    z.extend_from_slice(&0u16.to_le_bytes());
    let size = z.len() as u32 - directory;
    z.extend_from_slice(b"PK\x05\x06");
    z.extend_from_slice(&[0, 0, 0, 0]);
    z.extend_from_slice(&1u16.to_le_bytes());
    z.extend_from_slice(&1u16.to_le_bytes());
    z.extend_from_slice(&size.to_le_bytes());
    z.extend_from_slice(&directory.to_le_bytes());
    z.extend_from_slice(&0u16.to_le_bytes());
    z
}

#[test]
fn a_member_marked_as_encrypted_is_listed_and_fails_at_reading() {
    let mut reader = ZipReader::new(aes_marked_zip()).unwrap();
    let entries = reader.list_entries().unwrap();
    assert_eq!(entries.len(), 1);
    assert_eq!((entries[0].name.as_str(), entries[0].size), ("a.bin", 5));
    assert!(matches!(reader.extract("a.bin"), Err(ArchiveError::Zip(ZipFailure::Read))));
    assert!(matches!(reader.extract("b.bin"), Err(ArchiveError::Zip(ZipFailure::Missing))));
    assert_eq!(calculate_crc32_zip_entry(&aes_marked_zip(), "a.bin"), Err(ZipFailure::Read));
}
