use retroarch_fast_indexer::dat_downloader::{summarize, DatDownloadConfig, DatDownloadResult};
use retroarch_fast_indexer::numbers::{
    digit_of, parse_dec_u64, parse_hex_u32, parse_number, push_decimal, push_hex8, upper_hex,
};
use retroarch_fast_indexer::paths;
use retroarch_fast_indexer::split;
use retroarch_fast_indexer::str_map::StrMap;
use retroarch_fast_indexer::text::{self, CharClass};

fn cs(s: &str) -> Vec<char> {
    s.chars().collect()
}

fn st(v: &[char]) -> String {
    v.iter().collect()
}

#[test]
fn characters_and_strings_convert_both_ways() {
    assert_eq!(text::chars_of("a\u{00E9}\u{1F600}"), vec!['a', '\u{00E9}', '\u{1F600}']);
    assert_eq!(text::string_of(&cs("a\u{00E9}\u{1F600}")), "a\u{00E9}\u{1F600}");
    assert_eq!(text::chars_of(""), Vec::<char>::new());
}

#[test]
fn lower_case_is_the_standard_one() {
    assert_eq!(st(&text::lower_chars(&cs("AbC \u{00C9}\u{0130}"))), "AbC \u{00C9}\u{0130}".to_lowercase());
    assert_eq!(st(&text::lower_chars(&cs("ODYSSEUS\u{03A3}"))), "odysseus\u{03C2}");
}

#[test]
fn searching_in_text() {
    let hay = cs("abcabc");
    assert_eq!(text::find_chars(&hay, &cs("bc")), Some(1));
    assert_eq!(text::find_chars(&hay, &cs("")), Some(0));
    assert_eq!(text::find_chars(&hay, &cs("cb")), None);
    assert_eq!(text::find_chars(&cs(""), &cs("")), Some(0));
    assert_eq!(text::find_chars(&cs("ab"), &cs("abc")), None);
    assert!(text::matches_at(&hay, &cs("abc"), 3));
    assert!(!text::matches_at(&hay, &cs("abc"), 4));
    assert!(!text::matches_at(&hay, &cs("abc"), 9));
    assert!(text::contains(&hay, "ca"));
    assert!(!text::contains(&hay, "cc"));
    assert!(text::starts_with(&hay, "abc"));
    assert!(!text::starts_with(&hay, "bc"));
    assert!(text::ends_with(&hay, "bc"));
    assert!(!text::ends_with(&hay, "ab"));
    assert!(text::ends_with(&hay, ""));
    assert!(text::is_text(&hay, "abcabc"));
    assert!(!text::is_text(&hay, "abcab"));
    assert!(text::same_text(&hay, &cs("abcabc")));
    assert!(!text::same_text(&hay, &cs("abcabd")));
    assert_eq!(st(&text::slice_of(&hay, 2, 4)), "ca");
}

#[test]
fn trimming() {
    assert_eq!(st(&text::trim(&cs(" \t a b \u{3000}\r\n"))), "a b");
    assert_eq!(st(&text::trim(&cs("   "))), "");
    assert_eq!(st(&text::strip(&cs("\"\"a\"b\"\""), CharClass::Is('"'))), "a\"b");
    assert_eq!(st(&text::strip(&cs("xxaxx"), CharClass::IsNot('a'))), "a");
    assert_eq!(text::run_from(&cs("  ab  "), 0, CharClass::Space), 2);
    assert_eq!(text::run_from(&cs("  ab  "), 2, CharClass::NonSpace), 2);
    assert_eq!(text::run_from(&cs("  ab  "), 6, CharClass::Space), 0);
    assert_eq!(text::run_back(&cs("  ab  "), 6, CharClass::Space), 2);
    assert_eq!(text::run_back(&cs("  ab  "), 4, CharClass::Space), 0);
    assert!(CharClass::Space.holds('\u{00A0}'));
    assert!(!CharClass::Space.holds('\u{200B}'));
}

fn strs(v: &[Vec<char>]) -> Vec<String> {
    v.iter().map(|p| st(p)).collect()
}

#[test]
fn lines_and_words() {
    assert_eq!(strs(&split::lines(&cs("a\r\nb\n\nc\r"))), vec!["a", "b", "", "c\r"]);
    assert_eq!(strs(&split::lines(&cs("a\n"))), vec!["a"]);
    assert_eq!(strs(&split::lines(&cs("\n"))), vec![""]);
    assert!(split::lines(&cs("")).is_empty());
    assert_eq!(strs(&split::words(&cs("  rom ( name\t\"a b\" ) "))), vec!["rom", "(", "name", "\"a", "b\"", ")"]);
    assert!(split::words(&cs(" \t ")).is_empty());
}

#[test]
fn cutting_joining_replacing() {
    let (a, b) = split::split_once(&cs("k=v=w"), '=').unwrap();
    assert_eq!((st(&a), st(&b)), ("k".to_string(), "v=w".to_string()));
    assert!(split::split_once(&cs("kv"), '=').is_none());
    let (a, b) = split::split_once(&cs("="), '=').unwrap();
    assert!(a.is_empty() && b.is_empty());
    assert_eq!(st(&split::join(&vec![cs("a"), cs(""), cs("c")], &cs(", "))), "a, , c");
    assert_eq!(st(&split::join(&vec![], &cs(", "))), "");
    assert_eq!(st(&split::join(&vec![cs("a")], &cs(", "))), "a");
    assert_eq!(st(&split::replace(&cs("aaa"), &cs("aa"), &cs("b"))), "ba");
    assert_eq!(st(&split::replace(&cs("a_libretro_x"), &cs("_libretro"), &cs(""))), "a_x");
    assert_eq!(st(&split::replace(&cs("ab"), &cs(""), &cs("-"))), "ab".replace("", "-"));
    assert_eq!(st(&split::replace_each(&cs("a/b\\c"), &['/', '\\'], &cs("::"))), "a::b::c");
    assert!(split::has_char(&['/', '\\'], '\\'));
    assert!(!split::has_char(&[], 'a'));
    let mut out = cs("ab");
    split::append(&mut out, &cs("cd"));
    split::push_str(&mut out, "ef");
    assert_eq!(st(&out), "abcdef");
}

#[test]
fn numbers_are_read_as_the_standard_parsers_do() {
    assert_eq!(parse_hex_u32(&cs("FFFFFFFF")), Some(u32::MAX));
    assert_eq!(parse_hex_u32(&cs("100000000")), None);
    assert_eq!(parse_hex_u32(&cs("00000000000000ab")), Some(0xAB));
    assert_eq!(parse_hex_u32(&cs("+1f")), Some(0x1F));
    assert_eq!(parse_hex_u32(&cs("")), None);
    assert_eq!(parse_hex_u32(&cs("+")), None);
    assert_eq!(parse_hex_u32(&cs("-1")), None);
    assert_eq!(parse_hex_u32(&cs("0x1")), None);
    assert_eq!(parse_hex_u32(&cs("1g")), None);
    assert_eq!(parse_dec_u64(&cs("18446744073709551615")), Some(u64::MAX));
    assert_eq!(parse_dec_u64(&cs("18446744073709551616")), None);
    assert_eq!(parse_dec_u64(&cs("007")), Some(7));
    assert_eq!(parse_dec_u64(&cs("7a")), None);
    assert_eq!(parse_dec_u64(&cs(" 7")), None);
    assert_eq!(parse_number(&cs("zz"), 36, 2000), Some(35 * 36 + 35));
    assert_eq!(parse_number(&cs("zz"), 36, 1294), None);
    assert_eq!(parse_number(&cs("101"), 2, 5), Some(5));
    assert_eq!(digit_of('7', 8), Some(7));
    assert_eq!(digit_of('8', 8), None);
    assert_eq!(digit_of('F', 16), Some(15));
    assert_eq!(digit_of('\u{0663}', 10), None);
}

#[test]
fn numbers_are_written_in_hex_and_decimal() {
    let mut out = cs("x");
    push_hex8(&mut out, 0xAB);
    push_decimal(&mut out, 0);
    push_decimal(&mut out, u64::MAX);
    assert_eq!(st(&out), "x000000AB018446744073709551615");
    assert_eq!(upper_hex(10), 'A');
    assert_eq!(upper_hex(9), '9');
}

#[test]
fn parts_of_paths() {
    assert_eq!(st(&paths::file_name(&cs("/a/b.tar.gz"))), "b.tar.gz");
    assert_eq!(st(&paths::file_name(&cs("a\\b/c\\d.x"))), "d.x");
    assert_eq!(st(&paths::file_name(&cs("/a/b//"))), "b");
    assert_eq!(st(&paths::file_name(&cs("/"))), "");
    assert_eq!(st(&paths::file_name(&cs("a/.."))), "");
    assert_eq!(st(&paths::extension(&cs("/a/b.tar.gz"))), "gz");
    assert_eq!(st(&paths::extension(&cs("/a.b/c"))), "");
    assert_eq!(st(&paths::extension(&cs("/a/.profile"))), "");
    assert_eq!(st(&paths::extension(&cs("/a/b."))), "");
    assert_eq!(st(&paths::file_stem(&cs("/a/b.tar.gz"))), "b.tar");
    assert_eq!(st(&paths::file_stem(&cs("/a/.profile"))), ".profile");
    assert_eq!(st(&paths::file_stem(&cs("/a/b."))), "b");
    assert_eq!(st(&paths::name_extension(&cs("a.B"))), "B");
    assert_eq!(st(&paths::name_stem(&cs("a.B"))), "a");
    assert_eq!(paths::extension_start(&cs("a.b.c")), Some(4));
    assert_eq!(paths::extension_start(&cs(".a")), None);
    assert_eq!(paths::parent(&cs("/a/b/c.x")).map(|p| st(&p)), Some("/a/b".to_string()));
    assert_eq!(paths::parent(&cs("/a/b//")).map(|p| st(&p)), Some("/a".to_string()));
    assert_eq!(paths::parent(&cs("c.x")).map(|p| st(&p)), Some("".to_string()));
    assert_eq!(paths::parent(&cs("/a")).map(|p| st(&p)), Some("/".to_string()));
    assert_eq!(paths::parent(&cs("/")), None);
    assert_eq!(paths::parent(&cs("")), None);
    assert_eq!(paths::separators_before(&cs("a//b"), 3), 2);
    assert_eq!(paths::name_chars_before(&cs("a//bcd"), 6), 3);
}

#[test]
fn map_keeps_keys_in_order_of_first_insertion() {
    let mut m: StrMap<u32> = StrMap::new();
    assert!(m.is_empty());
    m.insert("b".to_string(), 1);
    m.insert("a".to_string(), 2);
    m.insert("b".to_string(), 3);
    m.insert_new("c".to_string(), 4);
    assert_eq!(m.len(), 3);
    assert_eq!(m.get("b"), Some(&3));
    assert_eq!(m.get("B"), None);
    assert!(m.contains_key("a"));
    assert_eq!((m.key_at(0).as_str(), *m.value_at(0)), ("b", 3));
    assert_eq!((m.key_at(1).as_str(), *m.value_at(1)), ("a", 2));
    assert_eq!((m.key_at(2).as_str(), *m.value_at(2)), ("c", 4));
    assert!(m.remove("a"));
    assert!(!m.remove("a"));
    assert_eq!(m.len(), 2);
    assert_eq!(m.key_at(1), "c");
    m.clear();
    assert!(m.is_empty());
    assert_eq!(m.get("b"), None);
}

fn fetched(success: bool, skipped: bool) -> DatDownloadResult {
    DatDownloadResult {
        source_name: "s".to_string(),
        system: "nes".to_string(),
        success,
        file_path: None,
        file_size: 0,
        download_time_ms: 0,
        error: None,
        skipped,
    }
}

#[test]
fn fetches_are_counted_and_aged() {
    let config = DatDownloadConfig::default();
    assert_eq!(config.download_directory, "./dat_files");
    assert_eq!(
        (config.update_interval_days, config.timeout_seconds, config.retry_attempts, config.concurrent_downloads),
        (7, 30, 3, 4)
    );
    assert_eq!(config.get_dat_path("nes"), "./dat_files/nes.dat");
    assert!(!config.is_stale(1000, 1000 + 7 * 86400 - 1));
    assert!(config.is_stale(1000, 1000 + 7 * 86400));
    assert!(!config.is_stale(1000, 999));
    let s = summarize(&vec![
        fetched(true, false),
        fetched(true, true),
        fetched(false, true),
        fetched(false, false),
        fetched(true, false),
    ]);
    assert_eq!((s.successful, s.skipped, s.failed), (2, 1, 2));
}
