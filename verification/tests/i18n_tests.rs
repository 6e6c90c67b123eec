use retroarch_fast_indexer::i18n::{
    self, format_message, parse_ftl_line, I18n, I18nError, Locale,
};

fn pair(a: &str, b: &str) -> (String, String) {
    (a.to_string(), b.to_string())
}

const EN: &str = "# English\napp-name = Indexer\nfound = Found { $count } ROMs in { $path }\n\nnot an entry\nonly-en=English only\nconversion = { $source } -> { $target }\nscanning-directory-progress = [{ $current }/{ $total }] { $path }\n";
const PT: &str = "app-name = Indexador\r\nfound=Encontradas { $count } ROMs em { $path }\napp-name = Indexador Veloz\n";

fn tables() -> Option<I18n> {
    Some(i18n::init(&[pair("en", EN), pair("pt", PT)]))
}

#[test]
fn lines_of_a_message_file() {
    let cs: Vec<char> = "  key-a =  some = text  ".chars().collect();
    let e = parse_ftl_line(&cs).unwrap();
    assert_eq!((e.key.as_str(), e.value.as_str()), ("key-a", "some = text"));
    for line in ["", "   ", "# key = value", "  # c", "no equals sign"] {
        let cs: Vec<char> = line.chars().collect();
        assert!(parse_ftl_line(&cs).is_none());
    }
    let cs: Vec<char> = "=".chars().collect();
    let e = parse_ftl_line(&cs).unwrap();
    assert_eq!((e.key.as_str(), e.value.as_str()), ("", ""));
}

#[test]
fn later_entries_replace_earlier_ones() {
    let table = Locale::parse(PT);
    assert_eq!(table.get("app-name"), Some(&"Indexador Veloz".to_string()));
    assert_eq!(table.get("found"), Some(&"Encontradas { $count } ROMs em { $path }".to_string()));
    assert_eq!(table.get("only-en"), None);
    let mut table = Locale::new();
    assert_eq!(table.get("a"), None);
    table.add_entry("a".to_string(), "1".to_string());
    table.add_entry("a".to_string(), "2".to_string());
    assert_eq!(table.get("a"), Some(&"2".to_string()));
}

#[test]
fn placeholders_are_filled_in_order() {
    assert_eq!(
        format_message("{ $a } and { $b } and { $a }", &[pair("a", "1"), pair("b", "2")]),
        "1 and 2 and 1"
    );
    assert_eq!(format_message("{ $a }", &[pair("a", "{ $b }"), pair("b", "x")]), "x");
    assert_eq!(format_message("{ $a }", &[pair("b", "x"), pair("a", "{ $b }")]), "{ $b }");
    assert_eq!(format_message("{$a} {  $a  }", &[pair("a", "1")]), "{$a} {  $a  }");
    assert_eq!(format_message("plain", &[]), "plain");
}

#[test]
fn messages_come_from_the_language_in_use_then_from_the_fallback() {
    let mut state = tables();
    assert_eq!(i18n::get_current_locale(&state), "pt");
    assert_eq!(i18n::available_locales(&state), vec!["en".to_string(), "pt".to_string()]);
    assert_eq!(i18n::t(&state, "app-name"), "Indexador Veloz");
    assert_eq!(i18n::t(&state, "only-en"), "English only");
    assert_eq!(i18n::t(&state, "missing-key"), "missing-key");
    assert!(i18n::set_locale(&mut state, "en").is_ok());
    assert_eq!(i18n::get_current_locale(&state), "en");
    assert_eq!(i18n::t(&state, "app-name"), "Indexer");
    assert!(matches!(
        i18n::set_locale(&mut state, "fr"),
        Err(I18nError::LocaleNotFound(l)) if l == "fr"
    ));
    assert_eq!(i18n::get_current_locale(&state), "en");
}

#[test]
fn without_tables_the_key_is_said() {
    let mut state: Option<I18n> = None;
    assert_eq!(i18n::t(&state, "app-name"), "app-name");
    assert_eq!(i18n::t_count(&state, "found", 3), "found");
    assert_eq!(i18n::get_current_locale(&state), "pt");
    assert_eq!(i18n::available_locales(&state), vec!["pt".to_string(), "en".to_string()]);
    assert!(matches!(i18n::set_locale(&mut state, "en"), Err(I18nError::NotInitialized)));
    assert!(state.is_none());
    let empty = Some(i18n::init_i18n());
    assert_eq!(i18n::t(&empty, "app-name"), "app-name");
    assert!(i18n::available_locales(&empty).is_empty());
}

#[test]
fn arguments_by_name() {
    let mut state = Some(i18n::init(&[pair(
        "en",
        "k = a:{ $arg } c:{ $count } p:{ $path } f:{ $filename } g:{ $progress } pl:{ $platform } cmd:{ $command } e:{ $error } t:{ $type } s:{ $system } ss:{ $systems } r:{ $rom } 0:{ $arg0 } 1:{ $arg1 }\n",
    )]));
    assert!(i18n::set_locale(&mut state, "en").is_ok());
    assert!(i18n::t_with_arg(&state, "k", "X").starts_with("a:X c:{ $count }"));
    assert!(i18n::t_count(&state, "k", -12).contains("c:-12 p:"));
    assert!(i18n::t_count(&state, "k", i32::MIN).contains("c:-2147483648 p:"));
    assert!(i18n::t_count(&state, "k", 0).contains("c:0 p:"));
    assert!(i18n::t_path(&state, "k", "/r").contains("p:/r f:"));
    assert!(i18n::t_filename(&state, "k", "a.nes").contains("f:a.nes g:"));
    assert!(i18n::t_progress(&state, "k", 40).contains("g:40 pl:"));
    assert!(i18n::t_platform(&state, "k", "Switch").contains("pl:Switch cmd:"));
    assert!(i18n::t_command(&state, "k", "index").contains("cmd:index e:"));
    assert!(i18n::t_error(&state, "k", "bad").contains("e:bad t:"));
    assert!(i18n::t_type(&state, "k", "zip").contains("t:zip s:"));
    assert!(i18n::t_system(&state, "k", "nes").contains("s:nes ss:"));
    assert!(i18n::t_systems(&state, "k", "a, b").contains("ss:a, b r:"));
    assert!(i18n::t_rom_system(&state, "k", "x.nes", "nes").contains("s:nes ss:{ $systems } r:x.nes 0:"));
    assert!(i18n::t_with_array_args(&state, "k", &["p", "q", "unused"]).ends_with("0:p 1:q"));
    assert_eq!(
        i18n::t_with_args(&state, "k", &[pair("rom", "R"), pair("arg", "A")]),
        "a:A c:{ $count } p:{ $path } f:{ $filename } g:{ $progress } pl:{ $platform } cmd:{ $command } e:{ $error } t:{ $type } s:{ $system } ss:{ $systems } r:R 0:{ $arg0 } 1:{ $arg1 }"
    );
}

#[test]
fn fixed_messages() {
    let mut state = tables();
    assert_eq!(i18n::t_conversion(&state, "Windows", "Switch"), "Windows -> Switch");
    assert_eq!(i18n::t_directory_progress(&state, 2, 10, "/r"), "[2/10] /r");
    assert_eq!(i18n::t_directory_scan(&state, "found", 2, 10, "/r"), "Encontradas { $count } ROMs em /r");
    assert!(i18n::set_locale(&mut state, "en").is_ok());
    assert_eq!(i18n::t_directory_scan(&state, "found", 2, 10, "/r"), "Found { $count } ROMs in /r");
}

#[test]
fn loading_a_language_again_replaces_its_table() {
    let mut tables = I18n::new();
    tables.load_locale("pt", "a = 1\nb = 2\n");
    tables.load_locale("en", "a = one\n");
    tables.load_locale("pt", "a = um\n");
    assert_eq!(tables.available_locales(), vec!["pt".to_string(), "en".to_string()]);
    assert_eq!(tables.get_current_locale(), "pt");
    assert_eq!(tables.get("a"), "um");
    assert_eq!(tables.get("b"), "b");
    assert_eq!(tables.get_with_args("a", &[pair("x", "y")]), "um");
}
