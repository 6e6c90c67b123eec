//! Messages in several languages: tables of templates by language and key, and
//! the filling in of their placeholders.

use vstd::prelude::*;
use crate::text::pair_texts;
use crate::numbers::{decimal, push_decimal, push_signed, signed_decimal};
use crate::scanner::string_texts;
use crate::split::{cut_at, lines, lines_of, push_str, replace, replaced, split_once, texts};
use crate::str_map::StrMap;
use crate::text::{chars_of, string_of, trim, trimmed};

verus! {

/// One template under its key.
#[derive(Debug)]
pub struct I18nEntry {
    pub key: String,
    pub value: String,
}

/// The entry that a line of a message file holds: key and template stand on both
/// sides of the first `=`, each without the white space around it. An empty line,
/// a comment (a line that begins with `#`) and a line without `=` hold none.
pub open spec fn ftl_entry(line: Seq<char>) -> Option<(Seq<char>, Seq<char>)> {
    let l = trimmed(line);
    if l.len() == 0 || l[0] == '#' {
        None
    } else {
        match cut_at(l, '=') {
            Some(p) => Some((trimmed(p.0), trimmed(p.1))),
            None => None,
        }
    }
}

/// The table that the lines of a message file give: a later entry replaces an
/// earlier one with the same key.
pub open spec fn ftl_table(lines: Seq<Seq<char>>) -> Map<Seq<char>, Seq<char>>
    decreases lines.len(),
{
    if lines.len() == 0 {
        Map::empty()
    } else {
        let t = ftl_table(lines.drop_last());
        match ftl_entry(lines.last()) {
            Some(p) => t.insert(p.0, p.1),
            None => t,
        }
    }
}

/// The entry that one line of a message file holds.
pub fn parse_ftl_line(line: &[char]) -> (r: Option<I18nEntry>)
    ensures
        r is Some <==> ftl_entry(line@) is Some,
        r matches Some(e) ==> ftl_entry(line@) == Some((e.key@, e.value@)),
{
    let l = trim(line);
    if l.len() == 0 || l[0] == '#' {
        return None;
    }
    match split_once(l.as_slice(), '=') {
        Some((k, v)) => {
            let key = trim(k.as_slice());
            let value = trim(v.as_slice());
            Some(I18nEntry { key: string_of(key.as_slice()), value: string_of(value.as_slice()) })
        },
        None => None,
    }
}

/// The templates of one language, by key.
pub struct Locale {
    entries: StrMap<String>,
}

impl Locale {
    /// The table is well formed.
    pub closed spec fn wf(&self) -> bool {
        self.entries.wf()
    }

    /// The templates by key.
    pub closed spec fn table(&self) -> Map<Seq<char>, Seq<char>> {
        Map::new(|k: Seq<char>| self.entries@.contains_key(k), |k: Seq<char>| self.entries@[k]@)
    }

    /// A language without templates.
    pub fn new() -> (l: Self)
        ensures
            l.wf(),
            l.table() == Map::<Seq<char>, Seq<char>>::empty(),
    {
        let l = Locale { entries: StrMap::new() };
        assert(l.table() =~= Map::<Seq<char>, Seq<char>>::empty());
        l
    }

    /// Gives `key` the template `value`.
    pub fn add_entry(&mut self, key: String, value: String)
        requires
            old(self).wf(),
        ensures
            final(self).wf(),
            final(self).table() == old(self).table().insert(key@, value@),
    {
        self.entries.insert(key, value);
        assert(self.table() =~= old(self).table().insert(key@, value@));
    }

    /// The template of `key`.
    pub fn get(&self, key: &str) -> (r: Option<&String>)
        requires
            self.wf(),
        ensures
            r is Some <==> self.table().contains_key(key@),
            r matches Some(v) ==> v@ == self.table()[key@],
    {
        self.entries.get(key)
    }

    /// The templates that the text of a message file holds.
    pub fn parse(content: &str) -> (l: Self)
        ensures
            l.wf(),
            l.table() == ftl_table(lines_of(content@)),
    {
        let chars = chars_of(content);
        let all = lines(chars.as_slice());
        let ghost ls = lines_of(content@);
        let mut l = Locale::new();
        let mut i: usize = 0;
        assert(ls.take(0) =~= Seq::<Seq<char>>::empty());
        while i < all.len()
            invariant
                i <= all.len(),
                ls == texts(all@),
                l.wf(),
                l.table() == ftl_table(ls.take(i as int)),
            decreases all.len() - i,
        {
            assert(ls.take(i + 1).drop_last() == ls.take(i as int));
            assert(ls.take(i + 1).last() == all@[i as int]@);
            match parse_ftl_line(all[i].as_slice()) {
                Some(e) => {
                    l.add_entry(e.key, e.value);
                },
                None => {},
            }
            i += 1;
        }
        assert(ls.take(ls.len() as int) == ls);
        l
    }
}

/// What stands in a template for the argument `name`.
pub open spec fn placeholder(name: Seq<char>) -> Seq<char> {
    "{ $"@ + name + " }"@
}

/// `template` with the placeholder of each argument replaced by the argument's
/// value, one argument after the other.
pub open spec fn formatted(template: Seq<char>, args: Seq<(Seq<char>, Seq<char>)>) -> Seq<char>
    decreases args.len(),
{
    if args.len() == 0 {
        template
    } else {
        replaced(formatted(template, args.drop_last()), placeholder(args.last().0), args.last().1)
    }
}

/// `template` with the arguments filled in.
pub fn format_message(template: &str, args: &[(String, String)]) -> (r: String)
    ensures
        r@ == formatted(template@, pair_texts(args@)),
{
    let mut cur = chars_of(template);
    let ghost ps = pair_texts(args@);
    let mut i: usize = 0;
    assert(ps.take(0) =~= Seq::<(Seq<char>, Seq<char>)>::empty());
    while i < args.len()
        invariant
            i <= args.len(),
            ps == pair_texts(args@),
            cur@ == formatted(template@, ps.take(i as int)),
        decreases args.len() - i,
    {
        assert(ps.take(i + 1).drop_last() == ps.take(i as int));
        assert(ps.take(i + 1).last() == (args@[i as int].0@, args@[i as int].1@));
        let mut mark: Vec<char> = Vec::new();
        push_str(&mut mark, "{ $");
        push_str(&mut mark, args[i].0.as_str());
        push_str(&mut mark, " }");
        assert(mark@ =~= placeholder(args@[i as int].0@));
        let value = chars_of(args[i].1.as_str());
        cur = replace(cur.as_slice(), mark.as_slice(), value.as_slice());
        i += 1;
    }
    assert(ps.take(ps.len() as int) == ps);
    string_of(cur.as_slice())
}

/// The template of `key` in the language `locale`.
pub open spec fn found(
    tables: Map<Seq<char>, Map<Seq<char>, Seq<char>>>,
    locale: Seq<char>,
    key: Seq<char>,
) -> Option<Seq<char>> {
    if tables.contains_key(locale) && tables[locale].contains_key(key) {
        Some(tables[locale][key])
    } else {
        None
    }
}

/// The message of `key`: its template in the language `current`, else in the
/// language `fallback`, with the arguments filled in; the key itself where neither
/// language has it.
pub open spec fn message(
    tables: Map<Seq<char>, Map<Seq<char>, Seq<char>>>,
    current: Seq<char>,
    fallback: Seq<char>,
    key: Seq<char>,
    args: Seq<(Seq<char>, Seq<char>)>,
) -> Seq<char> {
    match found(tables, current, key) {
        Some(t) => formatted(t, args),
        None => match found(tables, fallback, key) {
            Some(t) => formatted(t, args),
            None => key,
        },
    }
}

/// Why a language could not be taken into use.
#[derive(Debug)]
pub enum I18nError {
    /// The language has no table.
    LocaleNotFound(String),
    /// There are no tables at all.
    NotInitialized,
}

/// The tables of all languages, with the language in use and the language to
/// fall back on.
pub struct I18n {
    translations: StrMap<Locale>,
    current_locale: String,
    fallback_locale: String,
}

impl I18n {
    /// Every table is well formed.
    pub closed spec fn wf(&self) -> bool {
        &&& self.translations.wf()
        &&& forall|l: Seq<char>| #[trigger]
            self.translations@.contains_key(l) ==> self.translations@[l].wf()
    }

    /// The templates by language and key.
    pub closed spec fn tables(&self) -> Map<Seq<char>, Map<Seq<char>, Seq<char>>> {
        Map::new(
            |l: Seq<char>| self.translations@.contains_key(l),
            |l: Seq<char>| self.translations@[l].table(),
        )
    }

    /// The languages in the order in which their tables first came.
    pub closed spec fn locales(&self) -> Seq<Seq<char>> {
        self.translations.key_seq()
    }

    /// The language in use.
    pub closed spec fn current(&self) -> Seq<char> {
        self.current_locale@
    }

    /// The language to fall back on.
    pub closed spec fn fallback(&self) -> Seq<char> {
        self.fallback_locale@
    }

    /// The languages listed are those that have a table, each once.
    pub proof fn lemma_locales(&self)
        requires
            self.wf(),
        ensures
            self.locales().no_duplicates(),
            forall|l: Seq<char>| self.tables().contains_key(l) <==> self.locales().contains(l),
    {
        self.translations.lemma_view();
    }

    /// No tables; Portuguese is in use, English is what to fall back on.
    pub fn new() -> (r: Self)
        ensures
            r.wf(),
            r.tables() == Map::<Seq<char>, Map<Seq<char>, Seq<char>>>::empty(),
            r.locales() == Seq::<Seq<char>>::empty(),
            r.current() == "pt"@,
            r.fallback() == "en"@,
    {
        let r = I18n {
            translations: StrMap::new(),
            current_locale: "pt".to_owned(),
            fallback_locale: "en".to_owned(),
        };
        assert(r.tables() =~= Map::<Seq<char>, Map<Seq<char>, Seq<char>>>::empty());
        r
    }

    /// Gives the language `locale` the templates of the message file `content`, in
    /// place of those it had.
    pub fn load_locale(&mut self, locale: &str, content: &str)
        requires
            old(self).wf(),
        ensures
            final(self).wf(),
            final(self).tables() == old(self).tables().insert(
                locale@,
                ftl_table(lines_of(content@)),
            ),
            final(self).locales() == if old(self).tables().contains_key(locale@) {
                old(self).locales()
            } else {
                old(self).locales().push(locale@)
            },
            final(self).current() == old(self).current(),
            final(self).fallback() == old(self).fallback(),
    {
        let table = Locale::parse(content);
        self.translations.insert(locale.to_owned(), table);
        assert(self.tables() =~= old(self).tables().insert(
            locale@,
            ftl_table(lines_of(content@)),
        ));
    }

    /// Takes the language `locale` into use, if it has a table.
    pub fn set_locale(&mut self, locale: &str) -> (r: Result<(), I18nError>)
        requires
            old(self).wf(),
        ensures
            final(self).wf(),
            final(self).tables() == old(self).tables(),
            final(self).locales() == old(self).locales(),
            final(self).fallback() == old(self).fallback(),
            old(self).tables().contains_key(locale@) ==> r is Ok && final(self).current()
                == locale@,
            !old(self).tables().contains_key(locale@) ==> final(self).current() == old(
                self,
            ).current() && (r matches Err(I18nError::LocaleNotFound(l)) && l@ == locale@),
    {
        if self.translations.contains_key(locale) {
            self.current_locale = locale.to_owned();
            Ok(())
        } else {
            Err(I18nError::LocaleNotFound(locale.to_owned()))
        }
    }

    /// The template of `key` in the language `locale`.
    fn lookup(&self, locale: &str, key: &str) -> (r: Option<&String>)
        requires
            self.wf(),
        ensures
            r is Some <==> found(self.tables(), locale@, key@) is Some,
            r matches Some(t) ==> found(self.tables(), locale@, key@) == Some(t@),
    {
        match self.translations.get(locale) {
            Some(table) => table.get(key),
            None => None,
        }
    }

    /// The message of `key` without arguments.
    pub fn get(&self, key: &str) -> (r: String)
        requires
            self.wf(),
        ensures
            r@ == message(
                self.tables(),
                self.current(),
                self.fallback(),
                key@,
                Seq::<(Seq<char>, Seq<char>)>::empty(),
            ),
    {
        let none: Vec<(String, String)> = Vec::new();
        assert(pair_texts(none@) =~= Seq::<(Seq<char>, Seq<char>)>::empty());
        self.get_with_args(key, none.as_slice())
    }

    /// The message of `key` with the arguments filled in.
    pub fn get_with_args(&self, key: &str, args: &[(String, String)]) -> (r: String)
        requires
            self.wf(),
        ensures
            r@ == message(self.tables(), self.current(), self.fallback(), key@, pair_texts(args@)),
    {
        match self.lookup(self.current_locale.as_str(), key) {
            Some(t) => format_message(t.as_str(), args),
            None => match self.lookup(self.fallback_locale.as_str(), key) {
                Some(t) => format_message(t.as_str(), args),
                None => key.to_owned(),
            },
        }
    }

    /// The language in use.
    pub fn get_current_locale(&self) -> (r: &str)
        ensures
            r@ == self.current(),
    {
        self.current_locale.as_str()
    }

    /// The languages that have a table.
    pub fn available_locales(&self) -> (r: Vec<String>)
        requires
            self.wf(),
        ensures
            string_texts(r@) == self.locales(),
    {
        let mut r: Vec<String> = Vec::new();
        let n = self.translations.len();
        let mut i: usize = 0;
        assert(string_texts(r@) =~= self.locales().take(0));
        while i < n
            invariant
                i <= n,
                self.wf(),
                n == self.locales().len(),
                string_texts(r@) == self.locales().take(i as int),
            decreases n - i,
        {
            let ghost before = string_texts(r@);
            let k = self.translations.key_at(i).clone();
            r.push(k);
            assert(string_texts(r@) =~= before.push(self.locales()[i as int]));
            i += 1;
            assert(string_texts(r@) =~= self.locales().take(i as int));
        }
        assert(self.locales().take(n as int) == self.locales());
        r
    }
}

/// The tables after the message files `files` were loaded in turn, each a language
/// with the text of its file.
pub open spec fn loaded(files: Seq<(Seq<char>, Seq<char>)>) -> Map<
    Seq<char>,
    Map<Seq<char>, Seq<char>>,
>
    decreases files.len(),
{
    if files.len() == 0 {
        Map::empty()
    } else {
        loaded(files.drop_last()).insert(files.last().0, ftl_table(lines_of(files.last().1)))
    }
}

/// The languages in the order in which their tables first came, after the
/// message files `files` were loaded in turn.
pub open spec fn loaded_order(files: Seq<(Seq<char>, Seq<char>)>) -> Seq<Seq<char>>
    decreases files.len(),
{
    if files.len() == 0 {
        Seq::empty()
    } else if loaded(files.drop_last()).contains_key(files.last().0) {
        loaded_order(files.drop_last())
    } else {
        loaded_order(files.drop_last()).push(files.last().0)
    }
}

/// What is said for `key`: its message where there are tables, the key itself
/// where there are none.
pub open spec fn said(i18n: Option<I18n>, key: Seq<char>, args: Seq<(Seq<char>, Seq<char>)>) -> Seq<
    char,
> {
    match i18n {
        Some(i) => message(i.tables(), i.current(), i.fallback(), key, args),
        None => key,
    }
}

/// Whether the tables, if there are any, are well formed.
pub open spec fn ready(i18n: Option<I18n>) -> bool {
    i18n matches Some(i) ==> i.wf()
}

/// The tables before any message file is loaded.
pub fn init_i18n() -> (r: I18n)
    ensures
        r.wf(),
        r.tables() == Map::<Seq<char>, Map<Seq<char>, Seq<char>>>::empty(),
        r.locales() == Seq::<Seq<char>>::empty(),
        r.current() == "pt"@,
        r.fallback() == "en"@,
{
    I18n::new()
}

/// The tables of the message files `files`, each a language with the text of its
/// file. Portuguese is in use, English is what to fall back on.
pub fn init(files: &[(String, String)]) -> (r: I18n)
    ensures
        r.wf(),
        r.tables() == loaded(pair_texts(files@)),
        r.locales() == loaded_order(pair_texts(files@)),
        r.current() == "pt"@,
        r.fallback() == "en"@,
{
    let mut r = I18n::new();
    let ghost fs = pair_texts(files@);
    let mut i: usize = 0;
    assert(fs.take(0) =~= Seq::<(Seq<char>, Seq<char>)>::empty());
    while i < files.len()
        invariant
            i <= files.len(),
            fs == pair_texts(files@),
            r.wf(),
            r.tables() == loaded(fs.take(i as int)),
            r.locales() == loaded_order(fs.take(i as int)),
            r.current() == "pt"@,
            r.fallback() == "en"@,
        decreases files.len() - i,
    {
        assert(fs.take(i + 1).drop_last() == fs.take(i as int));
        assert(fs.take(i + 1).last() == (files@[i as int].0@, files@[i as int].1@));
        r.load_locale(files[i].0.as_str(), files[i].1.as_str());
        i += 1;
    }
    assert(fs.take(fs.len() as int) == fs);
    r
}

/// Takes the language `locale` into use, if there are tables and it has one.
pub fn set_locale(i18n: &mut Option<I18n>, locale: &str) -> (r: Result<(), I18nError>)
    requires
        ready(*old(i18n)),
    ensures
        ready(*final(i18n)),
        *old(i18n) is None ==> *final(i18n) is None && r == Err::<(), I18nError>(
            I18nError::NotInitialized,
        ),
        *old(i18n) matches Some(before) ==> (*final(i18n) matches Some(after) && after.tables()
            == before.tables() && after.locales() == before.locales() && after.fallback()
            == before.fallback() && after.current() == (if before.tables().contains_key(locale@) {
            locale@
        } else {
            before.current()
        }) && (r is Ok <==> before.tables().contains_key(locale@))),
{
    let mut taken: Option<I18n> = None;
    std::mem::swap(i18n, &mut taken);
    match taken {
        Some(mut tables) => {
            let r = tables.set_locale(locale);
            *i18n = Some(tables);
            r
        },
        None => Err(I18nError::NotInitialized),
    }
}

/// The language in use; Portuguese where there are no tables.
pub fn get_current_locale(i18n: &Option<I18n>) -> (r: String)
    ensures
        r@ == (match *i18n {
            Some(i) => i.current(),
            None => "pt"@,
        }),
{
    match i18n {
        Some(i) => i.get_current_locale().to_owned(),
        None => "pt".to_owned(),
    }
}

/// The languages that have a table; Portuguese and English where there are no
/// tables.
pub fn available_locales(i18n: &Option<I18n>) -> (r: Vec<String>)
    requires
        ready(*i18n),
    ensures
        string_texts(r@) == (match *i18n {
            Some(i) => i.locales(),
            None => seq!["pt"@, "en"@],
        }),
{
    match i18n {
        Some(i) => i.available_locales(),
        None => {
            let mut r: Vec<String> = Vec::new();
            r.push("pt".to_owned());
            r.push("en".to_owned());
            assert(string_texts(r@) =~= seq!["pt"@, "en"@]);
            r
        },
    }
}

/// What is said for `key`, without arguments.
pub fn t(i18n: &Option<I18n>, key: &str) -> (r: String)
    requires
        ready(*i18n),
    ensures
        r@ == said(*i18n, key@, Seq::<(Seq<char>, Seq<char>)>::empty()),
{
    match i18n {
        Some(i) => i.get(key),
        None => key.to_owned(),
    }
}

/// What is said for `key`, with the arguments filled in.
pub fn t_with_args(i18n: &Option<I18n>, key: &str, args: &[(String, String)]) -> (r: String)
    requires
        ready(*i18n),
    ensures
        r@ == said(*i18n, key@, pair_texts(args@)),
{
    match i18n {
        Some(i) => i.get_with_args(key, args),
        None => key.to_owned(),
    }
}

/// What is said for `key`, with the one argument `name`.
pub fn t_named(i18n: &Option<I18n>, key: &str, name: &str, value: &str) -> (r: String)
    requires
        ready(*i18n),
    ensures
        r@ == said(*i18n, key@, seq![(name@, value@)]),
{
    let mut args: Vec<(String, String)> = Vec::new();
    args.push((name.to_owned(), value.to_owned()));
    assert(pair_texts(args@) =~= seq![(name@, value@)]);
    t_with_args(i18n, key, args.as_slice())
}

/// What is said for `key`, with the two arguments `first` and `second`.
pub fn t_named_two(
    i18n: &Option<I18n>,
    key: &str,
    first: (&str, &str),
    second: (&str, &str),
) -> (r: String)
    requires
        ready(*i18n),
    ensures
        r@ == said(*i18n, key@, seq![(first.0@, first.1@), (second.0@, second.1@)]),
{
    let mut args: Vec<(String, String)> = Vec::new();
    args.push((first.0.to_owned(), first.1.to_owned()));
    args.push((second.0.to_owned(), second.1.to_owned()));
    assert(pair_texts(args@) =~= seq![(first.0@, first.1@), (second.0@, second.1@)]);
    t_with_args(i18n, key, args.as_slice())
}

/// `n` written in base 10.
pub fn number_text(n: usize) -> (r: String)
    ensures
        r@ == decimal(n as nat),
{
    let mut out: Vec<char> = Vec::new();
    push_decimal(&mut out, n as u64);
    assert(out@ =~= decimal(n as nat));
    string_of(out.as_slice())
}

/// `n` written in base 10, with a minus sign where it is negative.
pub fn signed_text(n: i32) -> (r: String)
    ensures
        r@ == signed_decimal(n as int),
{
    let mut out: Vec<char> = Vec::new();
    push_signed(&mut out, n as i64);
    assert(out@ =~= signed_decimal(n as int));
    string_of(out.as_slice())
}

/// What is said for `key`, with the argument `arg`.
pub fn t_with_arg(i18n: &Option<I18n>, key: &str, arg_value: &str) -> (r: String)
    requires
        ready(*i18n),
    ensures
        r@ == said(*i18n, key@, seq![("arg"@, arg_value@)]),
{
    t_named(i18n, key, "arg", arg_value)
}

/// What is said for `key`, with the argument `count`.
pub fn t_count(i18n: &Option<I18n>, key: &str, count: i32) -> (r: String)
    requires
        ready(*i18n),
    ensures
        r@ == said(*i18n, key@, seq![("count"@, signed_decimal(count as int))]),
{
    let n = signed_text(count);
    t_named(i18n, key, "count", n.as_str())
}

/// What is said for `key`, with the argument `path`.
pub fn t_path(i18n: &Option<I18n>, key: &str, path: &str) -> (r: String)
    requires
        ready(*i18n),
    ensures
        r@ == said(*i18n, key@, seq![("path"@, path@)]),
{
    t_named(i18n, key, "path", path)
}

/// What is said for `key`, with the argument `filename`.
pub fn t_filename(i18n: &Option<I18n>, key: &str, filename: &str) -> (r: String)
    requires
        ready(*i18n),
    ensures
        r@ == said(*i18n, key@, seq![("filename"@, filename@)]),
{
    t_named(i18n, key, "filename", filename)
}

/// What is said for `key`, with the argument `progress`.
pub fn t_progress(i18n: &Option<I18n>, key: &str, progress: i32) -> (r: String)
    requires
        ready(*i18n),
    ensures
        r@ == said(*i18n, key@, seq![("progress"@, signed_decimal(progress as int))]),
{
    let n = signed_text(progress);
    t_named(i18n, key, "progress", n.as_str())
}

/// What is said for `key`, with the argument `platform`.
pub fn t_platform(i18n: &Option<I18n>, key: &str, platform: &str) -> (r: String)
    requires
        ready(*i18n),
    ensures
        r@ == said(*i18n, key@, seq![("platform"@, platform@)]),
{
    t_named(i18n, key, "platform", platform)
}

/// What is said for `key`, with the argument `command`.
pub fn t_command(i18n: &Option<I18n>, key: &str, command: &str) -> (r: String)
    requires
        ready(*i18n),
    ensures
        r@ == said(*i18n, key@, seq![("command"@, command@)]),
{
    t_named(i18n, key, "command", command)
}

/// What is said for `key`, with the argument `error`.
pub fn t_error(i18n: &Option<I18n>, key: &str, error: &str) -> (r: String)
    requires
        ready(*i18n),
    ensures
        r@ == said(*i18n, key@, seq![("error"@, error@)]),
{
    t_named(i18n, key, "error", error)
}

/// What is said for `key`, with the argument `type`.
pub fn t_type(i18n: &Option<I18n>, key: &str, type_value: &str) -> (r: String)
    requires
        ready(*i18n),
    ensures
        r@ == said(*i18n, key@, seq![("type"@, type_value@)]),
{
    t_named(i18n, key, "type", type_value)
}

/// What is said for `key`, with the argument `system`.
pub fn t_system(i18n: &Option<I18n>, key: &str, system: &str) -> (r: String)
    requires
        ready(*i18n),
    ensures
        r@ == said(*i18n, key@, seq![("system"@, system@)]),
{
    t_named(i18n, key, "system", system)
}

/// What is said for `key`, with the argument `systems`.
pub fn t_systems(i18n: &Option<I18n>, key: &str, systems: &str) -> (r: String)
    requires
        ready(*i18n),
    ensures
        r@ == said(*i18n, key@, seq![("systems"@, systems@)]),
{
    t_named(i18n, key, "systems", systems)
}

/// What is said for `key`, with the arguments `rom` and `system`.
pub fn t_rom_system(i18n: &Option<I18n>, key: &str, rom: &str, system: &str) -> (r: String)
    requires
        ready(*i18n),
    ensures
        r@ == said(*i18n, key@, seq![("rom"@, rom@), ("system"@, system@)]),
{
    t_named_two(i18n, key, ("rom", rom), ("system", system))
}

/// What is said of a conversion, with the arguments `source` and `target`.
pub fn t_conversion(i18n: &Option<I18n>, source: &str, target: &str) -> (r: String)
    requires
        ready(*i18n),
    ensures
        r@ == said(*i18n, "conversion"@, seq![("source"@, source@), ("target"@, target@)]),
{
    t_named_two(i18n, "conversion", ("source", source), ("target", target))
}

/// What is said for `key` of the directory `path`, the one numbered `current` of
/// `total`: the arguments are `current`, `total` and `path`.
pub fn t_directory_scan(
    i18n: &Option<I18n>,
    key: &str,
    current: usize,
    total: usize,
    path: &str,
) -> (r: String)
    requires
        ready(*i18n),
    ensures
        r@ == said(
            *i18n,
            key@,
            seq![
                ("current"@, decimal(current as nat)),
                ("total"@, decimal(total as nat)),
                ("path"@, path@),
            ],
        ),
{
    let mut args: Vec<(String, String)> = Vec::new();
    args.push(("current".to_owned(), number_text(current)));
    args.push(("total".to_owned(), number_text(total)));
    args.push(("path".to_owned(), path.to_owned()));
    assert(pair_texts(args@) =~= seq![
        ("current"@, decimal(current as nat)),
        ("total"@, decimal(total as nat)),
        ("path"@, path@),
    ]);
    t_with_args(i18n, key, args.as_slice())
}

/// What is said of the progress of a scan over directories.
pub fn t_directory_progress(i18n: &Option<I18n>, current: usize, total: usize, path: &str) -> (r:
    String)
    requires
        ready(*i18n),
    ensures
        r@ == said(
            *i18n,
            "scanning-directory-progress"@,
            seq![
                ("current"@, decimal(current as nat)),
                ("total"@, decimal(total as nat)),
                ("path"@, path@),
            ],
        ),
{
    t_directory_scan(i18n, "scanning-directory-progress", current, total, path)
}

/// The arguments `arg0`, `arg1` and so on for the values.
pub open spec fn numbered(values: Seq<Seq<char>>) -> Seq<(Seq<char>, Seq<char>)> {
    Seq::new(values.len(), |i: int| ("arg"@ + decimal(i as nat), values[i]))
}

/// The texts of a list of string slices.
pub open spec fn slice_texts(v: Seq<&str>) -> Seq<Seq<char>> {
    v.map_values(|s: &str| s@)
}

/// What is said for `key`, with the values as the arguments `arg0`, `arg1` and so
/// on.
pub fn t_with_array_args(i18n: &Option<I18n>, key: &str, args: &[&str]) -> (r: String)
    requires
        ready(*i18n),
    ensures
        r@ == said(*i18n, key@, numbered(slice_texts(args@))),
{
    let mut named: Vec<(String, String)> = Vec::new();
    let ghost want = numbered(slice_texts(args@));
    let mut i: usize = 0;
    assert(pair_texts(named@) =~= want.take(0));
    while i < args.len()
        invariant
            i <= args.len(),
            want == numbered(slice_texts(args@)),
            pair_texts(named@) == want.take(i as int),
        decreases args.len() - i,
    {
        let ghost before = pair_texts(named@);
        let mut name = chars_of("arg");
        push_decimal(&mut name, i as u64);
        let name = string_of(name.as_slice());
        named.push((name, args[i].to_owned()));
        assert(pair_texts(named@) =~= before.push(want[i as int]));
        i += 1;
        assert(pair_texts(named@) =~= want.take(i as int));
    }
    assert(want.take(args.len() as int) == want);
    t_with_args(i18n, key, named.as_slice())
}

} // verus!
