//! Validating records against the reference catalogs: known, renamed, bad dump,
//! homebrew, unknown or unreadable.

use vstd::prelude::*;
use crate::classifier::{holds_any, mentions};
use crate::dat_parser::{
    catalog_rows, index_after, opt_text, rows, DatCollection, DatEntry, DatError, DatRow,
};
use crate::paths::{file_name, file_name_of, file_stem, file_stem_of};

use crate::scanner::{string_texts, RomFile, RomRow};
use crate::split::{join, joined, words, words_of};
use crate::str_map::StrMap;
pub use crate::validation_report::ValidationReport;
use crate::text::{
    chars_of, contains, contains_sub, is_white, lower_chars, lowercase, string_of, CharClass,
};

verus! {

/// Whether `c` is a letter or a number in the sense of `char::is_alphanumeric`.
pub uninterp spec fn is_alnum(c: char) -> bool;

/// The first match of the regular expression `pattern` in `text`, as the crate
/// `regex` finds it; none where there is no match or `pattern` is no regular
/// expression.
pub uninterp spec fn regex_find(pattern: Seq<char>, text: Seq<char>) -> Option<Seq<char>>;

/// `char::is_alphanumeric`: whether the character is a letter or a number.
#[verifier::external_body]
fn char_is_alphanumeric(c: char) -> (r: bool)
    ensures
        r == is_alnum(c),
{
    c.is_alphanumeric()
}

/// `regex::Regex::new`, then `find`: the text of the leftmost match.
#[verifier::external_body]
fn regex_first_match(pattern: &str, text: &str) -> (r: Option<String>)
    ensures
        opt_text(r) == regex_find(pattern@, text@),
{
    match regex::Regex::new(pattern) {
        Ok(re) => match re.find(text) {
            Some(m) => Some(m.as_str().to_string()),
            None => None,
        },
        Err(_) => None,
    }
}

/// The verdict on one record as a mathematical value.
pub enum Verdict {
    Valid { dat_name: Seq<char>, region: Option<Seq<char>>, version: Option<Seq<char>> },
    ValidButRenamed {
        dat_name: Seq<char>,
        expected_name: Seq<char>,
        region: Option<Seq<char>>,
        version: Option<Seq<char>>,
    },
    Unknown,
    BadDump { dat_name: Seq<char>, reason: Seq<char> },
    Homebrew { detected_name: Seq<char> },
    Corrupted { error: Seq<char> },
}

/// The verdict on one record.
#[derive(Debug)]
pub enum ValidationResult {
    /// The record is in a catalog under its own name.
    Valid { dat_name: String, region: Option<String>, version: Option<String> },
    /// The record is in a catalog under another name.
    ValidButRenamed {
        dat_name: String,
        expected_name: String,
        region: Option<String>,
        version: Option<String>,
    },
    /// The record is in no catalog.
    Unknown,
    /// The record is in a catalog as a bad dump.
    BadDump { dat_name: String, reason: String },
    /// The record is in no catalog and named like a homebrew or unlicensed title.
    Homebrew { detected_name: String },
    /// The file of the record could not be read.
    Corrupted { error: String },
}

impl View for ValidationResult {
    type V = Verdict;

    open spec fn view(&self) -> Verdict {
        match self {
            ValidationResult::Valid { dat_name, region, version } => Verdict::Valid {
                dat_name: dat_name@,
                region: opt_text(*region),
                version: opt_text(*version),
            },
            ValidationResult::ValidButRenamed {
                dat_name,
                expected_name,
                region,
                version,
            } => Verdict::ValidButRenamed {
                dat_name: dat_name@,
                expected_name: expected_name@,
                region: opt_text(*region),
                version: opt_text(*version),
            },
            ValidationResult::Unknown => Verdict::Unknown,
            ValidationResult::BadDump { dat_name, reason } => Verdict::BadDump {
                dat_name: dat_name@,
                reason: reason@,
            },
            ValidationResult::Homebrew { detected_name } => Verdict::Homebrew {
                detected_name: detected_name@,
            },
            ValidationResult::Corrupted { error } => Verdict::Corrupted { error: error@ },
        }
    }
}

/// The marks of homebrew, unlicensed and altered titles.
pub open spec fn homebrew_marks() -> Seq<&'static str> {
    seq![
        "(Unl)", "(Homebrew)", "(PD)", "[h1]", "[h2]", "[T+", "[f1]", "[f2]", "[o1]", "[b1]",
        "[b2]", "(Pirate)", "(Aftermarket)",
    ]
}

/// Whether `name` holds one of `patterns`.
pub open spec fn holds_one(name: Seq<char>, patterns: Seq<Seq<char>>) -> bool {
    exists|i: int| 0 <= i < patterns.len() && contains_sub(name, #[trigger] patterns[i])
}

/// Whether a catalog name, given in lower case, marks a bad dump.
pub open spec fn is_bad_name(lower: Seq<char>) -> bool {
    mentions(lower, seq!["[b]", "[bad]", "(bad)", "[corrupt]", "(corrupt)"])
}

/// The region tags and their regions, in the order in which they are looked for.
pub open spec fn region_tags() -> Seq<(&'static str, &'static str)> {
    seq![
        ("(USA)", "USA"),
        ("(Europe)", "Europe"),
        ("(Japan)", "Japan"),
        ("(World)", "World"),
        ("(Asia)", "Asia"),
        ("(Korea)", "Korea"),
        ("(Brazil)", "Brazil"),
        ("(Australia)", "Australia"),
        ("(Germany)", "Germany"),
        ("(France)", "France"),
        ("(Spain)", "Spain"),
        ("(Italy)", "Italy"),
    ]
}

/// The region of the first of `tags` that `name` holds.
pub open spec fn region_from(name: Seq<char>, tags: Seq<(&'static str, &'static str)>) -> Option<
    Seq<char>,
>
    decreases tags.len(),
{
    if tags.len() == 0 {
        None
    } else if contains_sub(name, tags[0].0@) {
        Some(tags[0].1@)
    } else {
        region_from(name, tags.skip(1))
    }
}

/// The region that a name is tagged with, case and all.
pub open spec fn region_in(name: Seq<char>) -> Option<Seq<char>> {
    region_from(name, region_tags())
}

/// The version that a name tells: the first match of `(Rev n)`, else of `(vn.n)`,
/// else of `(Version n)`.
pub open spec fn version_in(name: Seq<char>) -> Option<Seq<char>> {
    match regex_find("\\(Rev \\d+\\)"@, name) {
        Some(v) => Some(v),
        None => match regex_find("\\(v\\d+\\.\\d+\\)"@, name) {
            Some(v) => Some(v),
            None => regex_find("\\(Version \\d+\\)"@, name),
        },
    }
}

/// The letters, numbers and white space of `s`.
pub open spec fn plain_chars(s: Seq<char>) -> Seq<char>
    decreases s.len(),
{
    if s.len() == 0 {
        Seq::empty()
    } else if is_alnum(s.last()) || is_white(s.last()) {
        plain_chars(s.drop_last()).push(s.last())
    } else {
        plain_chars(s.drop_last())
    }
}

/// A name as names are compared: in lower case, letters, numbers and white space
/// only, one space between words.
pub open spec fn normalized(name: Seq<char>) -> Seq<char> {
    joined(words_of(plain_chars(lowercase(name))), " "@)
}

/// The verdict on a record whose checksum a catalog has under `entry`.
pub open spec fn matched(rom: RomRow, entry: DatRow) -> Verdict {
    if is_bad_name(lowercase(entry.name)) {
        Verdict::BadDump { dat_name: entry.name, reason: "Marked as bad dump in DAT"@ }
    } else if normalized(file_stem_of(rom.path)) == normalized(entry.name) {
        Verdict::Valid {
            dat_name: entry.name,
            region: region_in(entry.name),
            version: version_in(entry.name),
        }
    } else {
        Verdict::ValidButRenamed {
            dat_name: entry.name,
            expected_name: entry.name,
            region: region_in(entry.name),
            version: version_in(entry.name),
        }
    }
}

/// The row of the first of the indexes that has the checksum `crc`.
pub open spec fn first_match(indexes: Seq<Map<u32, DatRow>>, crc: u32) -> Option<DatRow>
    decreases indexes.len(),
{
    if indexes.len() == 0 {
        None
    } else if indexes[0].contains_key(crc) {
        Some(indexes[0][crc])
    } else {
        first_match(indexes.skip(1), crc)
    }
}

/// The checksum of a record: its own, else the one computed for it, if that
/// worked.
pub open spec fn crc_or(rom: RomRow, hash: Result<u32, Seq<char>>) -> Result<u32, Seq<char>> {
    match rom.crc32 {
        Some(c) => Ok(c),
        None => hash,
    }
}

/// The verdict on one record: unreadable where it has no checksum and none could
/// be computed; else what the first catalog that knows the checksum says; else
/// homebrew where its file name holds a homebrew mark; else unknown.
pub open spec fn verdict(
    indexes: Seq<Map<u32, DatRow>>,
    patterns: Seq<Seq<char>>,
    rom: RomRow,
    hash: Result<u32, Seq<char>>,
) -> Verdict {
    match crc_or(rom, hash) {
        Err(e) => Verdict::Corrupted { error: e },
        Ok(crc) => match first_match(indexes, crc) {
            Some(entry) => matched(rom, entry),
            None => if holds_one(file_name_of(rom.path), patterns) {
                Verdict::Homebrew { detected_name: file_name_of(rom.path) }
            } else {
                Verdict::Unknown
            },
        },
    }
}

/// A checksum or the reason why there is none, as a mathematical value.
pub open spec fn hash_view(h: Result<u32, String>) -> Result<u32, Seq<char>> {
    match h {
        Ok(c) => Ok(c),
        Err(e) => Err(e@),
    }
}

/// The validator: catalogs by system and the marks of homebrew titles.
/// The rows of the first `n` catalogs, catalog after catalog.
pub open spec fn rows_of_catalogs(cs: Seq<DatCollection>, n: int) -> Seq<DatRow>
    decreases n,
{
    if n <= 0 {
        Seq::empty()
    } else {
        rows_of_catalogs(cs, n - 1) + cs[n - 1].all_rows()
    }
}

/// Whether `c` holds what loading the catalog file at `path` with the text
/// `content` into an empty collection gives.
pub open spec fn holds_only(c: DatCollection, path: Seq<char>, content: Seq<char>) -> bool {
    let found = catalog_rows(content);
    let stem = file_stem_of(path);
    &&& c.wf()
    &&& c.index() == index_after(Map::<u32, DatRow>::empty(), found)
    &&& c.systems() == if found.len() > 0 {
        Map::<Seq<char>, Seq<DatRow>>::empty().insert(stem, found)
    } else {
        Map::<Seq<char>, Seq<DatRow>>::empty()
    }
    &&& c.system_order() == if found.len() > 0 {
        seq![stem]
    } else {
        Seq::<Seq<char>>::empty()
    }
    &&& c.secondary() is None
}

pub struct RomValidator {
    dat_collections: StrMap<DatCollection>,
    homebrew_patterns: Vec<String>,
}

impl RomValidator {
    /// The catalogs are well formed.
    pub closed spec fn wf(&self) -> bool {
        &&& self.dat_collections.wf()
        &&& forall|i: int|
            0 <= i < self.dat_collections.val_seq().len() ==> (
            #[trigger] self.dat_collections.val_seq()[i]).wf()
    }

    /// The indexes of the catalogs in the order in which their systems arrived.
    pub closed spec fn indexes(&self) -> Seq<Map<u32, DatRow>> {
        Seq::new(
            self.dat_collections.val_seq().len(),
            |i: int| self.dat_collections.val_seq()[i].index(),
        )
    }

    /// The systems that have a catalog, in the order of their arrival.
    pub closed spec fn systems(&self) -> Seq<Seq<char>> {
        self.dat_collections.key_seq()
    }

    /// The catalogs, each at the position of its system.
    pub closed spec fn collections(&self) -> Seq<DatCollection> {
        self.dat_collections.val_seq()
    }

    /// How the indexes and the rows of the catalogs follow from the catalogs.
    pub proof fn lemma_catalogs(&self)
        requires
            self.wf(),
        ensures
            self.systems().len() == self.collections().len(),
            self.systems().no_duplicates(),
            self.collection_count() == self.collections().len(),
            self.indexes() == Seq::new(
                self.collections().len(),
                |i: int| self.collections()[i].index(),
            ),
            forall|i: int| 0 <= i < self.collections().len() ==> (#[trigger] self.collections()[i]).wf(),
            forall|n: int| #[trigger]
                self.catalog_rows_upto(n) == rows_of_catalogs(self.collections(), n),
    {
        self.dat_collections.lemma_view();
        assert forall|n: int| #[trigger]
            self.catalog_rows_upto(n) == rows_of_catalogs(self.collections(), n) by {
            self.lemma_rows_upto(n);
        }
    }

    /// The rows of the first `n` catalogs, both ways of counting.
    proof fn lemma_rows_upto(&self, n: int)
        ensures
            self.catalog_rows_upto(n) == rows_of_catalogs(self.collections(), n),
        decreases n,
    {
        if n > 0 {
            self.lemma_rows_upto(n - 1);
        }
    }

    /// The marks of homebrew titles.
    pub closed spec fn patterns(&self) -> Seq<Seq<char>> {
        string_texts(self.homebrew_patterns@)
    }

    /// A validator without catalogs, with the usual homebrew marks.
    pub fn new() -> (v: Self)
        ensures
            v.wf(),
            v.indexes().len() == 0,
            v.systems().len() == 0,
            v.collections().len() == 0,
            v.patterns() == crate::core_mapper::literal_texts(homebrew_marks()),
    {
        RomValidator {
            dat_collections: StrMap::new(),
            homebrew_patterns: Self::load_homebrew_patterns(),
        }
    }

    /// The usual marks of homebrew, unlicensed and altered titles.
    pub fn load_homebrew_patterns() -> (r: Vec<String>)
        ensures
            string_texts(r@) == crate::core_mapper::literal_texts(homebrew_marks()),
    {
        let marks = vec![
            "(Unl)", "(Homebrew)", "(PD)", "[h1]", "[h2]", "[T+", "[f1]", "[f2]", "[o1]", "[b1]",
            "[b2]", "(Pirate)", "(Aftermarket)",
        ];
        assert(marks@ =~= homebrew_marks());
        let ghost want = crate::core_mapper::literal_texts(marks@);
        let mut r: Vec<String> = Vec::new();
        let mut i: usize = 0;
        while i < marks.len()
            invariant
                i <= marks.len(),
                want == crate::core_mapper::literal_texts(marks@),
                string_texts(r@) == want.take(i as int),
            decreases marks.len() - i,
        {
            let ghost before = string_texts(r@);
            r.push(marks[i].to_owned());
            assert(string_texts(r@) =~= before.push(marks@[i as int]@));
            assert(want.take(i + 1) =~= before.push(marks@[i as int]@));
            i += 1;
        }
        assert(want.take(want.len() as int) == want);
        r
    }

    /// Whether the validator has no catalog.
    pub fn has_no_catalogs(&self) -> (r: bool)
        requires
            self.wf(),
        ensures
            r == (self.systems().len() == 0),
    {
        self.dat_collections.is_empty()
    }

    /// The number of homebrew marks.
    pub fn homebrew_pattern_count(&self) -> (n: usize)
        ensures
            n == self.patterns().len(),
    {
        self.homebrew_patterns.len()
    }

    /// Loads the text `content` of the catalog file at `dat_path` as the catalog of
    /// `system`, in place of the catalog that the system had; a new system goes to
    /// the end.
    pub fn load_dat_collection(&mut self, system: &str, dat_path: &str, content: &str) -> (r: Result<
        (),
        DatError,
    >)
        requires
            old(self).wf(),
        ensures
            r is Ok,
            final(self).wf(),
            final(self).patterns() == old(self).patterns(),
            final(self).systems() == if old(self).systems().contains(system@) {
                old(self).systems()
            } else {
                old(self).systems().push(system@)
            },
            final(self).collections().len() == final(self).systems().len(),
            forall|j: int|
                0 <= j < final(self).systems().len() ==> if final(self).systems()[j] == system@ {
                    holds_only(#[trigger] final(self).collections()[j], dat_path@, content@)
                } else {
                    j < old(self).collections().len() && final(self).collections()[j] == old(
                        self,
                    ).collections()[j]
                },
    {
        let mut collection = DatCollection::new();
        let _ = collection.load_from_file(dat_path, content);
        assert(holds_only(collection, dat_path@, content@));
        proof {
            self.dat_collections.lemma_view();
        }
        let ghost before = self.dat_collections;
        self.dat_collections.insert(system.to_owned(), collection);
        proof {
            self.dat_collections.lemma_view();
            let vs = self.dat_collections.val_seq();
            let ks = self.dat_collections.key_seq();
            let had = before@.contains_key(system@);
            assert(had == before.key_seq().contains(system@));
            if had {
                let p = before.key_seq().index_of(system@);
                assert(before.key_seq()[p] == system@);
                assert(vs == before.val_seq().update(p, collection));
            } else {
                assert(vs == before.val_seq().push(collection));
            }
            assert forall|j: int| 0 <= j < ks.len() implies if ks[j] == system@ {
                holds_only(#[trigger] vs[j], dat_path@, content@)
            } else {
                j < before.val_seq().len() && vs[j] == before.val_seq()[j]
            } by {
                if had {
                    let p = before.key_seq().index_of(system@);
                    if ks[j] == system@ {
                        assert(j == p);
                    } else {
                        assert(j != p);
                    }
                } else {
                    if ks[j] == system@ {
                        if j < before.key_seq().len() {
                            assert(before.key_seq()[j] == system@);
                        }
                    } else {
                        assert(j < before.key_seq().len());
                    }
                }
            }
            assert forall|i: int| 0 <= i < vs.len() implies (#[trigger] vs[i]).wf() by {
                if ks[i] == system@ {
                } else {
                    assert(vs[i] == before.val_seq()[i]);
                }
            }
        }
        Ok(())
    }

    /// Whether a catalog entry is marked as a bad dump.
    pub fn is_bad_dump_entry(&self, entry: &DatEntry) -> (r: bool)
        ensures
            r == is_bad_name(lowercase(entry@.name)),
    {
        let lower = lower_chars(chars_of(entry.name.as_str()).as_slice());
        holds_any(lower.as_slice(), vec!["[b]", "[bad]", "(bad)", "[corrupt]", "(corrupt)"])
    }

    /// Whether `filename` holds a homebrew mark.
    pub fn is_homebrew_pattern(&self, filename: &str) -> (r: bool)
        ensures
            r == holds_one(filename@, self.patterns()),
    {
        let f = chars_of(filename);
        let ghost ps = self.patterns();
        let mut i: usize = 0;
        while i < self.homebrew_patterns.len()
            invariant
                i <= self.homebrew_patterns.len(),
                ps == string_texts(self.homebrew_patterns@),
                ps == self.patterns(),
                f@ == filename@,
                forall|j: int| 0 <= j < i ==> !contains_sub(f@, #[trigger] ps[j]),
            decreases self.homebrew_patterns.len() - i,
        {
            assert(ps[i as int] == self.homebrew_patterns@[i as int]@);
            if contains(f.as_slice(), self.homebrew_patterns[i].as_str()) {
                assert(0 <= i < ps.len() && contains_sub(filename@, ps[i as int]));
                return true;
            }
            i += 1;
        }
        false
    }

    /// The region that `name` is tagged with.
    pub fn extract_region(&self, name: &str) -> (r: Option<String>)
        ensures
            opt_text(r) == region_in(name@),
    {
        let n = chars_of(name);
        let tags = vec![
            ("(USA)", "USA"),
            ("(Europe)", "Europe"),
            ("(Japan)", "Japan"),
            ("(World)", "World"),
            ("(Asia)", "Asia"),
            ("(Korea)", "Korea"),
            ("(Brazil)", "Brazil"),
            ("(Australia)", "Australia"),
            ("(Germany)", "Germany"),
            ("(France)", "France"),
            ("(Spain)", "Spain"),
            ("(Italy)", "Italy"),
        ];
        assert(tags@ =~= region_tags());
        let mut i: usize = 0;
        assert(tags@.skip(0) == tags@);
        while i < tags.len()
            invariant
                i <= tags.len(),
                n@ == name@,
                tags@ == region_tags(),
                region_from(n@, tags@) == region_from(n@, tags@.skip(i as int)),
            decreases tags.len() - i,
        {
            assert(tags@.skip(i as int)[0] == tags@[i as int]);
            if contains(n.as_slice(), tags[i].0) {
                return Some(tags[i].1.to_owned());
            }
            assert(tags@.skip(i as int).skip(1) == tags@.skip(i + 1));
            i += 1;
        }
        None
    }

    /// The version that `name` tells.
    pub fn extract_version(&self, name: &str) -> (r: Option<String>)
        ensures
            opt_text(r) == version_in(name@),
    {
        match regex_first_match("\\(Rev \\d+\\)", name) {
            Some(v) => Some(v),
            None => match regex_first_match("\\(v\\d+\\.\\d+\\)", name) {
                Some(v) => Some(v),
                None => regex_first_match("\\(Version \\d+\\)", name),
            },
        }
    }

    /// A name as names are compared.
    pub fn normalize_name(&self, name: &str) -> (r: String)
        ensures
            r@ == normalized(name@),
    {
        let lower = lower_chars(chars_of(name).as_slice());
        let mut plain: Vec<char> = Vec::new();
        let mut i: usize = 0;
        assert(lower@.take(0) =~= Seq::<char>::empty());
        while i < lower.len()
            invariant
                i <= lower.len(),
                plain@ == plain_chars(lower@.take(i as int)),
            decreases lower.len() - i,
        {
            assert(lower@.take(i + 1).drop_last() == lower@.take(i as int));
            let c = lower[i];
            if char_is_alphanumeric(c) || CharClass::Space.holds(c) {
                plain.push(c);
            }
            i += 1;
        }
        assert(lower@.take(lower@.len() as int) == lower@);
        let parts = words(plain.as_slice());
        let mut space: Vec<char> = Vec::new();
        space.push(' ');
        assert(space@ =~= " "@) by {
            reveal_strlit(" ");
        }
        string_of(join(&parts, space.as_slice()).as_slice())
    }

    /// The verdict on a record whose checksum a catalog has under `entry`.
    pub fn analyze_dat_match(&self, rom: &RomFile, entry: &DatEntry, _system: &str) -> (r:
        ValidationResult)
        ensures
            r@ == matched(rom@, entry@),
    {
        if self.is_bad_dump_entry(entry) {
            return ValidationResult::BadDump {
                dat_name: entry.name.clone(),
                reason: "Marked as bad dump in DAT".to_owned(),
            };
        }
        let region = self.extract_region(entry.name.as_str());
        let version = self.extract_version(entry.name.as_str());
        let stem = string_of(file_stem(chars_of(rom.path.as_str()).as_slice()).as_slice());
        let expected = self.normalize_name(entry.name.as_str());
        let actual = self.normalize_name(stem.as_str());
        if actual == expected {
            ValidationResult::Valid { dat_name: entry.name.clone(), region: region, version: version }
        } else {
            ValidationResult::ValidButRenamed {
                dat_name: entry.name.clone(),
                expected_name: entry.name.clone(),
                region: region,
                version: version,
            }
        }
    }

    /// The verdict on one record. `hash` is what computing the checksum of its
    /// file gave; it counts only where the record has no checksum of its own.
    pub fn validate_rom(&self, rom: &RomFile, hash: Result<u32, String>) -> (r: Result<
        ValidationResult,
        DatError,
    >)
        requires
            self.wf(),
        ensures
            r matches Ok(v) && v@ == verdict(
                self.indexes(),
                self.patterns(),
                rom@,
                hash_view(hash),
            ),
    {
        let crc = match rom.crc32 {
            Some(c) => c,
            None => match hash {
                Ok(c) => c,
                Err(e) => {
                    return Ok(ValidationResult::Corrupted { error: e });
                },
            },
        };
        let ghost ix = self.indexes();
        let n = self.dat_collections.len();
        let mut i: usize = 0;
        assert(ix.skip(0) == ix);
        proof {
            self.dat_collections.lemma_view();
        }
        while i < n
            invariant
                i <= n,
                self.wf(),
                crc_or(rom@, hash_view(hash)) == Ok::<u32, Seq<char>>(crc),
                n == self.dat_collections.key_seq().len(),
                n == ix.len(),
                ix == self.indexes(),
                first_match(ix, crc) == first_match(ix.skip(i as int), crc),
            decreases n - i,
        {
            proof {
                self.dat_collections.lemma_view();
            }
            let collection = self.dat_collections.value_at(i);
            assert(ix.skip(i as int)[0] == collection.index());
            assert(collection.wf());
            match collection.find_by_crc32(crc) {
                Some(entry) => {
                    let system = self.dat_collections.key_at(i);
                    return Ok(self.analyze_dat_match(rom, entry, system.as_str()));
                },
                None => {},
            }
            assert(ix.skip(i as int).skip(1) == ix.skip(i + 1));
            i += 1;
        }
        let name = string_of(file_name(chars_of(rom.path.as_str()).as_slice()).as_slice());
        if self.is_homebrew_pattern(name.as_str()) {
            Ok(ValidationResult::Homebrew { detected_name: name })
        } else {
            Ok(ValidationResult::Unknown)
        }
    }

    /// The number of catalogs.
    pub closed spec fn collection_count(&self) -> nat {
        self.dat_collections.val_seq().len()
    }

    /// The rows of the first `n` catalogs, catalog after catalog.
    pub closed spec fn catalog_rows_upto(&self, n: int) -> Seq<DatRow>
        decreases n,
    {
        if n <= 0 {
            Seq::empty()
        } else {
            self.catalog_rows_upto(n - 1) + self.dat_collections.val_seq()[n - 1].all_rows()
        }
    }

    /// Copies of the rows of all catalogs, catalog after catalog.
    pub fn all_catalog_entries(&self) -> (r: Vec<DatEntry>)
        requires
            self.wf(),
        ensures
            rows(r@) == self.catalog_rows_upto(self.collection_count() as int),
    {
        let mut out: Vec<DatEntry> = Vec::new();
        let n = self.dat_collections.len();
        let mut i: usize = 0;
        proof {
            self.dat_collections.lemma_view();
        }
        assert(rows(out@) =~= Seq::<DatRow>::empty());
        while i < n
            invariant
                i <= n,
                self.wf(),
                n == self.dat_collections.key_seq().len(),
                n == self.dat_collections.val_seq().len(),
                rows(out@) == self.catalog_rows_upto(i as int),
            decreases n - i,
        {
            let collection = self.dat_collections.value_at(i);
            assert(collection.wf());
            let more = collection.all_entries();
            crate::dat_block::extend_entries(&mut out, more);
            i += 1;
        }
        out
    }

    /// The systems that have a catalog, in the order of their arrival.
    pub fn available_systems(&self) -> (r: Vec<String>)
        requires
            self.wf(),
        ensures
            string_texts(r@) == self.systems(),
    {
        let mut r: Vec<String> = Vec::new();
        let n = self.dat_collections.len();
        let mut i: usize = 0;
        while i < n
            invariant
                i <= n,
                self.wf(),
                n == self.dat_collections.key_seq().len(),
                string_texts(r@) == self.dat_collections.key_seq().take(i as int),
            decreases n - i,
        {
            let ghost before = string_texts(r@);
            let k = self.dat_collections.key_at(i).clone();
            r.push(k);
            assert(string_texts(r@) =~= before.push(k@));
            assert(self.dat_collections.key_seq().take(i + 1) =~= before.push(k@));
            i += 1;
        }
        assert(self.dat_collections.key_seq().take(n as int) == self.dat_collections.key_seq());
        r
    }
}

impl Default for RomValidator {
    fn default() -> (v: Self)
        ensures
            v.wf(),
            v.indexes().len() == 0,
            v.systems().len() == 0,
            v.collections().len() == 0,
            v.patterns() == crate::core_mapper::literal_texts(homebrew_marks()),
    {
        RomValidator::new()
    }
}

} // verus!
