//! The reference-catalog knowledge base: catalog rows and the index from checksum
//! to canonical name.

use std::collections::HashMap;
use vstd::prelude::*;
use crate::dat_block::{
    block_format_entries, block_rows, dat_rows, game_block, plain_entry, plain_row, rom_block,
    rom_block_row, rom_line, rom_line_row,
};
use crate::dat_lines::{quoted, quoted_value};
use crate::mame_xml::MameXmlDatabase;
use crate::text::pair_texts;
use crate::numbers::{hex8, hex_u32, parse_hex_u32, push_hex8};
use crate::paths::{extension, extension_of, file_stem, file_stem_of};
use crate::split::{append, cut_at, lines, lines_of, split_once, texts};
use crate::str_map::StrMap;
use crate::text::{
    chars_of, contains, contains_sub, has_prefix, is_text, lead_run, run_from, slice_of, starts_with,
    string_of, trim, trimmed, CharClass,
};

verus! {

/// The text of an optional string.
pub open spec fn opt_text(o: Option<String>) -> Option<Seq<char>> {
    match o {
        Some(s) => Some(s@),
        None => None,
    }
}

/// One catalog row as a mathematical value.
pub struct DatRow {
    pub crc32: u32,
    pub name: Seq<char>,
    pub size: Option<u64>,
    pub md5: Option<Seq<char>>,
    pub sha1: Option<Seq<char>>,
}

/// One canonical catalog row.
#[derive(Debug)]
pub struct DatEntry {
    pub crc32: u32,
    pub name: String,
    pub size: Option<u64>,
    pub md5: Option<String>,
    pub sha1: Option<String>,
}

impl View for DatEntry {
    type V = DatRow;

    open spec fn view(&self) -> DatRow {
        DatRow {
            crc32: self.crc32,
            name: self.name@,
            size: self.size,
            md5: opt_text(self.md5),
            sha1: opt_text(self.sha1),
        }
    }
}

/// A copy of an optional string.
pub fn clone_opt_string(o: &Option<String>) -> (r: Option<String>)
    ensures
        opt_text(r) == opt_text(*o),
{
    match o {
        Some(s) => Some(s.clone()),
        None => None,
    }
}

impl Clone for DatEntry {
    fn clone(&self) -> (r: Self)
        ensures
            r@ == self@,
    {
        DatEntry {
            crc32: self.crc32,
            name: self.name.clone(),
            size: self.size,
            md5: clone_opt_string(&self.md5),
            sha1: clone_opt_string(&self.sha1),
        }
    }
}

/// The rows that a list of entries holds.
pub open spec fn rows(v: Seq<DatEntry>) -> Seq<DatRow> {
    v.map_values(|e: DatEntry| e@)
}


/// What can go wrong with a catalog.
#[derive(Debug)]
pub enum DatError {
    /// The catalog file could not be read.
    LoadFailed { path: String, message: String },
    /// The catalog file is not in a known format.
    InvalidFormat { path: String, message: String },
    /// The catalog could not be fetched.
    DownloadFailed { url: String, message: String },
}

/// Whether `c` parts the checksum of a line-format row from its name.
pub open spec fn is_field_sep(c: char) -> bool {
    c == '=' || c == ':' || c == '|'
}

/// How many characters stand before the first separator of `s`; all of them
/// where it has none.
pub open spec fn sep_free_len(s: Seq<char>) -> nat
    decreases s.len(),
{
    if s.len() == 0 || is_field_sep(s[0]) {
        0
    } else {
        1 + sep_free_len(s.skip(1))
    }
}

/// The two fields of a line-format row: the text is cut at the first `=`, `:` or
/// `|` that occurs in it; what follows, other separators included, is the name.
pub open spec fn simple_fields(line: Seq<char>) -> Option<(Seq<char>, Seq<char>)> {
    let n = sep_free_len(line) as int;
    if n >= line.len() {
        None
    } else {
        Some((line.take(n), line.skip(n + 1)))
    }
}

/// The two fields of a line-format row.
pub fn split_fields(line: &[char]) -> (r: Option<(Vec<char>, Vec<char>)>)
    ensures
        r is Some <==> simple_fields(line@) is Some,
        r matches Some(p) ==> simple_fields(line@) == Some((p.0@, p.1@)),
{
    let mut i: usize = 0;
    assert(line@.skip(0) == line@);
    while i < line.len() && !(line[i] == '=' || line[i] == ':' || line[i] == '|')
        invariant
            i <= line.len(),
            sep_free_len(line@) == i + sep_free_len(line@.skip(i as int)),
        decreases line.len() - i,
    {
        assert(line@.skip(i as int)[0] == line@[i as int]);
        assert(line@.skip(i as int).skip(1) == line@.skip(i + 1));
        i += 1;
    }
    if i < line.len() {
        assert(line@.skip(i as int)[0] == line@[i as int]);
    }
    if i >= line.len() {
        None
    } else {
        let a = slice_of(line, 0, i);
        let b = slice_of(line, i + 1, line.len());
        assert(a@ == line@.take(i as int));
        assert(b@ == line@.skip(i + 1));
        Some((a, b))
    }
}

/// The row that one line of a line-format catalog gives. Blank lines and lines that
/// start with `#` or `;` give none, nor does a line without a separator or with a
/// checksum field that is no hexadecimal number.
pub open spec fn simple_line_row(raw: Seq<char>) -> Option<DatRow> {
    let line = trimmed(raw);
    if crate::dat_block::is_skipped(line) {
        None
    } else {
        match simple_fields(line) {
            None => None,
            Some((crc, name)) => match hex_u32(trimmed(crc)) {
                Some(c) => Some(plain_row(c, trimmed(name), None)),
                None => None,
            },
        }
    }
}

/// The rows of the lines of a line-format catalog, in order.
pub open spec fn simple_rows(lines: Seq<Seq<char>>) -> Seq<DatRow>
    decreases lines.len(),
{
    if lines.len() == 0 {
        Seq::empty()
    } else {
        simple_rows(lines.drop_last()) + match simple_line_row(lines.last()) {
            Some(r) => seq![r],
            None => Seq::empty(),
        }
    }
}

/// The index after `rs` were recorded in order: a later row replaces an earlier one
/// with the same checksum.
pub open spec fn index_after(m: Map<u32, DatRow>, rs: Seq<DatRow>) -> Map<u32, DatRow>
    decreases rs.len(),
{
    if rs.len() == 0 {
        m
    } else {
        index_after(m, rs.drop_last()).insert(rs.last().crc32, rs.last())
    }
}

/// The catalog format of a file's text.
#[derive(Clone, Copy, Debug, PartialEq, Eq, Structural)]
pub enum DatFormat {
    /// Blocks of `game ( ... )`.
    Block,
    /// Structured markup, which is not read.
    Xml,
    /// One `CRC=Name` row per line.
    Line,
}

/// The format of `content`: block format where it holds `clrmamepro` or `game (`,
/// else markup where it starts with `<?xml` after white space, else line format.
pub open spec fn format_of(content: Seq<char>) -> DatFormat {
    if contains_sub(content, "clrmamepro"@) || contains_sub(content, "game ("@) {
        DatFormat::Block
    } else if has_prefix(
        content.skip(lead_run(content, CharClass::Space) as int),
        "<?xml"@,
    ) {
        DatFormat::Xml
    } else {
        DatFormat::Line
    }
}

/// The rows that a catalog text gives.
pub open spec fn catalog_rows(content: Seq<char>) -> Seq<DatRow> {
    match format_of(content) {
        DatFormat::Block => dat_rows(lines_of(content), 0),
        DatFormat::Xml => Seq::empty(),
        DatFormat::Line => simple_rows(lines_of(content)),
    }
}

/// The row of one line of a line-format catalog.
pub fn parse_simple_line(raw: &[char]) -> (r: Option<DatEntry>)
    ensures
        r is Some <==> simple_line_row(raw@) is Some,
        r matches Some(e) ==> simple_line_row(raw@) == Some(e@),
{
    let line = trim(raw);
    if crate::dat_block::skip_line(line.as_slice()) {
        return None;
    }
    match split_fields(line.as_slice()) {
        None => None,
        Some(p) => {
            let crc_text = trim(p.0.as_slice());
            match parse_hex_u32(crc_text.as_slice()) {
                Some(c) => {
                    let name = trim(p.1.as_slice());
                    Some(plain_entry(c, name.as_slice(), None))
                },
                None => None,
            }
        },
    }
}

/// The entries of a line-format catalog, given as its lines.
pub fn line_format_entries(lines: &Vec<Vec<char>>) -> (r: Vec<DatEntry>)
    ensures
        rows(r@) == simple_rows(texts(lines@)),
{
    let mut out: Vec<DatEntry> = Vec::new();
    let mut i: usize = 0;
    let ghost ls = texts(lines@);
    assert(rows(out@) =~= Seq::<DatRow>::empty());
    while i < lines.len()
        invariant
            i <= lines.len(),
            ls == texts(lines@),
            rows(out@) == simple_rows(ls.take(i as int)),
        decreases lines.len() - i,
    {
        let ghost before = rows(out@);
        assert(ls.take(i + 1).drop_last() == ls.take(i as int));
        assert(ls.take(i + 1).last() == lines@[i as int]@);
        match parse_simple_line(lines[i].as_slice()) {
            Some(e) => {
                out.push(e);
                assert(rows(out@) =~= before + seq![e@]);
            },
            None => {
                assert(before + Seq::<DatRow>::empty() =~= before);
            },
        }
        i += 1;
    }
    assert(ls.take(ls.len() as int) == ls);
    out
}

/// The format of a catalog text.
pub fn detect_format(content: &[char]) -> (r: DatFormat)
    ensures
        r == format_of(content@),
{
    if contains(content, "clrmamepro") || contains(content, "game (") {
        return DatFormat::Block;
    }
    let start = run_from(content, 0, CharClass::Space);
    assert(content@.skip(0) == content@);
    let rest = slice_of(content, start, content.len());
    assert(rest@ == content@.skip(start as int));
    if starts_with(rest.as_slice(), "<?xml") {
        DatFormat::Xml
    } else {
        DatFormat::Line
    }
}


/// The rows of the first `n` lists, list after list.
pub open spec fn rows_upto(lists: Seq<Vec<DatEntry>>, n: int) -> Seq<DatRow>
    decreases n,
{
    if n <= 0 {
        Seq::empty()
    } else {
        rows_upto(lists, n - 1) + rows(lists[n - 1]@)
    }
}

/// The rows of the systems in `order`, system after system.
pub open spec fn rows_in_order(systems: Map<Seq<char>, Seq<DatRow>>, order: Seq<Seq<char>>) -> Seq<
    DatRow,
>
    decreases order.len(),
{
    if order.len() == 0 {
        Seq::empty()
    } else {
        rows_in_order(systems, order.drop_last()) + systems[order.last()]
    }
}

/// The system order after rows were recorded under `name`: a system that had no
/// rows goes to the end, unless there is nothing to record.
pub open spec fn order_after(
    systems: Map<Seq<char>, Seq<DatRow>>,
    order: Seq<Seq<char>>,
    name: Seq<char>,
    found: Seq<DatRow>,
) -> Seq<Seq<char>> {
    if found.len() > 0 && !systems.contains_key(name) {
        order.push(name)
    } else {
        order
    }
}

/// What a collection holds of catalogs, as a mathematical value.
pub struct CatalogModel {
    pub index: Map<u32, DatRow>,
    pub systems: Map<Seq<char>, Seq<DatRow>>,
    pub order: Seq<Seq<char>>,
}

/// The model after the catalog file at `path` with the text `content` was loaded.
pub open spec fn model_after_file(m: CatalogModel, path: Seq<char>, content: Seq<char>) -> CatalogModel {
    let found = catalog_rows(content);
    let stem = file_stem_of(path);
    CatalogModel {
        index: index_after(m.index, found),
        systems: if found.len() > 0 {
            m.systems.insert(stem, found)
        } else {
            m.systems
        },
        order: order_after(m.systems, m.order, stem, found),
    }
}

/// The model after the first `n` of `files` were gone through, each a path with
/// the text of its file: those with the extension `dat` are loaded.
pub open spec fn model_after_files(files: Seq<(Seq<char>, Seq<char>)>, n: int) -> CatalogModel
    decreases n,
{
    if n <= 0 {
        CatalogModel { index: Map::empty(), systems: Map::empty(), order: Seq::empty() }
    } else {
        let m = model_after_files(files, n - 1);
        if extension_of(files[n - 1].0) == "dat"@ {
            model_after_file(m, files[n - 1].0, files[n - 1].1)
        } else {
            m
        }
    }
}

/// The reference catalogs loaded so far: an index from checksum to row, the rows of
/// each system, and the optional secondary source of descriptions.
pub struct DatCollection {
    crc_to_name: HashMap<u32, String>,
    entries: StrMap<Vec<DatEntry>>,
    crc_to_entry: HashMap<u32, DatEntry>,
    mame_xml_db: Option<MameXmlDatabase>,
}

impl DatCollection {
    /// The index from checksum to catalog row.
    pub closed spec fn index(&self) -> Map<u32, DatRow> {
        self.crc_to_entry@.map_values(|e: DatEntry| e@)
    }

    /// The index from checksum to canonical name.
    pub closed spec fn names(&self) -> Map<u32, Seq<char>> {
        self.crc_to_name@.map_values(|s: String| s@)
    }

    /// The rows of each system.
    pub closed spec fn systems(&self) -> Map<Seq<char>, Seq<DatRow>> {
        self.entries@.map_values(|v: Vec<DatEntry>| rows(v@))
    }

    /// The systems that have rows, in the order in which they first got some.
    pub closed spec fn system_order(&self) -> Seq<Seq<char>> {
        self.entries.key_seq()
    }

    /// The descriptions of the secondary source, if one is loaded.
    pub closed spec fn secondary(&self) -> Option<Map<Seq<char>, Seq<char>>> {
        match self.mame_xml_db {
            Some(db) => Some(db.descriptions()),
            None => None,
        }
    }

    /// The tables are well formed and the two indexes agree: they hold the same
    /// checksums, and the name of each is the name of its row.
    pub closed spec fn wf(&self) -> bool {
        &&& self.entries.wf()
        &&& (self.mame_xml_db matches Some(db) ==> db.wf())
        &&& self.names().dom() == self.index().dom()
        &&& self.index().dom().finite()
        &&& forall|c: u32| #[trigger]
            self.index().contains_key(c) ==> self.names()[c] == self.index()[c].name
    }

    /// An empty collection without a secondary source.
    pub fn new() -> (c: Self)
        ensures
            c.wf(),
            c.index() == Map::<u32, DatRow>::empty(),
            c.systems() == Map::<Seq<char>, Seq<DatRow>>::empty(),
            c.system_order() == Seq::<Seq<char>>::empty(),
            c.secondary() is None,
    {
        let c = DatCollection {
            crc_to_name: HashMap::new(),
            entries: StrMap::new(),
            crc_to_entry: HashMap::new(),
            mame_xml_db: None,
        };
        assert(c.index() =~= Map::<u32, DatRow>::empty());
        assert(c.names() =~= Map::<u32, Seq<char>>::empty());
        assert(c.systems() =~= Map::<Seq<char>, Seq<DatRow>>::empty());
        c
    }

    /// What the collection holds of catalogs.
    pub open spec fn model(&self) -> CatalogModel {
        CatalogModel {
            index: self.index(),
            systems: self.systems(),
            order: self.system_order(),
        }
    }

    /// A collection with the catalogs among `files`, the files of a directory,
    /// each a path with the text of its file; an empty one where the directory is
    /// missing. `embedded` becomes the secondary source, if it is given.
    pub fn load_directory(files: Option<&Vec<(String, String)>>, embedded: Option<MameXmlDatabase>) -> (r:
        Result<Self, DatError>)
        requires
            embedded matches Some(db) ==> db.wf(),
        ensures
            r matches Ok(c) && c.wf() && c.model() == (match files {
                Some(list) => model_after_files(pair_texts(list@), list@.len() as int),
                None => model_after_files(Seq::empty(), 0),
            }) && c.secondary() == (match embedded {
                Some(db) => Some(db.descriptions()),
                None => None,
            }),
    {
        let mut collection = DatCollection::new();
        match files {
            Some(list) => {
                let ghost fs = pair_texts(list@);
                let mut i: usize = 0;
                while i < list.len()
                    invariant
                        i <= list.len(),
                        fs == pair_texts(list@),
                        collection.wf(),
                        collection.model() == model_after_files(fs, i as int),
                        collection.secondary() is None,
                    decreases list.len() - i,
                {
                    assert(fs[i as int] == (list@[i as int].0@, list@[i as int].1@));
                    let path = chars_of(list[i].0.as_str());
                    let ext = extension(path.as_slice());
                    if is_text(ext.as_slice(), "dat") {
                        let _ = collection.load_dat_file(list[i].0.as_str(), list[i].1.as_str());
                    }
                    i += 1;
                }
            },
            None => {},
        }
        let _ = collection.load_mame_xml_database(embedded);
        Ok(collection)
    }

    /// Takes `embedded`, the built-in secondary source as far as it could be read,
    /// as the secondary source. Without it the collection stays as it is.
    pub fn load_mame_xml_database(&mut self, embedded: Option<MameXmlDatabase>) -> (r: Result<
        (),
        DatError,
    >)
        requires
            old(self).wf(),
            embedded matches Some(db) ==> db.wf(),
        ensures
            r is Ok,
            final(self).wf(),
            final(self).index() == old(self).index(),
            final(self).systems() == old(self).systems(),
            final(self).system_order() == old(self).system_order(),
            final(self).secondary() == match embedded {
                Some(db) => Some(db.descriptions()),
                None => old(self).secondary(),
            },
    {
        match embedded {
            Some(db) => {
                self.mame_xml_db = Some(db);
            },
            None => {},
        }
        Ok(())
    }

    /// Takes `from_file`, the secondary source read from a file, or else
    /// `embedded`, the built-in one, as the secondary source.
    pub fn load_mame_xml_database_from_file(
        &mut self,
        from_file: Option<MameXmlDatabase>,
        embedded: Option<MameXmlDatabase>,
    ) -> (r: Result<(), DatError>)
        requires
            old(self).wf(),
            from_file matches Some(db) ==> db.wf(),
            embedded matches Some(db) ==> db.wf(),
        ensures
            r is Ok,
            final(self).wf(),
            final(self).index() == old(self).index(),
            final(self).systems() == old(self).systems(),
            final(self).system_order() == old(self).system_order(),
            final(self).secondary() == match from_file {
                Some(db) => Some(db.descriptions()),
                None => match embedded {
                    Some(db) => Some(db.descriptions()),
                    None => old(self).secondary(),
                },
            },
    {
        match from_file {
            Some(db) => {
                self.mame_xml_db = Some(db);
                Ok(())
            },
            None => self.load_mame_xml_database(embedded),
        }
    }

    /// The row with checksum `crc32`.
    pub fn find_by_crc32(&self, crc32: u32) -> (r: Option<&DatEntry>)
        requires
            self.wf(),
        ensures
            r is Some <==> self.index().contains_key(crc32),
            r matches Some(e) ==> e@ == self.index()[crc32],
    {
        self.crc_to_entry.get(&crc32)
    }

    /// The canonical name of the ROM with checksum `crc32`.
    pub fn get_name_by_crc(&self, crc32: u32) -> (r: Option<String>)
        requires
            self.wf(),
        ensures
            r is Some <==> self.index().contains_key(crc32),
            r matches Some(n) ==> n@ == self.index()[crc32].name,
    {
        assert(self.names().contains_key(crc32) == self.index().contains_key(crc32));
        match self.crc_to_name.get(&crc32) {
            Some(name) => Some(name.clone()),
            None => None,
        }
    }

    /// The ROM short name that a file name stands for: what comes before its first
    /// dot.
    pub open spec fn short_name(filename: Seq<char>) -> Seq<char> {
        filename.take(lead_run(filename, CharClass::IsNot('.')) as int)
    }

    /// The description that the secondary source has for `name`.
    pub open spec fn described(&self, name: Seq<char>) -> Option<Seq<char>> {
        match self.secondary() {
            Some(m) => if m.contains_key(name) {
                Some(m[name])
            } else {
                None
            },
            None => None,
        }
    }

    /// The description that the secondary source has for the ROM short name of
    /// `filename`.
    pub fn get_mame_name_by_filename(&self, filename: &str) -> (r: Option<String>)
        requires
            self.wf(),
        ensures
            r is Some <==> self.described(Self::short_name(filename@)) is Some,
            r matches Some(d) ==> self.described(Self::short_name(filename@)) == Some(d@),
    {
        let f = chars_of(filename);
        let n = run_from(f.as_slice(), 0, CharClass::IsNot('.'));
        assert(f@.skip(0) == f@);
        let short = string_of(slice_of(f.as_slice(), 0, n).as_slice());
        self.get_mame_description_by_dat_name(short.as_str())
    }

    /// The description that the secondary source has for the catalog name
    /// `dat_name`.
    pub fn get_mame_description_by_dat_name(&self, dat_name: &str) -> (r: Option<String>)
        requires
            self.wf(),
        ensures
            r is Some <==> self.described(dat_name@) is Some,
            r matches Some(d) ==> self.described(dat_name@) == Some(d@),
    {
        match &self.mame_xml_db {
            Some(db) => match db.get_description(dat_name) {
                Some(d) => Some(d.to_owned()),
                None => None,
            },
            None => None,
        }
    }

    /// The rows loaded for `system`.
    pub fn get_system_entries(&self, system: &str) -> (r: Option<&Vec<DatEntry>>)
        requires
            self.wf(),
        ensures
            r is Some <==> self.systems().contains_key(system@),
            r matches Some(v) ==> rows(v@) == self.systems()[system@],
    {
        self.entries.get(system)
    }

    /// The rows of every system, system after system in the order in which the
    /// systems first got rows.
    pub closed spec fn all_rows(&self) -> Seq<DatRow> {
        rows_upto(self.entries.val_seq(), self.entries.val_seq().len() as int)
    }

    /// The rows of every system are the rows of the systems in their order, and
    /// the systems in the order are those that have rows, each once.
    pub proof fn lemma_all_rows(&self)
        requires
            self.wf(),
        ensures
            self.all_rows() == rows_in_order(self.systems(), self.system_order()),
            self.system_order().no_duplicates(),
            forall|s: Seq<char>| self.systems().contains_key(s) <==> self.system_order().contains(s),
    {
        self.entries.lemma_view();
        let ks = self.entries.key_seq();
        let vs = self.entries.val_seq();
        assert forall|n: int| 0 <= n <= ks.len() implies #[trigger] rows_upto(vs, n)
            == rows_in_order(self.systems(), ks.take(n)) by {
            Self::lemma_rows_prefix(*self, n);
        }
        assert(ks.take(ks.len() as int) == ks);
    }

    /// The rows of the first `n` systems, both ways of counting.
    proof fn lemma_rows_prefix(c: Self, n: int)
        requires
            c.wf(),
            0 <= n <= c.entries.key_seq().len(),
        ensures
            rows_upto(c.entries.val_seq(), n) == rows_in_order(
                c.systems(),
                c.entries.key_seq().take(n),
            ),
        decreases n,
    {
        c.entries.lemma_view();
        let ks = c.entries.key_seq();
        if n > 0 {
            Self::lemma_rows_prefix(c, n - 1);
            assert(ks.take(n).drop_last() == ks.take(n - 1));
            assert(ks.take(n).last() == ks[n - 1]);
            assert(c.entries@.contains_key(ks[n - 1]));
            assert(c.systems()[ks[n - 1]] == rows(c.entries.val_seq()[n - 1]@));
        }
    }

    /// Copies of the rows of every system, system after system.
    pub fn all_entries(&self) -> (r: Vec<DatEntry>)
        requires
            self.wf(),
        ensures
            rows(r@) == self.all_rows(),
    {
        let mut out: Vec<DatEntry> = Vec::new();
        let n = self.entries.len();
        let mut i: usize = 0;
        let ghost vs = self.entries.val_seq();
        assert(rows(out@) =~= Seq::<DatRow>::empty());
        proof {
            self.entries.lemma_view();
        }
        while i < n
            invariant
                i <= n,
                self.wf(),
                vs == self.entries.val_seq(),
                n == vs.len(),
                n == self.entries.key_seq().len(),
                rows(out@) == rows_upto(vs, i as int),
            decreases n - i,
        {
            let list = self.entries.value_at(i);
            let ghost before = rows(out@);
            let mut k: usize = 0;
            assert(rows(list@).take(0) =~= Seq::<DatRow>::empty());
            assert(before + Seq::<DatRow>::empty() =~= before);
            while k < list.len()
                invariant
                    k <= list.len(),
                    rows(out@) == before + rows(list@).take(k as int),
                decreases list.len() - k,
            {
                let ghost now = rows(out@);
                let e = list[k].clone();
                out.push(e);
                assert(rows(out@) =~= now.push(e@));
                assert(rows(list@).take(k + 1) =~= rows(list@).take(k as int).push(e@));
                k += 1;
            }
            assert(rows(list@).take(list@.len() as int) == rows(list@));
            i += 1;
        }
        out
    }

    /// The number of checksums in the index.
    pub fn total_entries(&self) -> (n: usize)
        requires
            self.wf(),
        ensures
            n == self.index().len(),
    {
        assert(self.names().dom() =~= self.crc_to_name@.dom());
        self.crc_to_name.len()
    }

    /// The number of systems with rows.
    pub fn systems_count(&self) -> (n: usize)
        requires
            self.wf(),
        ensures
            n == self.systems().len(),
    {
        assert(self.systems().dom() =~= self.entries@.dom());
        self.entries.len()
    }

    /// Records `found` in the index, row by row, and as the rows of `system_name`
    /// unless there are none.
    pub fn record(&mut self, system_name: String, found: Vec<DatEntry>)
        requires
            old(self).wf(),
        ensures
            final(self).wf(),
            final(self).index() == index_after(old(self).index(), rows(found@)),
            final(self).systems() == if found@.len() > 0 {
                old(self).systems().insert(system_name@, rows(found@))
            } else {
                old(self).systems()
            },
            final(self).system_order() == order_after(
                old(self).systems(),
                old(self).system_order(),
                system_name@,
                rows(found@),
            ),
            final(self).secondary() == old(self).secondary(),
    {
        let ghost start = old(self).index();
        let ghost rs = rows(found@);
        let mut i: usize = 0;
        while i < found.len()
            invariant
                i <= found.len(),
                rs == rows(found@),
                self.wf(),
                self.index() == index_after(start, rs.take(i as int)),
                self.entries == old(self).entries,
                self.mame_xml_db == old(self).mame_xml_db,
            decreases found.len() - i,
        {
            let ghost names0 = self.names();
            let ghost index0 = self.index();
            assert(rs.take(i + 1).drop_last() == rs.take(i as int));
            assert(rs.take(i + 1).last() == found@[i as int]@);
            let e = found[i].clone();
            let name = e.name.clone();
            let crc = e.crc32;
            self.crc_to_name.insert(crc, name);
            self.crc_to_entry.insert(crc, e);
            assert(self.names() =~= names0.insert(crc, name@));
            assert(self.index() =~= index0.insert(crc, e@));
            i += 1;
        }
        assert(rs.take(rs.len() as int) == rs);
        if found.len() > 0 {
            let ghost sys0 = self.systems();
            assert(sys0.contains_key(system_name@) == self.entries@.contains_key(system_name@));
            self.entries.insert(system_name, found);
            assert(self.systems() =~= sys0.insert(system_name@, rs));
        }
    }

    /// The system name that a catalog path stands for: its file name without the
    /// extension.
    pub fn extract_system_name_from_path(&self, path: &str) -> (r: String)
        ensures
            r@ == file_stem_of(path@),
    {
        let p = chars_of(path);
        string_of(file_stem(p.as_slice()).as_slice())
    }

    /// Loads a line-format catalog: one row per line `CRC=Name`, `CRC:Name` or
    /// `CRC|Name`.
    pub fn parse_simple_dat(&mut self, content: &str, path: &str) -> (r: Result<(), DatError>)
        requires
            old(self).wf(),
        ensures
            r is Ok,
            final(self).wf(),
            final(self).index() == index_after(old(self).index(), simple_rows(lines_of(content@))),
            final(self).systems() == if simple_rows(lines_of(content@)).len() > 0 {
                old(self).systems().insert(file_stem_of(path@), simple_rows(lines_of(content@)))
            } else {
                old(self).systems()
            },
            final(self).system_order() == order_after(
                old(self).systems(),
                old(self).system_order(),
                file_stem_of(path@),
                simple_rows(lines_of(content@)),
            ),
            final(self).secondary() == old(self).secondary(),
    {
        let system_name = self.extract_system_name_from_path(path);
        let text = chars_of(content);
        let ls = lines(text.as_slice());
        let found = line_format_entries(&ls);
        self.record(system_name, found);
        Ok(())
    }

    /// Loads a block-format catalog.
    pub fn parse_clrmamepro_dat(&mut self, content: &str, path: &str) -> (r: Result<(), DatError>)
        requires
            old(self).wf(),
        ensures
            r is Ok,
            final(self).wf(),
            final(self).index() == index_after(old(self).index(), dat_rows(lines_of(content@), 0)),
            final(self).systems() == if dat_rows(lines_of(content@), 0).len() > 0 {
                old(self).systems().insert(file_stem_of(path@), dat_rows(lines_of(content@), 0))
            } else {
                old(self).systems()
            },
            final(self).system_order() == order_after(
                old(self).systems(),
                old(self).system_order(),
                file_stem_of(path@),
                dat_rows(lines_of(content@), 0),
            ),
            final(self).secondary() == old(self).secondary(),
    {
        let system_name = self.extract_system_name_from_path(path);
        let text = chars_of(content);
        let ls = lines(text.as_slice());
        let found = block_format_entries(&ls);
        self.record(system_name, found);
        Ok(())
    }

    /// Passes over a catalog in structured markup: that format is not read.
    pub fn parse_xml_dat(&mut self, _content: &str, _path: &str) -> (r: Result<(), DatError>)
        ensures
            r is Ok,
            *final(self) == *old(self),
    {
        Ok(())
    }

    /// Loads the text `content` of the catalog file at `path`, in whichever of the
    /// three formats it is written.
    pub fn load_dat_file(&mut self, path: &str, content: &str) -> (r: Result<(), DatError>)
        requires
            old(self).wf(),
        ensures
            r is Ok,
            final(self).wf(),
            final(self).index() == index_after(old(self).index(), catalog_rows(content@)),
            final(self).systems() == if catalog_rows(content@).len() > 0 {
                old(self).systems().insert(file_stem_of(path@), catalog_rows(content@))
            } else {
                old(self).systems()
            },
            final(self).system_order() == order_after(
                old(self).systems(),
                old(self).system_order(),
                file_stem_of(path@),
                catalog_rows(content@),
            ),
            final(self).secondary() == old(self).secondary(),
    {
        let text = chars_of(content);
        match detect_format(text.as_slice()) {
            DatFormat::Block => self.parse_clrmamepro_dat(content, path),
            DatFormat::Xml => self.parse_xml_dat(content, path),
            DatFormat::Line => self.parse_simple_dat(content, path),
        }
    }

    /// The entries of the ROMs in the text of one game block.
    pub fn parse_clrmamepro_game_block(&self, content: &str, _line: &str) -> (r: Result<
        Vec<DatEntry>,
        DatError,
    >)
        ensures
            r matches Ok(v) && rows(v@) == block_rows(lines_of(content@)),
    {
        let text = chars_of(content);
        let ls = lines(text.as_slice());
        Ok(game_block(&ls))
    }

    /// What stands between the first and the last double quote of `line`.
    pub fn extract_quoted_value(&self, line: &str) -> (r: Option<String>)
        ensures
            r is Some <==> quoted(line@) is Some,
            r matches Some(v) ==> quoted(line@) == Some(v@),
    {
        let l = chars_of(line);
        match quoted_value(l.as_slice()) {
            Some(v) => Some(string_of(v.as_slice())),
            None => None,
        }
    }

    /// The entry of a ROM written on one line, under the label of its game.
    pub fn parse_rom_line(&self, line: &str, game_name: &str, game_description: &str) -> (r:
        Option<DatEntry>)
        ensures
            r is Some <==> rom_line_row(line@, game_name@, game_description@) is Some,
            r matches Some(e) ==> rom_line_row(line@, game_name@, game_description@) == Some(e@),
    {
        let l = chars_of(line);
        let n = chars_of(game_name);
        let d = chars_of(game_description);
        rom_line(l.as_slice(), n.as_slice(), d.as_slice())
    }

    /// The entry of a ROM sub-block that starts at the first of `lines` and spans
    /// several lines, with the number of lines it spans.
    pub fn parse_multiline_rom_block(
        &self,
        lines: &[&str],
        game_name: &str,
        game_description: &str,
    ) -> (r: Option<(DatEntry, usize)>)
        ensures
            r is Some <==> rom_block_row(
                lines@.map_values(|l: &str| l@),
                game_name@,
                game_description@,
            ) is Some,
            r matches Some(p) ==> rom_block_row(
                lines@.map_values(|l: &str| l@),
                game_name@,
                game_description@,
            ) == Some((p.0@, p.1 as nat)),
    {
        let mut ls: Vec<Vec<char>> = Vec::new();
        let mut i: usize = 0;
        while i < lines.len()
            invariant
                i <= lines.len(),
                texts(ls@) == lines@.map_values(|l: &str| l@).take(i as int),
            decreases lines.len() - i,
        {
            let ghost before = texts(ls@);
            let l = chars_of(lines[i]);
            ls.push(l);
            assert(texts(ls@) =~= before.push(lines@[i as int]@));
            assert(lines@.map_values(|l: &str| l@).take(i + 1) =~= before.push(lines@[i as int]@));
            i += 1;
        }
        assert(lines@.map_values(|l: &str| l@).take(lines@.len() as int) =~= lines@.map_values(
            |l: &str| l@,
        ));
        assert(texts(ls@).skip(0) == texts(ls@));
        let n = chars_of(game_name);
        let d = chars_of(game_description);
        rom_block(&ls, 0, n.as_slice(), d.as_slice())
    }

    /// Loads the text `content` of the catalog file at `path`.
    pub fn load_from_file(&mut self, path: &str, content: &str) -> (r: Result<(), DatError>)
        requires
            old(self).wf(),
        ensures
            r is Ok,
            final(self).wf(),
            final(self).index() == index_after(old(self).index(), catalog_rows(content@)),
            final(self).systems() == if catalog_rows(content@).len() > 0 {
                old(self).systems().insert(file_stem_of(path@), catalog_rows(content@))
            } else {
                old(self).systems()
            },
            final(self).system_order() == order_after(
                old(self).systems(),
                old(self).system_order(),
                file_stem_of(path@),
                catalog_rows(content@),
            ),
            final(self).secondary() == old(self).secondary(),
    {
        self.load_dat_file(path, content)
    }
}


/// The text of a line-format catalog with the rows `entries`: two comment lines, a
/// blank line, then one line `CRC=Name` per row, the checksum in eight upper-case
/// hexadecimal digits.
pub open spec fn simple_dat_text(entries: Seq<(u32, Seq<char>)>) -> Seq<char>
    decreases entries.len(),
{
    if entries.len() == 0 {
        "# Simple DAT format\n"@ + "# CRC32=Name\n\n"@
    } else {
        simple_dat_text(entries.drop_last()) + hex8(entries.last().0) + "="@ + entries.last().1
            + "\n"@
    }
}

/// The text of a line-format catalog with the rows `entries`.
pub fn create_simple_dat(entries: &[(u32, &str)]) -> (r: String)
    ensures
        r@ == simple_dat_text(entries@.map_values(|e: (u32, &str)| (e.0, e.1@))),
{
    let ghost es = entries@.map_values(|e: (u32, &str)| (e.0, e.1@));
    let mut out: Vec<char> = Vec::new();
    append(&mut out, chars_of("# Simple DAT format\n").as_slice());
    append(&mut out, chars_of("# CRC32=Name\n\n").as_slice());
    let mut i: usize = 0;
    assert(es.take(0).len() == 0);
    assert(out@ =~= simple_dat_text(es.take(0)));
    while i < entries.len()
        invariant
            i <= entries.len(),
            es == entries@.map_values(|e: (u32, &str)| (e.0, e.1@)),
            out@ == simple_dat_text(es.take(i as int)),
        decreases entries.len() - i,
    {
        assert(es.take(i + 1).drop_last() == es.take(i as int));
        assert(es.take(i + 1).last() == (entries@[i as int].0, entries@[i as int].1@));
        let e = entries[i];
        push_hex8(&mut out, e.0);
        append(&mut out, chars_of("=").as_slice());
        append(&mut out, chars_of(e.1).as_slice());
        append(&mut out, chars_of("\n").as_slice());
        i += 1;
    }
    assert(es.take(es.len() as int) == es);
    string_of(out.as_slice())
}

/// What one line of a line-format catalog does to the index. A line whose checksum
/// field is no hexadecimal number leaves the index as it is. A line with a valid
/// checksum and a name adds exactly the one row that it writes, and a lookup of
/// that checksum then gives that name.
pub proof fn lemma_simple_line_contribution(m: Map<u32, DatRow>, line: Seq<char>)
    ensures
        (simple_fields(trimmed(line)) matches Some(p) && hex_u32(trimmed(p.0)) is None)
            ==> simple_line_row(line) is None,
        simple_line_row(line) is None ==> index_after(m, simple_rows(seq![line])) == m,
        simple_line_row(line) matches Some(r) ==> {
            &&& simple_rows(seq![line]) == seq![r]
            &&& index_after(m, simple_rows(seq![line])) == m.insert(r.crc32, r)
            &&& index_after(m, simple_rows(seq![line])).contains_key(r.crc32)
            &&& index_after(m, simple_rows(seq![line]))[r.crc32].name == r.name
        },
{
    let one = seq![line];
    assert(one.drop_last() =~= Seq::<Seq<char>>::empty());
    assert(one.last() == line);
    assert(simple_rows(one.drop_last()) =~= Seq::<DatRow>::empty());
    match simple_line_row(line) {
        None => {
            assert(simple_rows(one) =~= Seq::<DatRow>::empty());
        },
        Some(r) => {
            assert(simple_rows(one) =~= seq![r]);
            assert(seq![r].drop_last() =~= Seq::<DatRow>::empty());
            assert(index_after(m, seq![r].drop_last()) == m);
        },
    }
}

} // verus!
