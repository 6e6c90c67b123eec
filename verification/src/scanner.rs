//! The directory scanner: which files are candidates, and the record that each
//! candidate gets from its path, its size and its checksum.

use vstd::prelude::*;
use dashmap::DashMap;
use crate::classifier::{
    archive_ext, arcade_dir, archive_system, classify, directory_system, dir_label, in_arcade_dir,
    archive_label, is_archive_ext, is_rom_ext, label_text, loose_dir_label, loose_directory_system,
    rom_ext, system_label, MAME,
};
use crate::dat_parser::opt_text;
use crate::error::ScannerError;
use crate::paths::{extension, extension_of, file_name, file_name_of};
use crate::text::{chars_of, lower_chars, lowercase, same_text, string_of};

verus! {

#[verifier::external_type_specification]
#[verifier::external_body]
#[verifier::reject_recursive_types(K)]
#[verifier::reject_recursive_types(V)]
#[verifier::reject_recursive_types(S)]
pub struct ExDashMap<K, V, S>(DashMap<K, V, S>);

/// The checksums that a concurrent map from path to checksum holds.
pub uninterp spec fn memo_of(m: DashMap<String, u32>) -> Map<Seq<char>, u32>;

/// No checksums.
pub open spec fn no_memo() -> Map<Seq<char>, u32> {
    Map::empty()
}

/// `DashMap::new`: an empty map.
#[verifier::external_body]
fn memo_new() -> (m: DashMap<String, u32>)
    ensures
        memo_of(m) == no_memo(),
{
    DashMap::new()
}

/// `DashMap::get`: the value stored for the key, if there is one.
#[verifier::external_body]
fn memo_get(m: &DashMap<String, u32>, path: &str) -> (r: Option<u32>)
    ensures
        r == if memo_of(*m).contains_key(path@) {
            Some(memo_of(*m)[path@])
        } else {
            None
        },
{
    match m.get(path) {
        Some(v) => Some(*v),
        None => None,
    }
}

/// `DashMap::insert`: the key has the new value, the other keys are as before.
#[verifier::external_body]
fn memo_insert(m: &mut DashMap<String, u32>, path: String, crc: u32)
    ensures
        memo_of(*final(m)) == memo_of(*old(m)).insert(path@, crc),
{
    m.insert(path, crc);
}

/// `num_cpus::get`: the number of logical processors, which depends on the machine
/// and is at least one.
#[verifier::external_body]
fn logical_cpus() -> (n: usize)
    ensures
        n >= 1,
{
    num_cpus::get()
}

/// One file under consideration, as a mathematical value.
pub struct RomRow {
    pub path: Seq<char>,
    pub filename: Seq<char>,
    pub extension: Seq<char>,
    pub size: u64,
    pub crc32: Option<u32>,
    pub system: Option<Seq<char>>,
    pub is_archive: bool,
}

/// One file under consideration.
#[derive(Debug)]
pub struct RomFile {
    pub path: String,
    pub filename: String,
    pub extension: String,
    pub size: u64,
    pub crc32: Option<u32>,
    pub system: Option<String>,
    pub is_archive: bool,
}

impl View for RomFile {
    type V = RomRow;

    open spec fn view(&self) -> RomRow {
        RomRow {
            path: self.path@,
            filename: self.filename@,
            extension: self.extension@,
            size: self.size,
            crc32: self.crc32,
            system: opt_text(self.system),
            is_archive: self.is_archive,
        }
    }
}

impl Clone for RomFile {
    fn clone(&self) -> (r: Self)
        ensures
            r@ == self@,
    {
        RomFile {
            path: self.path.clone(),
            filename: self.filename.clone(),
            extension: self.extension.clone(),
            size: self.size,
            crc32: self.crc32,
            system: crate::dat_parser::clone_opt_string(&self.system),
            is_archive: self.is_archive,
        }
    }
}

/// The record of a file at `path` before anything about its content is known.
pub open spec fn fresh_row(path: Seq<char>) -> RomRow {
    RomRow {
        path: path,
        filename: file_name_of(path),
        extension: lowercase(extension_of(path)),
        size: 0,
        crc32: None,
        system: None,
        is_archive: false,
    }
}

/// The system of a record, from its extension, its path and its file name.
pub open spec fn system_of(r: RomRow) -> Option<Seq<char>> {
    system_label(r.extension, lowercase(r.path), lowercase(r.filename))
}

/// A system label as an owned string.
pub fn owned_label(o: Option<&'static str>) -> (r: Option<String>)
    ensures
        opt_text(r) == label_text(o),
{
    match o {
        Some(s) => Some(s.to_owned()),
        None => None,
    }
}

impl RomFile {
    /// The record of the file at `path`: the file name is the last component of
    /// the path, the extension that of the file name in lower case.
    pub fn new(path: String) -> (r: Self)
        ensures
            r@ == fresh_row(path@),
    {
        let p = chars_of(path.as_str());
        let filename = string_of(file_name(p.as_slice()).as_slice());
        let ext = lower_chars(extension(p.as_slice()).as_slice());
        RomFile {
            path: path,
            filename: filename,
            extension: string_of(ext.as_slice()),
            size: 0,
            crc32: None,
            system: None,
            is_archive: false,
        }
    }

    /// The system that the record most likely belongs to.
    pub fn detect_system(&self) -> (r: Option<String>)
        ensures
            opt_text(r) == system_of(self@),
    {
        let ext = chars_of(self.extension.as_str());
        let p = lower_chars(chars_of(self.path.as_str()).as_slice());
        let f = lower_chars(chars_of(self.filename.as_str()).as_slice());
        owned_label(classify(ext.as_slice(), p.as_slice(), f.as_slice()))
    }

    /// Whether a container reads as an arcade ROM set.
    pub fn is_mame(&self) -> (r: bool)
        ensures
            r == (in_arcade_dir(lowercase(self.path@)) || (is_archive_ext(self.extension@)
                && archive_label(
                self.extension@,
                lowercase(self.path@),
                lowercase(self.filename@),
            ) == Some(MAME@))),
    {
        let ext = chars_of(self.extension.as_str());
        let p = lower_chars(chars_of(self.path.as_str()).as_slice());
        let f = lower_chars(chars_of(self.filename.as_str()).as_slice());
        if arcade_dir(p.as_slice()) {
            return true;
        }
        if !archive_ext(ext.as_slice()) {
            return false;
        }
        let label = archive_system(ext.as_slice(), p.as_slice(), f.as_slice());
        proof {
            reveal_strlit("MAME");
            reveal_strlit("Nintendo - Nintendo 64");
            reveal_strlit("Nintendo - Nintendo Entertainment System");
            reveal_strlit("Nintendo - Super Nintendo Entertainment System");
            reveal_strlit("Nintendo - Game Boy Advance");
            reveal_strlit("Sega - Mega Drive - Genesis");
        }
        match label {
            Some(s) => same_text(chars_of(s).as_slice(), chars_of(MAME).as_slice()),
            None => false,
        }
    }

    /// The system that the directories of the record's path name outright.
    pub fn detect_system_from_path_conservative(&self) -> (r: Option<String>)
        ensures
            opt_text(r) == dir_label(lowercase(self.path@)),
    {
        let p = lower_chars(chars_of(self.path.as_str()).as_slice());
        owned_label(directory_system(p.as_slice()))
    }

    /// The system that words in the record's path suggest.
    pub fn detect_system_from_path(&self) -> (r: Option<String>)
        ensures
            opt_text(r) == loose_dir_label(lowercase(self.path@)),
    {
        let p = lower_chars(chars_of(self.path.as_str()).as_slice());
        owned_label(loose_directory_system(p.as_slice()))
    }
}


/// The settings of a scanner as a mathematical value.
pub struct ScanSettings {
    pub threads: usize,
    pub recursive: bool,
    pub calculate_crc: bool,
    pub extensions: Option<Seq<Seq<char>>>,
    pub verbose: bool,
}

/// What the file system said of one file: its path, its size unless its metadata
/// could not be read, and its checksum if it was computed.
#[derive(Debug)]
pub struct FileFacts {
    pub path: String,
    pub size: Option<u64>,
    pub hash: Option<u32>,
}

/// The facts of one file as a mathematical value.
pub struct FactsRow {
    pub path: Seq<char>,
    pub size: Option<u64>,
    pub hash: Option<u32>,
}

impl View for FileFacts {
    type V = FactsRow;

    open spec fn view(&self) -> FactsRow {
        FactsRow { path: self.path@, size: self.size, hash: self.hash }
    }
}

/// What a worker is doing, for display.
#[derive(Debug)]
pub enum ThreadStatus {
    Idle,
    ScanningFile(String),
    ExtractingArchive { file: String, progress: u32 },
    CalculatingCrc(String),
    ProcessingComplete(String),
    Error(String, String),
}

/// A worker's status as a mathematical value.
pub enum StatusRow {
    Idle,
    ScanningFile(Seq<char>),
    ExtractingArchive { file: Seq<char>, progress: u32 },
    CalculatingCrc(Seq<char>),
    ProcessingComplete(Seq<char>),
    Error(Seq<char>, Seq<char>),
}

impl View for ThreadStatus {
    type V = StatusRow;

    open spec fn view(&self) -> StatusRow {
        match self {
            ThreadStatus::Idle => StatusRow::Idle,
            ThreadStatus::ScanningFile(f) => StatusRow::ScanningFile(f@),
            ThreadStatus::ExtractingArchive { file, progress } => StatusRow::ExtractingArchive {
                file: file@,
                progress: *progress,
            },
            ThreadStatus::CalculatingCrc(f) => StatusRow::CalculatingCrc(f@),
            ThreadStatus::ProcessingComplete(f) => StatusRow::ProcessingComplete(f@),
            ThreadStatus::Error(f, e) => StatusRow::Error(f@, e@),
        }
    }
}

/// The records of a list of files.
pub open spec fn roms(v: Seq<RomFile>) -> Seq<RomRow> {
    v.map_values(|r: RomFile| r@)
}

/// The facts of a list of files.
pub open spec fn facts(v: Seq<FileFacts>) -> Seq<FactsRow> {
    v.map_values(|f: FileFacts| f@)
}

/// The statuses of a list.
pub open spec fn statuses(v: Seq<ThreadStatus>) -> Seq<StatusRow> {
    v.map_values(|s: ThreadStatus| s@)
}

/// The texts of a list of strings.
pub open spec fn string_texts(v: Seq<String>) -> Seq<Seq<char>> {
    v.map_values(|s: String| s@)
}

/// Whether a file with the extension `e`, in lower case, is a candidate: where a
/// list of extensions is given, `e` is the lower-case form of one of them; else it
/// is a known ROM or container extension.
pub open spec fn accepts(exts: Option<Seq<Seq<char>>>, e: Seq<char>) -> bool {
    match exts {
        Some(list) => lower_listed(list, e),
        None => is_rom_ext(e) || is_archive_ext(e),
    }
}

/// Whether `e` is the lower-case form of one of `list`.
pub open spec fn lower_listed(list: Seq<Seq<char>>, e: Seq<char>) -> bool {
    exists|i: int| 0 <= i < list.len() && #[trigger] lowercase(list[i]) == e
}

/// The checksum that a record gets: none where checksums are off, else the
/// remembered one, else the one just computed.
pub open spec fn crc_for(calc: bool, memo: Map<Seq<char>, u32>, path: Seq<char>, fresh: Option<u32>) -> Option<
    u32,
> {
    if !calc {
        None
    } else if memo.contains_key(path) {
        Some(memo[path])
    } else {
        fresh
    }
}

/// The remembered checksums after a file was processed: a checksum that was just
/// computed and used is remembered.
pub open spec fn memo_after(calc: bool, memo: Map<Seq<char>, u32>, path: Seq<char>, fresh: Option<u32>) -> Map<
    Seq<char>,
    u32,
> {
    if calc && !memo.contains_key(path) && fresh is Some {
        memo.insert(path, fresh->0)
    } else {
        memo
    }
}

/// The finished record of the file at `path` with the given size and checksum.
pub open spec fn rom_row(path: Seq<char>, size: u64, crc: Option<u32>) -> RomRow {
    let ext = lowercase(extension_of(path));
    RomRow {
        path: path,
        filename: file_name_of(path),
        extension: ext,
        size: size,
        crc32: crc,
        system: system_label(ext, lowercase(path), lowercase(file_name_of(path))),
        is_archive: is_archive_ext(ext),
    }
}

/// The record that one file gets, if it gets one, and the remembered checksums
/// after it. A file whose metadata could not be read gets none.
pub open spec fn file_step(set: ScanSettings, memo: Map<Seq<char>, u32>, f: FactsRow) -> (
    Option<RomRow>,
    Map<Seq<char>, u32>,
) {
    match f.size {
        None => (None, memo),
        Some(size) => (
            Some(rom_row(f.path, size, crc_for(set.calculate_crc, memo, f.path, f.hash))),
            memo_after(set.calculate_crc, memo, f.path, f.hash),
        ),
    }
}

/// The records of the candidates among `files`, in order, and the remembered
/// checksums after all of them.
pub open spec fn scan_rows(set: ScanSettings, memo: Map<Seq<char>, u32>, files: Seq<FactsRow>) -> (
    Seq<RomRow>,
    Map<Seq<char>, u32>,
)
    decreases files.len(),
{
    if files.len() == 0 {
        (Seq::empty(), memo)
    } else {
        let (rs, m) = scan_rows(set, memo, files.drop_last());
        let f = files.last();
        if accepts(set.extensions, lowercase(extension_of(f.path))) {
            let (r, m2) = file_step(set, m, f);
            (
                match r {
                    Some(x) => rs.push(x),
                    None => rs,
                },
                m2,
            )
        } else {
            (rs, m)
        }
    }
}

/// The statuses that a worker shows while it processes one file.
pub open spec fn statuses_for(set: ScanSettings, f: FactsRow) -> Seq<StatusRow> {
    let head = seq![StatusRow::ScanningFile(f.path)];
    if f.size is None {
        head
    } else {
        head + (if is_archive_ext(lowercase(extension_of(f.path))) {
            Seq::new(6, |i: int| StatusRow::ExtractingArchive { file: f.path, progress: (20 * i) as u32 })
        } else {
            Seq::empty()
        }) + (if set.calculate_crc {
            seq![StatusRow::CalculatingCrc(f.path)]
        } else {
            Seq::empty()
        })
    }
}

/// The status that a worker shows when it is done with one file: that it is
/// complete, or that the file's metadata could not be read.
pub open spec fn closing_status(f: FactsRow) -> StatusRow {
    match f.size {
        Some(_) => StatusRow::ProcessingComplete(f.path),
        None => StatusRow::Error(f.path, "metadata unreadable"@),
    }
}

/// The statuses that are shown while the candidates among `files` are processed
/// in order: for each its statuses and then its closing status.
pub open spec fn shown_for(set: ScanSettings, files: Seq<FactsRow>) -> Seq<StatusRow>
    decreases files.len(),
{
    if files.len() == 0 {
        Seq::empty()
    } else {
        let before = shown_for(set, files.drop_last());
        let f = files.last();
        if accepts(set.extensions, lowercase(extension_of(f.path))) {
            before + statuses_for(set, f) + seq![closing_status(f)]
        } else {
            before
        }
    }
}

/// The record that processing a file produced.
pub open spec fn produced(r: Result<Option<RomFile>, ScannerError>) -> Option<RomRow> {
    match r {
        Ok(Some(rom)) => Some(rom@),
        _ => None,
    }
}

/// Whether processing the file at `path` failed for want of its metadata.
pub open spec fn unreadable(r: Result<Option<RomFile>, ScannerError>, path: Seq<char>) -> bool {
    match r {
        Err(ScannerError::MetadataUnreadable(p)) => p@ == path,
        _ => false,
    }
}

/// Whether a scan failed because the directory `dir` does not exist.
pub open spec fn not_found(r: Result<Vec<RomFile>, ScannerError>, dir: Seq<char>) -> bool {
    match r {
        Err(ScannerError::DirectoryNotFound(d)) => d@ == dir,
        _ => false,
    }
}

/// The records that a scan returned.
pub open spec fn scanned(r: Result<Vec<RomFile>, ScannerError>) -> Option<Seq<RomRow>> {
    match r {
        Ok(v) => Some(roms(v@)),
        Err(_) => None,
    }
}

/// The scanner: its settings and the checksums it remembers by path.
pub struct Scanner {
    threads: usize,
    recursive: bool,
    calculate_crc: bool,
    extensions: Option<Vec<String>>,
    verbose: bool,
    crc_cache: DashMap<String, u32>,
}

impl Scanner {
    /// The settings.
    pub closed spec fn settings(&self) -> ScanSettings {
        ScanSettings {
            threads: self.threads,
            recursive: self.recursive,
            calculate_crc: self.calculate_crc,
            extensions: match self.extensions {
                Some(v) => Some(string_texts(v@)),
                None => None,
            },
            verbose: self.verbose,
        }
    }

    /// The remembered checksums by path.
    pub closed spec fn memo(&self) -> Map<Seq<char>, u32> {
        memo_of(self.crc_cache)
    }

    /// A scanner that looks into subdirectories, computes checksums, accepts the
    /// known extensions and remembers nothing yet. The number of workers is that
    /// of the machine's logical processors, at least one.
    pub fn new() -> (s: Self)
        ensures
            s.settings().threads >= 1,
            s.settings().recursive,
            s.settings().calculate_crc,
            s.settings().extensions is None,
            !s.settings().verbose,
            s.memo() == no_memo(),
    {
        Scanner {
            threads: logical_cpus(),
            recursive: true,
            calculate_crc: true,
            extensions: None,
            verbose: false,
            crc_cache: memo_new(),
        }
    }

    /// The same scanner with `threads` workers.
    pub fn with_threads(self, threads: usize) -> (s: Self)
        ensures
            s.settings() == (ScanSettings { threads: threads, ..self.settings() }),
            s.memo() == self.memo(),
    {
        let mut s = self;
        s.threads = threads;
        s
    }

    /// The same scanner, looking into subdirectories or not.
    pub fn with_recursive(self, recursive: bool) -> (s: Self)
        ensures
            s.settings() == (ScanSettings { recursive: recursive, ..self.settings() }),
            s.memo() == self.memo(),
    {
        let mut s = self;
        s.recursive = recursive;
        s
    }

    /// The same scanner, computing checksums or not.
    pub fn with_calculate_crc(self, calculate_crc: bool) -> (s: Self)
        ensures
            s.settings() == (ScanSettings { calculate_crc: calculate_crc, ..self.settings() }),
            s.memo() == self.memo(),
    {
        let mut s = self;
        s.calculate_crc = calculate_crc;
        s
    }

    /// The same scanner, accepting the given extensions, or the known ones.
    pub fn with_extensions(self, extensions: Option<&[String]>) -> (s: Self)
        ensures
            s.settings() == (ScanSettings {
                extensions: match extensions {
                    Some(v) => Some(string_texts(v@)),
                    None => None,
                },
                ..self.settings()
            }),
            s.memo() == self.memo(),
    {
        let mut s = self;
        s.extensions = match extensions {
            Some(v) => {
                let mut copy: Vec<String> = Vec::new();
                let mut i: usize = 0;
                while i < v.len()
                    invariant
                        i <= v.len(),
                        string_texts(copy@) == string_texts(v@).take(i as int),
                    decreases v.len() - i,
                {
                    let ghost before = string_texts(copy@);
                    copy.push(v[i].clone());
                    assert(string_texts(copy@) =~= before.push(v@[i as int]@));
                    assert(string_texts(v@).take(i + 1) =~= before.push(v@[i as int]@));
                    i += 1;
                }
                assert(string_texts(v@).take(v@.len() as int) == string_texts(v@));
                Some(copy)
            },
            None => None,
        };
        s
    }

    /// The same scanner, talkative or not.
    pub fn with_verbose(self, verbose: bool) -> (s: Self)
        ensures
            s.settings() == (ScanSettings { verbose: verbose, ..self.settings() }),
            s.memo() == self.memo(),
    {
        let mut s = self;
        s.verbose = verbose;
        s
    }

    /// Whether a file with the extension `e`, in lower case, is a candidate.
    pub fn accepts_extension(&self, e: &[char]) -> (r: bool)
        ensures
            r == accepts(self.settings().extensions, e@),
    {
        match &self.extensions {
            Some(list) => {
                let mut i: usize = 0;
                while i < list.len()
                    invariant
                        i <= list.len(),
                        self.settings().extensions == Some(string_texts(list@)),
                        forall|j: int|
                            0 <= j < i ==> #[trigger] lowercase(string_texts(list@)[j]) != e@,
                    decreases list.len() - i,
                {
                    let low = lower_chars(chars_of(list[i].as_str()).as_slice());
                    assert(string_texts(list@)[i as int] == list@[i as int]@);
                    if same_text(low.as_slice(), e) {
                        proof {
                            let l = string_texts(list@);
                            assert(0 <= i < l.len() && lowercase(l[i as int]) == e@);
                            assert(lower_listed(l, e@));
                        }
                        return true;
                    }
                    i += 1;
                }
                false
            },
            None => rom_ext(e) || archive_ext(e),
        }
    }

    /// Whether the file at `path` is a candidate.
    pub fn is_rom_file(&self, path: &str) -> (r: bool)
        ensures
            r == accepts(self.settings().extensions, lowercase(extension_of(path@))),
    {
        let p = chars_of(path);
        let e = lower_chars(extension(p.as_slice()).as_slice());
        self.accepts_extension(e.as_slice())
    }

    /// Whether the content of the file at `path` has to be read for its checksum:
    /// checksums are on and none is remembered for the path.
    pub fn needs_hash(&self, path: &str) -> (r: bool)
        ensures
            r == (self.settings().calculate_crc && !self.memo().contains_key(path@)),
    {
        self.calculate_crc && memo_get(&self.crc_cache, path).is_none()
    }

    /// The finished record of one file from what the file system said of it.
    pub fn finish_record(&mut self, path: &str, size: u64, fresh: Option<u32>) -> (rom: RomFile)
        ensures
            final(self).settings() == old(self).settings(),
            rom@ == rom_row(
                path@,
                size,
                crc_for(old(self).settings().calculate_crc, old(self).memo(), path@, fresh),
            ),
            final(self).memo() == memo_after(
                old(self).settings().calculate_crc,
                old(self).memo(),
                path@,
                fresh,
            ),
    {
        let mut rom = RomFile::new(path.to_owned());
        rom.size = size;
        rom.is_archive = archive_ext(chars_of(rom.extension.as_str()).as_slice());
        if self.calculate_crc {
            match memo_get(&self.crc_cache, path) {
                Some(c) => {
                    rom.crc32 = Some(c);
                },
                None => match fresh {
                    Some(c) => {
                        rom.crc32 = Some(c);
                        memo_insert(&mut self.crc_cache, path.to_owned(), c);
                    },
                    None => {},
                },
            }
        }
        rom.system = rom.detect_system();
        rom
    }

    /// Processes one file: its record, or an error where its metadata could not be
    /// read.
    pub fn process_file(&mut self, file: &FileFacts) -> (r: Result<Option<RomFile>, ScannerError>)
        ensures
            final(self).settings() == old(self).settings(),
            final(self).memo() == file_step(old(self).settings(), old(self).memo(), file@).1,
            file@.size is None ==> unreadable(r, file@.path),
            file@.size is Some ==> produced(r) == file_step(
                old(self).settings(),
                old(self).memo(),
                file@,
            ).0 && produced(r) is Some,
    {
        match file.size {
            None => Err(ScannerError::MetadataUnreadable(file.path.clone())),
            Some(size) => Ok(Some(self.finish_record(file.path.as_str(), size, file.hash))),
        }
    }

    /// Processes one file as `process_file` does.
    pub fn process_file_simple(&mut self, file: &FileFacts) -> (r: Result<
        Option<RomFile>,
        ScannerError,
    >)
        ensures
            final(self).settings() == old(self).settings(),
            final(self).memo() == file_step(old(self).settings(), old(self).memo(), file@).1,
            file@.size is None ==> unreadable(r, file@.path),
            file@.size is Some ==> produced(r) == file_step(
                old(self).settings(),
                old(self).memo(),
                file@,
            ).0 && produced(r) is Some,
    {
        self.process_file(file)
    }

    /// Processes one file as `process_file` does, and lists the statuses that the
    /// worker shows meanwhile.
    pub fn process_file_with_monitor(&mut self, file: &FileFacts) -> (r: (
        Result<Option<RomFile>, ScannerError>,
        Vec<ThreadStatus>,
    ))
        ensures
            final(self).settings() == old(self).settings(),
            final(self).memo() == file_step(old(self).settings(), old(self).memo(), file@).1,
            file@.size is None ==> unreadable(r.0, file@.path),
            file@.size is Some ==> produced(r.0) == file_step(
                old(self).settings(),
                old(self).memo(),
                file@,
            ).0 && produced(r.0) is Some,
            statuses(r.1@) == statuses_for(old(self).settings(), file@),
    {
        let mut shown: Vec<ThreadStatus> = Vec::new();
        shown.push(ThreadStatus::ScanningFile(file.path.clone()));
        assert(statuses(shown@) =~= seq![StatusRow::ScanningFile(file@.path)]);
        if file.size.is_some() {
            let p = chars_of(file.path.as_str());
            let e = lower_chars(extension(p.as_slice()).as_slice());
            let ghost head = statuses(shown@);
            let ghost mut mid = Seq::<StatusRow>::empty();
            if archive_ext(e.as_slice()) {
                let mut k: u32 = 0;
                while k < 6
                    invariant
                        k <= 6,
                        statuses(shown@) == head + Seq::new(
                            k as nat,
                            |i: int|
                                StatusRow::ExtractingArchive {
                                    file: file@.path,
                                    progress: (20 * i) as u32,
                                },
                        ),
                    decreases 6 - k,
                {
                    let ghost before = statuses(shown@);
                    shown.push(
                        ThreadStatus::ExtractingArchive { file: file.path.clone(), progress: 20 * k },
                    );
                    assert(statuses(shown@) =~= before.push(
                        StatusRow::ExtractingArchive { file: file@.path, progress: (20 * k) as u32 },
                    ));
                    k += 1;
                }
                proof {
                    mid = Seq::new(
                        6,
                        |i: int|
                            StatusRow::ExtractingArchive {
                                file: file@.path,
                                progress: (20 * i) as u32,
                            },
                    );
                }
            } else {
                assert(head + Seq::<StatusRow>::empty() =~= head);
            }
            assert(statuses(shown@) =~= head + mid);
            if self.calculate_crc {
                let ghost before = statuses(shown@);
                shown.push(ThreadStatus::CalculatingCrc(file.path.clone()));
                assert(statuses(shown@) =~= before + seq![StatusRow::CalculatingCrc(file@.path)]);
            } else {
                assert(statuses(shown@) + Seq::<StatusRow>::empty() =~= statuses(shown@));
            }
        }
        let r = self.process_file(file);
        (r, shown)
    }

    /// Scans the directory `dir`, given as the files found in it with what the file
    /// system said of each, or as nothing where the directory does not exist.
    /// Returns the records of the candidates, in the order of the listing.
    pub fn scan_directory(&mut self, dir: &str, listing: Option<&Vec<FileFacts>>) -> (r: Result<
        Vec<RomFile>,
        ScannerError,
    >)
        ensures
            final(self).settings() == old(self).settings(),
            listing is None ==> final(self).memo() == old(self).memo() && not_found(r, dir@),
            listing is Some ==> final(self).memo() == scan_rows(
                old(self).settings(),
                old(self).memo(),
                facts(listing->0@),
            ).1 && scanned(r) == Some(
                scan_rows(old(self).settings(), old(self).memo(), facts(listing->0@)).0,
            ),
    {
        match listing {
            None => Err(ScannerError::DirectoryNotFound(dir.to_owned())),
            Some(files) => {
                let mut out: Vec<RomFile> = Vec::new();
                let mut i: usize = 0;
                let ghost fs = facts(files@);
                let ghost set = self.settings();
                let ghost memo0 = self.memo();
                assert(roms(out@) =~= Seq::<RomRow>::empty());
                assert(fs.take(0) =~= Seq::<FactsRow>::empty());
                while i < files.len()
                    invariant
                        i <= files.len(),
                        fs == facts(files@),
                        self.settings() == set,
                        scan_rows(set, memo0, fs.take(i as int)) == (roms(out@), self.memo()),
                    decreases files.len() - i,
                {
                    let ghost before = roms(out@);
                    assert(fs.take(i + 1).drop_last() == fs.take(i as int));
                    assert(fs.take(i + 1).last() == files@[i as int]@);
                    if self.is_rom_file(files[i].path.as_str()) {
                        match self.process_file(&files[i]) {
                            Ok(Some(rom)) => {
                                out.push(rom);
                                assert(roms(out@) =~= before.push(rom@));
                            },
                            _ => {},
                        }
                    }
                    i += 1;
                }
                assert(fs.take(fs.len() as int) == fs);
                Ok(out)
            },
        }
    }

    /// Scans as `scan_directory` does, and lists the statuses that are shown
    /// meanwhile, file after file.
    pub fn scan_directory_monitored(&mut self, dir: &str, listing: Option<&Vec<FileFacts>>) -> (r: (
        Result<Vec<RomFile>, ScannerError>,
        Vec<ThreadStatus>,
    ))
        ensures
            final(self).settings() == old(self).settings(),
            listing is None ==> final(self).memo() == old(self).memo() && not_found(r.0, dir@)
                && statuses(r.1@) == Seq::<StatusRow>::empty(),
            listing is Some ==> final(self).memo() == scan_rows(
                old(self).settings(),
                old(self).memo(),
                facts(listing->0@),
            ).1 && scanned(r.0) == Some(
                scan_rows(old(self).settings(), old(self).memo(), facts(listing->0@)).0,
            ) && statuses(r.1@) == shown_for(old(self).settings(), facts(listing->0@)),
    {
        let mut shown: Vec<ThreadStatus> = Vec::new();
        assert(statuses(shown@) =~= Seq::<StatusRow>::empty());
        match listing {
            None => (Err(ScannerError::DirectoryNotFound(dir.to_owned())), shown),
            Some(files) => {
                let mut out: Vec<RomFile> = Vec::new();
                let mut i: usize = 0;
                let ghost fs = facts(files@);
                let ghost set = self.settings();
                let ghost memo0 = self.memo();
                assert(roms(out@) =~= Seq::<RomRow>::empty());
                assert(fs.take(0) =~= Seq::<FactsRow>::empty());
                while i < files.len()
                    invariant
                        i <= files.len(),
                        fs == facts(files@),
                        self.settings() == set,
                        scan_rows(set, memo0, fs.take(i as int)) == (roms(out@), self.memo()),
                        statuses(shown@) == shown_for(set, fs.take(i as int)),
                    decreases files.len() - i,
                {
                    let ghost before = roms(out@);
                    let ghost told = statuses(shown@);
                    assert(fs.take(i + 1).drop_last() == fs.take(i as int));
                    assert(fs.take(i + 1).last() == files@[i as int]@);
                    if self.is_rom_file(files[i].path.as_str()) {
                        let both = self.process_file_with_monitor(&files[i]);
                        let mut more = both.1;
                        let ghost added = statuses(more@);
                        shown.append(&mut more);
                        assert(statuses(shown@) =~= told + added);
                        let readable = files[i].size.is_some();
                        match both.0 {
                            Ok(Some(rom)) => {
                                out.push(rom);
                                assert(roms(out@) =~= before.push(rom@));
                            },
                            _ => {},
                        }
                        let ghost mid = statuses(shown@);
                        if readable {
                            shown.push(ThreadStatus::ProcessingComplete(files[i].path.clone()));
                        } else {
                            shown.push(
                                ThreadStatus::Error(
                                    files[i].path.clone(),
                                    "metadata unreadable".to_owned(),
                                ),
                            );
                        }
                        assert(statuses(shown@) =~= mid.push(closing_status(files@[i as int]@)));
                        assert(statuses(shown@) =~= told + statuses_for(set, files@[i as int]@)
                            + seq![closing_status(files@[i as int]@)]);
                    }
                    i += 1;
                }
                assert(fs.take(fs.len() as int) == fs);
                (Ok(out), shown)
            },
        }
    }

    /// Scans as `scan_directory` does.
    pub fn scan_directory_simple(&mut self, dir: &str, listing: Option<&Vec<FileFacts>>) -> (r:
        Result<Vec<RomFile>, ScannerError>)
        ensures
            final(self).settings() == old(self).settings(),
            listing is None ==> final(self).memo() == old(self).memo() && not_found(r, dir@),
            listing is Some ==> final(self).memo() == scan_rows(
                old(self).settings(),
                old(self).memo(),
                facts(listing->0@),
            ).1 && scanned(r) == Some(
                scan_rows(old(self).settings(), old(self).memo(), facts(listing->0@)).0,
            ),
    {
        self.scan_directory(dir, listing)
    }
}

} // verus!
