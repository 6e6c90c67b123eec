//! Archives as containers of ROMs: which format a file has, what an archive held
//! in memory lists, and the ROM that a member stands for.

use vstd::prelude::*;
pub use crate::classifier::is_rom_extension;
use crate::classifier::{is_rom_ext, rom_ext};
use crate::crc32::{zip_member, zip_read_member, ZipFailure};
use crate::paths::{extension, extension_of, sep_tail};
use crate::seven_zip::{
    listed_rows, member_bytes, sevenz_entries, sevenz_extract, SevenZFailure, SevenZipModel,
    SevenZipRead,
};
use crate::split::push_str;
use crate::text::{chars_of, ends_with, has_suffix, is_text, lower_chars, lowercase, slice_of, string_of};

verus! {

/// The number of members of the ZIP archive `data`, as the crate `zip` reads its
/// central directory, or the stage at which that fails.
pub uninterp spec fn zip_count(data: Seq<u8>) -> Result<usize, ZipFailure>;

/// The name and the uncompressed size of member `i` of the ZIP archive `data`, as
/// the crate `zip` gives them, or the stage at which that fails.
pub uninterp spec fn zip_entry(data: Seq<u8>, i: usize) -> Result<(Seq<char>, u64), ZipFailure>;

/// The name and the size of a member that was read, or the stage that failed.
pub open spec fn entry_view(r: Result<(String, u64), ZipFailure>) -> Result<
    (Seq<char>, u64),
    ZipFailure,
> {
    match r {
        Ok(e) => Ok((e.0@, e.1)),
        Err(e) => Err(e),
    }
}

/// `zip::ZipArchive::new` over the bytes in memory, then `len`: the number of
/// members.
#[verifier::external_body]
fn zip_member_count(data: &[u8]) -> (r: Result<usize, ZipFailure>)
    ensures
        r == zip_count(data@),
{
    match zip::ZipArchive::new(std::io::Cursor::new(data)) {
        Ok(a) => Ok(a.len()),
        Err(_) => Err(ZipFailure::Open),
    }
}

/// `zip::ZipArchive::new` over the bytes in memory, then `by_index_raw`, which
/// reads the member's entry without decrypting or decompressing anything: the
/// name and the uncompressed size of one member.
#[verifier::external_body]
fn zip_member_at(data: &[u8], i: usize) -> (r: Result<(String, u64), ZipFailure>)
    ensures
        entry_view(r) == zip_entry(data@, i),
{
    let mut archive = match zip::ZipArchive::new(std::io::Cursor::new(data)) {
        Ok(a) => a,
        Err(_) => return Err(ZipFailure::Open),
    };
    let found = match archive.by_index_raw(i) {
        Ok(f) => Ok((f.name().to_string(), f.size())),
        Err(_) => Err(ZipFailure::Read),
    };
    found
}

/// One member of an archive as a mathematical value.
pub struct EntryRow {
    pub name: Seq<char>,
    pub size: u64,
    pub is_rom: bool,
    pub extension: Seq<char>,
}

/// One member of an archive.
#[derive(Debug)]
pub struct ArchiveEntry {
    pub name: String,
    pub size: u64,
    pub is_rom: bool,
    pub extension: String,
}

impl View for ArchiveEntry {
    type V = EntryRow;

    open spec fn view(&self) -> EntryRow {
        EntryRow {
            name: self.name@,
            size: self.size,
            is_rom: self.is_rom,
            extension: self.extension@,
        }
    }
}

impl Clone for ArchiveEntry {
    fn clone(&self) -> (r: Self)
        ensures
            r@ == self@,
    {
        ArchiveEntry {
            name: self.name.clone(),
            size: self.size,
            is_rom: self.is_rom,
            extension: self.extension.clone(),
        }
    }
}

/// What can go wrong with an archive.
#[derive(Debug)]
pub enum ArchiveError {
    /// The file at this path has no supported archive format.
    Unsupported(String),
    /// Reading the 7z archive failed at this stage.
    SevenZip(SevenZFailure),
    /// Reading the ZIP archive failed at this stage.
    Zip(ZipFailure),
}

/// What can go wrong with an archive, as a mathematical value.
pub enum ArchiveFailure {
    Unsupported(Seq<char>),
    SevenZip(SevenZFailure),
    Zip(ZipFailure),
}

impl View for ArchiveError {
    type V = ArchiveFailure;

    open spec fn view(&self) -> ArchiveFailure {
        match self {
            ArchiveError::Unsupported(p) => ArchiveFailure::Unsupported(p@),
            ArchiveError::SevenZip(f) => ArchiveFailure::SevenZip(*f),
            ArchiveError::Zip(f) => ArchiveFailure::Zip(*f),
        }
    }
}

/// A reader of archives: it lists the members and extracts one of them.
pub trait ArchiveReader {
    fn list_entries(&mut self) -> Result<Vec<ArchiveEntry>, ArchiveError>;

    fn extract_entry(&mut self, entry_name: &str) -> Result<Vec<u8>, ArchiveError>;
}

/// The entry of a member with the name `name` and the size `size`: its extension
/// is that of its name in lower case.
pub open spec fn entry_row(name: Seq<char>, size: u64) -> EntryRow {
    let ext = lowercase(extension_of(name));
    EntryRow { name: name, size: size, is_rom: is_rom_ext(ext), extension: ext }
}

/// The entries of the first `n` members of the ZIP archive `data`, directories left
/// out, or the first failure.
pub open spec fn zip_rows(data: Seq<u8>, n: usize) -> Result<Seq<EntryRow>, ZipFailure>
    decreases n,
{
    if n == 0 {
        Ok(Seq::empty())
    } else {
        match zip_rows(data, (n - 1) as usize) {
            Err(e) => Err(e),
            Ok(rows) => match zip_entry(data, (n - 1) as usize) {
                Err(e) => Err(e),
                Ok(m) => if has_suffix(m.0, "/"@) {
                    Ok(rows)
                } else {
                    Ok(rows.push(entry_row(m.0, m.1)))
                },
            },
        }
    }
}

/// The entries of the ZIP archive `data`.
pub open spec fn zip_listing(data: Seq<u8>) -> Result<Seq<EntryRow>, ZipFailure> {
    match zip_count(data) {
        Err(e) => Err(e),
        Ok(n) => zip_rows(data, n),
    }
}

/// The entries of a list as mathematical values.
pub open spec fn entry_rows(v: Seq<ArchiveEntry>) -> Seq<EntryRow> {
    v.map_values(|e: ArchiveEntry| e@)
}

/// A listing as a mathematical value.
pub open spec fn listing_view(r: Result<Vec<ArchiveEntry>, ArchiveError>) -> Result<
    Seq<EntryRow>,
    ArchiveFailure,
> {
    match r {
        Ok(v) => Ok(entry_rows(v@)),
        Err(e) => Err(e@),
    }
}

/// Extracted bytes as a mathematical value.
pub open spec fn bytes_view(r: Result<Vec<u8>, ArchiveError>) -> Result<Seq<u8>, ArchiveFailure> {
    match r {
        Ok(v) => Ok(v@),
        Err(e) => Err(e@),
    }
}

/// A result of the crate `zip` as a result of this library.
pub open spec fn lifted<T>(r: Result<T, ZipFailure>) -> Result<T, ArchiveFailure> {
    match r {
        Ok(v) => Ok(v),
        Err(f) => Err(ArchiveFailure::Zip(f)),
    }
}

/// A result of reading a 7z archive as a result of this library.
pub open spec fn lifted_sevenz<T>(r: Result<T, SevenZFailure>) -> Result<T, ArchiveFailure> {
    match r {
        Ok(v) => Ok(v),
        Err(f) => Err(ArchiveFailure::SevenZip(f)),
    }
}

/// What a reader holds: the bytes of a ZIP archive, or what was read of a 7z
/// archive.
pub enum ReaderModel {
    Zip(Seq<u8>),
    SevenZip(SevenZipModel),
}

/// What was read of a 7z archive, or why it could not be opened, as a
/// mathematical value.
pub open spec fn read_view(r: Result<SevenZipRead, SevenZFailure>) -> Result<
    SevenZipModel,
    SevenZFailure,
> {
    match r {
        Ok(v) => Ok(v@),
        Err(e) => Err(e),
    }
}

/// What a reader for the archive at `path` holds, or why there is no reader.
/// The extension of the path tells the format. A ZIP archive is read from its
/// bytes `data`, which must open as one; of a 7z archive `seven` tells what was
/// read of it.
pub open spec fn opened(
    path: Seq<char>,
    data: Seq<u8>,
    seven: Result<SevenZipModel, SevenZFailure>,
) -> Result<ReaderModel, ArchiveFailure> {
    match format_of_path(path) {
        ArchiveFormat::Zip => match zip_count(data) {
            Ok(_) => Ok(ReaderModel::Zip(data)),
            Err(f) => Err(ArchiveFailure::Zip(f)),
        },
        ArchiveFormat::SevenZip => match seven {
            Ok(m) => Ok(ReaderModel::SevenZip(m)),
            Err(f) => Err(ArchiveFailure::SevenZip(f)),
        },
        ArchiveFormat::Unknown => Err(ArchiveFailure::Unsupported(path)),
    }
}

/// The entries of the archive that a reader holds.
pub open spec fn listing_of(m: ReaderModel) -> Result<Seq<EntryRow>, ArchiveFailure> {
    match m {
        ReaderModel::SevenZip(z) => Ok(listed_rows(z.listing)),
        ReaderModel::Zip(data) => lifted(zip_listing(data)),
    }
}

/// The bytes of the member `name` of the archive that a reader holds.
pub open spec fn member_of(m: ReaderModel, name: Seq<char>) -> Result<Seq<u8>, ArchiveFailure> {
    match m {
        ReaderModel::SevenZip(z) => lifted_sevenz(member_bytes(z.contents, name)),
        ReaderModel::Zip(data) => lifted(zip_member(data, name)),
    }
}

/// A reader as a mathematical value: the bytes it holds.
pub open spec fn reader_view(r: Result<ZipReader, ArchiveError>) -> Result<Seq<u8>, ArchiveFailure> {
    match r {
        Ok(z) => Ok(z.bytes()),
        Err(e) => Err(e@),
    }
}

/// A reader as a mathematical value: what it holds.
pub open spec fn any_reader_view(r: Result<AnyReader, ArchiveError>) -> Result<
    ReaderModel,
    ArchiveFailure,
> {
    match r {
        Ok(a) => Ok(a@),
        Err(e) => Err(e@),
    }
}

/// A stopped failure stays.
pub proof fn lemma_zip_rows_stops(data: Seq<u8>, m: usize, n: usize)
    requires
        m <= n,
        zip_rows(data, m) is Err,
    ensures
        zip_rows(data, n) == zip_rows(data, m),
    decreases n - m,
{
    if m < n {
        lemma_zip_rows_stops(data, m, (n - 1) as usize);
    }
}

/// A ZIP archive held in memory.
pub struct ZipReader {
    data: Vec<u8>,
}

impl ZipReader {
    /// The bytes of the archive.
    pub closed spec fn bytes(&self) -> Seq<u8> {
        self.data@
    }

    /// A reader of the archive `data`, if `data` is a ZIP archive.
    pub fn new(data: Vec<u8>) -> (r: Result<Self, ArchiveError>)
        ensures
            reader_view(r) == match zip_count(data@) {
                Ok(_) => Ok::<Seq<u8>, ArchiveFailure>(data@),
                Err(f) => Err::<Seq<u8>, ArchiveFailure>(ArchiveFailure::Zip(f)),
            },
    {
        match zip_member_count(data.as_slice()) {
            Ok(_) => Ok(ZipReader { data: data }),
            Err(e) => Err(ArchiveError::Zip(e)),
        }
    }

    /// The members of the archive that are no directories.
    pub fn entries(&self) -> (r: Result<Vec<ArchiveEntry>, ArchiveError>)
        ensures
            listing_view(r) == lifted(zip_listing(self.bytes())),
    {
        let n = match zip_member_count(self.data.as_slice()) {
            Ok(n) => n,
            Err(e) => {
                return Err(ArchiveError::Zip(e));
            },
        };
        let mut out: Vec<ArchiveEntry> = Vec::new();
        let mut i: usize = 0;
        assert(entry_rows(out@) =~= Seq::<EntryRow>::empty());
        while i < n
            invariant
                i <= n,
                zip_count(self.data@) == Ok::<usize, ZipFailure>(n),
                zip_rows(self.data@, i) == Ok::<Seq<EntryRow>, ZipFailure>(entry_rows(out@)),
            decreases n - i,
        {
            let ghost before = entry_rows(out@);
            match zip_member_at(self.data.as_slice(), i) {
                Err(e) => {
                    proof {
                        assert(zip_rows(self.data@, (i + 1) as usize) == Err::<
                            Seq<EntryRow>,
                            ZipFailure,
                        >(e));
                        lemma_zip_rows_stops(self.data@, (i + 1) as usize, n);
                    }
                    return Err(ArchiveError::Zip(e));
                },
                Ok(m) => {
                    let name = chars_of(m.0.as_str());
                    if !ends_with(name.as_slice(), "/") {
                        let ext = lower_chars(extension(name.as_slice()).as_slice());
                        let is_rom = rom_ext(ext.as_slice());
                        let entry = ArchiveEntry {
                            name: m.0,
                            size: m.1,
                            is_rom: is_rom,
                            extension: string_of(ext.as_slice()),
                        };
                        out.push(entry);
                        assert(entry_rows(out@) =~= before.push(entry@));
                    }
                },
            }
            i += 1;
        }
        Ok(out)
    }

    /// The bytes of the member `entry_name`.
    pub fn extract(&self, entry_name: &str) -> (r: Result<Vec<u8>, ArchiveError>)
        ensures
            bytes_view(r) == lifted(zip_member(self.bytes(), entry_name@)),
    {
        match zip_read_member(self.data.as_slice(), entry_name) {
            Ok(b) => Ok(b),
            Err(e) => Err(ArchiveError::Zip(e)),
        }
    }
}

impl ArchiveReader for ZipReader {
    fn list_entries(&mut self) -> (r: Result<Vec<ArchiveEntry>, ArchiveError>)
        ensures
            final(self).bytes() == old(self).bytes(),
            listing_view(r) == lifted(zip_listing(old(self).bytes())),
    {
        self.entries()
    }

    fn extract_entry(&mut self, entry_name: &str) -> (r: Result<Vec<u8>, ArchiveError>)
        ensures
            final(self).bytes() == old(self).bytes(),
            bytes_view(r) == lifted(zip_member(old(self).bytes(), entry_name@)),
    {
        self.extract(entry_name)
    }
}

/// A 7z archive as it was read.
pub struct SevenZipReader {
    read: SevenZipRead,
}

impl View for SevenZipReader {
    type V = SevenZipModel;

    closed spec fn view(&self) -> SevenZipModel {
        self.read@
    }
}

impl SevenZipReader {
    /// A reader of the archive of which `read` tells what was read, if it could be
    /// opened.
    pub fn new(read: Result<SevenZipRead, SevenZFailure>) -> (r: Result<Self, ArchiveError>)
        ensures
            match read {
                Ok(v) => r matches Ok(z) && z@ == v@,
                Err(f) => r matches Err(e) && e@ == ArchiveFailure::SevenZip(f),
            },
    {
        match read {
            Ok(v) => Ok(SevenZipReader { read: v }),
            Err(f) => Err(ArchiveError::SevenZip(f)),
        }
    }

    /// The members of the archive that are no directories.
    pub fn entries(&self) -> (r: Result<Vec<ArchiveEntry>, ArchiveError>)
        ensures
            listing_view(r) == Ok::<Seq<EntryRow>, ArchiveFailure>(listed_rows(self@.listing)),
    {
        Ok(sevenz_entries(&self.read.listing))
    }

    /// The bytes of the member `entry_name`.
    pub fn extract(&self, entry_name: &str) -> (r: Result<Vec<u8>, ArchiveError>)
        ensures
            bytes_view(r) == lifted_sevenz(member_bytes(self@.contents, entry_name@)),
    {
        match sevenz_extract(&self.read.contents, entry_name) {
            Ok(b) => Ok(b),
            Err(e) => Err(ArchiveError::SevenZip(e)),
        }
    }
}

impl ArchiveReader for SevenZipReader {
    fn list_entries(&mut self) -> (r: Result<Vec<ArchiveEntry>, ArchiveError>)
        ensures
            final(self)@ == old(self)@,
            listing_view(r) == Ok::<Seq<EntryRow>, ArchiveFailure>(listed_rows(old(self)@.listing)),
    {
        self.entries()
    }

    fn extract_entry(&mut self, entry_name: &str) -> (r: Result<Vec<u8>, ArchiveError>)
        ensures
            final(self)@ == old(self)@,
            bytes_view(r) == lifted_sevenz(member_bytes(old(self)@.contents, entry_name@)),
    {
        self.extract(entry_name)
    }
}

/// A reader of an archive of either format.
pub enum AnyReader {
    Zip(ZipReader),
    SevenZip(SevenZipReader),
}

impl View for AnyReader {
    type V = ReaderModel;

    open spec fn view(&self) -> ReaderModel {
        match self {
            AnyReader::Zip(z) => ReaderModel::Zip(z.bytes()),
            AnyReader::SevenZip(z) => ReaderModel::SevenZip(z@),
        }
    }
}

impl AnyReader {
    /// The members of the archive that are no directories.
    pub fn entries(&self) -> (r: Result<Vec<ArchiveEntry>, ArchiveError>)
        ensures
            listing_view(r) == listing_of(self@),
    {
        match self {
            AnyReader::Zip(z) => z.entries(),
            AnyReader::SevenZip(z) => z.entries(),
        }
    }

    /// The bytes of the member `entry_name`.
    pub fn extract(&self, entry_name: &str) -> (r: Result<Vec<u8>, ArchiveError>)
        ensures
            bytes_view(r) == member_of(self@, entry_name@),
    {
        match self {
            AnyReader::Zip(z) => z.extract(entry_name),
            AnyReader::SevenZip(z) => z.extract(entry_name),
        }
    }
}

impl ArchiveReader for AnyReader {
    fn list_entries(&mut self) -> (r: Result<Vec<ArchiveEntry>, ArchiveError>)
        ensures
            final(self)@ == old(self)@,
            listing_view(r) == listing_of(old(self)@),
    {
        self.entries()
    }

    fn extract_entry(&mut self, entry_name: &str) -> (r: Result<Vec<u8>, ArchiveError>)
        ensures
            final(self)@ == old(self)@,
            bytes_view(r) == member_of(old(self)@, entry_name@),
    {
        self.extract(entry_name)
    }
}

/// The format of an archive.
#[derive(Debug, Clone, Copy, PartialEq, Eq, Structural)]
pub enum ArchiveFormat {
    Zip,
    SevenZip,
    Unknown,
}

/// The format that the extension of a path tells: `zip` and `7z` in lower case.
pub open spec fn format_of_path(path: Seq<char>) -> ArchiveFormat {
    if extension_of(path) == "zip"@ {
        ArchiveFormat::Zip
    } else if extension_of(path) == "7z"@ {
        ArchiveFormat::SevenZip
    } else {
        ArchiveFormat::Unknown
    }
}

/// Whether the bytes `data` start with the bytes `magic`.
pub open spec fn starts_with_bytes(data: Seq<u8>, magic: Seq<u8>) -> bool {
    data.len() >= magic.len() && data.subrange(0, magic.len() as int) == magic
}

/// The format that the first bytes of a file tell: a ZIP archive starts with `PK`
/// and one of the byte pairs 3 4, 5 6, 7 8; a 7z archive with `7z` and the bytes
/// BC AF 27 1C. Fewer than four bytes tell nothing.
pub open spec fn format_of_bytes(data: Seq<u8>) -> ArchiveFormat {
    if data.len() < 4 {
        ArchiveFormat::Unknown
    } else if starts_with_bytes(data, seq![0x50u8, 0x4Bu8, 3u8, 4u8]) || starts_with_bytes(
        data,
        seq![0x50u8, 0x4Bu8, 5u8, 6u8],
    ) || starts_with_bytes(data, seq![0x50u8, 0x4Bu8, 7u8, 8u8]) {
        ArchiveFormat::Zip
    } else if starts_with_bytes(data, seq![0x37u8, 0x7Au8, 0xBCu8, 0xAFu8, 0x27u8, 0x1Cu8]) {
        ArchiveFormat::SevenZip
    } else {
        ArchiveFormat::Unknown
    }
}

impl ArchiveFormat {
    /// The format that the extension of `path` tells.
    pub fn detect_from_path(path: &str) -> (r: Self)
        ensures
            r == format_of_path(path@),
    {
        let ext = extension(chars_of(path).as_slice());
        if is_text(ext.as_slice(), "zip") {
            ArchiveFormat::Zip
        } else if is_text(ext.as_slice(), "7z") {
            ArchiveFormat::SevenZip
        } else {
            ArchiveFormat::Unknown
        }
    }

    /// The format that the first bytes of a file tell.
    pub fn detect_from_bytes(data: &[u8]) -> (r: Self)
        ensures
            r == format_of_bytes(data@),
    {
        if data.len() < 4 {
            return ArchiveFormat::Unknown;
        }
        if data[0] == 0x50 && data[1] == 0x4B && ((data[2] == 3 && data[3] == 4) || (data[2] == 5
            && data[3] == 6) || (data[2] == 7 && data[3] == 8)) {
            assert(data@.subrange(0, 4) =~= seq![data@[0], data@[1], data@[2], data@[3]]);
            return ArchiveFormat::Zip;
        }
        assert(!starts_with_bytes(data@, seq![0x50u8, 0x4Bu8, 3u8, 4u8])) by {
            if starts_with_bytes(data@, seq![0x50u8, 0x4Bu8, 3u8, 4u8]) {
                let s = data@.subrange(0, 4);
                assert(s[0] == 0x50 && s[1] == 0x4B && s[2] == 3 && s[3] == 4);
            }
        }
        assert(!starts_with_bytes(data@, seq![0x50u8, 0x4Bu8, 5u8, 6u8])) by {
            if starts_with_bytes(data@, seq![0x50u8, 0x4Bu8, 5u8, 6u8]) {
                let s = data@.subrange(0, 4);
                assert(s[0] == 0x50 && s[1] == 0x4B && s[2] == 5 && s[3] == 6);
            }
        }
        assert(!starts_with_bytes(data@, seq![0x50u8, 0x4Bu8, 7u8, 8u8])) by {
            if starts_with_bytes(data@, seq![0x50u8, 0x4Bu8, 7u8, 8u8]) {
                let s = data@.subrange(0, 4);
                assert(s[0] == 0x50 && s[1] == 0x4B && s[2] == 7 && s[3] == 8);
            }
        }
        if data.len() >= 6 && data[0] == 0x37 && data[1] == 0x7A && data[2] == 0xBC && data[3]
            == 0xAF && data[4] == 0x27 && data[5] == 0x1C {
            assert(data@.subrange(0, 6) =~= seq![
                data@[0],
                data@[1],
                data@[2],
                data@[3],
                data@[4],
                data@[5],
            ]);
            return ArchiveFormat::SevenZip;
        }
        assert(!starts_with_bytes(data@, seq![0x37u8, 0x7Au8, 0xBCu8, 0xAFu8, 0x27u8, 0x1Cu8])) by {
            if starts_with_bytes(data@, seq![0x37u8, 0x7Au8, 0xBCu8, 0xAFu8, 0x27u8, 0x1Cu8]) {
                let s = data@.subrange(0, 6);
                assert(s[0] == 0x37 && s[1] == 0x7A && s[2] == 0xBC && s[3] == 0xAF && s[4] == 0x27
                    && s[5] == 0x1C);
            }
        }
        ArchiveFormat::Unknown
    }
}

/// Makes readers of archives.
pub struct ArchiveReaderFactory;

impl ArchiveReaderFactory {
    /// A reader of the archive at `path`. `data` holds the bytes of the file, from
    /// which a ZIP archive is read; `seven` tells what was read of the file as a
    /// 7z archive, and counts only where the path names one.
    pub fn create_from_file(
        path: &str,
        data: Vec<u8>,
        seven: Result<SevenZipRead, SevenZFailure>,
    ) -> (r: Result<AnyReader, ArchiveError>)
        ensures
            any_reader_view(r) == opened(path@, data@, read_view(seven)),
    {
        match ArchiveFormat::detect_from_path(path) {
            ArchiveFormat::Zip => match ZipReader::new(data) {
                Ok(z) => Ok(AnyReader::Zip(z)),
                Err(e) => Err(e),
            },
            ArchiveFormat::SevenZip => match SevenZipReader::new(seven) {
                Ok(z) => Ok(AnyReader::SevenZip(z)),
                Err(e) => Err(e),
            },
            ArchiveFormat::Unknown => Err(ArchiveError::Unsupported(path.to_owned())),
        }
    }
}

/// A ROM inside an archive as a mathematical value.
pub struct VirtualRow {
    pub archive_path: Seq<char>,
    pub entry_name: Seq<char>,
    pub size: u64,
    pub extension: Seq<char>,
    pub virtual_path: Seq<char>,
}

/// A ROM inside an archive.
#[derive(Debug)]
pub struct VirtualRomFile {
    pub archive_path: String,
    pub entry_name: String,
    pub size: u64,
    pub extension: String,
    pub virtual_path: String,
}

impl View for VirtualRomFile {
    type V = VirtualRow;

    open spec fn view(&self) -> VirtualRow {
        VirtualRow {
            archive_path: self.archive_path@,
            entry_name: self.entry_name@,
            size: self.size,
            extension: self.extension@,
            virtual_path: self.virtual_path@,
        }
    }
}

/// The path that stands for the member `entry` of the archive at `path`: the path
/// of the archive without separators at its end, `#`, and the name of the member.
pub open spec fn virtual_path_of(path: Seq<char>, entry: Seq<char>) -> Seq<char> {
    path.take(path.len() - sep_tail(path)) + "#"@ + entry
}

impl VirtualRomFile {
    /// The ROM that the member `entry` of the archive at `archive_path` stands for.
    pub fn new(archive_path: String, entry: ArchiveEntry) -> (r: Self)
        ensures
            r@ == (VirtualRow {
                archive_path: archive_path@,
                entry_name: entry@.name,
                size: entry@.size,
                extension: entry@.extension,
                virtual_path: virtual_path_of(archive_path@, entry@.name),
            }),
    {
        let p = chars_of(archive_path.as_str());
        let mut end: usize = p.len();
        while end > 0 && (p[end - 1] == '/' || p[end - 1] == '\\')
            invariant
                end <= p.len(),
                forall|i: int| end <= i < p.len() ==> crate::paths::is_sep(p@[i]),
            decreases end,
        {
            end -= 1;
        }
        proof {
            crate::paths::lemma_tails(p@, p.len() - end, true);
        }
        let mut v = slice_of(p.as_slice(), 0, end);
        assert(v@ == p@.take(end as int));
        push_str(&mut v, "#");
        push_str(&mut v, entry.name.as_str());
        VirtualRomFile {
            archive_path: archive_path,
            entry_name: entry.name,
            size: entry.size,
            extension: entry.extension,
            virtual_path: string_of(v.as_slice()),
        }
    }

    /// The bytes of the ROM, from the bytes `archive` of its archive, or from what
    /// `seven` tells of it where it is a 7z archive.
    pub fn extract_data(&self, archive: Vec<u8>, seven: Result<SevenZipRead, SevenZFailure>) -> (r:
        Result<Vec<u8>, ArchiveError>)
        ensures
            bytes_view(r) == match opened(self@.archive_path, archive@, read_view(seven)) {
                Ok(m) => member_of(m, self@.entry_name),
                Err(e) => Err(e),
            },
    {
        match ArchiveReaderFactory::create_from_file(self.archive_path.as_str(), archive, seven) {
            Ok(reader) => reader.extract(self.entry_name.as_str()),
            Err(e) => Err(e),
        }
    }
}

} // verus!
