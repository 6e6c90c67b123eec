//! The report of validating a whole collection of records.

use vstd::prelude::*;
use crate::dat_parser::{rows, DatEntry, DatError, DatRow};
use crate::playlist::{text_before_or_same, text_le};
use crate::scanner::{roms, RomFile, RomRow};
use crate::str_map::StrMap;
use crate::text::chars_of;
use crate::validator::{crc_or, hash_view, verdict, RomValidator, ValidationResult, Verdict};

verus! {

/// The kinds of verdict.
#[derive(Debug, Clone, Copy, PartialEq, Eq, Structural)]
pub enum VerdictKind {
    Valid,
    Renamed,
    Unknown,
    BadDump,
    Homebrew,
    Corrupted,
}

/// The kind of a verdict.
pub open spec fn kind_of(v: Verdict) -> VerdictKind {
    match v {
        Verdict::Valid { .. } => VerdictKind::Valid,
        Verdict::ValidButRenamed { .. } => VerdictKind::Renamed,
        Verdict::Unknown => VerdictKind::Unknown,
        Verdict::BadDump { .. } => VerdictKind::BadDump,
        Verdict::Homebrew { .. } => VerdictKind::Homebrew,
        Verdict::Corrupted { .. } => VerdictKind::Corrupted,
    }
}

/// How many of the verdicts are of the kind `k`.
pub open spec fn count_kind(vs: Seq<Verdict>, k: VerdictKind) -> nat
    decreases vs.len(),
{
    if vs.len() == 0 {
        0
    } else {
        count_kind(vs.drop_last(), k) + if kind_of(vs.last()) == k {
            1nat
        } else {
            0nat
        }
    }
}

/// No kind occurs more often than there are verdicts.
pub proof fn lemma_count_kind_bound(vs: Seq<Verdict>, k: VerdictKind)
    ensures
        count_kind(vs, k) <= vs.len(),
    decreases vs.len(),
{
    if vs.len() > 0 {
        lemma_count_kind_bound(vs.drop_last(), k);
    }
}

/// What hashing the file of record `i` gave; a failure where `hashes` is too short.
pub open spec fn hash_at(hashes: Seq<Result<u32, String>>, i: int) -> Result<u32, Seq<char>> {
    if 0 <= i < hashes.len() {
        hash_view(hashes[i])
    } else {
        Err("checksum not computed"@)
    }
}

/// The verdicts on the first `n` records, in order.
pub open spec fn verdicts(
    indexes: Seq<Map<u32, DatRow>>,
    patterns: Seq<Seq<char>>,
    list: Seq<RomRow>,
    hashes: Seq<Result<u32, String>>,
    n: int,
) -> Seq<Verdict>
    decreases n,
{
    if n <= 0 {
        Seq::empty()
    } else {
        verdicts(indexes, patterns, list, hashes, n - 1).push(
            verdict(indexes, patterns, list[n - 1], hash_at(hashes, n - 1)),
        )
    }
}

/// The verdicts by path: the verdict on a later record replaces that on an earlier
/// one with the same path.
pub open spec fn verdicts_by_path(list: Seq<RomRow>, vs: Seq<Verdict>, n: int) -> Map<
    Seq<char>,
    Verdict,
>
    decreases n,
{
    if n <= 0 {
        Map::empty()
    } else {
        verdicts_by_path(list, vs, n - 1).insert(list[n - 1].path, vs[n - 1])
    }
}

/// The checksums of the first `n` records that have one.
pub open spec fn present(list: Seq<RomRow>, hashes: Seq<Result<u32, String>>, n: int) -> Seq<u32>
    decreases n,
{
    if n <= 0 {
        Seq::empty()
    } else {
        match crc_or(list[n - 1], hash_at(hashes, n - 1)) {
            Ok(c) => present(list, hashes, n - 1).push(c),
            Err(_) => present(list, hashes, n - 1),
        }
    }
}

/// The rows whose checksum is not among `have`.
pub open spec fn missing_rows(all: Seq<DatRow>, have: Seq<u32>) -> Seq<DatRow>
    decreases all.len(),
{
    if all.len() == 0 {
        Seq::empty()
    } else if have.contains(all.last().crc32) {
        missing_rows(all.drop_last(), have)
    } else {
        missing_rows(all.drop_last(), have).push(all.last())
    }
}

/// `t` with `x` put in after the last row whose name does not come after that of
/// `x`, looking from the end.
pub open spec fn put_row(t: Seq<DatRow>, x: DatRow) -> Seq<DatRow>
    decreases t.len(),
{
    if t.len() == 0 {
        seq![x]
    } else if text_le(t.last().name, x.name) {
        t.push(x)
    } else {
        put_row(t.drop_last(), x).push(t.last())
    }
}

/// The rows sorted by name; rows with one name keep their order.
pub open spec fn sorted_by_name(s: Seq<DatRow>) -> Seq<DatRow>
    decreases s.len(),
{
    if s.len() == 0 {
        Seq::empty()
    } else {
        put_row(sorted_by_name(s.drop_last()), s.last())
    }
}

/// Where `x` goes when it is put into `t`.
pub open spec fn row_pos(t: Seq<DatRow>, x: DatRow) -> int
    decreases t.len(),
{
    if t.len() == 0 {
        0
    } else if text_le(t.last().name, x.name) {
        t.len() as int
    } else {
        row_pos(t.drop_last(), x)
    }
}

/// Putting in is inserting at the position found.
pub proof fn lemma_put_row(t: Seq<DatRow>, x: DatRow)
    ensures
        0 <= row_pos(t, x) <= t.len(),
        put_row(t, x) == t.insert(row_pos(t, x), x),
    decreases t.len(),
{
    if t.len() == 0 {
        assert(seq![x] =~= t.insert(0, x));
    } else if text_le(t.last().name, x.name) {
        assert(t.push(x) =~= t.insert(t.len() as int, x));
    } else {
        lemma_put_row(t.drop_last(), x);
        let p = row_pos(t.drop_last(), x);
        assert(t.drop_last().insert(p, x).push(t.last()) =~= t.insert(p, x));
    }
}

/// The entries sorted by name.
pub fn sort_by_name(list: Vec<DatEntry>) -> (r: Vec<DatEntry>)
    ensures
        rows(r@) == sorted_by_name(rows(list@)),
{
    let mut sorted: Vec<DatEntry> = Vec::new();
    let ghost all = rows(list@);
    let mut i: usize = 0;
    assert(all.take(0) =~= Seq::<DatRow>::empty());
    assert(rows(sorted@) =~= Seq::<DatRow>::empty());
    while i < list.len()
        invariant
            i <= list.len(),
            all == rows(list@),
            rows(sorted@) == sorted_by_name(all.take(i as int)),
        decreases list.len() - i,
    {
        let ghost t = rows(sorted@);
        assert(all.take(i + 1).drop_last() == all.take(i as int));
        assert(all.take(i + 1).last() == list@[i as int]@);
        let x = list[i].clone();
        let name = chars_of(x.name.as_str());
        let mut pos: usize = sorted.len();
        assert(t.take(pos as int) == t);
        while pos > 0 && !text_before_or_same(
            chars_of(sorted[pos - 1].name.as_str()).as_slice(),
            name.as_slice(),
        )
            invariant
                pos <= sorted.len(),
                t == rows(sorted@),
                name@ == x@.name,
                row_pos(t, x@) == row_pos(t.take(pos as int), x@),
            decreases pos,
        {
            assert(t.take(pos as int).last() == sorted@[pos - 1]@);
            assert(t.take(pos as int).drop_last() == t.take(pos - 1));
            pos -= 1;
        }
        proof {
            if pos > 0 {
                assert(t.take(pos as int).last() == sorted@[pos - 1]@);
            }
            lemma_put_row(t, x@);
        }
        sorted.insert(pos, x);
        assert(rows(sorted@) =~= t.insert(pos as int, x@));
        i += 1;
    }
    assert(all.take(all.len() as int) == all);
    sorted
}

/// Whether `c` is among `have`.
pub fn has_crc(have: &Vec<u32>, c: u32) -> (r: bool)
    ensures
        r == have@.contains(c),
{
    let mut i: usize = 0;
    while i < have.len()
        invariant
            i <= have.len(),
            forall|j: int| 0 <= j < i ==> have@[j] != c,
        decreases have.len() - i,
    {
        if have[i] == c {
            return true;
        }
        i += 1;
    }
    false
}

/// A validation report as a mathematical value.
pub struct ReportModel {
    pub total_roms: nat,
    pub valid_roms: nat,
    pub renamed_roms: nat,
    pub unknown_roms: nat,
    pub bad_dumps: nat,
    pub homebrew_roms: nat,
    pub corrupted_roms: nat,
    pub validation_results: Map<Seq<char>, Verdict>,
    pub missing_from_collection: Seq<DatRow>,
}

/// The report of validating a collection of records.
pub struct ValidationReport {
    pub total_roms: usize,
    pub valid_roms: usize,
    pub renamed_roms: usize,
    pub unknown_roms: usize,
    pub bad_dumps: usize,
    pub homebrew_roms: usize,
    pub corrupted_roms: usize,
    pub validation_results: StrMap<ValidationResult>,
    pub missing_from_collection: Vec<DatEntry>,
}

impl View for ValidationReport {
    type V = ReportModel;

    open spec fn view(&self) -> ReportModel {
        ReportModel {
            total_roms: self.total_roms as nat,
            valid_roms: self.valid_roms as nat,
            renamed_roms: self.renamed_roms as nat,
            unknown_roms: self.unknown_roms as nat,
            bad_dumps: self.bad_dumps as nat,
            homebrew_roms: self.homebrew_roms as nat,
            corrupted_roms: self.corrupted_roms as nat,
            validation_results: self.validation_results@.map_values(|v: ValidationResult| v@),
            missing_from_collection: rows(self.missing_from_collection@),
        }
    }
}

/// The paths among the first `n` whose verdict is of the kind `k`, in order.
pub open spec fn paths_of_kind(
    keys: Seq<Seq<char>>,
    vals: Seq<ValidationResult>,
    k: VerdictKind,
    n: int,
) -> Seq<Seq<char>>
    decreases n,
{
    if n <= 0 {
        Seq::empty()
    } else if kind_of(vals[n - 1]@) == k {
        paths_of_kind(keys, vals, k, n - 1).push(keys[n - 1])
    } else {
        paths_of_kind(keys, vals, k, n - 1)
    }
}

/// What a verdict tells beside its kind: the expected name of a renamed record,
/// the reason of a bad dump.
pub open spec fn note_of(v: Verdict) -> Seq<char> {
    match v {
        Verdict::ValidButRenamed { expected_name, .. } => expected_name,
        Verdict::BadDump { reason, .. } => reason,
        _ => Seq::empty(),
    }
}

/// The paths among the first `n` whose verdict is of the kind `k`, each with the
/// note of its verdict.
pub open spec fn notes_of_kind(
    keys: Seq<Seq<char>>,
    vals: Seq<ValidationResult>,
    k: VerdictKind,
    n: int,
) -> Seq<(Seq<char>, Seq<char>)>
    decreases n,
{
    if n <= 0 {
        Seq::empty()
    } else if kind_of(vals[n - 1]@) == k {
        notes_of_kind(keys, vals, k, n - 1).push((keys[n - 1], note_of(vals[n - 1]@)))
    } else {
        notes_of_kind(keys, vals, k, n - 1)
    }
}

/// Pairs of references as texts.
pub open spec fn note_texts(v: Seq<(&String, &str)>) -> Seq<(Seq<char>, Seq<char>)> {
    v.map_values(|p: (&String, &str)| (p.0@, p.1@))
}

/// References to strings as texts.
pub open spec fn ref_texts(v: Seq<&String>) -> Seq<Seq<char>> {
    v.map_values(|s: &String| s@)
}

impl ValidationReport {
    /// The table of verdicts is well formed.
    pub open spec fn wf(&self) -> bool {
        self.validation_results.wf()
    }

    /// The paths of the records in no catalog, in the order of their arrival.
    pub fn unknown_roms(&self) -> (r: Vec<&String>)
        requires
            self.wf(),
        ensures
            ref_texts(r@) == paths_of_kind(
                self.validation_results.key_seq(),
                self.validation_results.val_seq(),
                VerdictKind::Unknown,
                self.validation_results.key_seq().len() as int,
            ),
    {
        let mut r: Vec<&String> = Vec::new();
        let n = self.validation_results.len();
        let ghost ks = self.validation_results.key_seq();
        let ghost vs = self.validation_results.val_seq();
        let mut i: usize = 0;
        assert(ref_texts(r@) =~= Seq::<Seq<char>>::empty());
        while i < n
            invariant
                i <= n,
                self.wf(),
                ks == self.validation_results.key_seq(),
                vs == self.validation_results.val_seq(),
                n == ks.len(),
                ref_texts(r@) == paths_of_kind(ks, vs, VerdictKind::Unknown, i as int),
            decreases n - i,
        {
            let ghost before = ref_texts(r@);
            match self.validation_results.value_at(i) {
                ValidationResult::Unknown => {
                    let k = self.validation_results.key_at(i);
                    r.push(k);
                    assert(ref_texts(r@) =~= before.push(k@));
                },
                _ => {},
            }
            i += 1;
        }
        r
    }

    /// The paths of the records that a catalog has under another name, each with
    /// the name expected.
    pub fn roms_needing_rename(&self) -> (r: Vec<(&String, &str)>)
        requires
            self.wf(),
        ensures
            note_texts(r@) == notes_of_kind(
                self.validation_results.key_seq(),
                self.validation_results.val_seq(),
                VerdictKind::Renamed,
                self.validation_results.key_seq().len() as int,
            ),
    {
        let mut r: Vec<(&String, &str)> = Vec::new();
        let n = self.validation_results.len();
        let ghost ks = self.validation_results.key_seq();
        let ghost vs = self.validation_results.val_seq();
        let mut i: usize = 0;
        assert(note_texts(r@) =~= Seq::<(Seq<char>, Seq<char>)>::empty());
        while i < n
            invariant
                i <= n,
                self.wf(),
                ks == self.validation_results.key_seq(),
                vs == self.validation_results.val_seq(),
                n == ks.len(),
                note_texts(r@) == notes_of_kind(ks, vs, VerdictKind::Renamed, i as int),
            decreases n - i,
        {
            let ghost before = note_texts(r@);
            match self.validation_results.value_at(i) {
                ValidationResult::ValidButRenamed { expected_name, .. } => {
                    let k = self.validation_results.key_at(i);
                    r.push((k, expected_name.as_str()));
                    assert(note_texts(r@) =~= before.push((k@, expected_name@)));
                },
                _ => {},
            }
            i += 1;
        }
        r
    }

    /// The paths of the records that a catalog marks as bad dumps, each with the
    /// reason.
    pub fn bad_dumps(&self) -> (r: Vec<(&String, &str)>)
        requires
            self.wf(),
        ensures
            note_texts(r@) == notes_of_kind(
                self.validation_results.key_seq(),
                self.validation_results.val_seq(),
                VerdictKind::BadDump,
                self.validation_results.key_seq().len() as int,
            ),
    {
        let mut r: Vec<(&String, &str)> = Vec::new();
        let n = self.validation_results.len();
        let ghost ks = self.validation_results.key_seq();
        let ghost vs = self.validation_results.val_seq();
        let mut i: usize = 0;
        assert(note_texts(r@) =~= Seq::<(Seq<char>, Seq<char>)>::empty());
        while i < n
            invariant
                i <= n,
                self.wf(),
                ks == self.validation_results.key_seq(),
                vs == self.validation_results.val_seq(),
                n == ks.len(),
                note_texts(r@) == notes_of_kind(ks, vs, VerdictKind::BadDump, i as int),
            decreases n - i,
        {
            let ghost before = note_texts(r@);
            match self.validation_results.value_at(i) {
                ValidationResult::BadDump { reason, .. } => {
                    let k = self.validation_results.key_at(i);
                    r.push((k, reason.as_str()));
                    assert(note_texts(r@) =~= before.push((k@, reason@)));
                },
                _ => {},
            }
            i += 1;
        }
        r
    }

    /// The share of the records that a catalog has, in hundredths of a percent,
    /// rounded down; all of them where there are no records.
    pub fn validation_basis_points(&self) -> (r: u128)
        ensures
            r == if self.total_roms == 0 {
                10000
            } else {
                ((self.valid_roms as int + self.renamed_roms as int) * 10000) / (
                self.total_roms as int)
            },
    {
        if self.total_roms == 0 {
            10000
        } else {
            ((self.valid_roms as u128 + self.renamed_roms as u128) * 10000) / (
            self.total_roms as u128)
        }
    }
}

impl RomValidator {
    /// The rows of all catalogs, catalog after catalog.
    pub open spec fn catalog_rows(&self) -> Seq<DatRow> {
        self.catalog_rows_upto(self.collection_count() as int)
    }

    /// The report of validating `list`. `hashes` holds, position by position, what
    /// computing the checksum of each record's file gave. The catalog rows whose
    /// checksum no record has are listed as missing, sorted by name.
    pub fn validate_collection(&self, list: &[RomFile], hashes: &[Result<u32, String>]) -> (r:
        Result<ValidationReport, DatError>)
        requires
            self.wf(),
        ensures
            r matches Ok(rep) && rep.wf() && ({
                let vs = verdicts(
                    self.indexes(),
                    self.patterns(),
                    roms(list@),
                    hashes@,
                    list@.len() as int,
                );
                rep@ == (ReportModel {
                    total_roms: list@.len(),
                    valid_roms: count_kind(vs, VerdictKind::Valid),
                    renamed_roms: count_kind(vs, VerdictKind::Renamed),
                    unknown_roms: count_kind(vs, VerdictKind::Unknown),
                    bad_dumps: count_kind(vs, VerdictKind::BadDump),
                    homebrew_roms: count_kind(vs, VerdictKind::Homebrew),
                    corrupted_roms: count_kind(vs, VerdictKind::Corrupted),
                    validation_results: verdicts_by_path(roms(list@), vs, list@.len() as int),
                    missing_from_collection: sorted_by_name(
                        missing_rows(
                            self.catalog_rows(),
                            present(roms(list@), hashes@, list@.len() as int),
                        ),
                    ),
                })
            }),
    {
        let ghost rows_ = roms(list@);
        let ghost ix = self.indexes();
        let ghost ps = self.patterns();
        let mut report = ValidationReport {
            total_roms: list.len(),
            valid_roms: 0,
            renamed_roms: 0,
            unknown_roms: 0,
            bad_dumps: 0,
            homebrew_roms: 0,
            corrupted_roms: 0,
            validation_results: StrMap::new(),
            missing_from_collection: Vec::new(),
        };
        let mut have: Vec<u32> = Vec::new();
        let mut i: usize = 0;
        assert(report@.validation_results =~= Map::<Seq<char>, Verdict>::empty());
        while i < list.len()
            invariant
                i <= list.len(),
                self.wf(),
                rows_ == roms(list@),
                ix == self.indexes(),
                ps == self.patterns(),
                report.wf(),
                report.total_roms == list@.len(),
                report.missing_from_collection@.len() == 0,
                have@ == present(rows_, hashes@, i as int),
                ({
                    let vs = verdicts(ix, ps, rows_, hashes@, i as int);
                    &&& vs.len() == i
                    &&& report.valid_roms == count_kind(vs, VerdictKind::Valid)
                    &&& report.renamed_roms == count_kind(vs, VerdictKind::Renamed)
                    &&& report.unknown_roms == count_kind(vs, VerdictKind::Unknown)
                    &&& report.bad_dumps == count_kind(vs, VerdictKind::BadDump)
                    &&& report.homebrew_roms == count_kind(vs, VerdictKind::Homebrew)
                    &&& report.corrupted_roms == count_kind(vs, VerdictKind::Corrupted)
                    &&& report@.validation_results == verdicts_by_path(rows_, vs, i as int)
                }),
            decreases list.len() - i,
        {
            let ghost vs0 = verdicts(ix, ps, rows_, hashes@, i as int);
            let ghost vs1 = verdicts(ix, ps, rows_, hashes@, i + 1);
            let ghost table0 = report@.validation_results;
            assert(vs1.drop_last() == vs0);
            proof {
                lemma_count_kind_bound(vs0, VerdictKind::Valid);
                lemma_count_kind_bound(vs0, VerdictKind::Renamed);
                lemma_count_kind_bound(vs0, VerdictKind::Unknown);
                lemma_count_kind_bound(vs0, VerdictKind::BadDump);
                lemma_count_kind_bound(vs0, VerdictKind::Homebrew);
                lemma_count_kind_bound(vs0, VerdictKind::Corrupted);
            }
            let hash: Result<u32, String> = if i < hashes.len() {
                match &hashes[i] {
                    Ok(c) => Ok(*c),
                    Err(e) => Err(e.clone()),
                }
            } else {
                Err("checksum not computed".to_owned())
            };
            assert(hash_view(hash) == hash_at(hashes@, i as int));
            match crc_or_exec(&list[i], &hash) {
                Some(c) => {
                    have.push(c);
                },
                None => {},
            }
            let result = match self.validate_rom(&list[i], hash) {
                Ok(v) => v,
                Err(_) => ValidationResult::Unknown,
            };
            assert(result@ == vs1.last());
            match &result {
                ValidationResult::Valid { .. } => {
                    report.valid_roms = report.valid_roms + 1;
                },
                ValidationResult::ValidButRenamed { .. } => {
                    report.renamed_roms = report.renamed_roms + 1;
                },
                ValidationResult::Unknown => {
                    report.unknown_roms = report.unknown_roms + 1;
                },
                ValidationResult::BadDump { .. } => {
                    report.bad_dumps = report.bad_dumps + 1;
                },
                ValidationResult::Homebrew { .. } => {
                    report.homebrew_roms = report.homebrew_roms + 1;
                },
                ValidationResult::Corrupted { .. } => {
                    report.corrupted_roms = report.corrupted_roms + 1;
                },
            }
            report.validation_results.insert(list[i].path.clone(), result);
            assert(report@.validation_results =~= table0.insert(list@[i as int]@.path, result@));
            assert(verdicts_by_path(rows_, vs1, i as int) == verdicts_by_path(rows_, vs0, i as int))
                by {
                lemma_by_path_prefix(rows_, vs0, vs1, i as int);
            }
            i += 1;
        }
        let all = self.all_catalog_entries();
        let mut missing: Vec<DatEntry> = Vec::new();
        let mut k: usize = 0;
        assert(rows(all@).take(0) =~= Seq::<DatRow>::empty());
        assert(rows(missing@) =~= Seq::<DatRow>::empty());
        while k < all.len()
            invariant
                k <= all.len(),
                rows(missing@) == missing_rows(rows(all@).take(k as int), have@),
            decreases all.len() - k,
        {
            let ghost before = rows(missing@);
            assert(rows(all@).take(k + 1).drop_last() == rows(all@).take(k as int));
            assert(rows(all@).take(k + 1).last() == all@[k as int]@);
            if !has_crc(&have, all[k].crc32) {
                let e = all[k].clone();
                missing.push(e);
                assert(rows(missing@) =~= before.push(e@));
            }
            k += 1;
        }
        assert(rows(all@).take(all@.len() as int) == rows(all@));
        report.missing_from_collection = sort_by_name(missing);
        Ok(report)
    }
}

/// The checksum of a record: its own, else the one computed for it.
pub fn crc_or_exec(rom: &RomFile, hash: &Result<u32, String>) -> (r: Option<u32>)
    ensures
        match crc_or(rom@, hash_view(*hash)) {
            Ok(c) => r == Some(c),
            Err(_) => r is None,
        },
{
    match rom.crc32 {
        Some(c) => Some(c),
        None => match hash {
            Ok(c) => Some(*c),
            Err(_) => None,
        },
    }
}

/// The verdicts by path of the first `n` records depend on the first `n` verdicts
/// only.
pub proof fn lemma_by_path_prefix(list: Seq<RomRow>, a: Seq<Verdict>, b: Seq<Verdict>, n: int)
    requires
        n <= a.len(),
        n <= b.len(),
        forall|i: int| 0 <= i < n ==> a[i] == b[i],
    ensures
        verdicts_by_path(list, a, n) == verdicts_by_path(list, b, n),
    decreases n,
{
    if n > 0 {
        lemma_by_path_prefix(list, a, b, n - 1);
    }
}

} // verus!
