//! The deduplication engine: groups records by checksum, keeps one member of each
//! group and reports the rest as removable.

use vstd::prelude::*;
use crate::dat_parser::opt_text;
use crate::dedup_plan::{
    backup_dir_of, best_pos, capped, choice, dir_rank, effective_size, first_keyless, first_undated, group_at, lemma_first_keyless_stays, lemma_first_undated_stays, lemma_undated_in_range, is_first, key_of, keys_of, members, paths_at, plan, rank, ranks, report_of, rows_at, stat_at, stats_at, total_size, DedupSettings, FailureRow, Plan, ReportRow, lemma_plan_stays_stopped, actions_of, removals, backup_target, ActionRow, lemma_plan_props, lemma_pigeonhole, touched, lemma_group,
};
pub use crate::dedup_group::{
    DeduplicationConfig, DeduplicationResult, DuplicateGroup, DuplicationStrategy,
};
pub use crate::dedup_plan::{FileStat, Strategy};
use crate::numbers::{decimal, push_decimal};
use crate::paths::file_name;
use crate::split::{append, push_str};
use crate::text::{chars_of, string_of};
use crate::ranking::{first_min, ints, is_under, pick_first_min, rank_by_quality, rank_by_region};
pub use crate::ranking::{Region, RomQuality};
use crate::scanner::{roms, string_texts, RomFile, RomRow};

verus! {

/// Why deduplication gave no report.
#[derive(Debug)]
pub enum DedupError {
    /// The record at this path has no checksum and none could be computed.
    HashUnavailable(String),
    /// The modification time of the file at this path could not be read.
    MetadataUnreadable(String),
}

impl View for DedupError {
    type V = FailureRow;

    open spec fn view(&self) -> FailureRow {
        match self {
            DedupError::HashUnavailable(p) => FailureRow::HashUnavailable(p@),
            DedupError::MetadataUnreadable(p) => FailureRow::MetadataUnreadable(p@),
        }
    }
}

/// The report of a deduplication.
#[derive(Debug)]
pub struct DeduplicationReport {
    pub duplicate_groups: usize,
    pub duplicates_found: usize,
    pub files_removed: usize,
    pub space_freed: u64,
    pub backup_location: Option<String>,
    pub removed_files: Vec<String>,
    pub kept_files: Vec<String>,
}

impl View for DeduplicationReport {
    type V = ReportRow;

    open spec fn view(&self) -> ReportRow {
        ReportRow {
            duplicate_groups: self.duplicate_groups as nat,
            duplicates_found: self.duplicates_found as nat,
            files_removed: self.files_removed as nat,
            space_freed: self.space_freed,
            backup_location: opt_text(self.backup_location),
            removed_files: string_texts(self.removed_files@),
            kept_files: string_texts(self.kept_files@),
        }
    }
}

impl Default for DeduplicationReport {
    fn default() -> (r: Self)
        ensures
            r@.duplicate_groups == 0,
            r@.duplicates_found == 0,
            r@.files_removed == 0,
            r@.space_freed == 0,
            r@.backup_location is None,
            r@.removed_files.len() == 0,
            r@.kept_files.len() == 0,
    {
        DeduplicationReport {
            duplicate_groups: 0,
            duplicates_found: 0,
            files_removed: 0,
            space_freed: 0,
            backup_location: None,
            removed_files: Vec::new(),
            kept_files: Vec::new(),
        }
    }
}

/// The deduplicator: a strategy, the priority directories, and what to do with the
/// files to remove.
#[derive(Debug)]
pub struct RomDeduplicator {
    strategy: Strategy,
    directory_priorities: Vec<String>,
    dry_run: bool,
    backup: bool,
    backup_directory: Option<String>,
}

/// The positions that a list of indices holds.
pub open spec fn positions(v: Seq<usize>) -> Seq<int> {
    v.map_values(|i: usize| i as int)
}

impl RomDeduplicator {
    /// The settings.
    pub closed spec fn settings(&self) -> DedupSettings {
        DedupSettings {
            strategy: self.strategy,
            dirs: string_texts(self.directory_priorities@),
            dry_run: self.dry_run,
            backup: self.backup,
            backup_directory: opt_text(self.backup_directory),
        }
    }

    /// A deduplicator that decides by file name quality, has no priority
    /// directories, removes for real and makes no backups.
    pub fn new() -> (d: Self)
        ensures
            d.settings() == (DedupSettings {
                strategy: Strategy::FilenameQuality,
                dirs: Seq::empty(),
                dry_run: false,
                backup: false,
                backup_directory: None,
            }),
    {
        let d = RomDeduplicator {
            strategy: Strategy::FilenameQuality,
            directory_priorities: Vec::new(),
            dry_run: false,
            backup: false,
            backup_directory: None,
        };
        assert(string_texts(d.directory_priorities@) =~= Seq::<Seq<char>>::empty());
        d
    }

    /// The same deduplicator with another strategy.
    pub fn with_strategy(self, strategy: Strategy) -> (d: Self)
        ensures
            d.settings() == (DedupSettings { strategy: strategy, ..self.settings() }),
    {
        let mut d = self;
        d.strategy = strategy;
        d
    }

    /// The same deduplicator with other priority directories, the most preferred
    /// first.
    pub fn with_priority_directories(self, directories: Vec<String>) -> (d: Self)
        ensures
            d.settings() == (DedupSettings { dirs: string_texts(directories@), ..self.settings() }),
    {
        let mut d = self;
        d.directory_priorities = directories;
        d
    }

    /// The same deduplicator, dry or not: a dry run touches no file.
    pub fn with_dry_run(self, dry_run: bool) -> (d: Self)
        ensures
            d.settings() == (DedupSettings { dry_run: dry_run, ..self.settings() }),
    {
        let mut d = self;
        d.dry_run = dry_run;
        d
    }

    /// The same deduplicator, making backups or not.
    pub fn with_backup(self, backup: bool) -> (d: Self)
        ensures
            d.settings() == (DedupSettings { backup: backup, ..self.settings() }),
    {
        let mut d = self;
        d.backup = backup;
        d
    }

    /// The same deduplicator with another backup directory.
    pub fn with_backup_directory(self, backup_dir: String) -> (d: Self)
        ensures
            d.settings() == (DedupSettings {
                backup_directory: Some(backup_dir@),
                ..self.settings()
            }),
    {
        let mut d = self;
        d.backup_directory = Some(backup_dir);
        d
    }

    /// The position of the first priority directory that `path` lies under.
    pub fn directory_rank(&self, path: &str) -> (r: usize)
        ensures
            r == dir_rank(path@, self.settings().dirs),
            r <= self.settings().dirs.len(),
    {
        let ghost dirs = string_texts(self.directory_priorities@);
        let mut i: usize = 0;
        assert(dirs.skip(0) == dirs);
        while i < self.directory_priorities.len()
            invariant
                i <= self.directory_priorities.len(),
                dirs == string_texts(self.directory_priorities@),
                dir_rank(path@, dirs) == i + dir_rank(path@, dirs.skip(i as int)),
            decreases self.directory_priorities.len() - i,
        {
            assert(dirs.skip(i as int)[0] == self.directory_priorities@[i as int]@);
            if is_under(path, self.directory_priorities[i].as_str()) {
                return i;
            }
            assert(dirs.skip(i as int).skip(1) == dirs.skip(i + 1));
            i += 1;
        }
        i
    }

    /// The rank of a record under a strategy; the lowest rank wins.
    pub fn rank_of(&self, strategy: Strategy, rom: &RomFile, stat: FileStat) -> (r: i128)
        ensures
            r == rank(strategy, self.settings().dirs, rom@, stat),
    {
        match strategy {
            Strategy::RegionPriority => rank_by_region(rom.path.as_str()),
            Strategy::FileSize => {
                let size: u64 = if rom.size > 0 {
                    rom.size
                } else {
                    match stat.len {
                        Some(n) => n,
                        None => 0,
                    }
                };
                -(size as i128)
            },
            Strategy::ModificationDate => match stat.modified {
                Some(t) => -(t as i128),
                None => 0,
            },
            Strategy::DirectoryPriority => self.directory_rank(rom.path.as_str()) as i128,
            Strategy::FilenameQuality => -rank_by_quality(rom.path.as_str()),
        }
    }

    /// The ranks of the members of a group under a strategy.
    pub fn group_ranks(&self, strategy: Strategy, group: &[RomFile], stats: &[FileStat]) -> (r:
        Vec<i128>)
        ensures
            ints(r@) == ranks(strategy, self.settings().dirs, roms(group@), stats@),
    {
        let mut r: Vec<i128> = Vec::new();
        let mut k: usize = 0;
        let ghost want = ranks(strategy, self.settings().dirs, roms(group@), stats@);
        while k < group.len()
            invariant
                k <= group.len(),
                want == ranks(strategy, self.settings().dirs, roms(group@), stats@),
                ints(r@) == want.take(k as int),
            decreases group.len() - k,
        {
            let ghost before = ints(r@);
            let stat = if k < stats.len() {
                stats[k]
            } else {
                FileStat { hash: None, len: None, modified: None }
            };
            let x = self.rank_of(strategy, &group[k], stat);
            r.push(x);
            assert(ints(r@) =~= before.push(x as int));
            assert(want.take(k + 1) =~= before.push(x as int));
            k += 1;
        }
        assert(want.take(want.len() as int) == want);
        r
    }

    /// The member to keep when region decides: the first with the lowest rank.
    pub fn select_by_region_priority(&self, group: &[RomFile]) -> (r: usize)
        ensures
            r == first_min(ranks(Strategy::RegionPriority, self.settings().dirs, roms(group@), seq![])),
            group@.len() > 0 ==> r < group@.len(),
    {
        let none: Vec<FileStat> = Vec::new();
        let rs = self.group_ranks(Strategy::RegionPriority, group, none.as_slice());
        assert(ints(rs@).len() == group@.len());
        pick_first_min(&rs)
    }

    /// The member to keep when size decides: the first of the largest.
    pub fn select_by_file_size(&self, group: &[RomFile], stats: &[FileStat]) -> (r: usize)
        ensures
            r == first_min(ranks(Strategy::FileSize, self.settings().dirs, roms(group@), stats@)),
            group@.len() > 0 ==> r < group@.len(),
    {
        let rs = self.group_ranks(Strategy::FileSize, group, stats);
        assert(ints(rs@).len() == group@.len());
        pick_first_min(&rs)
    }

    /// The member to keep when the modification time decides: the first of the
    /// latest. The first member whose time is unknown is an error.
    pub fn select_by_modification_date(&self, group: &[RomFile], stats: &[FileStat]) -> (r: Result<
        usize,
        DedupError,
    >)
        ensures
            match first_undated(stats@, group@.len() as int) {
                Some(k) => 0 <= k < group@.len() && (r matches Err(e) && e@
                    == FailureRow::MetadataUnreadable(group@[k]@.path)),
                None => r matches Ok(b) && b == first_min(
                    ranks(Strategy::ModificationDate, self.settings().dirs, roms(group@), stats@),
                ) && (group@.len() > 0 ==> b < group@.len()),
            },
    {
        let mut k: usize = 0;
        while k < group.len()
            invariant
                k <= group.len(),
                first_undated(stats@, k as int) is None,
            decreases group.len() - k,
        {
            let known = k < stats.len() && stats[k].modified.is_some();
            if !known {
                proof {
                    assert(first_undated(stats@, k + 1) == Some(k as int));
                    lemma_first_undated_stays(stats@, k + 1, group@.len() as int);
                }
                return Err(DedupError::MetadataUnreadable(group[k].path.clone()));
            }
            k += 1;
        }
        let rs = self.group_ranks(Strategy::ModificationDate, group, stats);
        assert(ints(rs@).len() == group@.len());
        Ok(pick_first_min(&rs))
    }

    /// The member to keep when quality decides: the first with the best rank.
    pub fn select_by_filename_quality(&self, group: &[RomFile]) -> (r: usize)
        ensures
            r == first_min(ranks(Strategy::FilenameQuality, self.settings().dirs, roms(group@), seq![])),
            group@.len() > 0 ==> r < group@.len(),
    {
        let none: Vec<FileStat> = Vec::new();
        let rs = self.group_ranks(Strategy::FilenameQuality, group, none.as_slice());
        assert(ints(rs@).len() == group@.len());
        pick_first_min(&rs)
    }

    /// The member to keep when directories decide: the first member under the
    /// first priority directory that holds one; where none holds one, quality
    /// decides.
    pub fn select_by_directory_priority(&self, group: &[RomFile]) -> (r: usize)
        ensures
            r == best_pos(Strategy::DirectoryPriority, self.settings().dirs, roms(group@), seq![]),
            group@.len() > 0 ==> r < group@.len(),
    {
        let none: Vec<FileStat> = Vec::new();
        let rs = self.group_ranks(Strategy::DirectoryPriority, group, none.as_slice());
        assert(ints(rs@).len() == group@.len());
        let k = pick_first_min(&rs);
        if group.len() == 0 || rs[k] >= self.directory_priorities.len() as i128 {
            self.select_by_filename_quality(group)
        } else {
            k
        }
    }
}

/// A file operation that carries out part of a report.
#[derive(Debug)]
pub enum FileAction {
    /// Make the directory and its parents.
    CreateDir(String),
    /// Copy the file at `from` to `to`.
    Copy { from: String, to: String },
    /// Delete the file.
    Delete(String),
}

impl View for FileAction {
    type V = ActionRow;

    open spec fn view(&self) -> ActionRow {
        match self {
            FileAction::CreateDir(d) => ActionRow::CreateDir(d@),
            FileAction::Copy { from, to } => ActionRow::Copy { from: from@, to: to@ },
            FileAction::Delete(p) => ActionRow::Delete(p@),
        }
    }
}

/// The operations of a list.
pub open spec fn action_rows(v: Seq<FileAction>) -> Seq<ActionRow> {
    v.map_values(|a: FileAction| a@)
}

/// The outcome of a deduplication as a mathematical value.
pub open spec fn outcome(r: Result<DeduplicationReport, DedupError>) -> Result<ReportRow, FailureRow> {
    match r {
        Ok(rep) => Ok(rep@),
        Err(e) => Err(e@),
    }
}

/// The outcome of a choice as a mathematical value: the position chosen, or the
/// failure.
pub open spec fn chosen(r: Result<usize, DedupError>) -> Result<int, FailureRow> {
    match r {
        Ok(b) => Ok(b as int),
        Err(e) => Err(e@),
    }
}

/// The choice within a group of records, with the failure told by path.
pub open spec fn choice_by_path(
    strategy: Strategy,
    dirs: Seq<Seq<char>>,
    rows: Seq<RomRow>,
    stats: Seq<FileStat>,
) -> Result<int, FailureRow> {
    match choice(strategy, dirs, rows, stats) {
        Ok(b) => Ok(b),
        Err(k) => Err(FailureRow::MetadataUnreadable(rows[k].path)),
    }
}

/// The content keys of the records, or the first record that has none.
pub fn content_keys(list: &[RomFile], stats: &[FileStat]) -> (r: Result<Vec<u32>, DedupError>)
    ensures
        match first_keyless(roms(list@), stats@, list@.len() as int) {
            Some(i) => 0 <= i < list@.len() && (r matches Err(e) && e@
                == FailureRow::HashUnavailable(list@[i]@.path)),
            None => r matches Ok(k) && k@ == keys_of(roms(list@), stats@),
        },
{
    let mut keys: Vec<u32> = Vec::new();
    let mut i: usize = 0;
    let ghost rs = roms(list@);
    while i < list.len()
        invariant
            i <= list.len(),
            rs == roms(list@),
            first_keyless(rs, stats@, i as int) is None,
            keys@ == keys_of(rs, stats@).take(i as int),
        decreases list.len() - i,
    {
        let own = list[i].crc32;
        let key = match own {
            Some(c) => Some(c),
            None => if i < stats.len() {
                stats[i].hash
            } else {
                None
            },
        };
        assert(key == key_of(rs[i as int], stat_at(stats@, i as int)));
        match key {
            Some(c) => {
                keys.push(c);
                assert(keys@ =~= keys_of(rs, stats@).take(i + 1));
            },
            None => {
                proof {
                    assert(first_keyless(rs, stats@, i + 1) == Some(i as int));
                    lemma_first_keyless_stays(rs, stats@, i + 1, list@.len() as int);
                }
                return Err(DedupError::HashUnavailable(list[i].path.clone()));
            },
        }
        i += 1;
    }
    assert(keys_of(rs, stats@).take(list@.len() as int) == keys_of(rs, stats@));
    Ok(keys)
}

/// Whether no earlier record has the key of record `i`.
pub fn is_first_key(keys: &Vec<u32>, i: usize) -> (r: bool)
    requires
        i < keys.len(),
    ensures
        r == is_first(keys@, i as int),
{
    let mut j: usize = 0;
    while j < i
        invariant
            j <= i < keys.len(),
            forall|a: int| 0 <= a < j ==> keys@[a] != keys@[i as int],
        decreases i - j,
    {
        if keys[j] == keys[i] {
            return false;
        }
        j += 1;
    }
    true
}

/// The positions of all records with the key of record `i`, in rising order.
pub fn group_members(keys: &Vec<u32>, i: usize) -> (g: Vec<usize>)
    requires
        i < keys.len(),
    ensures
        positions(g@) == group_at(keys@, i as int),
        forall|k: int| 0 <= k < g@.len() ==> g@[k] < keys@.len(),
{
    let mut g: Vec<usize> = Vec::new();
    let mut j: usize = 0;
    assert(positions(g@) =~= Seq::<int>::empty());
    while j < keys.len()
        invariant
            j <= keys.len(),
            i < keys.len(),
            positions(g@) == members(keys@, keys@[i as int], j as int),
            forall|k: int| 0 <= k < g@.len() ==> g@[k] < keys@.len(),
        decreases keys.len() - j,
    {
        let ghost before = positions(g@);
        if keys[j] == keys[i] {
            g.push(j);
            assert(positions(g@) =~= before + seq![j as int]);
        } else {
            assert(before + Seq::<int>::empty() =~= before);
        }
        j += 1;
    }
    g
}

/// Copies of the records at the positions `g`, with what is known of their files.
pub fn gather(list: &[RomFile], stats: &[FileStat], g: &Vec<usize>) -> (r: (
    Vec<RomFile>,
    Vec<FileStat>,
))
    requires
        forall|k: int| 0 <= k < g@.len() ==> g@[k] < list@.len(),
    ensures
        roms(r.0@) == rows_at(roms(list@), positions(g@)),
        r.1@ == stats_at(stats@, positions(g@)),
        r.0@.len() == g@.len(),
{
    let mut rs: Vec<RomFile> = Vec::new();
    let mut ss: Vec<FileStat> = Vec::new();
    let mut k: usize = 0;
    let ghost want_r = rows_at(roms(list@), positions(g@));
    let ghost want_s = stats_at(stats@, positions(g@));
    while k < g.len()
        invariant
            k <= g.len(),
            forall|a: int| 0 <= a < g@.len() ==> g@[a] < list@.len(),
            want_r == rows_at(roms(list@), positions(g@)),
            want_s == stats_at(stats@, positions(g@)),
            roms(rs@) == want_r.take(k as int),
            ss@ == want_s.take(k as int),
            rs@.len() == k,
        decreases g.len() - k,
    {
        let ghost before = roms(rs@);
        let i = g[k];
        let rom = list[i].clone();
        let stat = if i < stats.len() {
            stats[i]
        } else {
            FileStat { hash: None, len: None, modified: None }
        };
        rs.push(rom);
        ss.push(stat);
        assert(roms(rs@) =~= before.push(rom@));
        assert(want_r.take(k + 1) =~= before.push(rom@));
        assert(ss@ =~= want_s.take(k + 1));
        k += 1;
    }
    assert(want_r.take(want_r.len() as int) == want_r);
    assert(want_s.take(want_s.len() as int) == want_s);
    (rs, ss)
}

/// The paths of the records at the positions `at`.
pub fn paths_of(list: &[RomFile], at: &Vec<usize>) -> (r: Vec<String>)
    requires
        forall|k: int| 0 <= k < at@.len() ==> at@[k] < list@.len(),
    ensures
        string_texts(r@) == paths_at(roms(list@), positions(at@)),
{
    let mut r: Vec<String> = Vec::new();
    let mut k: usize = 0;
    let ghost want = paths_at(roms(list@), positions(at@));
    while k < at.len()
        invariant
            k <= at.len(),
            forall|a: int| 0 <= a < at@.len() ==> at@[a] < list@.len(),
            want == paths_at(roms(list@), positions(at@)),
            string_texts(r@) == want.take(k as int),
        decreases at.len() - k,
    {
        let ghost before = string_texts(r@);
        let p = list[at[k]].path.clone();
        r.push(p);
        assert(string_texts(r@) =~= before.push(p@));
        assert(want.take(k + 1) =~= before.push(p@));
        k += 1;
    }
    assert(want.take(want.len() as int) == want);
    r
}

/// The sum of the byte sizes of the records at the positions `at`, as far as 64
/// bits can tell it.
pub fn space_of(list: &[RomFile], stats: &[FileStat], at: &Vec<usize>) -> (r: u64)
    requires
        forall|k: int| 0 <= k < at@.len() ==> at@[k] < list@.len(),
    ensures
        r == capped(total_size(roms(list@), stats@, positions(at@))),
{
    let mut sum: u64 = 0;
    let mut k: usize = 0;
    let ghost ps = positions(at@);
    let ghost rs = roms(list@);
    assert(ps.take(0) =~= Seq::<int>::empty());
    while k < at.len()
        invariant
            k <= at.len(),
            forall|a: int| 0 <= a < at@.len() ==> at@[a] < list@.len(),
            ps == positions(at@),
            rs == roms(list@),
            sum == capped(total_size(rs, stats@, ps.take(k as int))),
        decreases at.len() - k,
    {
        assert(ps.take(k + 1).drop_last() == ps.take(k as int));
        assert(ps.take(k + 1).last() == at@[k as int]);
        let i = at[k];
        let size: u64 = if list[i].size > 0 {
            list[i].size
        } else if i < stats.len() {
            match stats[i].len {
                Some(n) => n,
                None => 0,
            }
        } else {
            0
        };
        assert(size == effective_size(rs[i as int], stat_at(stats@, i as int)));
        sum = if size > u64::MAX - sum {
            u64::MAX
        } else {
            sum + size
        };
        k += 1;
    }
    assert(ps.take(ps.len() as int) == ps);
    sum
}

impl RomDeduplicator {
    /// The member of a group to keep under the strategy of this deduplicator.
    pub fn select_best_rom(&self, group: &[RomFile], stats: &[FileStat]) -> (r: Result<
        usize,
        DedupError,
    >)
        ensures
            chosen(r) == choice_by_path(
                self.settings().strategy,
                self.settings().dirs,
                roms(group@),
                stats@,
            ),
            group@.len() > 0 ==> (r matches Ok(b) ==> b < group@.len()),
    {
        let ghost dirs = self.settings().dirs;
        let ghost rows = roms(group@);
        match self.strategy {
            Strategy::RegionPriority => {
                assert(ranks(Strategy::RegionPriority, dirs, rows, seq![]) =~= ranks(
                    Strategy::RegionPriority,
                    dirs,
                    rows,
                    stats@,
                ));
                Ok(self.select_by_region_priority(group))
            },
            Strategy::FileSize => Ok(self.select_by_file_size(group, stats)),
            Strategy::ModificationDate => self.select_by_modification_date(group, stats),
            Strategy::DirectoryPriority => {
                assert(ranks(Strategy::DirectoryPriority, dirs, rows, seq![]) =~= ranks(
                    Strategy::DirectoryPriority,
                    dirs,
                    rows,
                    stats@,
                ));
                assert(ranks(Strategy::FilenameQuality, dirs, rows, seq![]) =~= ranks(
                    Strategy::FilenameQuality,
                    dirs,
                    rows,
                    stats@,
                ));
                Ok(self.select_by_directory_priority(group))
            },
            Strategy::FilenameQuality => {
                assert(ranks(Strategy::FilenameQuality, dirs, rows, seq![]) =~= ranks(
                    Strategy::FilenameQuality,
                    dirs,
                    rows,
                    stats@,
                ));
                Ok(self.select_by_filename_quality(group))
            },
        }
    }

    /// Deduplicates `list`: records with one content key form a group, each group
    /// of more than one keeps the member that the strategy chooses, and the rest is
    /// reported as removable. `stats` holds, position by position, what the file
    /// system said of each record's file. No file is touched.
    pub fn deduplicate(&self, list: &[RomFile], stats: &[FileStat]) -> (r: Result<
        DeduplicationReport,
        DedupError,
    >)
        ensures
            outcome(r) == report_of(self.settings(), roms(list@), stats@),
    {
        let ghost set = self.settings();
        let ghost rows = roms(list@);
        let keys = match content_keys(list, stats) {
            Ok(k) => k,
            Err(e) => {
                return Err(e);
            },
        };
        let mut removed: Vec<usize> = Vec::new();
        let mut kept: Vec<usize> = Vec::new();
        let mut i: usize = 0;
        assert(positions(removed@) =~= Seq::<int>::empty());
        assert(positions(kept@) =~= Seq::<int>::empty());
        while i < keys.len()
            invariant
                i <= keys.len(),
                keys@.len() == list@.len(),
                set == self.settings(),
                rows == roms(list@),
                keys@ == keys_of(rows, stats@),
                first_keyless(rows, stats@, rows.len() as int) is None,
                plan(set.strategy, set.dirs, rows, stats@, keys@, i as int) == Ok::<Plan, int>(
                    Plan { removed: positions(removed@), kept: positions(kept@) },
                ),
                forall|k: int| 0 <= k < removed@.len() ==> removed@[k] < list@.len(),
                forall|k: int| 0 <= k < kept@.len() ==> kept@[k] < list@.len(),
            decreases keys.len() - i,
        {
            let ghost removed0 = positions(removed@);
            let ghost kept0 = positions(kept@);
            if is_first_key(&keys, i) {
                let g = group_members(&keys, i);
                if g.len() > 1 {
                    let ghost gp = positions(g@);
                    let members = gather(list, stats, &g);
                    match self.select_best_rom(members.0.as_slice(), members.1.as_slice()) {
                        Err(e) => {
                            proof {
                                let rg = rows_at(rows, gp);
                                let sg = stats_at(stats@, gp);
                                let c = choice(set.strategy, set.dirs, rg, sg);
                                assert(c is Err);
                                let k = c->Err_0;
                                assert(set.strategy == Strategy::ModificationDate);
                                assert(first_undated(sg, rg.len() as int) == Some(k));
                                lemma_undated_in_range(sg, rg.len() as int);
                                assert(rg[k].path == rows[gp[k]].path);
                                assert(plan(
                                    set.strategy,
                                    set.dirs,
                                    rows,
                                    stats@,
                                    keys@,
                                    i + 1,
                                ) == Err::<Plan, int>(gp[k]));
                                lemma_plan_stays_stopped(
                                    set.strategy,
                                    set.dirs,
                                    rows,
                                    stats@,
                                    keys@,
                                    i + 1,
                                    keys@.len() as int,
                                );
                            }
                            return Err(e);
                        },
                        Ok(b) => {
                            proof {
                                lemma_group(keys@, i as int);
                            }
                            kept.push(g[b]);
                            assert(positions(kept@) =~= kept0.push(gp[b as int]));
                            let mut k: usize = 0;
                            while k < g.len()
                                invariant
                                    k <= g.len(),
                                    b < g.len(),
                                    gp == positions(g@),
                                    forall|a: int| 0 <= a < g@.len() ==> g@[a] < list@.len(),
                                    forall|a: int|
                                        0 <= a < removed@.len() ==> removed@[a] < list@.len(),
                                    positions(removed@) == removed0 + gp.remove(b as int).take(
                                        if k <= b {
                                            k as int
                                        } else {
                                            k - 1
                                        },
                                    ),
                                decreases g.len() - k,
                            {
                                let ghost before = positions(removed@);
                                if k != b {
                                    removed.push(g[k]);
                                    assert(positions(removed@) =~= before.push(gp[k as int]));
                                }
                                k += 1;
                                assert(positions(removed@) =~= removed0 + gp.remove(b as int).take(
                                    if k <= b {
                                        k as int
                                    } else {
                                        k - 1
                                    },
                                ));
                            }
                            assert(gp.remove(b as int).take(g@.len() - 1) == gp.remove(b as int));
                        },
                    }
                }
            }
            i += 1;
        }
        let removed_files = paths_of(list, &removed);
        let kept_files = paths_of(list, &kept);
        let space = space_of(list, stats, &removed);
        let backup_location = if self.backup && !self.dry_run {
            match &self.backup_directory {
                Some(d) => Some(d.clone()),
                None => Some("./backup".to_owned()),
            }
        } else {
            None
        };
        proof {
            lemma_plan_props(set.strategy, set.dirs, rows, stats@, keys@, keys@.len() as int);
            lemma_pigeonhole(positions(removed@) + positions(kept@), keys@.len() as int);
        }
        let found: usize = removed.len() + kept.len();
        Ok(
            DeduplicationReport {
                duplicate_groups: kept.len(),
                duplicates_found: found,
                files_removed: removed.len(),
                space_freed: space,
                backup_location: backup_location,
                removed_files: removed_files,
                kept_files: kept_files,
            },
        )
    }
}

/// The name of a strategy.
pub open spec fn strategy_name(s: Strategy) -> Seq<char> {
    match s {
        Strategy::RegionPriority => "RegionPriority"@,
        Strategy::FileSize => "FileSize"@,
        Strategy::ModificationDate => "ModificationDate"@,
        Strategy::DirectoryPriority => "DirectoryPriority"@,
        Strategy::FilenameQuality => "FilenameQuality"@,
    }
}

/// `true` or `false`.
pub open spec fn bool_text(b: bool) -> Seq<char> {
    if b {
        "true"@
    } else {
        "false"@
    }
}

/// One line ``- `path` `` for each path.
pub open spec fn bullets(paths: Seq<Seq<char>>) -> Seq<char>
    decreases paths.len(),
{
    if paths.len() == 0 {
        Seq::empty()
    } else {
        bullets(paths.drop_last()) + "- `"@ + paths.last() + "`\n"@
    }
}

/// The head of the written report: title, settings and summary.
pub open spec fn report_head(set: DedupSettings, r: ReportRow) -> Seq<char> {
    "# ROM Deduplication Report\n\n"@ + "**Strategy**: "@ + strategy_name(set.strategy) + "\n"@
        + "**Dry Run**: "@ + bool_text(set.dry_run) + "\n"@ + "**Backup Enabled**: "@ + bool_text(
        set.backup,
    ) + "\n\n"@ + "## Summary\n\n"@ + "- Duplicate Groups: "@ + decimal(r.duplicate_groups)
        + "\n"@ + "- Total Duplicates Found: "@ + decimal(r.duplicates_found) + "\n"@
        + "- Files Removed: "@ + decimal(r.files_removed) + "\n"@ + "- Space Freed: "@ + decimal(
        r.space_freed as nat,
    ) + " bytes\n\n"@
}

/// The written report: the head, then the removed files and the kept files, each
/// list under its heading unless it is empty.
pub open spec fn report_text(set: DedupSettings, r: ReportRow) -> Seq<char> {
    report_head(set, r) + (if r.removed_files.len() > 0 {
        "## Removed Files\n\n"@ + bullets(r.removed_files) + "\n"@
    } else {
        Seq::empty()
    }) + (if r.kept_files.len() > 0 {
        "## Kept Files\n\n"@ + bullets(r.kept_files)
    } else {
        Seq::empty()
    })
}

/// Appends one line for each path.
pub fn push_bullets(out: &mut Vec<char>, paths: &Vec<String>)
    ensures
        final(out)@ == old(out)@ + bullets(string_texts(paths@)),
{
    let ghost ps = string_texts(paths@);
    let mut i: usize = 0;
    assert(ps.take(0) =~= Seq::<Seq<char>>::empty());
    assert(out@ == old(out)@ + bullets(ps.take(0)));
    while i < paths.len()
        invariant
            i <= paths.len(),
            ps == string_texts(paths@),
            out@ == old(out)@ + bullets(ps.take(i as int)),
        decreases paths.len() - i,
    {
        assert(ps.take(i + 1).drop_last() == ps.take(i as int));
        assert(ps.take(i + 1).last() == paths@[i as int]@);
        push_str(out, "- `");
        push_str(out, paths[i].as_str());
        push_str(out, "`\n");
        i += 1;
        assert(out@ == old(out)@ + bullets(ps.take(i as int)));
    }
    assert(ps.take(ps.len() as int) == ps);
}

impl RomDeduplicator {
    /// The text of the report file for `report`.
    pub fn generate_report(&self, report: &DeduplicationReport) -> (r: String)
        ensures
            r@ == report_text(self.settings(), report@),
    {
        let mut out: Vec<char> = Vec::new();
        push_str(&mut out, "# ROM Deduplication Report\n\n");
        push_str(&mut out, "**Strategy**: ");
        push_str(
            &mut out,
            match self.strategy {
                Strategy::RegionPriority => "RegionPriority",
                Strategy::FileSize => "FileSize",
                Strategy::ModificationDate => "ModificationDate",
                Strategy::DirectoryPriority => "DirectoryPriority",
                Strategy::FilenameQuality => "FilenameQuality",
            },
        );
        push_str(&mut out, "\n");
        push_str(&mut out, "**Dry Run**: ");
        push_str(&mut out, if self.dry_run { "true" } else { "false" });
        push_str(&mut out, "\n");
        push_str(&mut out, "**Backup Enabled**: ");
        push_str(&mut out, if self.backup { "true" } else { "false" });
        push_str(&mut out, "\n\n");
        push_str(&mut out, "## Summary\n\n");
        push_str(&mut out, "- Duplicate Groups: ");
        push_decimal(&mut out, report.duplicate_groups as u64);
        push_str(&mut out, "\n");
        push_str(&mut out, "- Total Duplicates Found: ");
        push_decimal(&mut out, report.duplicates_found as u64);
        push_str(&mut out, "\n");
        push_str(&mut out, "- Files Removed: ");
        push_decimal(&mut out, report.files_removed as u64);
        push_str(&mut out, "\n");
        push_str(&mut out, "- Space Freed: ");
        push_decimal(&mut out, report.space_freed);
        push_str(&mut out, " bytes\n\n");
        assert(out@ =~= report_head(self.settings(), report@));
        let ghost head = out@;
        let ghost mut mid = Seq::<char>::empty();
        if report.removed_files.len() > 0 {
            push_str(&mut out, "## Removed Files\n\n");
            push_bullets(&mut out, &report.removed_files);
            push_str(&mut out, "\n");
            proof {
                mid = "## Removed Files\n\n"@ + bullets(report@.removed_files) + "\n"@;
            }
        }
        assert(out@ =~= head + mid);
        if report.kept_files.len() > 0 {
            push_str(&mut out, "## Kept Files\n\n");
            push_bullets(&mut out, &report.kept_files);
            assert(out@ =~= head + mid + ("## Kept Files\n\n"@ + bullets(report@.kept_files)));
        } else {
            assert(out@ =~= head + mid + Seq::<char>::empty());
        }
        string_of(out.as_slice())
    }

    /// The directory that backups go to.
    pub fn backup_dir(&self) -> (r: String)
        ensures
            r@ == backup_dir_of(self.settings()),
    {
        match &self.backup_directory {
            Some(d) => d.clone(),
            None => "./backup".to_owned(),
        }
    }

    /// The file operations that carry out `report`: none in a dry run; else the
    /// backup directory is made first, where backups are made, then each file to
    /// remove is copied there, where backups are made, and deleted.
    pub fn planned_actions(&self, report: &DeduplicationReport) -> (r: Vec<FileAction>)
        ensures
            action_rows(r@) == actions_of(self.settings(), report@.removed_files),
    {
        let mut out: Vec<FileAction> = Vec::new();
        let ghost set = self.settings();
        let ghost paths = report@.removed_files;
        if self.dry_run {
            assert(action_rows(out@) =~= Seq::<ActionRow>::empty());
            return out;
        }
        let dir = self.backup_dir();
        if self.backup {
            out.push(FileAction::CreateDir(dir.clone()));
        }
        let ghost first = action_rows(out@);
        assert(first =~= if set.backup {
            seq![ActionRow::CreateDir(backup_dir_of(set))]
        } else {
            Seq::<ActionRow>::empty()
        });
        let mut i: usize = 0;
        assert(paths.take(0) =~= Seq::<Seq<char>>::empty());
        assert(first + removals(set, paths.take(0)) =~= first);
        while i < report.removed_files.len()
            invariant
                i <= report.removed_files.len(),
                set == self.settings(),
                paths == string_texts(report.removed_files@),
                dir@ == backup_dir_of(set),
                action_rows(out@) == first + removals(set, paths.take(i as int)),
            decreases report.removed_files.len() - i,
        {
            let ghost before = action_rows(out@);
            let ghost done = removals(set, paths.take(i as int));
            assert(paths.take(i + 1).drop_last() == paths.take(i as int));
            assert(paths.take(i + 1).last() == report.removed_files@[i as int]@);
            let path = &report.removed_files[i];
            let ghost mut copy = Seq::<ActionRow>::empty();
            if self.backup {
                let mut target = chars_of(dir.as_str());
                push_str(&mut target, "/");
                let name = file_name(chars_of(path.as_str()).as_slice());
                append(&mut target, name.as_slice());
                let to = string_of(target.as_slice());
                assert(to@ == backup_target(set, path@));
                out.push(FileAction::Copy { from: path.clone(), to: to });
                proof {
                    copy = seq![ActionRow::Copy { from: path@, to: backup_target(set, path@) }];
                }
            }
            assert(action_rows(out@) =~= before + copy);
            let ghost mid = action_rows(out@);
            out.push(FileAction::Delete(path.clone()));
            assert(action_rows(out@) =~= mid.push(ActionRow::Delete(path@)));
            assert(mid.push(ActionRow::Delete(path@)) =~= first + (done + copy
                + seq![ActionRow::Delete(path@)]));
            i += 1;
        }
        assert(paths.take(paths.len() as int) == paths);
        out
    }
}

/// What came of carrying out file operations, as a mathematical value.
pub struct ExecutionModel {
    pub removed: Seq<Seq<char>>,
    pub failures: Seq<(Seq<char>, Seq<char>)>,
    pub unsaved: Seq<Seq<char>>,
    pub stopped: bool,
}

/// Whether the operation `a` is to be carried out after what came before:
/// nothing is once the run has stopped, and a file whose backup failed is not
/// deleted.
pub open spec fn permitted(e: ExecutionModel, a: ActionRow) -> bool {
    !e.stopped && match a {
        ActionRow::Delete(p) => !e.unsaved.contains(p),
        _ => true,
    }
}

/// What is known after the operation `a` was tried and gave `outcome`: a
/// deletion that worked removes its file; whatever failed is a failure of its
/// file, and a failed copy leaves its file unsaved. A directory for backups that
/// cannot be made stops the run.
pub open spec fn recorded(e: ExecutionModel, a: ActionRow, outcome: Result<(), Seq<char>>) -> ExecutionModel {
    match outcome {
        Ok(_) => match a {
            ActionRow::Delete(p) => ExecutionModel { removed: e.removed.push(p), ..e },
            _ => e,
        },
        Err(m) => match a {
            ActionRow::CreateDir(d) => ExecutionModel {
                failures: e.failures.push((d, m)),
                stopped: true,
                ..e
            },
            ActionRow::Copy { from, .. } => ExecutionModel {
                failures: e.failures.push((from, m)),
                unsaved: e.unsaved.push(from),
                ..e
            },
            ActionRow::Delete(p) => ExecutionModel { failures: e.failures.push((p, m)), ..e },
        },
    }
}

/// The files that were removed and the operations that failed, file by file.
pub struct Execution {
    pub removed: Vec<String>,
    pub failures: Vec<(String, String)>,
    unsaved: Vec<String>,
    stopped: bool,
}

impl View for Execution {
    type V = ExecutionModel;

    closed spec fn view(&self) -> ExecutionModel {
        ExecutionModel {
            removed: string_texts(self.removed@),
            failures: crate::text::pair_texts(self.failures@),
            unsaved: string_texts(self.unsaved@),
            stopped: self.stopped,
        }
    }
}

impl Execution {
    /// Nothing was tried yet.
    pub fn new() -> (e: Self)
        ensures
            e@ == (ExecutionModel {
                removed: Seq::empty(),
                failures: Seq::empty(),
                unsaved: Seq::empty(),
                stopped: false,
            }),
    {
        let e = Execution {
            removed: Vec::new(),
            failures: Vec::new(),
            unsaved: Vec::new(),
            stopped: false,
        };
        assert(e@.removed =~= Seq::<Seq<char>>::empty());
        assert(e@.failures =~= Seq::<(Seq<char>, Seq<char>)>::empty());
        assert(e@.unsaved =~= Seq::<Seq<char>>::empty());
        e
    }

    /// Whether `action` is to be carried out.
    pub fn permits(&self, action: &FileAction) -> (r: bool)
        ensures
            r == permitted(self@, action@),
    {
        if self.stopped {
            return false;
        }
        match action {
            FileAction::Delete(p) => !crate::text::holds_text(&self.unsaved, p.as_str()),
            _ => true,
        }
    }

    /// Whether the run has stopped: the directory for backups could not be made.
    /// The failure is the last of the failures.
    pub fn must_stop(&self) -> (r: bool)
        ensures
            r == self@.stopped,
    {
        self.stopped
    }

    /// Takes note of what trying `action` gave.
    pub fn record(&mut self, action: &FileAction, outcome: Result<(), String>)
        ensures
            final(self)@ == recorded(
                old(self)@,
                action@,
                match outcome {
                    Ok(_) => Ok(()),
                    Err(m) => Err(m@),
                },
            ),
    {
        let ghost before = self@;
        match outcome {
            Ok(_) => match action {
                FileAction::Delete(p) => {
                    self.removed.push(p.clone());
                    assert(self@.removed =~= before.removed.push(p@));
                },
                _ => {},
            },
            Err(m) => match action {
                FileAction::CreateDir(d) => {
                    self.failures.push((d.clone(), m));
                    self.stopped = true;
                    assert(self@.failures =~= before.failures.push((d@, m@)));
                },
                FileAction::Copy { from, .. } => {
                    self.failures.push((from.clone(), m));
                    self.unsaved.push(from.clone());
                    assert(self@.failures =~= before.failures.push((from@, m@)));
                    assert(self@.unsaved =~= before.unsaved.push(from@));
                },
                FileAction::Delete(p) => {
                    self.failures.push((p.clone(), m));
                    assert(self@.failures =~= before.failures.push((p@, m@)));
                },
            },
        }
    }
}

/// The position of the first of the first `n` records with the path `path`.
pub open spec fn first_at_path(roms: Seq<RomRow>, path: Seq<char>, n: int) -> Option<int>
    decreases n,
{
    if n <= 0 {
        None
    } else {
        match first_at_path(roms, path, n - 1) {
            Some(i) => Some(i),
            None => if roms[n - 1].path == path {
                Some(n - 1)
            } else {
                None
            },
        }
    }
}

/// The byte size that counts for the file at `path`: that of the first record
/// with the path, nothing where no record has it.
pub open spec fn path_size(roms: Seq<RomRow>, stats: Seq<FileStat>, path: Seq<char>) -> u64 {
    match first_at_path(roms, path, roms.len() as int) {
        Some(i) => effective_size(roms[i], stat_at(stats, i)),
        None => 0,
    }
}

/// The sum of the byte sizes of the files at `paths`.
pub open spec fn freed_by(roms: Seq<RomRow>, stats: Seq<FileStat>, paths: Seq<Seq<char>>) -> nat
    decreases paths.len(),
{
    if paths.len() == 0 {
        0
    } else {
        freed_by(roms, stats, paths.drop_last()) + path_size(roms, stats, paths.last()) as nat
    }
}

/// The report after the file operations were tried, of which `removed` are the
/// files that were in fact removed: only these are listed as removed and counted
/// in the space freed. A dry run keeps the report of what would have happened.
pub open spec fn settled(
    set: DedupSettings,
    roms: Seq<RomRow>,
    stats: Seq<FileStat>,
    planned: ReportRow,
    removed: Seq<Seq<char>>,
) -> ReportRow {
    if set.dry_run {
        planned
    } else {
        ReportRow {
            files_removed: removed.len(),
            space_freed: capped(freed_by(roms, stats, removed)),
            removed_files: removed,
            ..planned
        }
    }
}

/// A record found among the first `n` is the first in the whole list.
pub proof fn lemma_first_at_path_stays(roms: Seq<RomRow>, path: Seq<char>, n: int, m: int)
    requires
        0 <= n <= m,
        first_at_path(roms, path, n) is Some,
    ensures
        first_at_path(roms, path, m) == first_at_path(roms, path, n),
    decreases m - n,
{
    if n < m {
        lemma_first_at_path_stays(roms, path, n, m - 1);
    }
}

/// The byte size that counts for the file at `path`.
pub fn size_at_path(list: &[RomFile], stats: &[FileStat], path: &str) -> (r: u64)
    ensures
        r == path_size(roms(list@), stats@, path@),
{
    let ghost rs = roms(list@);
    let wanted = path.to_owned();
    let mut i: usize = 0;
    while i < list.len()
        invariant
            i <= list.len(),
            rs == roms(list@),
            wanted@ == path@,
            first_at_path(rs, path@, i as int) is None,
        decreases list.len() - i,
    {
        assert(rs[i as int] == list@[i as int]@);
        if list[i].path == wanted {
            proof {
                assert(first_at_path(rs, path@, i + 1) == Some(i as int));
                lemma_first_at_path_stays(rs, path@, i + 1, rs.len() as int);
            }
            let size: u64 = if list[i].size > 0 {
                list[i].size
            } else if i < stats.len() {
                match stats[i].len {
                    Some(n) => n,
                    None => 0,
                }
            } else {
                0
            };
            return size;
        }
        i += 1;
    }
    0
}

impl RomDeduplicator {
    /// The report after the file operations of `planned` were tried and `done`
    /// tells what came of them: the files that were removed, their number and
    /// the space that they freed. A file whose removal failed adds nothing.
    pub fn final_report(
        &self,
        list: &[RomFile],
        stats: &[FileStat],
        planned: &DeduplicationReport,
        done: &Execution,
    ) -> (r: DeduplicationReport)
        ensures
            r@ == settled(self.settings(), roms(list@), stats@, planned@, done@.removed),
    {
        let kept = crate::core_mapper::clone_strings(&planned.kept_files);
        let location = crate::dat_parser::clone_opt_string(&planned.backup_location);
        if self.dry_run {
            return DeduplicationReport {
                duplicate_groups: planned.duplicate_groups,
                duplicates_found: planned.duplicates_found,
                files_removed: planned.files_removed,
                space_freed: planned.space_freed,
                backup_location: location,
                removed_files: crate::core_mapper::clone_strings(&planned.removed_files),
                kept_files: kept,
            };
        }
        let ghost rs = roms(list@);
        let ghost paths = string_texts(done.removed@);
        let mut sum: u64 = 0;
        let mut k: usize = 0;
        assert(paths.take(0) =~= Seq::<Seq<char>>::empty());
        while k < done.removed.len()
            invariant
                k <= done.removed.len(),
                rs == roms(list@),
                paths == string_texts(done.removed@),
                sum == capped(freed_by(rs, stats@, paths.take(k as int))),
            decreases done.removed.len() - k,
        {
            assert(paths.take(k + 1).drop_last() == paths.take(k as int));
            assert(paths.take(k + 1).last() == done.removed@[k as int]@);
            let size = size_at_path(list, stats, done.removed[k].as_str());
            sum = if size > u64::MAX - sum {
                u64::MAX
            } else {
                sum + size
            };
            k += 1;
        }
        assert(paths.take(paths.len() as int) == paths);
        DeduplicationReport {
            duplicate_groups: planned.duplicate_groups,
            duplicates_found: planned.duplicates_found,
            files_removed: done.removed.len(),
            space_freed: sum,
            backup_location: location,
            removed_files: crate::core_mapper::clone_strings(&done.removed),
            kept_files: kept,
        }
    }
}

} // verus!
