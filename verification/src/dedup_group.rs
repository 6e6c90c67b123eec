//! One group of records with the same checksum, and the configuration and result
//! of a deduplication run.

use vstd::prelude::*;

use crate::dedup_plan::{dir_rank, stat_at, FileStat};
use crate::paths::file_name_of;
use crate::ranking::{
    first_min, ints, is_under, pick_first_min, quality_of, quality_score, region_and_quality,
    region_of, region_priority,
};
use crate::scanner::{roms, string_texts, RomFile, RomRow};
use crate::text::lowercase;

verus! {

/// How a duplicate group chooses the member to keep.
#[derive(Debug, Clone, Copy, PartialEq, Eq, Structural)]
pub enum DuplicationStrategy {
    /// The best region wins, quality counts in its favour.
    ByRegionPriority,
    /// The largest file wins.
    ByFileSize,
    /// The most recently modified file wins.
    ByModificationDate,
    /// The file under the most preferred directory wins.
    ByDirectoryPriority,
    /// The best quality wins, region breaks ties.
    ByFilenameQuality,
}

/// The rank of a member of a duplicate group; the lowest rank wins.
/// By region: the priority of the region less the score of the quality. By size:
/// the larger the recorded size, the lower. By date: the later, the lower, and a
/// file without a known date ranks behind all others. By directory: the position
/// of the first priority directory that the file lies under. By quality: ten times
/// the score of the quality plus what the region's priority leaves of a hundred,
/// the higher the lower.
pub open spec fn group_rank(
    strategy: DuplicationStrategy,
    dirs: Seq<Seq<char>>,
    r: RomRow,
    s: FileStat,
) -> int {
    let name = lowercase(file_name_of(r.path));
    match strategy {
        DuplicationStrategy::ByRegionPriority => region_priority(region_of(name)) - quality_score(
            quality_of(name),
        ),
        DuplicationStrategy::ByFileSize => -(r.size as int),
        DuplicationStrategy::ByModificationDate => match s.modified {
            Some(t) => -(t as int),
            None => 1,
        },
        DuplicationStrategy::ByDirectoryPriority => dir_rank(r.path, dirs),
        DuplicationStrategy::ByFilenameQuality => -(quality_score(quality_of(name)) * 10 + (100
            - region_priority(region_of(name)))),
    }
}

/// The ranks of the members of a duplicate group.
pub open spec fn group_ranks(
    strategy: DuplicationStrategy,
    dirs: Seq<Seq<char>>,
    rows: Seq<RomRow>,
    stats: Seq<FileStat>,
) -> Seq<int> {
    Seq::new(rows.len(), |k: int| group_rank(strategy, dirs, rows[k], stat_at(stats, k)))
}

/// The set of the records that share one checksum, with the position of the one
/// to keep once it is chosen.
#[derive(Debug)]
pub struct DuplicateGroup {
    pub crc32: u32,
    pub roms: Vec<RomFile>,
    pub best_rom: Option<usize>,
}

/// The position of the first of `dirs` that `path` lies under.
pub fn first_dir_over(path: &str, dirs: &[String]) -> (r: usize)
    ensures
        r == dir_rank(path@, string_texts(dirs@)),
        r <= dirs@.len(),
{
    let ghost ds = string_texts(dirs@);
    let mut i: usize = 0;
    assert(ds.skip(0) == ds);
    while i < dirs.len()
        invariant
            i <= dirs.len(),
            ds == string_texts(dirs@),
            dir_rank(path@, ds) == i + dir_rank(path@, ds.skip(i as int)),
        decreases dirs.len() - i,
    {
        assert(ds.skip(i as int)[0] == dirs@[i as int]@);
        if is_under(path, dirs[i].as_str()) {
            return i;
        }
        assert(ds.skip(i as int).skip(1) == ds.skip(i + 1));
        i += 1;
    }
    i
}

impl DuplicateGroup {
    /// An empty group for the checksum `crc32`.
    pub fn new(crc32: u32) -> (g: Self)
        ensures
            g.crc32 == crc32,
            g.roms@.len() == 0,
            g.best_rom is None,
    {
        DuplicateGroup { crc32: crc32, roms: Vec::new(), best_rom: None }
    }

    /// Adds a record to the group.
    pub fn add_rom(&mut self, rom: RomFile)
        ensures
            final(self).crc32 == old(self).crc32,
            final(self).best_rom == old(self).best_rom,
            final(self).roms@ == old(self).roms@.push(rom),
    {
        self.roms.push(rom);
    }

    /// The rank of one member.
    pub fn member_rank(
        strategy: DuplicationStrategy,
        dirs: &[String],
        rom: &RomFile,
        stat: FileStat,
    ) -> (r: i128)
        ensures
            r == group_rank(strategy, string_texts(dirs@), rom@, stat),
    {
        match strategy {
            DuplicationStrategy::ByRegionPriority => {
                let rq = region_and_quality(rom.path.as_str());
                rq.0.priority_score() as i128 - rq.1.score() as i128
            },
            DuplicationStrategy::ByFileSize => -(rom.size as i128),
            DuplicationStrategy::ByModificationDate => match stat.modified {
                Some(t) => -(t as i128),
                None => 1,
            },
            DuplicationStrategy::ByDirectoryPriority => first_dir_over(rom.path.as_str(), dirs)
                as i128,
            DuplicationStrategy::ByFilenameQuality => {
                let rq = region_and_quality(rom.path.as_str());
                -((rq.1.score() * 10 + (100 - rq.0.priority_score())) as i128)
            },
        }
    }

    /// Chooses the member to keep: the first with the lowest rank. `stats` holds,
    /// position by position, what the file system said of each member's file. An
    /// empty group stays as it is.
    pub fn select_best(
        &mut self,
        strategy: DuplicationStrategy,
        directory_priorities: &[String],
        stats: &[FileStat],
    )
        ensures
            final(self).crc32 == old(self).crc32,
            final(self).roms == old(self).roms,
            final(self).best_rom == if old(self).roms@.len() == 0 {
                old(self).best_rom
            } else {
                Some(
                    first_min(
                        group_ranks(
                            strategy,
                            string_texts(directory_priorities@),
                            roms(old(self).roms@),
                            stats@,
                        ),
                    ) as usize,
                )
            },
            final(self).roms@.len() > 0 ==> final(self).best_rom->0 < final(self).roms@.len(),
    {
        if self.roms.len() == 0 {
            return ;
        }
        let mut rs: Vec<i128> = Vec::new();
        let mut k: usize = 0;
        let ghost want = group_ranks(
            strategy,
            string_texts(directory_priorities@),
            roms(self.roms@),
            stats@,
        );
        while k < self.roms.len()
            invariant
                k <= self.roms.len(),
                *self == *old(self),
                want == group_ranks(
                    strategy,
                    string_texts(directory_priorities@),
                    roms(self.roms@),
                    stats@,
                ),
                ints(rs@) == want.take(k as int),
            decreases self.roms.len() - k,
        {
            let ghost before = ints(rs@);
            let stat = if k < stats.len() {
                stats[k]
            } else {
                FileStat { hash: None, len: None, modified: None }
            };
            let x = Self::member_rank(strategy, directory_priorities, &self.roms[k], stat);
            rs.push(x);
            assert(ints(rs@) =~= before.push(x as int));
            assert(want.take(k + 1) =~= before.push(x as int));
            k += 1;
        }
        assert(want.take(want.len() as int) == want);
        assert(ints(rs@).len() == self.roms@.len());
        let best = pick_first_min(&rs);
        self.best_rom = Some(best);
    }

    /// The member to keep, once it is chosen.
    pub fn get_best_rom(&self) -> (r: Option<&RomFile>)
        ensures
            r == match self.best_rom {
                Some(i) => if i < self.roms@.len() {
                    Some(&self.roms@[i as int])
                } else {
                    None
                },
                None => None,
            },
    {
        match self.best_rom {
            Some(i) => if i < self.roms.len() {
                Some(&self.roms[i])
            } else {
                None
            },
            None => None,
        }
    }

    /// The members to remove: all but the one to keep, in order; none before the
    /// choice.
    pub fn get_duplicates(&self) -> (r: Vec<&RomFile>)
        ensures
            self.best_rom is None ==> r@.len() == 0,
            self.best_rom matches Some(b) ==> r@.map_values(|x: &RomFile| *x) == if b
                < self.roms@.len() {
                self.roms@.remove(b as int)
            } else {
                self.roms@
            },
    {
        let mut r: Vec<&RomFile> = Vec::new();
        match self.best_rom {
            None => {},
            Some(b) => {
                let mut k: usize = 0;
                let ghost all = self.roms@;
                assert(r@.map_values(|x: &RomFile| *x) =~= Seq::<RomFile>::empty());
                while k < self.roms.len()
                    invariant
                        k <= self.roms.len(),
                        all == self.roms@,
                        r@.map_values(|x: &RomFile| *x) == if b < k {
                            all.take(k as int).remove(b as int)
                        } else {
                            all.take(k as int)
                        },
                    decreases self.roms.len() - k,
                {
                    let ghost before = r@.map_values(|x: &RomFile| *x);
                    if k != b {
                        r.push(&self.roms[k]);
                        assert(r@.map_values(|x: &RomFile| *x) =~= before.push(all[k as int]));
                    }
                    k += 1;
                    assert(r@.map_values(|x: &RomFile| *x) =~= if b < k {
                        all.take(k as int).remove(b as int)
                    } else {
                        all.take(k as int)
                    });
                }
                assert(all.take(all.len() as int) == all);
            },
        }
        r
    }
}

/// The configuration of a deduplication run.
#[derive(Debug)]
pub struct DeduplicationConfig {
    pub strategy: DuplicationStrategy,
    pub directory_priorities: Vec<String>,
    pub dry_run: bool,
    pub create_backup: bool,
    pub backup_directory: Option<String>,
}

impl Default for DeduplicationConfig {
    fn default() -> (c: Self)
        ensures
            c.strategy == DuplicationStrategy::ByFilenameQuality,
            c.directory_priorities@.len() == 0,
            !c.dry_run,
            !c.create_backup,
            c.backup_directory is None,
    {
        DeduplicationConfig {
            strategy: DuplicationStrategy::ByFilenameQuality,
            directory_priorities: Vec::new(),
            dry_run: false,
            create_backup: false,
            backup_directory: None,
        }
    }
}

/// The counts of a deduplication run.
#[derive(Debug)]
pub struct DeduplicationResult {
    pub total_roms: usize,
    pub unique_roms: usize,
    pub duplicate_groups: usize,
    pub duplicates_removed: usize,
    pub space_saved: u64,
    pub removed_files: Vec<String>,
    pub kept_files: Vec<String>,
}

impl Default for DeduplicationResult {
    fn default() -> (r: Self)
        ensures
            r.total_roms == 0,
            r.unique_roms == 0,
            r.duplicate_groups == 0,
            r.duplicates_removed == 0,
            r.space_saved == 0,
            r.removed_files@.len() == 0,
            r.kept_files@.len() == 0,
    {
        DeduplicationResult {
            total_roms: 0,
            unique_roms: 0,
            duplicate_groups: 0,
            duplicates_removed: 0,
            space_saved: 0,
            removed_files: Vec::new(),
            kept_files: Vec::new(),
        }
    }
}

impl DeduplicationResult {
    /// The share of the records that were removed, in hundredths of a percent,
    /// rounded down; zero where there were no records.
    pub fn deduplication_basis_points(&self) -> (r: u128)
        ensures
            r == if self.total_roms == 0 {
                0
            } else {
                (self.duplicates_removed as int * 10000) / (self.total_roms as int)
            },
    {
        if self.total_roms == 0 {
            0
        } else {
            (self.duplicates_removed as u128 * 10000) / (self.total_roms as u128)
        }
    }
}

} // verus!
