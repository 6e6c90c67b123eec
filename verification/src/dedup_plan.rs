//! What deduplication means: the groups of records with one checksum, the member
//! that each group keeps, and the report that follows.

use vstd::prelude::*;
use crate::ranking::{first_min, lemma_first_min_exists, path_under, quality_rank, region_rank};
use crate::scanner::RomRow;

verus! {

/// How the member to keep is chosen.
#[derive(Debug, Clone, Copy, PartialEq, Eq, Structural)]
pub enum Strategy {
    /// The best region wins, quality breaks ties.
    RegionPriority,
    /// The largest file wins.
    FileSize,
    /// The most recently modified file wins.
    ModificationDate,
    /// The first file under the first priority directory wins.
    DirectoryPriority,
    /// The best quality wins, region breaks ties.
    FilenameQuality,
}

/// What the file system said of one record's file: its checksum if it was computed,
/// its length and its modification time if its metadata could be read.
#[derive(Debug, Clone, Copy, PartialEq, Eq, Structural)]
pub struct FileStat {
    pub hash: Option<u32>,
    pub len: Option<u64>,
    pub modified: Option<u64>,
}

/// The settings of deduplication as a mathematical value.
pub struct DedupSettings {
    pub strategy: Strategy,
    pub dirs: Seq<Seq<char>>,
    pub dry_run: bool,
    pub backup: bool,
    pub backup_directory: Option<Seq<char>>,
}

/// What is known of the file of record `i`; nothing where `stats` is too short.
pub open spec fn stat_at(stats: Seq<FileStat>, i: int) -> FileStat {
    if 0 <= i < stats.len() {
        stats[i]
    } else {
        FileStat { hash: None, len: None, modified: None }
    }
}

/// The content key of a record: its own checksum, else the one computed for it.
pub open spec fn key_of(r: RomRow, s: FileStat) -> Option<u32> {
    match r.crc32 {
        Some(c) => Some(c),
        None => s.hash,
    }
}

/// The byte size of a record's file: the recorded one unless it is zero, else the
/// length the file system gave, else zero.
pub open spec fn effective_size(r: RomRow, s: FileStat) -> u64 {
    if r.size > 0 {
        r.size
    } else {
        match s.len {
            Some(n) => n,
            None => 0,
        }
    }
}

/// The first of the first `n` records that has no content key.
pub open spec fn first_keyless(roms: Seq<RomRow>, stats: Seq<FileStat>, n: int) -> Option<int>
    decreases n,
{
    if n <= 0 {
        None
    } else {
        match first_keyless(roms, stats, n - 1) {
            Some(i) => Some(i),
            None => if key_of(roms[n - 1], stat_at(stats, n - 1)) is None {
                Some(n - 1)
            } else {
                None
            },
        }
    }
}

/// The content keys of the records, in order.
pub open spec fn keys_of(roms: Seq<RomRow>, stats: Seq<FileStat>) -> Seq<u32> {
    Seq::new(
        roms.len(),
        |i: int|
            match key_of(roms[i], stat_at(stats, i)) {
                Some(c) => c,
                None => 0,
            },
    )
}

/// The positions below `n` whose key is `k`, in rising order.
pub open spec fn members(keys: Seq<u32>, k: u32, n: int) -> Seq<int>
    decreases n,
{
    if n <= 0 {
        Seq::empty()
    } else {
        members(keys, k, n - 1) + if keys[n - 1] == k {
            seq![n - 1]
        } else {
            Seq::empty()
        }
    }
}

/// Whether no earlier record has the key of record `i`.
pub open spec fn is_first(keys: Seq<u32>, i: int) -> bool {
    forall|j: int| 0 <= j < i ==> keys[j] != keys[i]
}

/// The group of record `i`: all positions with its key.
pub open spec fn group_at(keys: Seq<u32>, i: int) -> Seq<int> {
    members(keys, keys[i], keys.len() as int)
}

/// Whether record `i` opens a duplicate group: it is the first with its key and not
/// the only one.
pub open spec fn is_head(keys: Seq<u32>, i: int) -> bool {
    is_first(keys, i) && group_at(keys, i).len() > 1
}

/// The position of the first of `dirs` that `path` lies under; their number where
/// it lies under none.
pub open spec fn dir_rank(path: Seq<char>, dirs: Seq<Seq<char>>) -> int
    decreases dirs.len(),
{
    if dirs.len() == 0 {
        0
    } else if path_under(path, dirs[0]) {
        0
    } else {
        1 + dir_rank(path, dirs.skip(1))
    }
}

/// The rank of a record under a strategy; the lowest rank wins.
pub open spec fn rank(strategy: Strategy, dirs: Seq<Seq<char>>, r: RomRow, s: FileStat) -> int {
    match strategy {
        Strategy::RegionPriority => region_rank(r.path),
        Strategy::FileSize => -(effective_size(r, s) as int),
        Strategy::ModificationDate => match s.modified {
            Some(t) => -(t as int),
            None => 0,
        },
        Strategy::DirectoryPriority => dir_rank(r.path, dirs),
        Strategy::FilenameQuality => -quality_rank(r.path),
    }
}

/// The records at the positions `g`.
pub open spec fn rows_at(roms: Seq<RomRow>, g: Seq<int>) -> Seq<RomRow> {
    Seq::new(g.len(), |k: int| roms[g[k]])
}

/// What is known of the files of the records at the positions `g`.
pub open spec fn stats_at(stats: Seq<FileStat>, g: Seq<int>) -> Seq<FileStat> {
    Seq::new(g.len(), |k: int| stat_at(stats, g[k]))
}

/// The ranks of the members of a group, in the order of the group.
pub open spec fn ranks(
    strategy: Strategy,
    dirs: Seq<Seq<char>>,
    rows: Seq<RomRow>,
    stats: Seq<FileStat>,
) -> Seq<int> {
    Seq::new(rows.len(), |k: int| rank(strategy, dirs, rows[k], stat_at(stats, k)))
}

/// The position within a group of the member to keep: the first with the lowest
/// rank. Where directories decide and no member lies under any of them, file name
/// quality decides instead.
pub open spec fn best_pos(
    strategy: Strategy,
    dirs: Seq<Seq<char>>,
    rows: Seq<RomRow>,
    stats: Seq<FileStat>,
) -> int {
    let rs = ranks(strategy, dirs, rows, stats);
    let k = first_min(rs);
    if strategy == Strategy::DirectoryPriority && (rows.len() == 0 || rs[k] >= dirs.len()) {
        first_min(ranks(Strategy::FilenameQuality, dirs, rows, stats))
    } else {
        k
    }
}

/// The first of the first `n` members of a group whose modification time is
/// unknown.
pub open spec fn first_undated(stats: Seq<FileStat>, n: int) -> Option<int>
    decreases n,
{
    if n <= 0 {
        None
    } else {
        match first_undated(stats, n - 1) {
            Some(i) => Some(i),
            None => if stat_at(stats, n - 1).modified is None {
                Some(n - 1)
            } else {
                None
            },
        }
    }
}

/// A member whose modification time is unknown stays the first one as more members
/// are looked at.
pub proof fn lemma_first_undated_stays(stats: Seq<FileStat>, m: int, n: int)
    requires
        m <= n,
        first_undated(stats, m) is Some,
    ensures
        first_undated(stats, n) == first_undated(stats, m),
    decreases n - m,
{
    if m < n {
        lemma_first_undated_stays(stats, m, n - 1);
    }
}

/// The first member whose modification time is unknown is one of the members
/// looked at.
pub proof fn lemma_undated_in_range(stats: Seq<FileStat>, n: int)
    ensures
        first_undated(stats, n) matches Some(k) ==> 0 <= k < n,
    decreases n,
{
    if n > 0 {
        lemma_undated_in_range(stats, n - 1);
    }
}

/// A record without a content key stays the first one as more records are looked
/// at.
pub proof fn lemma_first_keyless_stays(roms: Seq<RomRow>, stats: Seq<FileStat>, m: int, n: int)
    requires
        m <= n,
        first_keyless(roms, stats, m) is Some,
    ensures
        first_keyless(roms, stats, n) == first_keyless(roms, stats, m),
    decreases n - m,
{
    if m < n {
        lemma_first_keyless_stays(roms, stats, m, n - 1);
    }
}

/// The choice within one group: the position of the member to keep, or the
/// position of the member whose unknown modification time stops the choice.
pub open spec fn choice(
    strategy: Strategy,
    dirs: Seq<Seq<char>>,
    rows: Seq<RomRow>,
    stats: Seq<FileStat>,
) -> Result<int, int> {
    if strategy == Strategy::ModificationDate && first_undated(stats, rows.len() as int) is Some {
        Err(first_undated(stats, rows.len() as int)->0)
    } else {
        Ok(best_pos(strategy, dirs, rows, stats))
    }
}

/// The outcome of deduplication in positions: the positions to remove and the
/// positions kept, one for each duplicate group.
pub struct Plan {
    pub removed: Seq<int>,
    pub kept: Seq<int>,
}

/// The plan for the groups opened by the first `n` records, or the position of the
/// record whose unknown modification time stopped the choice. Groups come in the
/// order of their first members; the members to remove keep their order.
pub open spec fn plan(
    strategy: Strategy,
    dirs: Seq<Seq<char>>,
    roms: Seq<RomRow>,
    stats: Seq<FileStat>,
    keys: Seq<u32>,
    n: int,
) -> Result<Plan, int>
    decreases n,
{
    if n <= 0 {
        Ok(Plan { removed: Seq::empty(), kept: Seq::empty() })
    } else {
        match plan(strategy, dirs, roms, stats, keys, n - 1) {
            Err(e) => Err(e),
            Ok(p) => if is_head(keys, n - 1) {
                let g = group_at(keys, n - 1);
                match choice(strategy, dirs, rows_at(roms, g), stats_at(stats, g)) {
                    Err(k) => Err(g[k]),
                    Ok(b) => Ok(Plan { removed: p.removed + g.remove(b), kept: p.kept.push(g[b]) }),
                }
            } else {
                Ok(p)
            },
        }
    }
}

/// The sum of the byte sizes of the records at the positions `at`.
pub open spec fn total_size(roms: Seq<RomRow>, stats: Seq<FileStat>, at: Seq<int>) -> nat
    decreases at.len(),
{
    if at.len() == 0 {
        0
    } else {
        total_size(roms, stats, at.drop_last()) + effective_size(
            roms[at.last()],
            stat_at(stats, at.last()),
        ) as nat
    }
}

/// The paths of the records at the positions `at`.
pub open spec fn paths_at(roms: Seq<RomRow>, at: Seq<int>) -> Seq<Seq<char>> {
    Seq::new(at.len(), |k: int| roms[at[k]].path)
}

/// A deduplication report as a mathematical value.
pub struct ReportRow {
    pub duplicate_groups: nat,
    pub duplicates_found: nat,
    pub files_removed: nat,
    pub space_freed: u64,
    pub backup_location: Option<Seq<char>>,
    pub removed_files: Seq<Seq<char>>,
    pub kept_files: Seq<Seq<char>>,
}

/// Why deduplication gave no report.
pub enum FailureRow {
    /// The record at this path has no checksum and none could be computed.
    HashUnavailable(Seq<char>),
    /// The modification time of the file at this path could not be read.
    MetadataUnreadable(Seq<char>),
}

/// The directory that backups go to.
pub open spec fn backup_dir_of(set: DedupSettings) -> Seq<char> {
    match set.backup_directory {
        Some(d) => d,
        None => "./backup"@,
    }
}

/// A number of bytes, as far as 64 bits can tell it.
pub open spec fn capped(n: nat) -> u64 {
    if n > u64::MAX {
        u64::MAX
    } else {
        n as u64
    }
}

/// The report of deduplication. It does not depend on whether the run is dry,
/// but for the backup location, which only a run that makes backups has.
pub open spec fn report_of(set: DedupSettings, roms: Seq<RomRow>, stats: Seq<FileStat>) -> Result<
    ReportRow,
    FailureRow,
> {
    match first_keyless(roms, stats, roms.len() as int) {
        Some(i) => Err(FailureRow::HashUnavailable(roms[i].path)),
        None => match plan(
            set.strategy,
            set.dirs,
            roms,
            stats,
            keys_of(roms, stats),
            roms.len() as int,
        ) {
            Err(i) => Err(FailureRow::MetadataUnreadable(roms[i].path)),
            Ok(p) => Ok(
                ReportRow {
                    duplicate_groups: p.kept.len(),
                    duplicates_found: p.removed.len() + p.kept.len(),
                    files_removed: p.removed.len(),
                    space_freed: capped(total_size(roms, stats, p.removed)),
                    backup_location: if set.backup && !set.dry_run {
                        Some(backup_dir_of(set))
                    } else {
                        None
                    },
                    removed_files: paths_at(roms, p.removed),
                    kept_files: paths_at(roms, p.kept),
                },
            ),
        },
    }
}


/// A plan that was stopped stays stopped as more records are looked at.
pub proof fn lemma_plan_stays_stopped(
    strategy: Strategy,
    dirs: Seq<Seq<char>>,
    roms: Seq<RomRow>,
    stats: Seq<FileStat>,
    keys: Seq<u32>,
    m: int,
    n: int,
)
    requires
        m <= n,
        plan(strategy, dirs, roms, stats, keys, m) is Err,
    ensures
        plan(strategy, dirs, roms, stats, keys, n) == plan(strategy, dirs, roms, stats, keys, m),
    decreases n - m,
{
    if m < n {
        lemma_plan_stays_stopped(strategy, dirs, roms, stats, keys, m, n - 1);
    }
}

/// The members of a group lie below the bound, in strictly rising order, and have
/// the key of the group.
pub proof fn lemma_members(keys: Seq<u32>, k: u32, n: int)
    requires
        0 <= n <= keys.len(),
    ensures
        members(keys, k, n).len() <= n,
        forall|a: int|
            0 <= a < members(keys, k, n).len() ==> 0 <= #[trigger] members(keys, k, n)[a] < n
                && keys[members(keys, k, n)[a]] == k,
        forall|a: int, b: int|
            0 <= a < b < members(keys, k, n).len() ==> members(keys, k, n)[a] < members(
                keys,
                k,
                n,
            )[b],
        forall|j: int| 0 <= j < n && keys[j] == k ==> members(keys, k, n).contains(j),
    decreases n,
{
    if n > 0 {
        lemma_members(keys, k, n - 1);
        let prev = members(keys, k, n - 1);
        let cur = members(keys, k, n);
        assert forall|j: int| 0 <= j < n && keys[j] == k implies cur.contains(j) by {
            if j < n - 1 {
                let a = choose|a: int| 0 <= a < prev.len() && prev[a] == j;
                assert(cur[a] == j);
            } else {
                assert(cur[cur.len() - 1] == j);
            }
        }
    }
}

/// The member to keep is a member.
pub proof fn lemma_best_pos_in_range(
    strategy: Strategy,
    dirs: Seq<Seq<char>>,
    rows: Seq<RomRow>,
    stats: Seq<FileStat>,
)
    requires
        rows.len() > 0,
    ensures
        0 <= best_pos(strategy, dirs, rows, stats) < rows.len(),
{
    lemma_first_min_exists(ranks(strategy, dirs, rows, stats));
    lemma_first_min_exists(ranks(Strategy::FilenameQuality, dirs, rows, stats));
}

/// Whether one of the first `n` records has the key `k`.
pub open spec fn seen(keys: Seq<u32>, n: int, k: u32) -> bool {
    exists|h: int| 0 <= h < n && #[trigger] keys[h] == k
}

/// Whether one of the first `n` records opens a duplicate group with the key `k`.
pub open spec fn processed(keys: Seq<u32>, n: int, k: u32) -> bool {
    exists|h: int| 0 <= h < n && is_head(keys, h) && #[trigger] keys[h] == k
}

/// The positions that a plan speaks of: those to remove, then those kept.
pub open spec fn touched(p: Plan) -> Seq<int> {
    p.removed + p.kept
}

/// Whether the positions `c` are positions of records with keys that some of the
/// first `n` records have.
pub open spec fn in_range_seen(keys: Seq<u32>, n: int, c: Seq<int>) -> bool {
    forall|a: int|
        0 <= a < c.len() ==> 0 <= #[trigger] c[a] < keys.len() && seen(keys, n, keys[c[a]])
}

/// Whether, of the members of each group that one of the first `n` records
/// opens, at most one is not among `removed`.
pub open spec fn one_survivor(keys: Seq<u32>, n: int, removed: Seq<int>) -> bool {
    forall|m1: int, m2: int|
        0 <= m1 < keys.len() && 0 <= m2 < keys.len() && keys[m1] == keys[m2] && processed(
            keys,
            n,
            keys[m1],
        ) && !removed.contains(m1) && !removed.contains(m2) ==> m1 == m2
}

/// What holds of a plan for the first `n` records: its positions are positions of
/// records, none occurs twice, each has a key that one of the first `n` records
/// has, and of the members of a group that was opened at most one is not removed.
pub open spec fn plan_ok(keys: Seq<u32>, n: int, p: Plan) -> bool {
    &&& in_range_seen(keys, n, touched(p))
    &&& touched(p).no_duplicates()
    &&& one_survivor(keys, n, p.removed)
}

/// The plan after the group `g` was added, of which the member at `b` is kept.
pub open spec fn grown(p0: Plan, g: Seq<int>, b: int) -> Plan {
    Plan { removed: p0.removed + g.remove(b), kept: p0.kept.push(g[b]) }
}

/// Whether `g` lists positions of records with the key `k` in strictly rising
/// order.
pub open spec fn rising_group(keys: Seq<u32>, g: Seq<int>, k: u32) -> bool {
    &&& forall|a: int| 0 <= a < g.len() ==> 0 <= #[trigger] g[a] < keys.len() && keys[g[a]] == k
    &&& forall|a: int, b: int| 0 <= a < b < g.len() ==> g[a] < g[b]
}

/// A key seen among fewer records is seen among more.
pub proof fn lemma_seen_more(keys: Seq<u32>, n: int, c: Seq<int>)
    requires
        in_range_seen(keys, n - 1, c),
    ensures
        in_range_seen(keys, n, c),
{
    assert forall|a: int| 0 <= a < c.len() implies 0 <= #[trigger] c[a] < keys.len() && seen(
        keys,
        n,
        keys[c[a]],
    ) by {
        let h = choose|h: int| 0 <= h < n - 1 && #[trigger] keys[h] == keys[c[a]];
        assert(0 <= h < n && keys[h] == keys[c[a]]);
    }
}

/// The positions of a grown plan are positions of records with keys that are seen.
pub proof fn lemma_step_range(keys: Seq<u32>, n: int, p0: Plan, g: Seq<int>, b: int)
    requires
        0 < n <= keys.len(),
        0 <= b < g.len(),
        in_range_seen(keys, n - 1, touched(p0)),
        rising_group(keys, g, keys[n - 1]),
    ensures
        in_range_seen(keys, n, touched(grown(p0, g, b))),
{
    let c = touched(grown(p0, g, b));
    lemma_seen_more(keys, n, touched(p0));
    assert(0 <= n - 1 < n && keys[n - 1] == keys[n - 1]);
    assert(seen(keys, n, keys[n - 1]));
    assert forall|a: int| 0 <= a < c.len() implies 0 <= #[trigger] c[a] < keys.len() && seen(
        keys,
        n,
        keys[c[a]],
    ) by {
        lemma_touched_origin(p0, g, b, a);
        let o = origin(p0, g, b, a);
        if o.0 {
            assert(c[a] == touched(p0)[o.1]);
        } else {
            assert(c[a] == g[o.1]);
        }
    }
}

/// No position occurs twice in a grown plan.
pub proof fn lemma_step_nodup(keys: Seq<u32>, n: int, p0: Plan, g: Seq<int>, b: int)
    requires
        0 < n <= keys.len(),
        0 <= b < g.len(),
        in_range_seen(keys, n - 1, touched(p0)),
        touched(p0).no_duplicates(),
        rising_group(keys, g, keys[n - 1]),
        !seen(keys, n - 1, keys[n - 1]),
    ensures
        touched(grown(p0, g, b)).no_duplicates(),
{
    let c = touched(grown(p0, g, b));
    let c0 = touched(p0);
    assert forall|a1: int, a2: int| 0 <= a1 < c.len() && 0 <= a2 < c.len() && a1
        != a2 implies c[a1] != c[a2] by {
        lemma_touched_origin(p0, g, b, a1);
        lemma_touched_origin(p0, g, b, a2);
        let o1 = origin(p0, g, b, a1);
        let o2 = origin(p0, g, b, a2);
        if o1.0 && o2.0 {
            assert(o1.1 != o2.1);
            assert(c0[o1.1] != c0[o2.1]);
        } else if !o1.0 && !o2.0 {
            assert(o1.1 != o2.1);
            if o1.1 < o2.1 {
                assert(g[o1.1] < g[o2.1]);
            } else {
                assert(g[o2.1] < g[o1.1]);
            }
        } else if o1.0 {
            assert(seen(keys, n - 1, keys[c0[o1.1]]));
            assert(keys[g[o2.1]] == keys[n - 1]);
        } else {
            assert(seen(keys, n - 1, keys[c0[o2.1]]));
            assert(keys[g[o1.1]] == keys[n - 1]);
        }
    }
}

/// Of each opened group at most one member survives in a grown plan.
pub proof fn lemma_step_survivor(keys: Seq<u32>, n: int, r0: Seq<int>, g: Seq<int>, b: int)
    requires
        0 < n <= keys.len(),
        0 <= b < g.len(),
        one_survivor(keys, n - 1, r0),
        forall|j: int| 0 <= j < keys.len() && keys[j] == keys[n - 1] ==> g.contains(j),
    ensures
        one_survivor(keys, n, r0 + g.remove(b)),
{
    let gone = g.remove(b);
    let r = r0 + gone;
    assert forall|m: int| r0.contains(m) implies r.contains(m) by {
        let a = choose|a: int| 0 <= a < r0.len() && r0[a] == m;
        assert(r[a] == m);
    }
    assert forall|m1: int, m2: int|
        0 <= m1 < keys.len() && 0 <= m2 < keys.len() && keys[m1] == keys[m2] && processed(
            keys,
            n,
            keys[m1],
        ) && !r.contains(m1) && !r.contains(m2) implies m1 == m2 by {
        if keys[m1] == keys[n - 1] {
            assert(g.contains(m1) && g.contains(m2));
            let j1 = choose|j: int| 0 <= j < g.len() && g[j] == m1;
            let j2 = choose|j: int| 0 <= j < g.len() && g[j] == m2;
            if j1 != b {
                let j = if j1 < b {
                    j1
                } else {
                    j1 - 1
                };
                assert(gone[j] == m1);
                assert(r[r0.len() + j] == m1);
            }
            if j2 != b {
                let j = if j2 < b {
                    j2
                } else {
                    j2 - 1
                };
                assert(gone[j] == m2);
                assert(r[r0.len() + j] == m2);
            }
        } else {
            let h = choose|h: int| 0 <= h < n && is_head(keys, h) && #[trigger] keys[h] == keys[m1];
            assert(0 <= h < n - 1 && is_head(keys, h) && keys[h] == keys[m1]);
            assert(processed(keys, n - 1, keys[m1]));
        }
    }
}

/// Where the next record opens no group, the survivors are as before.
pub proof fn lemma_skip_survivor(keys: Seq<u32>, n: int, r0: Seq<int>)
    requires
        0 < n <= keys.len(),
        one_survivor(keys, n - 1, r0),
        !is_head(keys, n - 1),
    ensures
        one_survivor(keys, n, r0),
{
    assert forall|m1: int, m2: int|
        0 <= m1 < keys.len() && 0 <= m2 < keys.len() && keys[m1] == keys[m2] && processed(
            keys,
            n,
            keys[m1],
        ) && !r0.contains(m1) && !r0.contains(m2) implies m1 == m2 by {
        let h = choose|h: int| 0 <= h < n && is_head(keys, h) && #[trigger] keys[h] == keys[m1];
        assert(0 <= h < n - 1 && is_head(keys, h) && keys[h] == keys[m1]);
        assert(processed(keys, n - 1, keys[m1]));
    }
}

/// The group of a record lists positions with its key in strictly rising order and
/// misses none.
pub proof fn lemma_group(keys: Seq<u32>, i: int)
    requires
        0 <= i < keys.len(),
    ensures
        rising_group(keys, group_at(keys, i), keys[i]),
        forall|j: int| 0 <= j < keys.len() && keys[j] == keys[i] ==> group_at(keys, i).contains(j),
        group_at(keys, i).len() <= keys.len(),
{
    lemma_members(keys, keys[i], keys.len() as int);
}

/// A plan that was not stopped is sound.
pub proof fn lemma_plan_props(
    strategy: Strategy,
    dirs: Seq<Seq<char>>,
    roms: Seq<RomRow>,
    stats: Seq<FileStat>,
    keys: Seq<u32>,
    n: int,
)
    requires
        0 <= n <= keys.len(),
        plan(strategy, dirs, roms, stats, keys, n) is Ok,
    ensures
        plan_ok(keys, n, plan(strategy, dirs, roms, stats, keys, n)->Ok_0),
    decreases n,
{
    if n > 0 {
        let q = plan(strategy, dirs, roms, stats, keys, n - 1);
        assert(q is Ok);
        lemma_plan_props(strategy, dirs, roms, stats, keys, n - 1);
        let p0 = q->Ok_0;
        let p = plan(strategy, dirs, roms, stats, keys, n)->Ok_0;
        if is_head(keys, n - 1) {
            let g = group_at(keys, n - 1);
            lemma_group(keys, n - 1);
            lemma_best_pos_in_range(strategy, dirs, rows_at(roms, g), stats_at(stats, g));
            let b = best_pos(strategy, dirs, rows_at(roms, g), stats_at(stats, g));
            assert(p == grown(p0, g, b));
            assert(!seen(keys, n - 1, keys[n - 1]));
            lemma_step_range(keys, n, p0, g, b);
            lemma_step_nodup(keys, n, p0, g, b);
            lemma_step_survivor(keys, n, p0.removed, g, b);
        } else {
            assert(p == p0);
            lemma_seen_more(keys, n, touched(p0));
            lemma_skip_survivor(keys, n, p0.removed);
        }
    } else {
        let p = plan(strategy, dirs, roms, stats, keys, n)->Ok_0;
        assert(touched(p) =~= Seq::<int>::empty());
    }
}

/// Where a position of a plan that grew by one group comes from: from the plan
/// before, or from the group.
pub open spec fn origin(p0: Plan, g: Seq<int>, b: int, a: int) -> (bool, int) {
    let gone = g.remove(b);
    if a < p0.removed.len() {
        (true, a)
    } else if a < p0.removed.len() + gone.len() {
        let j = a - p0.removed.len();
        (
            false,
            if j < b {
                j
            } else {
                j + 1
            },
        )
    } else if a < p0.removed.len() + gone.len() + p0.kept.len() {
        (true, a - gone.len())
    } else {
        (false, b)
    }
}

/// Each position of the grown plan is the position of the plan before, or the
/// member of the group, that `origin` names, and different places have different
/// origins.
pub proof fn lemma_touched_origin(p0: Plan, g: Seq<int>, b: int, a: int)
    requires
        0 <= b < g.len(),
        0 <= a < touched(p0).len() + g.len(),
    ensures
        ({
            let p = grown(p0, g, b);
            let o = origin(p0, g, b, a);
            &&& touched(p).len() == touched(p0).len() + g.len()
            &&& o.0 ==> 0 <= o.1 < touched(p0).len() && touched(p)[a] == touched(p0)[o.1]
            &&& !o.0 ==> 0 <= o.1 < g.len() && touched(p)[a] == g[o.1]
        }),
{
}

/// Rows without duplicates whose entries lie in a range are no more than the range
/// is long.
pub proof fn lemma_pigeonhole(c: Seq<int>, n: int)
    requires
        0 <= n,
        c.no_duplicates(),
        forall|a: int| 0 <= a < c.len() ==> 0 <= #[trigger] c[a] < n,
    ensures
        c.len() <= n,
{
    vstd::set_lib::lemma_int_range(0, n);
    assert(c.to_set().subset_of(vstd::set_lib::set_int_range(0, n))) by {
        assert forall|x: int| c.to_set().contains(x) implies vstd::set_lib::set_int_range(
            0,
            n,
        ).contains(x) by {
            let a = choose|a: int| 0 <= a < c.len() && c[a] == x;
        }
    }
    vstd::set_lib::lemma_len_subset(c.to_set(), vstd::set_lib::set_int_range(0, n));
    c.unique_seq_to_set();
}

/// What a file operation does.
pub enum ActionRow {
    CreateDir(Seq<char>),
    Copy { from: Seq<char>, to: Seq<char> },
    Delete(Seq<char>),
}

/// Where the backup of the file at `path` goes.
pub open spec fn backup_target(set: DedupSettings, path: Seq<char>) -> Seq<char> {
    backup_dir_of(set) + "/"@ + crate::paths::file_name_of(path)
}

/// The operations for the removal of the files at `paths`, in order: for each file
/// a copy into the backup directory, where backups are made, then its deletion.
pub open spec fn removals(set: DedupSettings, paths: Seq<Seq<char>>) -> Seq<ActionRow>
    decreases paths.len(),
{
    if paths.len() == 0 {
        Seq::empty()
    } else {
        removals(set, paths.drop_last()) + (if set.backup {
            seq![ActionRow::Copy { from: paths.last(), to: backup_target(set, paths.last()) }]
        } else {
            Seq::empty()
        }) + seq![ActionRow::Delete(paths.last())]
    }
}

/// The file operations that carry out a report: none in a dry run; else the
/// backup directory is made first, where backups are made, then the files are
/// removed one by one.
pub open spec fn actions_of(set: DedupSettings, removed: Seq<Seq<char>>) -> Seq<ActionRow> {
    if set.dry_run {
        Seq::empty()
    } else {
        (if set.backup {
            seq![ActionRow::CreateDir(backup_dir_of(set))]
        } else {
            Seq::empty()
        }) + removals(set, removed)
    }
}

} // verus!
