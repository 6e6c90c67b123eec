//! Laws of deduplication: a dry run reports what a real run reports, and a second
//! run over what the first one kept finds nothing.

use vstd::prelude::*;
use crate::dedup_plan::{
    actions_of, first_keyless, group_at, is_first, is_head, key_of, keys_of, lemma_members, lemma_plan_props, members, one_survivor, plan, processed, report_of, rows_at, stat_at, stats_at, DedupSettings, FileStat, Plan,
};
use crate::deduplicator::{first_at_path, freed_by, settled};
use crate::dedup_plan::{paths_at, total_size, touched};
use crate::scanner::RomRow;

verus! {

/// The settings `set` for a dry run or for a real one.
pub open spec fn with_dry(set: DedupSettings, dry: bool) -> DedupSettings {
    DedupSettings { dry_run: dry, ..set }
}

/// A dry run and a real run with otherwise equal settings on the same records
/// either both fail, in the same way, or report the same groups, the same files
/// to remove and to keep, and the same space freed; and the dry run asks for no
/// file operation.
pub proof fn lemma_dry_run_reports_the_same(
    set: DedupSettings,
    roms: Seq<RomRow>,
    stats: Seq<FileStat>,
)
    ensures
        match (
            report_of(with_dry(set, true), roms, stats),
            report_of(with_dry(set, false), roms, stats),
        ) {
            (Ok(dry), Ok(wet)) => {
                &&& dry.removed_files == wet.removed_files
                &&& dry.kept_files == wet.kept_files
                &&& dry.space_freed == wet.space_freed
                &&& dry.files_removed == wet.files_removed
                &&& dry.duplicate_groups == wet.duplicate_groups
                &&& dry.duplicates_found == wet.duplicates_found
                &&& actions_of(with_dry(set, true), dry.removed_files).len() == 0
            },
            (Err(a), Err(b)) => a == b,
            _ => false,
        },
{
}

/// The positions below `n` that are not among `removed`, in rising order.
pub open spec fn survivors(n: int, removed: Seq<int>) -> Seq<int>
    decreases n,
{
    if n <= 0 {
        Seq::empty()
    } else {
        survivors(n - 1, removed) + if removed.contains(n - 1) {
            Seq::empty()
        } else {
            seq![n - 1]
        }
    }
}

/// The survivors are positions below the bound that were not removed, in strictly
/// rising order.
pub proof fn lemma_survivors(n: int, removed: Seq<int>)
    ensures
        forall|a: int|
            0 <= a < survivors(n, removed).len() ==> 0 <= #[trigger] survivors(n, removed)[a] < n
                && !removed.contains(survivors(n, removed)[a]),
        forall|a: int, b: int|
            0 <= a < b < survivors(n, removed).len() ==> survivors(n, removed)[a] < survivors(
                n,
                removed,
            )[b],
    decreases n,
{
    if n > 0 {
        lemma_survivors(n - 1, removed);
        let prev = survivors(n - 1, removed);
        let cur = survivors(n, removed);
        assert forall|a: int| 0 <= a < cur.len() implies 0 <= #[trigger] cur[a] < n
            && !removed.contains(cur[a]) by {
            if a < prev.len() {
                assert(cur[a] == prev[a]);
            }
        }
        assert forall|a: int, b: int| 0 <= a < b < cur.len() implies cur[a] < cur[b] by {
            assert(cur[a] == prev[a]);
            if b < prev.len() {
                assert(cur[b] == prev[b]);
            }
        }
    }
}

/// Where no record lacks a key, every record has one.
pub proof fn lemma_all_keyed(roms: Seq<RomRow>, stats: Seq<FileStat>, n: int)
    requires
        first_keyless(roms, stats, n) is None,
    ensures
        forall|i: int| 0 <= i < n ==> (#[trigger] key_of(roms[i], stat_at(stats, i))) is Some,
    decreases n,
{
    if n > 0 {
        lemma_all_keyed(roms, stats, n - 1);
    }
}

/// Where every record has a key, none lacks one.
pub proof fn lemma_none_keyless(roms: Seq<RomRow>, stats: Seq<FileStat>, n: int)
    requires
        forall|i: int| 0 <= i < n ==> (#[trigger] key_of(roms[i], stat_at(stats, i))) is Some,
    ensures
        first_keyless(roms, stats, n) is None,
    decreases n,
{
    if n > 0 {
        lemma_none_keyless(roms, stats, n - 1);
    }
}

/// Whether no two records have the same key.
pub open spec fn distinct_keys(keys: Seq<u32>) -> bool {
    forall|a: int, b: int| 0 <= a < b < keys.len() ==> keys[a] != keys[b]
}

/// Among records with distinct keys a key has at most one member.
pub proof fn lemma_lonely(keys: Seq<u32>, k: u32, n: int)
    requires
        distinct_keys(keys),
        0 <= n <= keys.len(),
    ensures
        members(keys, k, n).len() <= 1,
        members(keys, k, n).len() == 1 ==> 0 <= members(keys, k, n)[0] < n && keys[members(
            keys,
            k,
            n,
        )[0]] == k,
    decreases n,
{
    if n > 0 {
        lemma_lonely(keys, k, n - 1);
    }
}

/// Records with distinct keys make an empty plan.
pub proof fn lemma_nothing_to_do(
    set: DedupSettings,
    roms: Seq<RomRow>,
    stats: Seq<FileStat>,
    keys: Seq<u32>,
    n: int,
)
    requires
        distinct_keys(keys),
        0 <= n <= keys.len(),
    ensures
        plan(set.strategy, set.dirs, roms, stats, keys, n) == Ok::<Plan, int>(
            Plan { removed: Seq::empty(), kept: Seq::empty() },
        ),
    decreases n,
{
    if n > 0 {
        lemma_nothing_to_do(set, roms, stats, keys, n - 1);
        lemma_lonely(keys, keys[n - 1], keys.len() as int);
    }
}

/// The first record with the key of a record that shares its key opens a
/// duplicate group.
pub proof fn lemma_shared_key_is_processed(keys: Seq<u32>, m1: int, m2: int)
    requires
        0 <= m1 < keys.len(),
        0 <= m2 < keys.len(),
        m1 != m2,
        keys[m1] == keys[m2],
    ensures
        processed(keys, keys.len() as int, keys[m1]),
{
    let k = keys[m1];
    let g = members(keys, k, keys.len() as int);
    lemma_members(keys, k, keys.len() as int);
    assert(g.contains(m1) && g.contains(m2));
    let a1 = choose|a: int| 0 <= a < g.len() && g[a] == m1;
    let a2 = choose|a: int| 0 <= a < g.len() && g[a] == m2;
    assert(a1 != a2);
    assert(g.len() > 1);
    let h = g[0];
    assert(keys[h] == k);
    assert(is_first(keys, h)) by {
        assert forall|j: int| 0 <= j < h implies keys[j] != keys[h] by {
            if keys[j] == k {
                assert(g.contains(j));
                let a = choose|a: int| 0 <= a < g.len() && g[a] == j;
                if a > 0 {
                    assert(g[0] < g[a]);
                }
            }
        }
    }
    assert(group_at(keys, h) == g);
    assert(0 <= h < keys.len() && is_head(keys, h) && keys[h] == k);
}

/// Deduplication is idempotent. Where a run gives a report, a second run with the
/// same settings over the records that the first did not remove gives a report
/// with no duplicate group and nothing to remove. The records that are left are
/// those at the positions `survivors`, in their order, each with what is known of
/// its file.
pub proof fn lemma_second_run_finds_nothing(
    set: DedupSettings,
    roms: Seq<RomRow>,
    stats: Seq<FileStat>,
)
    requires
        report_of(set, roms, stats) is Ok,
    ensures
        ({
            let p = plan(
                set.strategy,
                set.dirs,
                roms,
                stats,
                keys_of(roms, stats),
                roms.len() as int,
            )->Ok_0;
            let left = survivors(roms.len() as int, p.removed);
            let again = report_of(set, rows_at(roms, left), stats_at(stats, left));
            &&& again is Ok
            &&& again->Ok_0.duplicate_groups == 0
            &&& again->Ok_0.duplicates_found == 0
            &&& again->Ok_0.files_removed == 0
            &&& again->Ok_0.space_freed == 0
            &&& again->Ok_0.removed_files.len() == 0
            &&& again->Ok_0.kept_files.len() == 0
        }),
{
    let n = roms.len() as int;
    let keys = keys_of(roms, stats);
    let p = plan(set.strategy, set.dirs, roms, stats, keys, n)->Ok_0;
    let left = survivors(n, p.removed);
    let roms2 = rows_at(roms, left);
    let stats2 = stats_at(stats, left);
    let keys2 = keys_of(roms2, stats2);
    lemma_survivors(n, p.removed);
    lemma_all_keyed(roms, stats, n);
    lemma_plan_props(set.strategy, set.dirs, roms, stats, keys, n);
    assert forall|i: int| 0 <= i < roms2.len() implies (#[trigger] key_of(
        roms2[i],
        stat_at(stats2, i),
    )) is Some by {
        assert(roms2[i] == roms[left[i]]);
        assert(stat_at(stats2, i) == stat_at(stats, left[i]));
        assert(key_of(roms[left[i]], stat_at(stats, left[i])) is Some);
    }
    lemma_none_keyless(roms2, stats2, roms2.len() as int);
    assert forall|a: int, b: int| 0 <= a < b < keys2.len() implies keys2[a] != keys2[b] by {
        assert(roms2[a] == roms[left[a]] && roms2[b] == roms[left[b]]);
        assert(stat_at(stats2, a) == stat_at(stats, left[a]));
        assert(stat_at(stats2, b) == stat_at(stats, left[b]));
        assert(keys2[a] == keys[left[a]] && keys2[b] == keys[left[b]]);
        if keys[left[a]] == keys[left[b]] {
            assert(left[a] < left[b]);
            lemma_shared_key_is_processed(keys, left[a], left[b]);
            assert(!p.removed.contains(left[a]) && !p.removed.contains(left[b]));
            assert(one_survivor(keys, n, p.removed));
        }
    }
    lemma_nothing_to_do(set, roms2, stats2, keys2, keys2.len() as int);
    let p2 = Plan { removed: Seq::<int>::empty(), kept: Seq::<int>::empty() };
    assert(crate::dedup_plan::total_size(roms2, stats2, p2.removed) == 0);
    assert(crate::dedup_plan::paths_at(roms2, p2.removed).len() == 0);
    assert(crate::dedup_plan::paths_at(roms2, p2.kept).len() == 0);
}

/// Whether no two records have one path.
pub open spec fn distinct_paths(roms: Seq<RomRow>) -> bool {
    forall|i: int, j: int| 0 <= i < j < roms.len() ==> (#[trigger] roms[i]).path != (#[trigger] roms[j]).path
}

/// Where no two records have one path, the record at a position is the first
/// with its path.
pub proof fn lemma_first_at_own_path(roms: Seq<RomRow>, i: int, n: int)
    requires
        distinct_paths(roms),
        0 <= i < roms.len(),
        0 <= n <= roms.len(),
    ensures
        first_at_path(roms, roms[i].path, n) == if i < n {
            Some(i)
        } else {
            None::<int>
        },
    decreases n,
{
    if n > 0 {
        lemma_first_at_own_path(roms, i, n - 1);
    }
}

/// Where no two records have one path, the sizes taken by path are the sizes
/// taken by position.
pub proof fn lemma_sizes_by_path(roms: Seq<RomRow>, stats: Seq<FileStat>, at: Seq<int>)
    requires
        distinct_paths(roms),
        forall|k: int| 0 <= k < at.len() ==> 0 <= #[trigger] at[k] < roms.len(),
    ensures
        freed_by(roms, stats, paths_at(roms, at)) == total_size(roms, stats, at),
    decreases at.len(),
{
    if at.len() > 0 {
        lemma_sizes_by_path(roms, stats, at.drop_last());
        assert(paths_at(roms, at).drop_last() =~= paths_at(roms, at.drop_last()));
        assert(paths_at(roms, at).last() == roms[at.last()].path);
        lemma_first_at_own_path(roms, at.last(), roms.len() as int);
    } else {
        assert(paths_at(roms, at) =~= Seq::<Seq<char>>::empty());
    }
}

/// Where no two records have one path, a run in which every planned removal
/// worked ends with the report that was planned: the same files, the same
/// number, the same space freed.
pub proof fn lemma_full_run_keeps_the_report(
    set: DedupSettings,
    roms: Seq<RomRow>,
    stats: Seq<FileStat>,
)
    requires
        distinct_paths(roms),
        report_of(set, roms, stats) is Ok,
    ensures
        settled(
            set,
            roms,
            stats,
            report_of(set, roms, stats)->Ok_0,
            report_of(set, roms, stats)->Ok_0.removed_files,
        ) == report_of(set, roms, stats)->Ok_0,
{
    let keys = keys_of(roms, stats);
    let p = plan(set.strategy, set.dirs, roms, stats, keys, roms.len() as int)->Ok_0;
    lemma_plan_props(set.strategy, set.dirs, roms, stats, keys, roms.len() as int);
    assert forall|k: int| 0 <= k < p.removed.len() implies 0 <= #[trigger] p.removed[k]
        < roms.len() by {
        assert(touched(p)[k] == p.removed[k]);
    }
    lemma_sizes_by_path(roms, stats, p.removed);
}

} // verus!
