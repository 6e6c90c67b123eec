//! The hash cache: remembers the checksum of a file together with the size and the
//! modification time that the file had, and forgets it once either has changed.

use vstd::prelude::*;
use crate::dat_parser::opt_text;
use crate::str_map::StrMap;

verus! {

/// What the cache knows of one file.
#[derive(Debug, Clone, Copy, PartialEq, Eq, Structural)]
pub struct CacheEntry {
    pub crc32: u32,
    pub file_size: u64,
    pub modified_time: u64,
    pub last_accessed: u64,
}

/// The size and the modification time of a file as the file system gives them now.
#[derive(Debug, Clone, Copy, PartialEq, Eq, Structural)]
pub struct FileMeta {
    pub size: u64,
    pub modified: u64,
}

/// What can go wrong with the cache.
#[derive(Debug)]
pub enum CacheError {
    /// The metadata of the file at this path could not be read.
    MetadataUnreadable(String),
}

/// Figures of the cache for display.
#[derive(Debug)]
pub struct DetailedCacheStats {
    pub total_entries: usize,
    pub cache_size: u64,
    pub cache_hits: u64,
    pub cache_misses: u64,
    pub total_requests: u64,
    pub last_updated: String,
}

/// Whether an entry is valid for a file with the metadata `meta`.
pub open spec fn valid_for(e: CacheEntry, meta: FileMeta) -> bool {
    e.file_size == meta.size && e.modified_time == meta.modified
}

/// The table after a lookup of `path` at time `now`: a valid entry is marked as
/// accessed, a stale one is gone.
pub open spec fn table_after_lookup(
    m: Map<Seq<char>, CacheEntry>,
    path: Seq<char>,
    meta: FileMeta,
    now: u64,
) -> Map<Seq<char>, CacheEntry> {
    if !m.contains_key(path) {
        m
    } else if valid_for(m[path], meta) {
        m.insert(path, CacheEntry { last_accessed: now, ..m[path] })
    } else {
        m.remove(path)
    }
}

/// What a lookup of `path` gives: the checksum of a valid entry.
pub open spec fn looked_up(m: Map<Seq<char>, CacheEntry>, path: Seq<char>, meta: FileMeta) -> Option<
    u32,
> {
    if m.contains_key(path) && valid_for(m[path], meta) {
        Some(m[path].crc32)
    } else {
        None
    }
}

/// The entry that a store at time `now` makes.
pub open spec fn fresh_entry(crc32: u32, meta: FileMeta, now: u64) -> CacheEntry {
    CacheEntry {
        crc32: crc32,
        file_size: meta.size,
        modified_time: meta.modified,
        last_accessed: now,
    }
}

/// What is to be done next for the checksum of a file.
#[derive(Debug, Clone, Copy, PartialEq, Eq, Structural)]
pub enum HashStep {
    /// The cache knows the checksum.
    Known(u32),
    /// The checksum is to be computed from the file.
    Compute,
}

/// The first step for the checksum of the file at `path`: it is known where the
/// cache holds an entry that is valid for the file's metadata, else it is to be
/// computed.
pub open spec fn first_hash_step(
    m: Map<Seq<char>, CacheEntry>,
    path: Seq<char>,
    meta: Option<FileMeta>,
) -> HashStep {
    match meta {
        Some(me) => match looked_up(m, path, me) {
            Some(c) => HashStep::Known(c),
            None => HashStep::Compute,
        },
        None => HashStep::Compute,
    }
}

/// The table after the checksum of the file at `path` was computed, unless that
/// failed, and remembered, unless the file's metadata cannot be read.
pub open spec fn table_after_hash(
    m: Map<Seq<char>, CacheEntry>,
    path: Seq<char>,
    computed: Option<u32>,
    meta: Option<FileMeta>,
    now: u64,
) -> Map<Seq<char>, CacheEntry> {
    match (computed, meta) {
        (Some(c), Some(me)) => m.insert(path, fresh_entry(c, me, now)),
        _ => m,
    }
}

/// The number of seconds in `days` days.
pub open spec fn age_limit(days: u64) -> nat {
    (days * 86400) as nat
}

/// The age of an entry at `now`, in seconds: nothing where it was accessed later.
pub open spec fn age_of(e: CacheEntry, now: u64) -> nat {
    if now >= e.last_accessed {
        (now - e.last_accessed) as nat
    } else {
        0
    }
}

/// Whether an entry is no older than `limit` seconds at `now`.
pub open spec fn is_recent(e: CacheEntry, now: u64, limit: nat) -> bool {
    age_of(e, now) <= limit
}

/// The table without the entries that are older than `limit` seconds at `now`.
pub open spec fn swept(m: Map<Seq<char>, CacheEntry>, now: u64, limit: nat) -> Map<
    Seq<char>,
    CacheEntry,
> {
    Map::new(|k: Seq<char>| m.contains_key(k) && is_recent(m[k], now, limit), |k: Seq<char>| m[k])
}

/// The table that a list of pairs of path and entry makes: a later pair replaces
/// an earlier one with the same path.
pub open spec fn restored(pairs: Seq<(Seq<char>, CacheEntry)>) -> Map<Seq<char>, CacheEntry>
    decreases pairs.len(),
{
    if pairs.len() == 0 {
        Map::empty()
    } else {
        restored(pairs.drop_last()).insert(pairs.last().0, pairs.last().1)
    }
}

/// The pairs of a list as mathematical values.
pub open spec fn pair_rows(v: Seq<(String, CacheEntry)>) -> Seq<(Seq<char>, CacheEntry)> {
    v.map_values(|p: (String, CacheEntry)| (p.0@, p.1))
}

/// The moment `secs` seconds after the start of 1970, in universal time, written
/// as year-month-day and hour:minute:second, as the crate `chrono` writes it;
/// none where the crate has no such moment.
pub uninterp spec fn utc_text(secs: i64) -> Option<Seq<char>>;

/// `chrono::DateTime::from_timestamp` with no nanoseconds, then `format` with
/// the pattern for year-month-day and hour:minute:second, and `to_string`.
#[verifier::external_body]
fn format_utc(secs: i64, pattern: &str) -> (r: Option<String>)
    requires
        pattern@ == "%Y-%m-%d %H:%M:%S"@,
    ensures
        opt_text(r) == utc_text(secs),
{
    match chrono::DateTime::from_timestamp(secs, 0) {
        Some(moment) => Some(moment.format(pattern).to_string()),
        None => None,
    }
}

/// An unsigned number of seconds read as a signed one of the same width.
pub open spec fn as_signed(secs: u64) -> i64 {
    if secs <= i64::MAX {
        secs as i64
    } else {
        (secs - 0x1_0000_0000_0000_0000) as i64
    }
}

/// The size shown for the cache file: nothing where the cache has no file or
/// the file does not exist.
pub open spec fn stats_size(has_file: bool, file: Option<FileMeta>) -> u64 {
    match file {
        Some(m) => if has_file {
            m.size
        } else {
            0
        },
        None => 0,
    }
}

/// The text shown for the last change of the cache file.
pub open spec fn stats_text(has_file: bool, file: Option<FileMeta>) -> Seq<char> {
    if !has_file {
        "No cache file"@
    } else {
        match file {
            None => "Never"@,
            Some(m) => match utc_text(as_signed(m.modified)) {
                Some(t) => t,
                None => "Unknown"@,
            },
        }
    }
}

/// The cache of checksums by path.
pub struct CrcCache {
    entries: StrMap<CacheEntry>,
    cache_file: Option<String>,
    dirty: bool,
}

impl View for CrcCache {
    type V = Map<Seq<char>, CacheEntry>;

    /// The entries by path.
    closed spec fn view(&self) -> Map<Seq<char>, CacheEntry> {
        self.entries@
    }
}

impl CrcCache {
    /// The table is well formed.
    pub closed spec fn wf(&self) -> bool {
        self.entries.wf()
    }

    /// The file that the cache is kept in, if one is known.
    pub closed spec fn file(&self) -> Option<Seq<char>> {
        opt_text(self.cache_file)
    }

    /// Whether the cache has changes that are not saved.
    pub closed spec fn is_dirty(&self) -> bool {
        self.dirty
    }

    /// The pairs of path and entry in the order in which the paths arrived.
    pub closed spec fn pairs(&self) -> Seq<(Seq<char>, CacheEntry)> {
        Seq::new(
            self.entries.key_seq().len(),
            |i: int| (self.entries.key_seq()[i], self.entries.val_seq()[i]),
        )
    }

    /// An empty cache without a file.
    pub fn new() -> (c: Self)
        ensures
            c.wf(),
            c@ == Map::<Seq<char>, CacheEntry>::empty(),
            c.file() is None,
            !c.is_dirty(),
    {
        CrcCache { entries: StrMap::new(), cache_file: None, dirty: false }
    }

    /// The cache that was read from the file at `path` as the pairs `loaded`.
    pub fn from_entries(path: String, loaded: Vec<(String, CacheEntry)>) -> (c: Self)
        ensures
            c.wf(),
            c@ == restored(pair_rows(loaded@)),
            c.file() == Some(path@),
            !c.is_dirty(),
    {
        let mut entries: StrMap<CacheEntry> = StrMap::new();
        let mut i: usize = 0;
        let ghost rows = pair_rows(loaded@);
        assert(rows.take(0) =~= Seq::<(Seq<char>, CacheEntry)>::empty());
        while i < loaded.len()
            invariant
                i <= loaded.len(),
                rows == pair_rows(loaded@),
                entries.wf(),
                entries@ == restored(rows.take(i as int)),
            decreases loaded.len() - i,
        {
            assert(rows.take(i + 1).drop_last() == rows.take(i as int));
            assert(rows.take(i + 1).last() == (loaded@[i as int].0@, loaded@[i as int].1));
            entries.insert(loaded[i].0.clone(), loaded[i].1);
            i += 1;
        }
        assert(rows.take(rows.len() as int) == rows);
        CrcCache { entries: entries, cache_file: Some(path), dirty: false }
    }

    /// The pairs of path and entry, in the order in which the paths arrived.
    pub fn entries(&self) -> (r: Vec<(String, CacheEntry)>)
        requires
            self.wf(),
        ensures
            pair_rows(r@) == self.pairs(),
    {
        let mut r: Vec<(String, CacheEntry)> = Vec::new();
        let n = self.entries.len();
        let mut i: usize = 0;
        while i < n
            invariant
                i <= n,
                self.wf(),
                n == self.entries.key_seq().len(),
                pair_rows(r@) == self.pairs().take(i as int),
            decreases n - i,
        {
            let ghost before = pair_rows(r@);
            let k = self.entries.key_at(i).clone();
            let v = *self.entries.value_at(i);
            r.push((k, v));
            assert(pair_rows(r@) =~= before.push((k@, v)));
            assert(self.pairs().take(i + 1) =~= before.push((k@, v)));
            i += 1;
        }
        assert(self.pairs().take(self.pairs().len() as int) == self.pairs());
        r
    }

    /// The path to save the cache to, where a save is due: the cache has unsaved
    /// changes and its file is known.
    pub fn auto_save(&self) -> (r: Option<String>)
        ensures
            opt_text(r) == if self.is_dirty() {
                self.file()
            } else {
                None
            },
    {
        if self.dirty {
            match &self.cache_file {
                Some(p) => Some(p.clone()),
                None => None,
            }
        } else {
            None
        }
    }

    /// The cache that the file at `path` gave: the table of the pairs `found` that
    /// were read from it, or an empty cache without a file where there is no file
    /// or it cannot be read.
    pub fn load_from_file(path: String, found: Option<Vec<(String, CacheEntry)>>) -> (c: Self)
        ensures
            c.wf(),
            !c.is_dirty(),
            match found {
                Some(loaded) => c@ == restored(pair_rows(loaded@)) && c.file() == Some(path@),
                None => c@ == Map::<Seq<char>, CacheEntry>::empty() && c.file() is None,
            },
    {
        match found {
            Some(loaded) => Self::from_entries(path, loaded),
            None => Self::new(),
        }
    }

    /// The cache of the usual place, the file at `path`: what `found` gave, or an
    /// empty cache that will be saved there.
    pub fn with_default_location(path: String, found: Option<Vec<(String, CacheEntry)>>) -> (c: Self)
        ensures
            c.wf(),
            !c.is_dirty(),
            c.file() == Some(path@),
            c@ == match found {
                Some(loaded) => restored(pair_rows(loaded@)),
                None => Map::<Seq<char>, CacheEntry>::empty(),
            },
    {
        match found {
            Some(loaded) => Self::from_entries(path, loaded),
            None => {
                let none: Vec<(String, CacheEntry)> = Vec::new();
                assert(pair_rows(none@) =~= Seq::<(Seq<char>, CacheEntry)>::empty());
                Self::from_entries(path, none)
            },
        }
    }

    /// Hands out the pairs to write to the file at `path` and notes that the cache
    /// is saved there. Read back, the pairs make the same table, so that every
    /// lookup is answered as before.
    pub fn save_to_file(&mut self, path: String) -> (r: Vec<(String, CacheEntry)>)
        requires
            old(self).wf(),
        ensures
            final(self).wf(),
            final(self)@ == old(self)@,
            final(self).file() == Some(path@),
            !final(self).is_dirty(),
            pair_rows(r@) == old(self).pairs(),
            restored(pair_rows(r@)) == old(self)@,
    {
        proof {
            lemma_round_trip(*self);
        }
        let r = self.entries();
        self.mark_saved(path);
        r
    }

    /// Notes that the cache was written to the file at `path`.
    pub fn mark_saved(&mut self, path: String)
        ensures
            final(self)@ == old(self)@,
            final(self).wf() == old(self).wf(),
            final(self).file() == Some(path@),
            !final(self).is_dirty(),
    {
        self.cache_file = Some(path);
        self.dirty = false;
    }

    /// The remembered checksum of the file at `file_path`, whose metadata are
    /// `meta` now, looked up at time `now`. Only an entry made for a file of the
    /// same size and modification time counts; a stale entry is dropped.
    pub fn get_crc32(&mut self, file_path: &str, meta: Option<FileMeta>, now: u64) -> (r: Result<
        Option<u32>,
        CacheError,
    >)
        requires
            old(self).wf(),
        ensures
            final(self).wf(),
            final(self).file() == old(self).file(),
            match meta {
                None => r is Err && final(self)@ == old(self)@ && final(self).is_dirty() == old(
                    self,
                ).is_dirty(),
                Some(m) => r == Ok::<Option<u32>, CacheError>(looked_up(old(self)@, file_path@, m))
                    && final(self)@ == table_after_lookup(old(self)@, file_path@, m, now)
                    && final(self).is_dirty() == (old(self).is_dirty() || old(self)@.contains_key(
                    file_path@,
                )),
            },
    {
        let m = match meta {
            None => {
                return Err(CacheError::MetadataUnreadable(file_path.to_owned()));
            },
            Some(m) => m,
        };
        let found = match self.entries.get(file_path) {
            Some(e) => Some(*e),
            None => None,
        };
        match found {
            None => Ok(None),
            Some(e) => {
                if e.file_size == m.size && e.modified_time == m.modified {
                    self.entries.insert(
                        file_path.to_owned(),
                        CacheEntry {
                            crc32: e.crc32,
                            file_size: e.file_size,
                            modified_time: e.modified_time,
                            last_accessed: now,
                        },
                    );
                    self.dirty = true;
                    Ok(Some(e.crc32))
                } else {
                    self.entries.remove(file_path);
                    self.dirty = true;
                    Ok(None)
                }
            },
        }
    }

    /// The first step for the checksum of the file at `file_path`, whose metadata
    /// are `meta` now: the lookup, which marks a valid entry as accessed and drops
    /// a stale one.
    pub fn begin_hash(&mut self, file_path: &str, meta: Option<FileMeta>, now: u64) -> (r: HashStep)
        requires
            old(self).wf(),
        ensures
            final(self).wf(),
            final(self).file() == old(self).file(),
            r == first_hash_step(old(self)@, file_path@, meta),
            final(self)@ == match meta {
                Some(m) => table_after_lookup(old(self)@, file_path@, m, now),
                None => old(self)@,
            },
            final(self).is_dirty() == (old(self).is_dirty() || (meta is Some && old(
                self,
            )@.contains_key(file_path@))),
    {
        match self.get_crc32(file_path, meta, now) {
            Ok(Some(crc)) => HashStep::Known(crc),
            _ => HashStep::Compute,
        }
    }

    /// The last step for the checksum of the file at `file_path`: what computing
    /// it gave is remembered, where it gave a checksum and the metadata of the
    /// file can be read, and handed on.
    pub fn finish_hash(
        &mut self,
        file_path: &str,
        computed: Option<u32>,
        meta: Option<FileMeta>,
        now: u64,
    ) -> (r: Option<u32>)
        requires
            old(self).wf(),
        ensures
            final(self).wf(),
            final(self).file() == old(self).file(),
            r == computed,
            final(self)@ == table_after_hash(old(self)@, file_path@, computed, meta, now),
            final(self).is_dirty() == (old(self).is_dirty() || (computed is Some && meta is Some)),
    {
        match computed {
            Some(crc) => {
                let _ = self.set_crc32(file_path, crc, meta, now);
            },
            None => {},
        }
        computed
    }

    /// Remembers `crc32` for the file at `file_path`, whose metadata are `meta`
    /// now, at time `now`.
    pub fn set_crc32(&mut self, file_path: &str, crc32: u32, meta: Option<FileMeta>, now: u64) -> (r:
        Result<(), CacheError>)
        requires
            old(self).wf(),
        ensures
            final(self).wf(),
            final(self).file() == old(self).file(),
            match meta {
                None => r is Err && final(self)@ == old(self)@ && final(self).is_dirty() == old(
                    self,
                ).is_dirty(),
                Some(m) => r is Ok && final(self)@ == old(self)@.insert(
                    file_path@,
                    fresh_entry(crc32, m, now),
                ) && final(self).is_dirty(),
            },
    {
        match meta {
            None => Err(CacheError::MetadataUnreadable(file_path.to_owned())),
            Some(m) => {
                self.entries.insert(
                    file_path.to_owned(),
                    CacheEntry {
                        crc32: crc32,
                        file_size: m.size,
                        modified_time: m.modified,
                        last_accessed: now,
                    },
                );
                self.dirty = true;
                Ok(())
            },
        }
    }

    /// Forgets every entry. Returns the path to save the cache to, where its file
    /// is known.
    pub fn clear(&mut self) -> (r: Option<String>)
        ensures
            final(self).wf(),
            final(self)@ == Map::<Seq<char>, CacheEntry>::empty(),
            final(self).file() == old(self).file(),
            final(self).is_dirty(),
            opt_text(r) == old(self).file(),
    {
        self.entries.clear();
        self.dirty = true;
        self.auto_save()
    }

    /// The figures of the cache. `file` holds the size of the cache file and the
    /// time of its last change, if the file exists.
    pub fn get_stats(&self, file: Option<FileMeta>) -> (r: DetailedCacheStats)
        requires
            self.wf(),
        ensures
            r.total_entries == self@.len(),
            r.cache_size == stats_size(self.file() is Some, file),
            r.cache_hits == 0,
            r.cache_misses == 0,
            r.total_requests == 0,
            r.last_updated@ == stats_text(self.file() is Some, file),
    {
        let (cache_size, last_updated) = match (&self.cache_file, file) {
            (None, _) => (0, "No cache file".to_owned()),
            (Some(_), None) => (0, "Never".to_owned()),
            (Some(_), Some(m)) => {
                let secs: i64 = if m.modified <= 0x7FFF_FFFF_FFFF_FFFF {
                    m.modified as i64
                } else {
                    ((m.modified - 0x8000_0000_0000_0000) as i64) + i64::MIN
                };
                match format_utc(secs, "%Y-%m-%d %H:%M:%S") {
                    Some(t) => (m.size, t),
                    None => (m.size, "Unknown".to_owned()),
                }
            },
        };
        DetailedCacheStats {
            total_entries: self.entries.len(),
            cache_size: cache_size,
            cache_hits: 0,
            cache_misses: 0,
            total_requests: 0,
            last_updated: last_updated,
        }
    }

    /// Forgets the entries that were last accessed more than `max_age_days` days
    /// before `now`. Returns how many were forgotten.
    pub fn clean_old_entries(&mut self, max_age_days: u64, now: u64) -> (removed: usize)
        requires
            old(self).wf(),
        ensures
            final(self).wf(),
            final(self)@ == swept(old(self)@, now, age_limit(max_age_days)),
            removed == old(self)@.len() - final(self)@.len(),
            final(self).file() == old(self).file(),
            final(self).is_dirty() == (old(self).is_dirty() || removed > 0),
    {
        if max_age_days > u64::MAX / 86400 {
            assert(max_age_days * 86400 > u64::MAX) by (nonlinear_arith)
                requires
                    max_age_days > u64::MAX / 86400,
            ;
            assert(self@ =~= swept(self@, now, age_limit(max_age_days)));
            return 0;
        }
        let limit_secs: u64 = max_age_days * 86400;
        let ghost limit = age_limit(max_age_days);
        let n = self.entries.len();
        let mut fresh: StrMap<CacheEntry> = StrMap::new();
        let mut i: usize = 0;
        let ghost ks = self.entries.key_seq();
        let ghost vs = self.entries.val_seq();
        let ghost m0 = self.entries@;
        proof {
            self.entries.lemma_view();
        }
        while i < n
            invariant
                i <= n,
                self.entries.wf(),
                limit == limit_secs,
                n == ks.len(),
                ks == self.entries.key_seq(),
                vs == self.entries.val_seq(),
                m0 == self.entries@,
                ks.no_duplicates(),
                forall|j: int| 0 <= j < ks.len() ==> m0.contains_key(#[trigger] ks[j]) && m0[ks[j]]
                    == vs[j],
                forall|k: Seq<char>| m0.contains_key(k) <==> ks.contains(k),
                fresh.wf(),
                fresh.key_seq().len() <= i,
                forall|k: Seq<char>| #[trigger]
                    fresh@.contains_key(k) <==> (exists|j: int|
                        0 <= j < i && ks[j] == k && is_recent(vs[j], now, limit)),
                forall|k: Seq<char>| #[trigger] fresh@.contains_key(k) ==> fresh@[k] == m0[k],
            decreases n - i,
        {
            let e = *self.entries.value_at(i);
            let age: u64 = if now >= e.last_accessed {
                now - e.last_accessed
            } else {
                0
            };
            let ghost f0 = fresh@;
            if age <= limit_secs {
                let key = self.entries.key_at(i).clone();
                assert(!fresh@.contains_key(key@)) by {
                    if fresh@.contains_key(key@) {
                        let j = choose|j: int|
                            0 <= j < i && ks[j] == key@ && is_recent(vs[j], now, limit);
                        assert(ks[j] == ks[i as int]);
                    }
                }
                fresh.insert_new(key, e);
                assert forall|k: Seq<char>| #[trigger]
                    fresh@.contains_key(k) <==> (exists|j: int|
                        0 <= j < i + 1 && ks[j] == k && is_recent(vs[j], now, limit)) by {
                    if fresh@.contains_key(k) {
                        if k == ks[i as int] {
                            assert(0 <= i < i + 1 && ks[i as int] == k && is_recent(
                                vs[i as int],
                                now,
                                limit,
                            ));
                        } else {
                            assert(f0.contains_key(k));
                            let j = choose|j: int|
                                0 <= j < i && ks[j] == k && is_recent(vs[j], now, limit);
                            assert(0 <= j < i + 1 && ks[j] == k && is_recent(vs[j], now, limit));
                        }
                    }
                    if exists|j: int| 0 <= j < i + 1 && ks[j] == k && is_recent(vs[j], now, limit) {
                        let j = choose|j: int|
                            0 <= j < i + 1 && ks[j] == k && is_recent(vs[j], now, limit);
                        if j < i {
                            assert(f0.contains_key(k));
                        }
                    }
                }
            } else {
                assert forall|k: Seq<char>| #[trigger]
                    fresh@.contains_key(k) <==> (exists|j: int|
                        0 <= j < i + 1 && ks[j] == k && is_recent(vs[j], now, limit)) by {
                    if fresh@.contains_key(k) {
                        let j = choose|j: int|
                            0 <= j < i && ks[j] == k && is_recent(vs[j], now, limit);
                        assert(0 <= j < i + 1 && ks[j] == k && is_recent(vs[j], now, limit));
                    }
                    if exists|j: int| 0 <= j < i + 1 && ks[j] == k && is_recent(vs[j], now, limit) {
                        let j = choose|j: int|
                            0 <= j < i + 1 && ks[j] == k && is_recent(vs[j], now, limit);
                        assert(j < i);
                    }
                }
            }
            i += 1;
        }
        proof {
            assert forall|k: Seq<char>| fresh@.contains_key(k) <==> swept(
                m0,
                now,
                limit,
            ).contains_key(k) by {
                if fresh@.contains_key(k) {
                    let j = choose|j: int| 0 <= j < n && ks[j] == k && is_recent(vs[j], now, limit);
                    assert(m0.contains_key(ks[j]));
                }
                if swept(m0, now, limit).contains_key(k) {
                    assert(ks.contains(k));
                    let j = choose|j: int| 0 <= j < ks.len() && ks[j] == k;
                    assert(m0[ks[j]] == vs[j]);
                    assert(0 <= j < n && ks[j] == k && is_recent(vs[j], now, limit));
                }
            }
            assert(fresh@ =~= swept(m0, now, limit));
            fresh.lemma_view();
        }
        let kept = fresh.len();
        let removed = n - kept;
        self.entries = fresh;
        if removed > 0 {
            self.dirty = true;
        }
        removed
    }

    /// The path to save the cache to before it goes away, where a save is due.
    pub fn drop(&mut self) -> (r: Option<String>)
        ensures
            *final(self) == *old(self),
            opt_text(r) == if old(self).is_dirty() {
                old(self).file()
            } else {
                None
            },
    {
        self.auto_save()
    }
}

/// The cache property: after a store for a file, a lookup for that file gives the
/// stored checksum as long as the file's size and modification time are the same,
/// and gives nothing, and drops the entry, once either has changed.
pub proof fn lemma_store_then_lookup(
    m: Map<Seq<char>, CacheEntry>,
    path: Seq<char>,
    crc32: u32,
    stored_meta: FileMeta,
    stored_at: u64,
    meta: FileMeta,
    now: u64,
)
    ensures
        ({
            let after = m.insert(path, fresh_entry(crc32, stored_meta, stored_at));
            &&& meta == stored_meta ==> looked_up(after, path, meta) == Some(crc32)
            &&& meta == stored_meta ==> looked_up(
                table_after_lookup(after, path, meta, now),
                path,
                meta,
            ) == Some(crc32)
            &&& meta != stored_meta ==> looked_up(after, path, meta) is None
            &&& meta != stored_meta ==> !table_after_lookup(after, path, meta, now).contains_key(
                path,
            )
        }),
{
}

/// A lookup of one path changes nothing for any other path.
pub proof fn lemma_lookup_is_local(
    m: Map<Seq<char>, CacheEntry>,
    path: Seq<char>,
    meta: FileMeta,
    now: u64,
    other: Seq<char>,
    other_meta: FileMeta,
)
    requires
        other != path,
    ensures
        looked_up(table_after_lookup(m, path, meta, now), other, other_meta) == looked_up(
            m,
            other,
            other_meta,
        ),
{
}

/// The table that the pairs of a well-formed cache make is the table of the
/// cache: what is written out and read back answers every lookup as before.
pub proof fn lemma_round_trip(c: CrcCache)
    requires
        c.wf(),
    ensures
        restored(c.pairs()) == c@,
{
    c.entries.lemma_view();
    lemma_restored_prefix(c.entries.key_seq(), c.entries.val_seq(), c.pairs(), c.pairs().len() as int);
    assert(c.pairs().take(c.pairs().len() as int) == c.pairs());
    let ks = c.entries.key_seq();
    let vs = c.entries.val_seq();
    let r = restored(c.pairs());
    assert forall|k: Seq<char>| r.contains_key(k) <==> c@.contains_key(k) by {
        if r.contains_key(k) {
            let j = choose|j: int| 0 <= j < ks.len() && ks[j] == k;
            assert(c@.contains_key(ks[j]));
        }
        if c@.contains_key(k) {
            assert(ks.contains(k));
            let j = choose|j: int| 0 <= j < ks.len() && ks[j] == k;
        }
    }
    assert forall|k: Seq<char>| r.contains_key(k) implies r[k] == c@[k] by {
        let j = choose|j: int| 0 <= j < ks.len() && ks[j] == k && r[k] == vs[j];
        assert(c@[ks[j]] == vs[j]);
    }
    assert(r =~= c@);
}

/// The table of the first `n` pairs of duplicate-free keys holds exactly these
/// keys, each with its value.
pub proof fn lemma_restored_prefix(
    ks: Seq<Seq<char>>,
    vs: Seq<CacheEntry>,
    pairs: Seq<(Seq<char>, CacheEntry)>,
    n: int,
)
    requires
        ks.no_duplicates(),
        ks.len() == vs.len(),
        pairs.len() == ks.len(),
        forall|i: int| 0 <= i < pairs.len() ==> #[trigger] pairs[i] == (ks[i], vs[i]),
        0 <= n <= ks.len(),
    ensures
        forall|k: Seq<char>|
            restored(pairs.take(n)).contains_key(k) <==> (exists|j: int|
                0 <= j < n && ks[j] == k),
        forall|k: Seq<char>| #[trigger]
            restored(pairs.take(n)).contains_key(k) ==> (exists|j: int|
                0 <= j < n && ks[j] == k && restored(pairs.take(n))[k] == vs[j]),
    decreases n,
{
    if n > 0 {
        lemma_restored_prefix(ks, vs, pairs, n - 1);
        let p = pairs.take(n);
        assert(p.drop_last() == pairs.take(n - 1));
        assert(p.last() == (ks[n - 1], vs[n - 1]));
        let r0 = restored(pairs.take(n - 1));
        let r = restored(p);
        assert(r == r0.insert(ks[n - 1], vs[n - 1]));
        assert forall|k: Seq<char>| r.contains_key(k) <==> (exists|j: int|
            0 <= j < n && ks[j] == k) by {
            if r.contains_key(k) {
                if k == ks[n - 1] {
                    assert(0 <= n - 1 < n && ks[n - 1] == k);
                } else {
                    let j = choose|j: int| 0 <= j < n - 1 && ks[j] == k;
                    assert(0 <= j < n && ks[j] == k);
                }
            }
            if exists|j: int| 0 <= j < n && ks[j] == k {
                let j = choose|j: int| 0 <= j < n && ks[j] == k;
                if j < n - 1 {
                    assert(r0.contains_key(k));
                }
            }
        }
        assert forall|k: Seq<char>| #[trigger] r.contains_key(k) implies (exists|j: int|
            0 <= j < n && ks[j] == k && r[k] == vs[j]) by {
            if k == ks[n - 1] {
                assert(0 <= n - 1 < n && ks[n - 1] == k && r[k] == vs[n - 1]);
            } else {
                assert(r0.contains_key(k));
                let j = choose|j: int| 0 <= j < n - 1 && ks[j] == k && r0[k] == vs[j];
                assert(0 <= j < n && ks[j] == k && r[k] == vs[j]);
            }
        }
    } else {
        assert(pairs.take(0) =~= Seq::<(Seq<char>, CacheEntry)>::empty());
    }
}

} // verus!
