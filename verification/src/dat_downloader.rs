//! Where catalogs can be fetched from, and what a fetch gave.

use vstd::prelude::*;
use crate::scanner::string_texts;
use crate::split::push_str;
use crate::text::{chars_of, string_of};
use crate::text::holds_text;
use crate::watch::distinct;

verus! {

/// A place that a catalog can be fetched from.
#[derive(Debug)]
pub struct DatSource {
    pub name: String,
    pub url: String,
    pub system: String,
    pub description: String,
    pub priority: u32,
}

/// How catalogs are fetched.
#[derive(Debug)]
pub struct DatDownloadConfig {
    pub download_directory: String,
    pub update_interval_days: u32,
    pub timeout_seconds: u64,
    pub retry_attempts: u32,
    pub concurrent_downloads: usize,
}

impl Default for DatDownloadConfig {
    fn default() -> (c: Self)
        ensures
            c.download_directory@ == "./dat_files"@,
            c.update_interval_days == 7,
            c.timeout_seconds == 30,
            c.retry_attempts == 3,
            c.concurrent_downloads == 4,
    {
        DatDownloadConfig {
            download_directory: "./dat_files".to_owned(),
            update_interval_days: 7,
            timeout_seconds: 30,
            retry_attempts: 3,
            concurrent_downloads: 4,
        }
    }
}

/// What is known of a catalog file that was fetched.
#[derive(Debug)]
pub struct DatMetadata {
    pub source_url: String,
    pub downloaded_at: u64,
    pub file_size: u64,
    pub checksum: String,
    pub system: String,
}

/// What one fetch gave.
#[derive(Debug)]
pub struct DatDownloadResult {
    pub source_name: String,
    pub system: String,
    pub success: bool,
    pub file_path: Option<String>,
    pub file_size: u64,
    pub download_time_ms: u64,
    pub error: Option<String>,
    pub skipped: bool,
}

/// The path of the catalog file for `system` in the directory `dir`.
pub open spec fn dat_path_of(dir: Seq<char>, system: Seq<char>) -> Seq<char> {
    dir + "/"@ + system + ".dat"@
}

impl DatDownloadConfig {
    /// The path of the catalog file for `system`.
    pub fn get_dat_path(&self, system: &str) -> (r: String)
        ensures
            r@ == dat_path_of(self.download_directory@, system@),
    {
        let mut out = chars_of(self.download_directory.as_str());
        push_str(&mut out, "/");
        push_str(&mut out, system);
        push_str(&mut out, ".dat");
        string_of(out.as_slice())
    }

    /// Whether a catalog that was fetched at `downloaded_at` is due for a fresh
    /// fetch at `now`, both in seconds: the update interval has passed.
    pub fn is_stale(&self, downloaded_at: u64, now: u64) -> (r: bool)
        ensures
            r == (now - downloaded_at >= self.update_interval_days * 86400),
    {
        let age: u64 = if now >= downloaded_at {
            now - downloaded_at
        } else {
            0
        };
        let limit: u64 = self.update_interval_days as u64 * 86400;
        now >= downloaded_at && age >= limit
    }
}

/// The counts of a batch of fetches.
pub struct DownloadSummary {
    pub successful: usize,
    pub skipped: usize,
    pub failed: usize,
}

/// How many of the first `n` results are fetches that worked, fetches that were
/// skipped, and fetches that failed.
pub open spec fn tally(results: Seq<DatDownloadResult>, n: int) -> (nat, nat, nat)
    decreases n,
{
    if n <= 0 {
        (0, 0, 0)
    } else {
        let t = tally(results, n - 1);
        let r = results[n - 1];
        if !r.success {
            (t.0, t.1, t.2 + 1)
        } else if r.skipped {
            (t.0, t.1 + 1, t.2)
        } else {
            (t.0 + 1, t.1, t.2)
        }
    }
}

/// The counts of a batch of fetches.
pub fn summarize(results: &Vec<DatDownloadResult>) -> (s: DownloadSummary)
    ensures
        (s.successful as nat, s.skipped as nat, s.failed as nat) == tally(
            results@,
            results@.len() as int,
        ),
{
    let mut s = DownloadSummary { successful: 0, skipped: 0, failed: 0 };
    let mut i: usize = 0;
    while i < results.len()
        invariant
            i <= results.len(),
            (s.successful as nat, s.skipped as nat, s.failed as nat) == tally(results@, i as int),
            s.successful + s.skipped + s.failed == i,
        decreases results.len() - i,
    {
        if !results[i].success {
            s.failed = s.failed + 1;
        } else if results[i].skipped {
            s.skipped = s.skipped + 1;
        } else {
            s.successful = s.successful + 1;
        }
        i += 1;
    }
    s
}

/// A source as a mathematical value.
pub struct SourceRow {
    pub name: Seq<char>,
    pub url: Seq<char>,
    pub system: Seq<char>,
    pub description: Seq<char>,
    pub priority: u32,
}

impl View for DatSource {
    type V = SourceRow;

    open spec fn view(&self) -> SourceRow {
        SourceRow {
            name: self.name@,
            url: self.url@,
            system: self.system@,
            description: self.description@,
            priority: self.priority,
        }
    }
}

impl Clone for DatSource {
    fn clone(&self) -> (r: Self)
        ensures
            r@ == self@,
    {
        DatSource {
            name: self.name.clone(),
            url: self.url.clone(),
            system: self.system.clone(),
            description: self.description.clone(),
            priority: self.priority,
        }
    }
}

/// The sources of a list as mathematical values.
pub open spec fn source_rows(v: Seq<DatSource>) -> Seq<SourceRow> {
    v.map_values(|s: DatSource| s@)
}

/// A source made of literals.
pub open spec fn source_row(
    name: &str,
    url: &str,
    system: &str,
    description: &str,
    priority: u32,
) -> SourceRow {
    SourceRow { name: name@, url: url@, system: system@, description: description@, priority }
}

/// The sources that are known from the start: six cartridge systems, then two
/// disc systems.
pub open spec fn default_sources() -> Seq<SourceRow> {
    seq![
        source_row(
            "No-Intro Nintendo Entertainment System",
            "https://datomatic.no-intro.org/stuff/Nintendo%20-%20Nintendo%20Entertainment%20System%20(20231225-000000).dat",
            "nes",
            "Official No-Intro NES database",
            1,
        ),
        source_row(
            "No-Intro Super Nintendo Entertainment System",
            "https://datomatic.no-intro.org/stuff/Nintendo%20-%20Super%20Nintendo%20Entertainment%20System%20(20231225-000000).dat",
            "snes",
            "Official No-Intro SNES database",
            1,
        ),
        source_row(
            "No-Intro Nintendo 64",
            "https://datomatic.no-intro.org/stuff/Nintendo%20-%20Nintendo%2064%20(20231225-000000).dat",
            "n64",
            "Official No-Intro N64 database",
            1,
        ),
        source_row(
            "No-Intro Game Boy",
            "https://datomatic.no-intro.org/stuff/Nintendo%20-%20Game%20Boy%20(20231225-000000).dat",
            "gb",
            "Official No-Intro Game Boy database",
            1,
        ),
        source_row(
            "No-Intro Game Boy Advance",
            "https://datomatic.no-intro.org/stuff/Nintendo%20-%20Game%20Boy%20Advance%20(20231225-000000).dat",
            "gba",
            "Official No-Intro GBA database",
            1,
        ),
        source_row(
            "No-Intro Sega Genesis",
            "https://datomatic.no-intro.org/stuff/Sega%20-%20Mega%20Drive%20-%20Genesis%20(20231225-000000).dat",
            "genesis",
            "Official No-Intro Genesis database",
            1,
        ),
        source_row(
            "Redump Sony PlayStation",
            "http://redump.org/datfile/psx/",
            "psx",
            "Redump PlayStation database",
            2,
        ),
        source_row(
            "Redump Nintendo GameCube",
            "http://redump.org/datfile/gc/",
            "gamecube",
            "Redump GameCube database",
            2,
        ),
    ]
}

/// A source made of literals.
fn make_source(name: &str, url: &str, system: &str, description: &str, priority: u32) -> (s:
    DatSource)
    ensures
        s@ == source_row(name, url, system, description, priority),
{
    DatSource {
        name: name.to_owned(),
        url: url.to_owned(),
        system: system.to_owned(),
        description: description.to_owned(),
        priority,
    }
}

/// `t` with `x` put in after the last source whose priority is not above that of
/// `x`, looking from the end.
pub open spec fn put_source(t: Seq<SourceRow>, x: SourceRow) -> Seq<SourceRow>
    decreases t.len(),
{
    if t.len() == 0 {
        seq![x]
    } else if t.last().priority <= x.priority {
        t.push(x)
    } else {
        put_source(t.drop_last(), x).push(t.last())
    }
}

/// The sources sorted by priority, lowest number first; sources of one priority
/// keep their order.
pub open spec fn by_priority(s: Seq<SourceRow>) -> Seq<SourceRow>
    decreases s.len(),
{
    if s.len() == 0 {
        Seq::empty()
    } else {
        put_source(by_priority(s.drop_last()), s.last())
    }
}

/// Where `x` goes when it is put into `t`.
pub open spec fn source_pos(t: Seq<SourceRow>, x: SourceRow) -> int
    decreases t.len(),
{
    if t.len() == 0 {
        0
    } else if t.last().priority <= x.priority {
        t.len() as int
    } else {
        source_pos(t.drop_last(), x)
    }
}

/// Putting in is inserting at the position found.
pub proof fn lemma_put_source(t: Seq<SourceRow>, x: SourceRow)
    ensures
        0 <= source_pos(t, x) <= t.len(),
        put_source(t, x) == t.insert(source_pos(t, x), x),
    decreases t.len(),
{
    if t.len() == 0 {
        assert(seq![x] =~= t.insert(0, x));
    } else if t.last().priority <= x.priority {
        assert(t.push(x) =~= t.insert(t.len() as int, x));
    } else {
        lemma_put_source(t.drop_last(), x);
        let p = source_pos(t.drop_last(), x);
        assert(t.drop_last().insert(p, x).push(t.last()) =~= t.insert(p, x));
    }
}

/// The sources sorted by priority.
pub fn sort_sources(list: &Vec<DatSource>) -> (r: Vec<DatSource>)
    ensures
        source_rows(r@) == by_priority(source_rows(list@)),
{
    let mut sorted: Vec<DatSource> = Vec::new();
    let ghost all = source_rows(list@);
    let mut i: usize = 0;
    assert(all.take(0) =~= Seq::<SourceRow>::empty());
    assert(source_rows(sorted@) =~= Seq::<SourceRow>::empty());
    while i < list.len()
        invariant
            i <= list.len(),
            all == source_rows(list@),
            source_rows(sorted@) == by_priority(all.take(i as int)),
        decreases list.len() - i,
    {
        let ghost t = source_rows(sorted@);
        assert(all.take(i + 1).drop_last() == all.take(i as int));
        assert(all.take(i + 1).last() == list@[i as int]@);
        let x = list[i].clone();
        let mut pos: usize = sorted.len();
        assert(t.take(pos as int) == t);
        while pos > 0 && sorted[pos - 1].priority > x.priority
            invariant
                pos <= sorted.len(),
                t == source_rows(sorted@),
                source_pos(t, x@) == source_pos(t.take(pos as int), x@),
            decreases pos,
        {
            assert(t.take(pos as int).last() == sorted@[pos - 1]@);
            assert(t.take(pos as int).drop_last() == t.take(pos - 1));
            pos -= 1;
        }
        proof {
            if pos > 0 {
                assert(t.take(pos as int).last() == sorted@[pos - 1]@);
            }
            lemma_put_source(t, x@);
        }
        sorted.insert(pos, x);
        assert(source_rows(sorted@) =~= t.insert(pos as int, x@));
        i += 1;
    }
    assert(all.take(all.len() as int) == all);
    sorted
}

/// The systems of the sources, source by source.
pub open spec fn systems_of(s: Seq<SourceRow>) -> Seq<Seq<char>> {
    s.map_values(|r: SourceRow| r.system)
}

/// The position of the first source for `system`, if there is one.
pub open spec fn first_for(s: Seq<SourceRow>, system: Seq<char>) -> Option<int>
    decreases s.len(),
{
    if s.len() == 0 {
        None
    } else {
        match first_for(s.drop_last(), system) {
            Some(i) => Some(i),
            None => if s.last().system == system {
                Some(s.len() - 1)
            } else {
                None
            },
        }
    }
}

/// What a fetch can fail on.
#[derive(Debug)]
pub enum DownloadError {
    /// No source is known for the system.
    NoSource(String),
    /// Every attempt failed; the last failure is told, if there was an attempt.
    AttemptsFailed(Option<String>),
    /// So many fetches of a batch failed.
    Failed(usize),
}

/// The sources and the settings of the fetching of catalogs.
pub struct DatDownloader {
    config: DatDownloadConfig,
    sources: Vec<DatSource>,
}

impl Clone for DatDownloadConfig {
    fn clone(&self) -> (r: Self)
        ensures
            r == *self,
    {
        DatDownloadConfig {
            download_directory: self.download_directory.clone(),
            update_interval_days: self.update_interval_days,
            timeout_seconds: self.timeout_seconds,
            retry_attempts: self.retry_attempts,
            concurrent_downloads: self.concurrent_downloads,
        }
    }
}

impl DatDownloader {
    /// The sources, lowest priority number first.
    pub closed spec fn sources(&self) -> Seq<SourceRow> {
        source_rows(self.sources@)
    }

    /// The settings.
    pub closed spec fn config(&self) -> DatDownloadConfig {
        self.config
    }

    /// A downloader with the sources that are known from the start.
    pub fn new(config: DatDownloadConfig) -> (r: Self)
        ensures
            r.config() == config,
            r.sources() == default_sources(),
    {
        DatDownloader { config, sources: Self::load_default_sources() }
    }

    /// The downloader with the time allowed for one request set to `seconds`.
    pub fn with_timeout(self, seconds: u64) -> (r: Self)
        ensures
            r.sources() == self.sources(),
            r.config() == (DatDownloadConfig { timeout_seconds: seconds, ..self.config() }),
    {
        let mut r = self;
        r.config.timeout_seconds = seconds;
        r
    }

    /// The downloader with the directory that catalogs go to set to `dir`.
    pub fn with_output_directory(self, dir: String) -> (r: Self)
        ensures
            r.sources() == self.sources(),
            r.config() == (DatDownloadConfig { download_directory: dir, ..self.config() }),
    {
        let mut r = self;
        r.config.download_directory = dir;
        r
    }

    /// The settings.
    pub fn settings(&self) -> (r: &DatDownloadConfig)
        ensures
            *r == self.config(),
    {
        &self.config
    }

    /// The sources, lowest priority number first.
    pub fn source_list(&self) -> (r: &Vec<DatSource>)
        ensures
            source_rows(r@) == self.sources(),
    {
        &self.sources
    }

    /// The sources that are known from the start.
    pub fn load_default_sources() -> (r: Vec<DatSource>)
        ensures
            source_rows(r@) == default_sources(),
    {
        let mut r: Vec<DatSource> = Vec::new();
        r.push(
            make_source(
                "No-Intro Nintendo Entertainment System",
                "https://datomatic.no-intro.org/stuff/Nintendo%20-%20Nintendo%20Entertainment%20System%20(20231225-000000).dat",
                "nes",
                "Official No-Intro NES database",
                1,
            ),
        );
        r.push(
            make_source(
                "No-Intro Super Nintendo Entertainment System",
                "https://datomatic.no-intro.org/stuff/Nintendo%20-%20Super%20Nintendo%20Entertainment%20System%20(20231225-000000).dat",
                "snes",
                "Official No-Intro SNES database",
                1,
            ),
        );
        r.push(
            make_source(
                "No-Intro Nintendo 64",
                "https://datomatic.no-intro.org/stuff/Nintendo%20-%20Nintendo%2064%20(20231225-000000).dat",
                "n64",
                "Official No-Intro N64 database",
                1,
            ),
        );
        r.push(
            make_source(
                "No-Intro Game Boy",
                "https://datomatic.no-intro.org/stuff/Nintendo%20-%20Game%20Boy%20(20231225-000000).dat",
                "gb",
                "Official No-Intro Game Boy database",
                1,
            ),
        );
        r.push(
            make_source(
                "No-Intro Game Boy Advance",
                "https://datomatic.no-intro.org/stuff/Nintendo%20-%20Game%20Boy%20Advance%20(20231225-000000).dat",
                "gba",
                "Official No-Intro GBA database",
                1,
            ),
        );
        r.push(
            make_source(
                "No-Intro Sega Genesis",
                "https://datomatic.no-intro.org/stuff/Sega%20-%20Mega%20Drive%20-%20Genesis%20(20231225-000000).dat",
                "genesis",
                "Official No-Intro Genesis database",
                1,
            ),
        );
        r.push(
            make_source(
                "Redump Sony PlayStation",
                "http://redump.org/datfile/psx/",
                "psx",
                "Redump PlayStation database",
                2,
            ),
        );
        r.push(
            make_source(
                "Redump Nintendo GameCube",
                "http://redump.org/datfile/gc/",
                "gamecube",
                "Redump GameCube database",
                2,
            ),
        );
        assert(source_rows(r@) =~= default_sources());
        r
    }

    /// Adds a source and sorts the sources by priority: the new one comes after
    /// those of its priority.
    pub fn add_source(&mut self, source: DatSource)
        ensures
            final(self).config() == old(self).config(),
            final(self).sources() == by_priority(old(self).sources().push(source@)),
    {
        let ghost before = source_rows(self.sources@);
        self.sources.push(source);
        assert(source_rows(self.sources@) =~= before.push(source@));
        let sorted = sort_sources(&self.sources);
        self.sources = sorted;
    }

    /// The systems that have a source, each once, in the order of the sources.
    pub fn get_available_systems(&self) -> (r: Vec<String>)
        ensures
            string_texts(r@) == distinct(systems_of(self.sources())),
    {
        let mut r: Vec<String> = Vec::new();
        let ghost all = systems_of(self.sources());
        let mut i: usize = 0;
        assert(all.take(0) =~= Seq::<Seq<char>>::empty());
        assert(string_texts(r@) =~= Seq::<Seq<char>>::empty());
        while i < self.sources.len()
            invariant
                i <= self.sources.len(),
                all == systems_of(self.sources()),
                string_texts(r@) == distinct(all.take(i as int)),
            decreases self.sources.len() - i,
        {
            let ghost before = string_texts(r@);
            assert(all.take(i + 1).drop_last() == all.take(i as int));
            assert(all.take(i + 1).last() == self.sources@[i as int].system@);
            if !holds_text(&r, self.sources[i].system.as_str()) {
                r.push(self.sources[i].system.clone());
                assert(string_texts(r@) =~= before.push(self.sources@[i as int].system@));
            }
            i += 1;
        }
        assert(all.take(all.len() as int) == all);
        r
    }

    /// The first source for `system`.
    pub fn source_for(&self, system: &str) -> (r: Result<&DatSource, DownloadError>)
        ensures
            match first_for(self.sources(), system@) {
                Some(i) => r matches Ok(s) && 0 <= i < self.sources().len() && s@
                    == self.sources()[i],
                None => r matches Err(DownloadError::NoSource(s)) && s@ == system@,
            },
    {
        let wanted = system.to_owned();
        let ghost all = self.sources();
        let mut i: usize = 0;
        assert(all.take(0) =~= Seq::<SourceRow>::empty());
        while i < self.sources.len()
            invariant
                i <= self.sources.len(),
                all == self.sources(),
                wanted@ == system@,
                first_for(all.take(i as int), system@) is None,
            decreases self.sources.len() - i,
        {
            assert(all.take(i + 1).drop_last() == all.take(i as int));
            assert(all.take(i + 1).last() == self.sources@[i as int]@);
            if self.sources[i].system == wanted {
                proof {
                    lemma_first_for_stays(all, system@, i as int + 1);
                }
                return Ok(&self.sources[i]);
            }
            i += 1;
        }
        assert(all.take(all.len() as int) == all);
        Err(DownloadError::NoSource(wanted))
    }

    /// The path of the catalog file for `system`.
    pub fn get_dat_path(&self, system: &str) -> (r: String)
        ensures
            r@ == dat_path_of(self.config().download_directory@, system@),
    {
        self.config.get_dat_path(system)
    }
}

/// A source that was found among the first `n` is the first in the whole list.
pub proof fn lemma_first_for_stays(s: Seq<SourceRow>, system: Seq<char>, n: int)
    requires
        0 <= n <= s.len(),
        first_for(s.take(n), system) is Some,
    ensures
        first_for(s, system) == first_for(s.take(n), system),
    decreases s.len() - n,
{
    if n < s.len() {
        assert(s.take(n + 1).drop_last() == s.take(n));
        lemma_first_for_stays(s, system, n + 1);
    } else {
        assert(s.take(n) == s);
    }
}

/// What one successful request gave.
#[derive(Debug)]
pub struct DownloadInfo {
    pub file_size: u64,
    pub checksum: String,
}

/// The result of a fetch as a mathematical value.
pub struct ResultRow {
    pub source_name: Seq<char>,
    pub system: Seq<char>,
    pub success: bool,
    pub file_path: Option<Seq<char>>,
    pub file_size: u64,
    pub download_time_ms: u64,
    pub error: Option<Seq<char>>,
    pub skipped: bool,
}

/// The text of an optional string.
pub open spec fn maybe_text(o: Option<String>) -> Option<Seq<char>> {
    match o {
        Some(s) => Some(s@),
        None => None,
    }
}

impl View for DatDownloadResult {
    type V = ResultRow;

    open spec fn view(&self) -> ResultRow {
        ResultRow {
            source_name: self.source_name@,
            system: self.system@,
            success: self.success,
            file_path: maybe_text(self.file_path),
            file_size: self.file_size,
            download_time_ms: self.download_time_ms,
            error: maybe_text(self.error),
            skipped: self.skipped,
        }
    }
}

/// What is to be done next for one source.
#[derive(Debug)]
pub enum DownloadStep {
    /// Make the request; it is attempt number `attempt`, after a wait of
    /// `wait_seconds`.
    Request { attempt: u32, wait_seconds: u64 },
    /// Nothing more: this is the result.
    Done(DatDownloadResult),
}

/// A step as a mathematical value.
pub enum StepRow {
    Request { attempt: u32, wait_seconds: u64 },
    Done(ResultRow),
}

impl View for DownloadStep {
    type V = StepRow;

    open spec fn view(&self) -> StepRow {
        match *self {
            DownloadStep::Request { attempt, wait_seconds } => StepRow::Request {
                attempt,
                wait_seconds,
            },
            DownloadStep::Done(r) => StepRow::Done(r@),
        }
    }
}

/// Two to the power `n`.
pub open spec fn doubled(n: nat) -> nat
    decreases n,
{
    if n == 0 {
        1
    } else {
        2 * doubled((n - 1) as nat)
    }
}

/// The seconds to wait after the failed attempt number `attempt`: one second
/// after the first, twice as long after each further one, as far as the number
/// fits.
pub open spec fn wait_after(attempt: u32) -> u64 {
    if attempt == 0 {
        0
    } else if doubled((attempt - 1) as nat) > u64::MAX {
        u64::MAX
    } else {
        doubled((attempt - 1) as nat) as u64
    }
}

/// Doubling never makes a number smaller.
pub proof fn lemma_doubled_grows(a: nat, b: nat)
    requires
        a <= b,
    ensures
        1 <= doubled(a) <= doubled(b),
    decreases b,
{
    if a < b {
        lemma_doubled_grows(a, (b - 1) as nat);
    } else if a > 0 {
        lemma_doubled_grows((a - 1) as nat, (a - 1) as nat);
    }
}

/// The seconds to wait after the failed attempt number `attempt`.
pub fn retry_delay(attempt: u32) -> (w: u64)
    ensures
        w == wait_after(attempt),
{
    if attempt == 0 {
        return 0;
    }
    let mut w: u64 = 1;
    let mut k: u32 = 1;
    while k < attempt
        invariant
            1 <= k <= attempt,
            w as nat == doubled((k - 1) as nat),
        decreases attempt - k,
    {
        if w > u64::MAX / 2 {
            proof {
                lemma_doubled_grows(k as nat, (attempt - 1) as nat);
            }
            return u64::MAX;
        }
        w = w * 2;
        k += 1;
    }
    w
}

/// The result that stands for a catalog that is fresh enough.
pub open spec fn skipped_row(dir: Seq<char>, source: SourceRow, file_size: u64) -> ResultRow {
    ResultRow {
        source_name: source.name,
        system: source.system,
        success: true,
        file_path: Some(dat_path_of(dir, source.system)),
        file_size,
        download_time_ms: 0,
        error: None,
        skipped: true,
    }
}

/// The result of a fetch that worked.
pub open spec fn fetched_row(
    dir: Seq<char>,
    source: SourceRow,
    file_size: u64,
    elapsed_ms: u64,
) -> ResultRow {
    ResultRow {
        source_name: source.name,
        system: source.system,
        success: true,
        file_path: Some(dat_path_of(dir, source.system)),
        file_size,
        download_time_ms: elapsed_ms,
        error: None,
        skipped: false,
    }
}

/// The result of a fetch that failed for good.
pub open spec fn failed_row(source: SourceRow, error: Option<Seq<char>>, elapsed_ms: u64) -> ResultRow {
    ResultRow {
        source_name: source.name,
        system: source.system,
        success: false,
        file_path: None,
        file_size: 0,
        download_time_ms: elapsed_ms,
        error,
        skipped: false,
    }
}

/// Whether a catalog that was fetched at `downloaded_at` is still fresh at `now`.
pub open spec fn is_fresh(config: DatDownloadConfig, downloaded_at: u64, now: u64) -> bool {
    now - downloaded_at < config.update_interval_days * 86400
}

/// The first step for `source`: nothing is fetched where the catalog on disk,
/// known by `existing`, is fresh, nor where no attempt is allowed.
pub open spec fn first_step(
    config: DatDownloadConfig,
    source: SourceRow,
    existing: Option<DatMetadata>,
    now: u64,
) -> StepRow {
    if existing is Some && is_fresh(config, existing->0.downloaded_at, now) {
        StepRow::Done(skipped_row(config.download_directory@, source, existing->0.file_size))
    } else if config.retry_attempts == 0 {
        StepRow::Done(failed_row(source, None, 0))
    } else {
        StepRow::Request { attempt: 1, wait_seconds: 0 }
    }
}

/// The step after attempt number `attempt` gave `outcome`, `elapsed_ms` after the
/// start: the result where the request worked or no attempt is left, else the
/// next attempt after a wait.
pub open spec fn next_step(
    config: DatDownloadConfig,
    source: SourceRow,
    attempt: u32,
    outcome: Result<DownloadInfo, String>,
    elapsed_ms: u64,
) -> StepRow {
    match outcome {
        Ok(info) => StepRow::Done(
            fetched_row(config.download_directory@, source, info.file_size, elapsed_ms),
        ),
        Err(e) => if attempt < config.retry_attempts {
            StepRow::Request { attempt: (attempt + 1) as u32, wait_seconds: wait_after(attempt) }
        } else {
            StepRow::Done(failed_row(source, Some(e@), elapsed_ms))
        },
    }
}

impl DatDownloadConfig {
    /// The first step for `source`.
    pub fn start_download(&self, source: &DatSource, existing: Option<&DatMetadata>, now: u64) -> (r:
        DownloadStep)
        ensures
            r@ == first_step(
                *self,
                source@,
                match existing {
                    Some(m) => Some(*m),
                    None => None,
                },
                now,
            ),
    {
        match existing {
            Some(m) => {
                if !self.is_stale(m.downloaded_at, now) {
                    return DownloadStep::Done(
                        DatDownloadResult {
                            source_name: source.name.clone(),
                            system: source.system.clone(),
                            success: true,
                            file_path: Some(self.get_dat_path(source.system.as_str())),
                            file_size: m.file_size,
                            download_time_ms: 0,
                            error: None,
                            skipped: true,
                        },
                    );
                }
            },
            None => {},
        }
        if self.retry_attempts == 0 {
            DownloadStep::Done(
                DatDownloadResult {
                    source_name: source.name.clone(),
                    system: source.system.clone(),
                    success: false,
                    file_path: None,
                    file_size: 0,
                    download_time_ms: 0,
                    error: None,
                    skipped: false,
                },
            )
        } else {
            DownloadStep::Request { attempt: 1, wait_seconds: 0 }
        }
    }

    /// The step after attempt number `attempt` gave `outcome`.
    pub fn after_attempt(
        &self,
        source: &DatSource,
        attempt: u32,
        outcome: Result<DownloadInfo, String>,
        elapsed_ms: u64,
    ) -> (r: DownloadStep)
        ensures
            r@ == next_step(*self, source@, attempt, outcome, elapsed_ms),
    {
        match outcome {
            Ok(info) => DownloadStep::Done(
                DatDownloadResult {
                    source_name: source.name.clone(),
                    system: source.system.clone(),
                    success: true,
                    file_path: Some(self.get_dat_path(source.system.as_str())),
                    file_size: info.file_size,
                    download_time_ms: elapsed_ms,
                    error: None,
                    skipped: false,
                },
            ),
            Err(e) => {
                if attempt < self.retry_attempts {
                    DownloadStep::Request {
                        attempt: attempt + 1,
                        wait_seconds: retry_delay(attempt),
                    }
                } else {
                    DownloadStep::Done(
                        DatDownloadResult {
                            source_name: source.name.clone(),
                            system: source.system.clone(),
                            success: false,
                            file_path: None,
                            file_size: 0,
                            download_time_ms: elapsed_ms,
                            error: Some(e),
                            skipped: false,
                        },
                    )
                }
            },
        }
    }

    /// What is to be remembered of a catalog that was fetched from `source` at
    /// `now`.
    pub fn metadata_for(source: &DatSource, info: &DownloadInfo, now: u64) -> (m: DatMetadata)
        ensures
            m.source_url@ == source.url@,
            m.downloaded_at == now,
            m.file_size == info.file_size,
            m.checksum@ == info.checksum@,
            m.system@ == source.system@,
    {
        DatMetadata {
            source_url: source.url.clone(),
            downloaded_at: now,
            file_size: info.file_size,
            checksum: info.checksum.clone(),
            system: source.system.clone(),
        }
    }
}

impl DatDownloader {
    /// Whether the catalog of a system is to be fetched: always where `force`
    /// holds, else unless the catalog on disk, known by `existing`, is fresh.
    pub fn needs_download(&self, force: bool, existing: Option<&DatMetadata>, now: u64) -> (r: bool)
        ensures
            r == (force || !(existing matches Some(m) && is_fresh(
                self.config(),
                m.downloaded_at,
                now,
            ))),
    {
        if force {
            return true;
        }
        match existing {
            Some(m) => self.config.is_stale(m.downloaded_at, now),
            None => true,
        }
    }
}

/// Keeps the catalogs up to date.
pub struct DatManager {
    downloader: DatDownloader,
}

impl DatManager {
    /// The downloader.
    pub closed spec fn inner(&self) -> DatDownloader {
        self.downloader
    }

    /// A manager with the sources that are known from the start.
    pub fn new(config: DatDownloadConfig) -> (r: Self)
        ensures
            r.inner().config() == config,
            r.inner().sources() == default_sources(),
    {
        DatManager { downloader: DatDownloader::new(config) }
    }

    /// The downloader.
    pub fn downloader(&self) -> (r: &DatDownloader)
        ensures
            *r == self.inner(),
    {
        &self.downloader
    }

    /// The counts of a batch of fetches, if none of them failed; else the number
    /// of those that failed.
    pub fn update_all_dats(&self, results: &Vec<DatDownloadResult>) -> (r: Result<
        DownloadSummary,
        DownloadError,
    >)
        ensures
            ({
                let t = tally(results@, results@.len() as int);
                match r {
                    Ok(s) => t.2 == 0 && (s.successful as nat, s.skipped as nat, s.failed as nat)
                        == t,
                    Err(e) => t.2 > 0 && e == DownloadError::Failed(t.2 as usize),
                }
            }),
    {
        let s = summarize(results);
        if s.failed > 0 {
            Err(DownloadError::Failed(s.failed))
        } else {
            Ok(s)
        }
    }

    /// The systems that have a source, each once, in the order of the sources.
    pub fn available_systems(&self) -> (r: Vec<String>)
        ensures
            string_texts(r@) == distinct(systems_of(self.inner().sources())),
    {
        self.downloader.get_available_systems()
    }
}

/// The MD5 digest of `data` written with 32 lower-case hexadecimal digits, as the
/// crate `md5` computes it.
pub uninterp spec fn md5_hex(data: Seq<u8>) -> Seq<char>;

/// `md5::compute`, and the digest formatted with `{:x}`: the digest of the bytes
/// in lower-case hexadecimal digits.
#[verifier::external_body]
fn md5_digest_hex(data: &[u8]) -> (r: String)
    ensures
        r@ == md5_hex(data@),
{
    format!("{:x}", md5::compute(data))
}

/// What is known of the bytes `content` that a request gave: how many they are,
/// and their digest.
pub fn download_info(content: &[u8]) -> (r: DownloadInfo)
    ensures
        r.file_size == content@.len(),
        r.checksum@ == md5_hex(content@),
{
    DownloadInfo { file_size: content.len() as u64, checksum: md5_digest_hex(content) }
}

impl DatDownloader {
    /// The digest of the bytes of a catalog file, in hexadecimal digits.
    pub fn calculate_checksum(&self, content: &[u8]) -> (r: String)
        ensures
            r@ == md5_hex(content@),
    {
        md5_digest_hex(content)
    }
}

} // verus!
