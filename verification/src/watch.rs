//! Watching ROM directories: which changes matter, when a batch of changes is due,
//! and which directories a batch touches.

use vstd::prelude::*;
use crate::classifier::{archive_ext, is_archive_ext, is_rom_ext, rom_ext};
use crate::paths::{extension, extension_of, has_extension, extension_start, file_name, parent, parent_of};
use crate::platform::Platform;
use crate::scanner::string_texts;
pub use crate::text::holds_text;
use crate::text::{chars_of, lower_chars, lowercase, string_of};

verus! {

/// A change in a watched directory as a mathematical value.
pub enum EventRow {
    Created(Seq<char>),
    Modified(Seq<char>),
    Deleted(Seq<char>),
    Renamed { from: Seq<char>, to: Seq<char> },
}

/// A change in a watched directory.
#[derive(Debug)]
pub enum FileEvent {
    Created(String),
    Modified(String),
    Deleted(String),
    Renamed { from: String, to: String },
}

impl View for FileEvent {
    type V = EventRow;

    open spec fn view(&self) -> EventRow {
        match self {
            FileEvent::Created(p) => EventRow::Created(p@),
            FileEvent::Modified(p) => EventRow::Modified(p@),
            FileEvent::Deleted(p) => EventRow::Deleted(p@),
            FileEvent::Renamed { from, to } => EventRow::Renamed { from: from@, to: to@ },
        }
    }
}

impl Clone for FileEvent {
    fn clone(&self) -> (r: Self)
        ensures
            r@ == self@,
    {
        match self {
            FileEvent::Created(p) => FileEvent::Created(p.clone()),
            FileEvent::Modified(p) => FileEvent::Modified(p.clone()),
            FileEvent::Deleted(p) => FileEvent::Deleted(p.clone()),
            FileEvent::Renamed { from, to } => FileEvent::Renamed {
                from: from.clone(),
                to: to.clone(),
            },
        }
    }
}

/// The changes of a list as mathematical values.
pub open spec fn event_rows(v: Seq<FileEvent>) -> Seq<EventRow> {
    v.map_values(|e: FileEvent| e@)
}

/// The path that a change leaves behind: the new one of a renaming.
pub open spec fn target_of(e: EventRow) -> Seq<char> {
    match e {
        EventRow::Created(p) => p,
        EventRow::Modified(p) => p,
        EventRow::Deleted(p) => p,
        EventRow::Renamed { to, .. } => to,
    }
}

/// How directories are watched. Times are in milliseconds.
#[derive(Debug, Clone, Copy, PartialEq, Eq, Structural)]
pub struct WatchConfig {
    pub debounce_duration: u64,
    pub batch_size: usize,
    pub scan_delay: u64,
    pub include_archives: bool,
}

impl Default for WatchConfig {
    fn default() -> (c: Self)
        ensures
            c == (WatchConfig {
                debounce_duration: 500,
                batch_size: 100,
                scan_delay: 2000,
                include_archives: true,
            }),
    {
        WatchConfig { debounce_duration: 500, batch_size: 100, scan_delay: 2000, include_archives: true }
    }
}

/// Figures of a watcher.
#[derive(Debug, Clone, Copy, PartialEq, Eq, Structural)]
pub struct WatchStats {
    pub watched_directories: usize,
    pub pending_events: usize,
    pub last_scan: Option<u64>,
}

/// What can go wrong while watching.
#[derive(Debug)]
pub enum WatchError {
    /// The directory at this path does not exist.
    DirectoryMissing(String),
}

/// What the file system holds at a path.
#[derive(Debug, Clone, Copy, PartialEq, Eq, Structural)]
pub enum PathKind {
    Missing,
    File,
    Directory,
}

/// What kind of change the file system told of.
#[derive(Debug, Clone, Copy, PartialEq, Eq, Structural)]
pub enum ChangeKind {
    Create,
    Modify,
    Remove,
    Other,
    Access,
    Any,
}

/// Whether a change of the file at `path` matters: its extension, in lower case,
/// is that of a ROM, or that of a container where containers count.
pub open spec fn is_relevant(path: Seq<char>, include_archives: bool) -> bool {
    let e = lowercase(extension_of(path));
    has_extension(crate::paths::file_name_of(path)) && (is_rom_ext(e) || (include_archives
        && is_archive_ext(e)))
}

/// The change that a notice of the file system stands for: none where the notice
/// names no path or the first path does not matter; a renaming for a notice of
/// another kind with two paths.
pub open spec fn event_of(kind: ChangeKind, paths: Seq<Seq<char>>, include_archives: bool) -> Option<
    EventRow,
> {
    if paths.len() == 0 || !is_relevant(paths[0], include_archives) {
        None
    } else {
        match kind {
            ChangeKind::Create => Some(EventRow::Created(paths[0])),
            ChangeKind::Modify => Some(EventRow::Modified(paths[0])),
            ChangeKind::Remove => Some(EventRow::Deleted(paths[0])),
            ChangeKind::Other => if paths.len() == 2 {
                Some(EventRow::Renamed { from: paths[0], to: paths[1] })
            } else {
                None
            },
            _ => None,
        }
    }
}

/// Whether a later change of `s` leaves behind the path that the change at `i`
/// leaves behind.
pub open spec fn overtaken(s: Seq<EventRow>, i: int) -> bool {
    exists|j: int| i < j < s.len() && target_of(#[trigger] s[j]) == target_of(s[i])
}

/// The changes from position `i` on that no later change overtakes, in order.
pub open spec fn latest_from(s: Seq<EventRow>, i: int) -> Seq<EventRow>
    decreases s.len() - i,
{
    if i >= s.len() || i < 0 {
        Seq::empty()
    } else if overtaken(s, i) {
        latest_from(s, i + 1)
    } else {
        seq![s[i]] + latest_from(s, i + 1)
    }
}

/// Whether a batch of `pending` changes is due at the time `now`: there are
/// changes, and there are enough of them, or nothing was scanned yet, or the last
/// scan is long enough ago.
pub open spec fn batch_due(config: WatchConfig, pending: nat, last_scan: Option<u64>, now: u64) -> bool {
    pending > 0 && (pending >= config.batch_size || match last_scan {
        Some(t) => now - t >= config.scan_delay,
        None => true,
    })
}

/// The state of a watcher as a mathematical value.
pub struct WatcherModel {
    pub config: WatchConfig,
    pub watched: Seq<Seq<char>>,
    pub last_scan: Option<u64>,
    pub pending: Seq<EventRow>,
}

/// The watcher of ROM directories: what it watches, the changes that wait, and when
/// it last scanned.
pub struct RomWatcher {
    config: WatchConfig,
    watched_paths: Vec<String>,
    last_scan: Option<u64>,
    pending_events: Vec<FileEvent>,
}

impl View for RomWatcher {
    type V = WatcherModel;

    closed spec fn view(&self) -> WatcherModel {
        WatcherModel {
            config: self.config,
            watched: string_texts(self.watched_paths@),
            last_scan: self.last_scan,
            pending: event_rows(self.pending_events@),
        }
    }
}

/// The path that a change leaves behind.
pub fn target_path(e: &FileEvent) -> (r: &String)
    ensures
        r@ == target_of(e@),
{
    match e {
        FileEvent::Created(p) => p,
        FileEvent::Modified(p) => p,
        FileEvent::Deleted(p) => p,
        FileEvent::Renamed { to, .. } => to,
    }
}

impl RomWatcher {
    /// A watcher that watches nothing yet.
    pub fn new(config: WatchConfig) -> (r: Result<Self, WatchError>)
        ensures
            r matches Ok(w) && w@ == (WatcherModel {
                config: config,
                watched: Seq::empty(),
                last_scan: None,
                pending: Seq::empty(),
            }),
    {
        let w = RomWatcher {
            config: config,
            watched_paths: Vec::new(),
            last_scan: None,
            pending_events: Vec::new(),
        };
        assert(w@.watched =~= Seq::<Seq<char>>::empty());
        assert(w@.pending =~= Seq::<EventRow>::empty());
        Ok(w)
    }

    /// Takes the directory at `path` under watch, where the file system holds a
    /// directory there and it is not watched yet.
    pub fn watch_directory(&mut self, path: &str, kind: PathKind) -> (r: Result<(), WatchError>)
        ensures
            r is Ok,
            final(self)@ == (WatcherModel {
                watched: if kind == PathKind::Directory && !old(self)@.watched.contains(path@) {
                    old(self)@.watched.push(path@)
                } else {
                    old(self)@.watched
                },
                ..old(self)@
            }),
    {
        match kind {
            PathKind::Directory => {
                if !holds_text(&self.watched_paths, path) {
                    let ghost before = string_texts(self.watched_paths@);
                    self.watched_paths.push(path.to_owned());
                    assert(string_texts(self.watched_paths@) =~= before.push(path@));
                }
            },
            _ => {},
        }
        Ok(())
    }

    /// Whether a change of the file at `path` matters.
    pub fn is_relevant_file(&self, path: &str) -> (r: bool)
        ensures
            r == is_relevant(path@, self@.config.include_archives),
    {
        let p = chars_of(path);
        let name = file_name(p.as_slice());
        if extension_start(name.as_slice()).is_none() {
            return false;
        }
        let e = lower_chars(extension(p.as_slice()).as_slice());
        rom_ext(e.as_slice()) || (self.config.include_archives && archive_ext(e.as_slice()))
    }

    /// The change that a notice of the file system stands for.
    pub fn convert_event(&self, kind: ChangeKind, paths: &Vec<String>) -> (r: Result<
        Option<FileEvent>,
        WatchError,
    >)
        ensures
            r matches Ok(o) && (match o {
                Some(e) => Some(e@),
                None => None,
            }) == event_of(kind, string_texts(paths@), self@.config.include_archives),
    {
        if paths.len() == 0 {
            return Ok(None);
        }
        assert(string_texts(paths@)[0] == paths@[0]@);
        if !self.is_relevant_file(paths[0].as_str()) {
            return Ok(None);
        }
        match kind {
            ChangeKind::Create => Ok(Some(FileEvent::Created(paths[0].clone()))),
            ChangeKind::Modify => Ok(Some(FileEvent::Modified(paths[0].clone()))),
            ChangeKind::Remove => Ok(Some(FileEvent::Deleted(paths[0].clone()))),
            ChangeKind::Other => {
                if paths.len() == 2 {
                    assert(string_texts(paths@)[1] == paths@[1]@);
                    Ok(Some(FileEvent::Renamed { from: paths[0].clone(), to: paths[1].clone() }))
                } else {
                    Ok(None)
                }
            },
            _ => Ok(None),
        }
    }

    /// Whether the changes that wait are due at the time `now`.
    pub fn should_process_batch(&self, now: u64) -> (r: bool)
        ensures
            r == batch_due(self@.config, self@.pending.len(), self@.last_scan, now),
    {
        if self.pending_events.len() == 0 {
            return false;
        }
        if self.pending_events.len() >= self.config.batch_size {
            return true;
        }
        match self.last_scan {
            Some(t) => now >= t && now - t >= self.config.scan_delay,
            None => true,
        }
    }

    /// The changes that no later change overtakes, in order.
    pub fn deduplicate_events(&self, events: Vec<FileEvent>) -> (r: Vec<FileEvent>)
        ensures
            event_rows(r@) == latest_from(event_rows(events@), 0),
    {
        let mut out: Vec<FileEvent> = Vec::new();
        let ghost s = event_rows(events@);
        let mut i: usize = events.len();
        assert(event_rows(out@) =~= Seq::<EventRow>::empty());
        while i > 0
            invariant
                i <= events.len(),
                s == event_rows(events@),
                event_rows(out@) == latest_from(s, i as int),
            decreases i,
        {
            i -= 1;
            let ghost before = event_rows(out@);
            let mine = target_path(&events[i]);
            let mut later = false;
            let mut j: usize = i + 1;
            while j < events.len() && !later
                invariant
                    i < j <= events.len(),
                    s == event_rows(events@),
                    mine@ == target_of(s[i as int]),
                    !later ==> forall|k: int| i < k < j ==> target_of(#[trigger] s[k]) != target_of(
                        s[i as int],
                    ),
                    later ==> overtaken(s, i as int),
                decreases events.len() - j + if later { 0int } else { 1int },
            {
                assert(s[j as int] == events@[j as int]@);
                if *target_path(&events[j]) == *mine {
                    later = true;
                    assert(i < j < s.len() && target_of(s[j as int]) == target_of(s[i as int]));
                } else {
                    j += 1;
                }
            }
            if !later {
                let e = events[i].clone();
                out.insert(0, e);
                assert(event_rows(out@) =~= seq![e@] + before);
            }
        }
        out
    }

    /// Takes in the new changes `new_events` at the time `now`. Where a batch is
    /// due then, all changes that wait leave the watcher and are returned without
    /// those that a later one overtakes, and the time of the last scan is `now`.
    pub fn process_events(&mut self, new_events: Vec<FileEvent>, now: u64) -> (r: Result<
        Vec<FileEvent>,
        WatchError,
    >)
        ensures
            r is Ok,
            ({
                let all = old(self)@.pending + event_rows(new_events@);
                let due = batch_due(old(self)@.config, all.len(), old(self)@.last_scan, now);
                &&& event_rows(r->Ok_0@) == if due {
                    latest_from(all, 0)
                } else {
                    Seq::<EventRow>::empty()
                }
                &&& final(self)@ == (WatcherModel {
                    pending: if due {
                        Seq::<EventRow>::empty()
                    } else {
                        all
                    },
                    last_scan: if due {
                        Some(now)
                    } else {
                        old(self)@.last_scan
                    },
                    ..old(self)@
                })
            }),
    {
        let mut more = new_events;
        let ghost a = event_rows(self.pending_events@);
        let ghost b = event_rows(more@);
        self.pending_events.append(&mut more);
        assert(event_rows(self.pending_events@) =~= a + b);
        if self.should_process_batch(now) {
            let mut events: Vec<FileEvent> = Vec::new();
            std::mem::swap(&mut self.pending_events, &mut events);
            self.last_scan = Some(now);
            assert(event_rows(self.pending_events@) =~= Seq::<EventRow>::empty());
            Ok(self.deduplicate_events(events))
        } else {
            let none: Vec<FileEvent> = Vec::new();
            assert(event_rows(none@) =~= Seq::<EventRow>::empty());
            Ok(none)
        }
    }

    /// The directories under watch, in the order in which they came.
    pub fn watched_directories(&self) -> (r: Vec<String>)
        ensures
            string_texts(r@) == self@.watched,
    {
        crate::core_mapper::clone_strings(&self.watched_paths)
    }

    /// The figures of the watcher.
    pub fn stats(&self) -> (r: WatchStats)
        ensures
            r == (WatchStats {
                watched_directories: self@.watched.len() as usize,
                pending_events: self@.pending.len() as usize,
                last_scan: self@.last_scan,
            }),
    {
        WatchStats {
            watched_directories: self.watched_paths.len(),
            pending_events: self.pending_events.len(),
            last_scan: self.last_scan,
        }
    }
}


/// `dirs` with the directory that holds `path` at its end, unless `dirs` has it
/// or the path has none.
pub open spec fn noted(dirs: Seq<Seq<char>>, path: Seq<char>) -> Seq<Seq<char>> {
    match parent_of(path) {
        Some(d) => if dirs.contains(d) {
            dirs
        } else {
            dirs.push(d)
        },
        None => dirs,
    }
}

/// `dirs` with the directories that the change `e` touches: both sides of a
/// renaming.
pub open spec fn dirs_after(dirs: Seq<Seq<char>>, e: EventRow) -> Seq<Seq<char>> {
    match e {
        EventRow::Created(p) => noted(dirs, p),
        EventRow::Modified(p) => noted(dirs, p),
        EventRow::Deleted(p) => noted(dirs, p),
        EventRow::Renamed { from, to } => noted(noted(dirs, from), to),
    }
}

/// The directories that the changes touch, each once, in the order in which they
/// are first touched.
pub open spec fn affected_dirs(events: Seq<EventRow>) -> Seq<Seq<char>>
    decreases events.len(),
{
    if events.len() == 0 {
        Seq::empty()
    } else {
        dirs_after(affected_dirs(events.drop_last()), events.last())
    }
}

/// Whether the changes that wait are to be worked off at `now`: there are some,
/// and the last scan is not more recent than the scan delay.
pub open spec fn sweep_due(m: WatcherModel, now: u64) -> bool {
    m.pending.len() > 0 && !(m.last_scan matches Some(t) && now - t < m.config.scan_delay)
}

/// The watcher after the changes that wait were worked off at `now`, if that was
/// due, and the directories to scan again.
pub open spec fn swept(m: WatcherModel, now: u64) -> (WatcherModel, Seq<Seq<char>>) {
    if sweep_due(m, now) {
        (
            WatcherModel { pending: Seq::empty(), last_scan: Some(now), ..m },
            affected_dirs(m.pending),
        )
    } else {
        (m, Seq::empty())
    }
}

/// What the watcher's loop was woken by.
#[derive(Debug)]
pub enum LoopEvent {
    /// A notice of the file system about the paths.
    Notice { kind: ChangeKind, paths: Vec<String> },
    /// The file system watch reported a failure.
    Fault,
    /// Nothing came within the debounce time.
    Timeout,
    /// The source of notices is gone.
    Disconnected,
}

/// What the watcher's loop does next.
#[derive(Debug)]
pub enum LoopAction {
    /// Scan these directories again, then go on.
    Continue(Vec<String>),
    /// End the loop.
    Stop,
}

/// The watcher after one turn of its loop at `now`, and the directories to scan
/// again; none where the loop ends. A notice that matters joins the changes that
/// wait, and they are worked off once they fill a batch; a timeout works off
/// whatever waits.
pub open spec fn turned(m: WatcherModel, event: LoopEvent, now: u64) -> (
    WatcherModel,
    Option<Seq<Seq<char>>>,
) {
    match event {
        LoopEvent::Notice { kind, paths } => match event_of(
            kind,
            string_texts(paths@),
            m.config.include_archives,
        ) {
            Some(e) => {
                let more = WatcherModel { pending: m.pending.push(e), ..m };
                if more.pending.len() >= m.config.batch_size {
                    (swept(more, now).0, Some(swept(more, now).1))
                } else {
                    (more, Some(Seq::empty()))
                }
            },
            None => (m, Some(Seq::empty())),
        },
        LoopEvent::Fault => (m, Some(Seq::empty())),
        LoopEvent::Timeout => (swept(m, now).0, Some(swept(m, now).1)),
        LoopEvent::Disconnected => (m, None),
    }
}

/// Adds the directory that holds `path` to `dirs`, unless it is there.
fn note_dir(dirs: &mut Vec<String>, path: &str)
    ensures
        string_texts(final(dirs)@) == noted(string_texts(old(dirs)@), path@),
{
    let chars = chars_of(path);
    match parent(chars.as_slice()) {
        Some(d) => {
            let dir = string_of(d.as_slice());
            if !holds_text(dirs, dir.as_str()) {
                let ghost before = string_texts(dirs@);
                dirs.push(dir);
                assert(string_texts(dirs@) =~= before.push(d@));
            }
        },
        None => {},
    }
}

impl RomWatcher {
    /// Takes the directory at `path` from under watch.
    pub fn unwatch_directory(&mut self, path: &str)
        ensures
            final(self)@ == (WatcherModel {
                watched: old(self)@.watched.filter(|p: Seq<char>| p != path@),
                ..old(self)@
            }),
    {
        let mut kept: Vec<String> = Vec::new();
        let ghost all = string_texts(self.watched_paths@);
        let ghost keep = |p: Seq<char>| p != path@;
        let wanted = path.to_owned();
        let mut i: usize = 0;
        assert(all.take(0) =~= Seq::<Seq<char>>::empty());
        assert(string_texts(kept@) =~= Seq::<Seq<char>>::empty());
        proof {
            reveal(Seq::filter);
        }
        while i < self.watched_paths.len()
            invariant
                i <= self.watched_paths.len(),
                all == string_texts(self.watched_paths@),
                keep == |p: Seq<char>| p != path@,
                wanted@ == path@,
                string_texts(kept@) == all.take(i as int).filter(keep),
            decreases self.watched_paths.len() - i,
        {
            let ghost before = string_texts(kept@);
            assert(all.take(i + 1).drop_last() == all.take(i as int));
            assert(all.take(i + 1).last() == self.watched_paths@[i as int]@);
            proof {
                reveal(Seq::filter);
            }
            if self.watched_paths[i] != wanted {
                kept.push(self.watched_paths[i].clone());
                assert(string_texts(kept@) =~= before.push(self.watched_paths@[i as int]@));
            }
            i += 1;
        }
        assert(all.take(all.len() as int) == all);
        self.watched_paths = kept;
    }

    /// The directories that the changes that wait touch.
    fn pending_dirs(&self) -> (r: Vec<String>)
        ensures
            string_texts(r@) == affected_dirs(self@.pending),
    {
        let mut dirs: Vec<String> = Vec::new();
        let ghost all = event_rows(self.pending_events@);
        let mut i: usize = 0;
        assert(all.take(0) =~= Seq::<EventRow>::empty());
        assert(string_texts(dirs@) =~= Seq::<Seq<char>>::empty());
        while i < self.pending_events.len()
            invariant
                i <= self.pending_events.len(),
                all == event_rows(self.pending_events@),
                string_texts(dirs@) == affected_dirs(all.take(i as int)),
            decreases self.pending_events.len() - i,
        {
            assert(all.take(i + 1).drop_last() == all.take(i as int));
            assert(all.take(i + 1).last() == self.pending_events@[i as int]@);
            match &self.pending_events[i] {
                FileEvent::Created(p) => note_dir(&mut dirs, p.as_str()),
                FileEvent::Modified(p) => note_dir(&mut dirs, p.as_str()),
                FileEvent::Deleted(p) => note_dir(&mut dirs, p.as_str()),
                FileEvent::Renamed { from, to } => {
                    note_dir(&mut dirs, from.as_str());
                    note_dir(&mut dirs, to.as_str());
                },
            }
            i += 1;
        }
        assert(all.take(all.len() as int) == all);
        dirs
    }

    /// Works off the changes that wait, if that is due at `now`: they leave the
    /// watcher, and the directories that they touch are returned for a new scan.
    pub fn process_pending_events(&mut self, now: u64) -> (r: Vec<String>)
        ensures
            final(self)@ == swept(old(self)@, now).0,
            string_texts(r@) == swept(old(self)@, now).1,
    {
        let debounced = match self.last_scan {
            Some(t) => now < t || now - t < self.config.scan_delay,
            None => false,
        };
        if self.pending_events.len() == 0 || debounced {
            let none: Vec<String> = Vec::new();
            assert(string_texts(none@) =~= Seq::<Seq<char>>::empty());
            return none;
        }
        let dirs = self.pending_dirs();
        self.pending_events = Vec::new();
        self.last_scan = Some(now);
        assert(event_rows(self.pending_events@) =~= Seq::<EventRow>::empty());
        dirs
    }

    /// One turn of the watcher's loop at `now`.
    pub fn event_loop_step(&mut self, event: LoopEvent, now: u64) -> (r: LoopAction)
        ensures
            final(self)@ == turned(old(self)@, event, now).0,
            match r {
                LoopAction::Continue(dirs) => turned(old(self)@, event, now).1 == Some(
                    string_texts(dirs@),
                ),
                LoopAction::Stop => turned(old(self)@, event, now).1 is None,
            },
    {
        let none: Vec<String> = Vec::new();
        assert(string_texts(none@) =~= Seq::<Seq<char>>::empty());
        match event {
            LoopEvent::Notice { kind, paths } => {
                match self.convert_event(kind, &paths) {
                    Ok(Some(e)) => {
                        let ghost before = event_rows(self.pending_events@);
                        self.pending_events.push(e);
                        assert(event_rows(self.pending_events@) =~= before.push(e@));
                        if self.pending_events.len() >= self.config.batch_size {
                            LoopAction::Continue(self.process_pending_events(now))
                        } else {
                            LoopAction::Continue(none)
                        }
                    },
                    _ => LoopAction::Continue(none),
                }
            },
            LoopEvent::Fault => LoopAction::Continue(none),
            LoopEvent::Timeout => LoopAction::Continue(self.process_pending_events(now)),
            LoopEvent::Disconnected => LoopAction::Stop,
        }
    }
}

/// What a watch service is set up with, as a mathematical value.
pub struct ServiceModel {
    pub config: WatchConfig,
    pub watched_directories: Seq<Seq<char>>,
    pub source_platform: Platform,
    pub target_platform: Platform,
    pub output_dir: Seq<char>,
}

/// The watch service: the directories to watch and what to do with what is found.
pub struct WatchService {
    config: WatchConfig,
    watched_directories: Vec<String>,
    source_platform: Platform,
    target_platform: Platform,
    output_dir: String,
}

impl View for WatchService {
    type V = ServiceModel;

    closed spec fn view(&self) -> ServiceModel {
        ServiceModel {
            config: self.config,
            watched_directories: string_texts(self.watched_directories@),
            source_platform: self.source_platform,
            target_platform: self.target_platform,
            output_dir: self.output_dir@,
        }
    }
}

/// The directories of a list without repeats, in the order of their first
/// occurrence.
pub open spec fn distinct(dirs: Seq<Seq<char>>) -> Seq<Seq<char>>
    decreases dirs.len(),
{
    if dirs.len() == 0 {
        Seq::empty()
    } else if distinct(dirs.drop_last()).contains(dirs.last()) {
        distinct(dirs.drop_last())
    } else {
        distinct(dirs.drop_last()).push(dirs.last())
    }
}

impl WatchService {
    /// A service with the default settings, for Windows on both sides, writing to
    /// `./playlists`, with nothing to watch yet.
    pub fn new() -> (s: Self)
        ensures
            s@ == (ServiceModel {
                config: (WatchConfig {
                    debounce_duration: 500,
                    batch_size: 100,
                    scan_delay: 2000,
                    include_archives: true,
                }),
                watched_directories: Seq::empty(),
                source_platform: Platform::Windows,
                target_platform: Platform::Windows,
                output_dir: "./playlists"@,
            }),
    {
        let s = WatchService {
            config: WatchConfig::default(),
            watched_directories: Vec::new(),
            source_platform: Platform::Windows,
            target_platform: Platform::Windows,
            output_dir: "./playlists".to_owned(),
        };
        assert(s@.watched_directories =~= Seq::<Seq<char>>::empty());
        s
    }

    /// The same service with another debounce time, in milliseconds.
    pub fn with_debounce_duration(self, duration: u64) -> (s: Self)
        ensures
            s@ == (ServiceModel {
                config: (WatchConfig { debounce_duration: duration, ..self@.config }),
                ..self@
            }),
    {
        let mut s = self;
        s.config.debounce_duration = duration;
        s
    }

    /// The same service with another batch size.
    pub fn with_batch_size(self, size: usize) -> (s: Self)
        ensures
            s@ == (ServiceModel { config: (WatchConfig { batch_size: size, ..self@.config }), ..self@ }),
    {
        let mut s = self;
        s.config.batch_size = size;
        s
    }

    /// The same service, minding containers or not.
    pub fn with_include_archives(self, archives: bool) -> (s: Self)
        ensures
            s@ == (ServiceModel {
                config: (WatchConfig { include_archives: archives, ..self@.config }),
                ..self@
            }),
    {
        let mut s = self;
        s.config.include_archives = archives;
        s
    }

    /// The same service for other platforms.
    pub fn with_platforms(self, source: Platform, target: Platform) -> (s: Self)
        ensures
            s@ == (ServiceModel { source_platform: source, target_platform: target, ..self@ }),
    {
        let mut s = self;
        s.source_platform = source;
        s.target_platform = target;
        s
    }

    /// The same service, writing to another directory.
    pub fn with_output_dir(self, dir: String) -> (s: Self)
        ensures
            s@ == (ServiceModel { output_dir: dir@, ..self@ }),
    {
        let mut s = self;
        s.output_dir = dir;
        s
    }

    /// Adds the directory at `path` to those to watch. An error where the file
    /// system holds nothing there.
    pub fn add_watch_directory(&mut self, path: String, kind: PathKind) -> (r: Result<(), WatchError>)
        ensures
            r is Ok <==> kind != PathKind::Missing,
            r matches Err(WatchError::DirectoryMissing(p)) ==> p@ == path@,
            final(self)@ == (ServiceModel {
                watched_directories: if kind != PathKind::Missing {
                    old(self)@.watched_directories.push(path@)
                } else {
                    old(self)@.watched_directories
                },
                ..old(self)@
            }),
    {
        match kind {
            PathKind::Missing => Err(WatchError::DirectoryMissing(path)),
            _ => {
                let ghost before = string_texts(self.watched_directories@);
                self.watched_directories.push(path);
                assert(string_texts(self.watched_directories@) =~= before.push(path@));
                Ok(())
            },
        }
    }

    /// A watcher with the settings of the service and its directories under watch.
    pub fn start_watching(&self) -> (r: Result<RomWatcher, WatchError>)
        ensures
            r matches Ok(w) && w@ == (WatcherModel {
                config: self@.config,
                watched: distinct(self@.watched_directories),
                last_scan: None,
                pending: Seq::empty(),
            }),
    {
        let mut watcher = match RomWatcher::new(self.config) {
            Ok(w) => w,
            Err(e) => {
                return Err(e);
            },
        };
        let ghost dirs = string_texts(self.watched_directories@);
        let mut i: usize = 0;
        assert(dirs.take(0) =~= Seq::<Seq<char>>::empty());
        while i < self.watched_directories.len()
            invariant
                i <= self.watched_directories.len(),
                dirs == string_texts(self.watched_directories@),
                watcher@ == (WatcherModel {
                    config: self@.config,
                    watched: distinct(dirs.take(i as int)),
                    last_scan: None,
                    pending: Seq::empty(),
                }),
            decreases self.watched_directories.len() - i,
        {
            assert(dirs.take(i + 1).drop_last() == dirs.take(i as int));
            assert(dirs.take(i + 1).last() == self.watched_directories@[i as int]@);
            let _ = watcher.watch_directory(self.watched_directories[i].as_str(), PathKind::Directory);
            i += 1;
        }
        assert(dirs.take(dirs.len() as int) == dirs);
        Ok(watcher)
    }
}

impl Default for WatchService {
    fn default() -> (s: Self)
        ensures
            s@ == (ServiceModel {
                config: (WatchConfig {
                    debounce_duration: 500,
                    batch_size: 100,
                    scan_delay: 2000,
                    include_archives: true,
                }),
                watched_directories: Seq::empty(),
                source_platform: Platform::Windows,
                target_platform: Platform::Windows,
                output_dir: "./playlists"@,
            }),
    {
        WatchService::new()
    }
}

} // verus!
