//! Keeping track of what the workers of a scan are doing, and the line of text
//! that shows it.

use vstd::prelude::*;
use crate::numbers::{decimal, push_decimal};
use crate::paths::{file_name, file_name_of};
use crate::scanner::{StatusRow, ThreadStatus};
use crate::split::{append, push_str};
use crate::text::{chars_of, slice_of, string_of};

verus! {

/// What is known of one worker as a mathematical value.
pub struct InfoRow {
    pub id: usize,
    pub status: StatusRow,
    pub start_time: u64,
    pub files_processed: usize,
}

/// What is known of one worker: what it is doing, when it started, in
/// milliseconds, and how many files it has finished.
#[derive(Debug)]
pub struct ThreadInfo {
    pub id: usize,
    pub status: ThreadStatus,
    pub start_time: u64,
    pub files_processed: usize,
}

impl View for ThreadInfo {
    type V = InfoRow;

    open spec fn view(&self) -> InfoRow {
        InfoRow {
            id: self.id,
            status: self.status@,
            start_time: self.start_time,
            files_processed: self.files_processed,
        }
    }
}

/// The workers of a list as mathematical values.
pub open spec fn info_rows(v: Seq<ThreadInfo>) -> Seq<InfoRow> {
    v.map_values(|t: ThreadInfo| t@)
}

/// `text` cut to `max_len` characters: where it is longer, its first
/// `max_len - 3` characters (none where that is below zero) and three dots.
pub open spec fn truncated(text: Seq<char>, max_len: nat) -> Seq<char> {
    if text.len() <= max_len {
        text
    } else if max_len >= 3 {
        text.take(max_len - 3) + "..."@
    } else {
        "..."@
    }
}

/// The line that shows the status `s`.
pub open spec fn message_of(s: StatusRow) -> Seq<char> {
    match s {
        StatusRow::Idle => "\u{1F538} Aguardando..."@,
        StatusRow::ScanningFile(f) => "\u{1F50D} Escaneando: "@ + truncated(file_name_of(f), 30),
        StatusRow::ExtractingArchive { file, progress } => "\u{1F4E6} Extraindo "@ + truncated(
            file_name_of(file),
            20,
        ) + " ("@ + decimal(progress as nat) + ".0%)"@,
        StatusRow::CalculatingCrc(f) => "\u{1F522} CRC32: "@ + truncated(file_name_of(f), 30),
        StatusRow::ProcessingComplete(f) => "\u{2705} Conclu\u{ED}do: "@ + truncated(
            file_name_of(f),
            25,
        ),
        StatusRow::Error(f, e) => "\u{274C} Erro em "@ + truncated(file_name_of(f), 20) + ": "@
            + truncated(e, 20),
    }
}

/// The position of the first worker with the number `id`, if there is one.
pub open spec fn slot_of(threads: Seq<InfoRow>, id: usize) -> Option<int>
    decreases threads.len(),
{
    if threads.len() == 0 {
        None
    } else {
        match slot_of(threads.drop_last(), id) {
            Some(i) => Some(i),
            None => if threads.last().id == id {
                Some(threads.len() - 1)
            } else {
                None
            },
        }
    }
}

/// A slot holds the number asked for, and no slot means that no worker has it.
pub proof fn lemma_slot(threads: Seq<InfoRow>, id: usize)
    ensures
        match slot_of(threads, id) {
            Some(i) => 0 <= i < threads.len() && threads[i].id == id,
            None => forall|j: int| 0 <= j < threads.len() ==> (#[trigger] threads[j]).id != id,
        },
    decreases threads.len(),
{
    if threads.len() > 0 {
        lemma_slot(threads.drop_last(), id);
        if slot_of(threads.drop_last(), id) is None && threads.last().id != id {
            assert forall|j: int| 0 <= j < threads.len() implies (#[trigger] threads[j]).id
                != id by {
                if j < threads.len() - 1 {
                    assert(threads.drop_last()[j] == threads[j]);
                }
            }
        }
    }
}

/// A slot found among the first `n` workers is the slot in the whole list.
pub proof fn lemma_slot_stays(threads: Seq<InfoRow>, id: usize, n: int)
    requires
        0 <= n <= threads.len(),
        slot_of(threads.take(n), id) is Some,
    ensures
        slot_of(threads, id) == slot_of(threads.take(n), id),
    decreases threads.len() - n,
{
    if n < threads.len() {
        assert(threads.take(n + 1).drop_last() == threads.take(n));
        lemma_slot_stays(threads, id, n + 1);
    } else {
        assert(threads.take(n) == threads);
    }
}

/// Whether no two workers have one number.
pub open spec fn distinct_ids(threads: Seq<InfoRow>) -> bool {
    forall|i: int, j: int|
        0 <= i < j < threads.len() ==> (#[trigger] threads[i]).id != (#[trigger] threads[j]).id
}

/// A worker that was just registered.
pub open spec fn fresh_info(id: usize, now: u64) -> InfoRow {
    InfoRow { id, status: StatusRow::Idle, start_time: now, files_processed: 0 }
}

/// `n + 1`, as far as the machine can count.
pub open spec fn bumped(n: usize) -> usize {
    if n < usize::MAX {
        (n + 1) as usize
    } else {
        n
    }
}

/// The worker `t` with the new status `s`: a finished file is counted.
pub open spec fn with_status(t: InfoRow, s: StatusRow) -> InfoRow {
    InfoRow {
        status: s,
        files_processed: if s is ProcessingComplete {
            bumped(t.files_processed)
        } else {
            t.files_processed
        },
        ..t
    }
}

/// How many of the first `n` workers are not idle.
pub open spec fn active_count(threads: Seq<InfoRow>, n: int) -> nat
    decreases n,
{
    if n <= 0 {
        0
    } else {
        active_count(threads, n - 1) + if threads[n - 1].status is Idle {
            0nat
        } else {
            1nat
        }
    }
}

/// How many files the first `n` workers have finished.
pub open spec fn processed_sum(threads: Seq<InfoRow>, n: int) -> nat
    decreases n,
{
    if n <= 0 {
        0
    } else {
        processed_sum(threads, n - 1) + threads[n - 1].files_processed as nat
    }
}

/// The state of a monitor as a mathematical value.
pub struct MonitorModel {
    pub threads: Seq<InfoRow>,
    pub total_files: usize,
    pub completed: usize,
    pub verbose: bool,
}

/// The workers of a scan and how far the scan has come.
pub struct ThreadMonitor {
    threads: Vec<ThreadInfo>,
    total_files: usize,
    completed: usize,
    verbose: bool,
}

impl View for ThreadMonitor {
    type V = MonitorModel;

    closed spec fn view(&self) -> MonitorModel {
        MonitorModel {
            threads: info_rows(self.threads@),
            total_files: self.total_files,
            completed: self.completed,
            verbose: self.verbose,
        }
    }
}

impl ThreadMonitor {
    /// No two workers have one number.
    pub open spec fn wf(&self) -> bool {
        distinct_ids(self@.threads)
    }

    /// A monitor for a scan of `total_files` files, without workers.
    pub fn new(total_files: usize, _max_threads: usize, verbose: bool) -> (r: Self)
        ensures
            r.wf(),
            r@ == (MonitorModel { threads: Seq::empty(), total_files, completed: 0, verbose }),
    {
        let r = ThreadMonitor { threads: Vec::new(), total_files, completed: 0, verbose };
        assert(r@.threads =~= Seq::<InfoRow>::empty());
        r
    }

    /// The position of the worker with the number `id`.
    fn find(&self, id: usize) -> (r: Option<usize>)
        ensures
            match r {
                Some(i) => slot_of(self@.threads, id) == Some(i as int) && i < self.threads@.len(),
                None => slot_of(self@.threads, id) is None,
            },
    {
        let ghost all = self@.threads;
        let mut i: usize = 0;
        assert(all.take(0) =~= Seq::<InfoRow>::empty());
        while i < self.threads.len()
            invariant
                i <= self.threads.len(),
                all == info_rows(self.threads@),
                slot_of(all.take(i as int), id) is None,
            decreases self.threads.len() - i,
        {
            assert(all.take(i + 1).drop_last() == all.take(i as int));
            assert(all.take(i + 1).last() == self.threads@[i as int]@);
            if self.threads[i].id == id {
                proof {
                    lemma_slot_stays(all, id, i as int + 1);
                }
                return Some(i);
            }
            i += 1;
        }
        assert(all.take(all.len() as int) == all);
        None
    }

    /// Registers the worker `id` at the time `now`, idle and with no file
    /// finished, in place of a worker with that number.
    pub fn register_thread(&mut self, id: usize, now: u64)
        requires
            old(self).wf(),
        ensures
            final(self).wf(),
            final(self)@ == (MonitorModel {
                threads: match slot_of(old(self)@.threads, id) {
                    Some(i) => old(self)@.threads.update(i, fresh_info(id, now)),
                    None => old(self)@.threads.push(fresh_info(id, now)),
                },
                ..old(self)@
            }),
    {
        let ghost before = self@.threads;
        proof {
            lemma_slot(before, id);
        }
        let info = ThreadInfo { id, status: ThreadStatus::Idle, start_time: now, files_processed: 0 };
        match self.find(id) {
            Some(i) => {
                self.threads.set(i, info);
                assert(self@.threads =~= before.update(i as int, fresh_info(id, now)));
            },
            None => {
                self.threads.push(info);
                assert(self@.threads =~= before.push(fresh_info(id, now)));
            },
        }
    }

    /// Gives the worker `id` the status `status`; a finished file is counted for
    /// the worker and for the scan. Returns the line to show for the worker,
    /// where lines are shown and the worker is registered.
    pub fn update_thread_status(&mut self, id: usize, status: ThreadStatus) -> (r: Option<String>)
        requires
            old(self).wf(),
        ensures
            final(self).wf(),
            final(self)@ == (match slot_of(old(self)@.threads, id) {
                Some(i) => MonitorModel {
                    threads: old(self)@.threads.update(
                        i,
                        with_status(old(self)@.threads[i], status@),
                    ),
                    completed: if status is ProcessingComplete {
                        bumped(old(self)@.completed)
                    } else {
                        old(self)@.completed
                    },
                    ..old(self)@
                },
                None => old(self)@,
            }),
            match r {
                Some(line) => old(self)@.verbose && slot_of(old(self)@.threads, id) is Some
                    && line@ == message_of(status@),
                None => !(old(self)@.verbose && slot_of(old(self)@.threads, id) is Some),
            },
    {
        let ghost before = self@.threads;
        proof {
            lemma_slot(before, id);
        }
        match self.find(id) {
            Some(i) => {
                let line = if self.verbose {
                    Some(status_message(&status))
                } else {
                    None
                };
                let done = match &status {
                    ThreadStatus::ProcessingComplete(_) => true,
                    _ => false,
                };
                let old_info = &self.threads[i];
                let count = if done && old_info.files_processed < usize::MAX {
                    old_info.files_processed + 1
                } else {
                    old_info.files_processed
                };
                let info = ThreadInfo {
                    id: old_info.id,
                    status,
                    start_time: old_info.start_time,
                    files_processed: count,
                };
                self.threads.set(i, info);
                if done && self.completed < usize::MAX {
                    self.completed = self.completed + 1;
                }
                assert(self@.threads =~= before.update(
                    i as int,
                    with_status(before[i as int], status@),
                ));
                line
            },
            None => None,
        }
    }

    /// Takes the worker `id` off the list.
    pub fn unregister_thread(&mut self, id: usize)
        requires
            old(self).wf(),
        ensures
            final(self).wf(),
            final(self)@ == (MonitorModel {
                threads: match slot_of(old(self)@.threads, id) {
                    Some(i) => old(self)@.threads.remove(i),
                    None => old(self)@.threads,
                },
                ..old(self)@
            }),
    {
        let ghost before = self@.threads;
        proof {
            lemma_slot(before, id);
        }
        match self.find(id) {
            Some(i) => {
                let _ = self.threads.remove(i);
                assert(self@.threads =~= before.remove(i as int));
            },
            None => {},
        }
    }

    /// How many workers there are, how many of them are not idle, and how many
    /// files they have finished, as far as the machine can count.
    pub fn get_thread_stats(&self) -> (r: (usize, usize, usize))
        ensures
            r.0 == self@.threads.len(),
            r.1 == active_count(self@.threads, self@.threads.len() as int),
            r.2 == if processed_sum(self@.threads, self@.threads.len() as int) > usize::MAX {
                usize::MAX as nat
            } else {
                processed_sum(self@.threads, self@.threads.len() as int)
            },
    {
        let ghost all = self@.threads;
        let mut active: usize = 0;
        let mut done: usize = 0;
        let mut i: usize = 0;
        while i < self.threads.len()
            invariant
                i <= self.threads.len(),
                all == info_rows(self.threads@),
                active == active_count(all, i as int),
                active <= i,
                done == if processed_sum(all, i as int) > usize::MAX {
                    usize::MAX as nat
                } else {
                    processed_sum(all, i as int)
                },
            decreases self.threads.len() - i,
        {
            assert(all[i as int] == self.threads@[i as int]@);
            match &self.threads[i].status {
                ThreadStatus::Idle => {},
                _ => {
                    active = active + 1;
                },
            }
            let n = self.threads[i].files_processed;
            done = if done > usize::MAX - n {
                usize::MAX
            } else {
                done + n
            };
            i += 1;
        }
        (self.threads.len(), active, done)
    }

    /// How many files of the scan are finished.
    pub fn completed(&self) -> (r: usize)
        ensures
            r == self@.completed,
    {
        self.completed
    }
}

/// `text` cut to `max_len` characters.
pub fn truncate_text(text: &[char], max_len: usize) -> (r: Vec<char>)
    ensures
        r@ == truncated(text@, max_len as nat),
{
    if text.len() <= max_len {
        let r = slice_of(text, 0, text.len());
        assert(r@ == text@);
        r
    } else {
        let keep: usize = if max_len >= 3 {
            max_len - 3
        } else {
            0
        };
        let mut r = slice_of(text, 0, keep);
        assert(r@ == text@.take(keep as int));
        push_str(&mut r, "...");
        assert(text@.take(0) + "..."@ =~= "..."@);
        r
    }
}

/// The last component of `path`, cut to `max_len` characters.
pub fn truncate_filename(path: &str, max_len: usize) -> (r: Vec<char>)
    ensures
        r@ == truncated(file_name_of(path@), max_len as nat),
{
    let p = chars_of(path);
    let name = file_name(p.as_slice());
    truncate_text(name.as_slice(), max_len)
}

/// The line that shows `status`.
pub fn status_message(status: &ThreadStatus) -> (r: String)
    ensures
        r@ == message_of(status@),
{
    let mut out: Vec<char> = Vec::new();
    match status {
        ThreadStatus::Idle => {
            push_str(&mut out, "\u{1F538} Aguardando...");
            assert(out@ =~= message_of(status@));
        },
        ThreadStatus::ScanningFile(f) => {
            push_str(&mut out, "\u{1F50D} Escaneando: ");
            let name = truncate_filename(f.as_str(), 30);
            append(&mut out, name.as_slice());
            assert(out@ =~= message_of(status@));
        },
        ThreadStatus::ExtractingArchive { file, progress } => {
            push_str(&mut out, "\u{1F4E6} Extraindo ");
            let name = truncate_filename(file.as_str(), 20);
            append(&mut out, name.as_slice());
            push_str(&mut out, " (");
            push_decimal(&mut out, *progress as u64);
            push_str(&mut out, ".0%)");
            assert(out@ =~= message_of(status@));
        },
        ThreadStatus::CalculatingCrc(f) => {
            push_str(&mut out, "\u{1F522} CRC32: ");
            let name = truncate_filename(f.as_str(), 30);
            append(&mut out, name.as_slice());
            assert(out@ =~= message_of(status@));
        },
        ThreadStatus::ProcessingComplete(f) => {
            push_str(&mut out, "\u{2705} Conclu\u{ED}do: ");
            let name = truncate_filename(f.as_str(), 25);
            append(&mut out, name.as_slice());
            assert(out@ =~= message_of(status@));
        },
        ThreadStatus::Error(f, e) => {
            push_str(&mut out, "\u{274C} Erro em ");
            let name = truncate_filename(f.as_str(), 20);
            append(&mut out, name.as_slice());
            push_str(&mut out, ": ");
            let text = chars_of(e.as_str());
            let short = truncate_text(text.as_slice(), 20);
            append(&mut out, short.as_slice());
            assert(out@ =~= message_of(status@));
        },
    }
    string_of(out.as_slice())
}

} // verus!
