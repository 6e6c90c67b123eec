//! The written form of a validation report.

use vstd::prelude::*;
use crate::dat_parser::{rows, DatEntry, DatError, DatRow};
use crate::deduplicator::bullets;
use crate::numbers::{decimal, hex8, push_decimal, push_decimal_wide, push_hex8};
use crate::scanner::{roms, RomFile};
use crate::split::push_str;
use crate::text::string_of;
use crate::validation_report::{
    count_kind, missing_rows, note_texts, notes_of_kind, paths_of_kind, present, ref_texts,
    sorted_by_name, verdicts, verdicts_by_path, ReportModel, ValidationReport, VerdictKind,
};
use crate::validator::RomValidator;

verus! {

/// `good` of `total` in tenths of a percent, rounded to the nearest tenth, a half
/// to the even one; all of them where `total` is zero.
pub open spec fn rate_tenths(good: nat, total: nat) -> nat {
    if total == 0 {
        1000
    } else {
        let q = good * 1000 / total;
        let r = good * 1000 % total;
        if 2 * r > total || (2 * r == total && q % 2 == 1) {
            q + 1
        } else {
            q
        }
    }
}

/// `good` of `total` in tenths of a percent.
pub fn rate_in_tenths(good: u128, total: usize) -> (t: u128)
    requires
        good <= 2 * usize::MAX,
    ensures
        t == rate_tenths(good as nat, total as nat),
{
    if total == 0 {
        1000
    } else {
        let scaled: u128 = good * 1000;
        let q: u128 = scaled / (total as u128);
        let r: u128 = scaled % (total as u128);
        if 2 * r > total as u128 || (2 * r == total as u128 && q % 2 == 1) {
            q + 1
        } else {
            q
        }
    }
}

/// A number of tenths written with one decimal place.
pub open spec fn tenths_text(t: nat) -> Seq<char> {
    decimal(t / 10) + "."@ + decimal(t % 10)
}

/// One line for each pair: the path in backticks, `mid`, the note, `end`.
pub open spec fn note_lines(
    notes: Seq<(Seq<char>, Seq<char>)>,
    mid: Seq<char>,
    end: Seq<char>,
) -> Seq<char>
    decreases notes.len(),
{
    if notes.len() == 0 {
        Seq::empty()
    } else {
        note_lines(notes.drop_last(), mid, end) + "- `"@ + notes.last().0 + mid + notes.last().1
            + end
    }
}

/// One line for each catalog row: its name and its checksum in eight hexadecimal
/// digits.
pub open spec fn row_lines(list: Seq<DatRow>) -> Seq<char>
    decreases list.len(),
{
    if list.len() == 0 {
        Seq::empty()
    } else {
        row_lines(list.drop_last()) + "- "@ + list.last().name + " (CRC32: "@ + hex8(
            list.last().crc32,
        ) + ")\n"@
    }
}

/// The title and the totals of the written report.
pub open spec fn totals_text(rep: ReportModel) -> Seq<char> {
    "# ROM Collection Validation Report\n\n"@ + "**Total ROMs**: "@ + decimal(rep.total_roms)
        + "\n"@ + "**Validation Rate**: "@ + tenths_text(
        rate_tenths(rep.valid_roms + rep.renamed_roms, rep.total_roms),
    ) + "%\n\n"@
}

/// One line of the summary.
pub open spec fn count_line(label: Seq<char>, n: nat, end: Seq<char>) -> Seq<char> {
    label + decimal(n) + end
}

/// The head of the written report: title, totals and summary.
pub open spec fn head_text(rep: ReportModel) -> Seq<char> {
    totals_text(rep) + "## Summary\n\n"@ + count_line(
        "- \u{e2}\u{153}\u{2026} Valid: "@,
        rep.valid_roms,
        "\n"@,
    ) + count_line("- \u{f0}\u{178}\u{201d}\u{201e} Need Rename: "@, rep.renamed_roms, "\n"@)
        + count_line("- \u{e2}\u{201c} Unknown: "@, rep.unknown_roms, "\n"@) + count_line(
        "- \u{f0}\u{178}\u{a0} Homebrew: "@,
        rep.homebrew_roms,
        "\n"@,
    ) + count_line("- \u{e2}\u{152} Bad Dumps: "@, rep.bad_dumps, "\n"@) + count_line(
        "- \u{f0}\u{178}\u{2019}\u{a5} Corrupted: "@,
        rep.corrupted_roms,
        "\n\n"@,
    )
}

/// A heading, lines and an empty line; nothing where there are no lines.
pub open spec fn section(title: Seq<char>, body: Seq<char>) -> Seq<char> {
    if body.len() == 0 {
        Seq::empty()
    } else {
        title + body + "\n"@
    }
}

/// The written report: the head, then the records in no catalog, the records to
/// rename, the bad dumps and the catalog rows that are missing, each list under
/// its heading unless it is empty. Records are listed in the order in which
/// their paths first came.
pub open spec fn written(rep: ValidationReport) -> Seq<char> {
    let keys = rep.validation_results.key_seq();
    let vals = rep.validation_results.val_seq();
    let n = keys.len() as int;
    head_text(rep@) + section(
        "## Unknown ROMs\n\n"@,
        bullets(paths_of_kind(keys, vals, VerdictKind::Unknown, n)),
    ) + section(
        "## ROMs Needing Rename\n\n"@,
        note_lines(
            notes_of_kind(keys, vals, VerdictKind::Renamed, n),
            "` \u{e2}\u{2020}\u{2019} `"@,
            "`\n"@,
        ),
    ) + section(
        "## Bad Dumps\n\n"@,
        note_lines(notes_of_kind(keys, vals, VerdictKind::BadDump, n), "`: "@, "\n"@),
    ) + (if rep.missing_from_collection@.len() == 0 {
        Seq::empty()
    } else {
        "## Missing from Collection\n\n"@ + row_lines(rows(rep.missing_from_collection@))
    })
}

/// Appends one line for each path.
fn push_paths(out: &mut Vec<char>, paths: &Vec<&String>)
    ensures
        final(out)@ == old(out)@ + bullets(ref_texts(paths@)),
{
    let ghost ps = ref_texts(paths@);
    let mut i: usize = 0;
    assert(ps.take(0) =~= Seq::<Seq<char>>::empty());
    assert(out@ == old(out)@ + bullets(ps.take(0)));
    while i < paths.len()
        invariant
            i <= paths.len(),
            ps == ref_texts(paths@),
            out@ == old(out)@ + bullets(ps.take(i as int)),
        decreases paths.len() - i,
    {
        assert(ps.take(i + 1).drop_last() == ps.take(i as int));
        assert(ps.take(i + 1).last() == paths@[i as int]@);
        push_str(out, "- `");
        push_str(out, paths[i].as_str());
        push_str(out, "`\n");
        i += 1;
        assert(out@ == old(out)@ + bullets(ps.take(i as int)));
    }
    assert(ps.take(ps.len() as int) == ps);
}

/// Appends one line for each pair.
fn push_notes(out: &mut Vec<char>, notes: &Vec<(&String, &str)>, mid: &str, end: &str)
    ensures
        final(out)@ == old(out)@ + note_lines(note_texts(notes@), mid@, end@),
{
    let ghost ns = note_texts(notes@);
    let mut i: usize = 0;
    assert(ns.take(0) =~= Seq::<(Seq<char>, Seq<char>)>::empty());
    assert(out@ == old(out)@ + note_lines(ns.take(0), mid@, end@));
    while i < notes.len()
        invariant
            i <= notes.len(),
            ns == note_texts(notes@),
            out@ == old(out)@ + note_lines(ns.take(i as int), mid@, end@),
        decreases notes.len() - i,
    {
        assert(ns.take(i + 1).drop_last() == ns.take(i as int));
        assert(ns.take(i + 1).last() == (notes@[i as int].0@, notes@[i as int].1@));
        push_str(out, "- `");
        push_str(out, notes[i].0.as_str());
        push_str(out, mid);
        push_str(out, notes[i].1);
        push_str(out, end);
        i += 1;
        assert(out@ == old(out)@ + note_lines(ns.take(i as int), mid@, end@));
    }
    assert(ns.take(ns.len() as int) == ns);
}

/// Appends one line for each catalog row.
fn push_rows(out: &mut Vec<char>, list: &Vec<DatEntry>)
    ensures
        final(out)@ == old(out)@ + row_lines(rows(list@)),
{
    let ghost rs = rows(list@);
    let mut i: usize = 0;
    assert(rs.take(0) =~= Seq::<DatRow>::empty());
    assert(out@ == old(out)@ + row_lines(rs.take(0)));
    while i < list.len()
        invariant
            i <= list.len(),
            rs == rows(list@),
            out@ == old(out)@ + row_lines(rs.take(i as int)),
        decreases list.len() - i,
    {
        assert(rs.take(i + 1).drop_last() == rs.take(i as int));
        assert(rs.take(i + 1).last() == list@[i as int]@);
        push_str(out, "- ");
        push_str(out, list[i].name.as_str());
        push_str(out, " (CRC32: ");
        push_hex8(out, list[i].crc32);
        push_str(out, ")\n");
        i += 1;
        assert(out@ == old(out)@ + row_lines(rs.take(i as int)));
    }
    assert(rs.take(rs.len() as int) == rs);
}

/// The lines of a list are empty only where the list is.
pub proof fn lemma_bullets_empty(paths: Seq<Seq<char>>)
    ensures
        bullets(paths).len() == 0 <==> paths.len() == 0,
{
    reveal_strlit("- `");
}

/// The lines of a list of pairs are empty only where the list is.
pub proof fn lemma_note_lines_empty(notes: Seq<(Seq<char>, Seq<char>)>, mid: Seq<char>, end: Seq<char>)
    ensures
        note_lines(notes, mid, end).len() == 0 <==> notes.len() == 0,
{
    reveal_strlit("- `");
}

/// Appends the section of the paths under `title`.
fn push_path_section(out: &mut Vec<char>, title: &str, paths: &Vec<&String>)
    ensures
        final(out)@ == old(out)@ + section(title@, bullets(ref_texts(paths@))),
{
    proof {
        lemma_bullets_empty(ref_texts(paths@));
    }
    if paths.len() > 0 {
        push_str(out, title);
        push_paths(out, paths);
        push_str(out, "\n");
        assert(out@ =~= old(out)@ + (title@ + bullets(ref_texts(paths@)) + "\n"@));
    } else {
        assert(out@ =~= old(out)@ + Seq::<char>::empty());
    }
}

/// Appends the section of the pairs under `title`.
fn push_note_section(
    out: &mut Vec<char>,
    title: &str,
    notes: &Vec<(&String, &str)>,
    mid: &str,
    end: &str,
)
    ensures
        final(out)@ == old(out)@ + section(title@, note_lines(note_texts(notes@), mid@, end@)),
{
    proof {
        lemma_note_lines_empty(note_texts(notes@), mid@, end@);
    }
    if notes.len() > 0 {
        push_str(out, title);
        push_notes(out, notes, mid, end);
        push_str(out, "\n");
        assert(out@ =~= old(out)@ + (title@ + note_lines(note_texts(notes@), mid@, end@) + "\n"@));
    } else {
        assert(out@ =~= old(out)@ + Seq::<char>::empty());
    }
}

impl ValidationReport {
    /// Appends the title and the totals of the written report.
    fn push_totals(&self, out: &mut Vec<char>)
        ensures
            final(out)@ == old(out)@ + totals_text(self@),
    {
        let good: u128 = self.valid_roms as u128 + self.renamed_roms as u128;
        let tenths = rate_in_tenths(good, self.total_roms);
        push_str(out, "# ROM Collection Validation Report\n\n");
        push_str(out, "**Total ROMs**: ");
        push_decimal(out, self.total_roms as u64);
        push_str(out, "\n");
        push_str(out, "**Validation Rate**: ");
        push_decimal_wide(out, tenths / 10);
        push_str(out, ".");
        push_decimal_wide(out, tenths % 10);
        push_str(out, "%\n\n");
        assert(final(out)@ =~= old(out)@ + totals_text(self@));
    }

    /// Appends one line of the summary.
    fn push_count(out: &mut Vec<char>, label: &str, n: usize, end: &str)
        ensures
            final(out)@ == old(out)@ + count_line(label@, n as nat, end@),
    {
        push_str(out, label);
        push_decimal(out, n as u64);
        push_str(out, end);
        assert(final(out)@ =~= old(out)@ + count_line(label@, n as nat, end@));
    }

    /// Appends the head of the written report: title, totals and summary.
    fn push_head(&self, out: &mut Vec<char>)
        ensures
            final(out)@ == old(out)@ + head_text(self@),
    {
        let ghost rep = self@;
        self.push_totals(out);
        push_str(out, "## Summary\n\n");
        let ghost acc = totals_text(rep) + "## Summary\n\n"@;
        assert(out@ =~= old(out)@ + acc);
        Self::push_count(out, "- \u{e2}\u{153}\u{2026} Valid: ", self.valid_roms, "\n");
        let ghost acc = acc + count_line("- \u{e2}\u{153}\u{2026} Valid: "@, rep.valid_roms, "\n"@);
        assert(out@ =~= old(out)@ + acc);
        Self::push_count(
            out,
            "- \u{f0}\u{178}\u{201d}\u{201e} Need Rename: ",
            self.renamed_roms,
            "\n",
        );
        let ghost acc = acc + count_line(
            "- \u{f0}\u{178}\u{201d}\u{201e} Need Rename: "@,
            rep.renamed_roms,
            "\n"@,
        );
        assert(out@ =~= old(out)@ + acc);
        Self::push_count(out, "- \u{e2}\u{201c} Unknown: ", self.unknown_roms, "\n");
        let ghost acc = acc + count_line("- \u{e2}\u{201c} Unknown: "@, rep.unknown_roms, "\n"@);
        assert(out@ =~= old(out)@ + acc);
        Self::push_count(out, "- \u{f0}\u{178}\u{a0} Homebrew: ", self.homebrew_roms, "\n");
        let ghost acc = acc + count_line(
            "- \u{f0}\u{178}\u{a0} Homebrew: "@,
            rep.homebrew_roms,
            "\n"@,
        );
        assert(out@ =~= old(out)@ + acc);
        Self::push_count(out, "- \u{e2}\u{152} Bad Dumps: ", self.bad_dumps, "\n");
        let ghost acc = acc + count_line("- \u{e2}\u{152} Bad Dumps: "@, rep.bad_dumps, "\n"@);
        assert(out@ =~= old(out)@ + acc);
        Self::push_count(
            out,
            "- \u{f0}\u{178}\u{2019}\u{a5} Corrupted: ",
            self.corrupted_roms,
            "\n\n",
        );
        let ghost acc = acc + count_line(
            "- \u{f0}\u{178}\u{2019}\u{a5} Corrupted: "@,
            rep.corrupted_roms,
            "\n\n"@,
        );
        assert(out@ =~= old(out)@ + acc);
        assert(acc == head_text(rep));
    }

    /// The text of the report file.
    pub fn to_text(&self) -> (r: String)
        requires
            self.wf(),
        ensures
            r@ == written(*self),
    {
        let mut out: Vec<char> = Vec::new();
        self.push_head(&mut out);
        assert(out@ =~= head_text(self@));
        let ghost head = out@;
        let unknown = self.unknown_roms();
        push_path_section(&mut out, "## Unknown ROMs\n\n", &unknown);
        let ghost a = out@;
        let renamed = self.roms_needing_rename();
        push_note_section(
            &mut out,
            "## ROMs Needing Rename\n\n",
            &renamed,
            "` \u{e2}\u{2020}\u{2019} `",
            "`\n",
        );
        let ghost b = out@;
        let bad = self.bad_dumps();
        push_note_section(&mut out, "## Bad Dumps\n\n", &bad, "`: ", "\n");
        let ghost c = out@;
        if self.missing_from_collection.len() > 0 {
            push_str(&mut out, "## Missing from Collection\n\n");
            push_rows(&mut out, &self.missing_from_collection);
            assert(out@ =~= c + ("## Missing from Collection\n\n"@ + row_lines(
                rows(self.missing_from_collection@),
            )));
        } else {
            assert(out@ =~= c + Seq::<char>::empty());
        }
        string_of(out.as_slice())
    }
}

impl RomValidator {
    /// Validates `list` and gives the report with the text of its report file.
    /// `hashes` holds, position by position, what computing the checksum of each
    /// record's file gave.
    pub fn generate_report(&self, list: &[RomFile], hashes: &[Result<u32, String>]) -> (r: Result<
        (ValidationReport, String),
        DatError,
    >)
        requires
            self.wf(),
        ensures
            r matches Ok(p) && p.0.wf() && p.1@ == written(p.0) && ({
                let vs = verdicts(
                    self.indexes(),
                    self.patterns(),
                    roms(list@),
                    hashes@,
                    list@.len() as int,
                );
                p.0@ == (ReportModel {
                    total_roms: list@.len(),
                    valid_roms: count_kind(vs, VerdictKind::Valid),
                    renamed_roms: count_kind(vs, VerdictKind::Renamed),
                    unknown_roms: count_kind(vs, VerdictKind::Unknown),
                    bad_dumps: count_kind(vs, VerdictKind::BadDump),
                    homebrew_roms: count_kind(vs, VerdictKind::Homebrew),
                    corrupted_roms: count_kind(vs, VerdictKind::Corrupted),
                    validation_results: verdicts_by_path(roms(list@), vs, list@.len() as int),
                    missing_from_collection: sorted_by_name(
                        missing_rows(
                            self.catalog_rows(),
                            present(roms(list@), hashes@, list@.len() as int),
                        ),
                    ),
                })
            }),
    {
        match self.validate_collection(list, hashes) {
            Ok(report) => {
                let text = report.to_text();
                Ok((report, text))
            },
            Err(e) => Err(e),
        }
    }
}

} // verus!
