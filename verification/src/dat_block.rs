//! The block-format catalog parser: `game ( ... )` blocks with `rom ( ... )`
//! sub-blocks, each on one line or over several.

use vstd::prelude::*;
use crate::dat_lines::{
    crc_of_token, depth_past, next_depth, parse_crc_token, quoted, quoted_value, scan_rom_words,
    size_in, token_after,
};
use crate::dat_parser::{rows, DatEntry, DatRow};
use crate::numbers::{dec_u64, hex8, parse_dec_u64, push_hex8};
use crate::split::{append, has_char, texts, words, words_of};
use crate::text::{
    chars_of, contains, contains_sub, find_chars, first_sub, is_sub_at, has_prefix, is_text, lead_run, run_from,
    slice_of, starts_with, string_of, trim, trimmed, CharClass,
};

verus! {

/// The label of a ROM whose game gives neither a description nor a name.
pub open spec fn unknown_label(crc: u32) -> Seq<char> {
    "Unknown ROM (CRC: "@ + hex8(crc) + ")"@
}

/// The display label: the description, else the name, else `other`.
pub open spec fn label_for(desc: Seq<char>, name: Seq<char>, other: Seq<char>) -> Seq<char> {
    if desc.len() > 0 {
        desc
    } else if name.len() > 0 {
        name
    } else {
        other
    }
}

/// A row with a checksum, a label and a size.
pub open spec fn plain_row(crc: u32, name: Seq<char>, size: Option<u64>) -> DatRow {
    DatRow { crc32: crc, name: name, size: size, md5: None, sha1: None }
}

/// The row of a ROM entry on one line: the checksum is the token after the last
/// `crc` word, the size the number after the last `size` word.
pub open spec fn rom_line_row(line: Seq<char>, name: Seq<char>, desc: Seq<char>) -> Option<DatRow> {
    let parts = words_of(line);
    match token_after(parts, "crc"@, parts.len()) {
        None => None,
        Some(tok) => match crc_of_token(tok) {
            None => None,
            Some(crc) => Some(
                plain_row(
                    crc,
                    label_for(desc, name, unknown_label(crc)),
                    size_in(parts, parts.len()),
                ),
            ),
        },
    }
}

/// An entry with a checksum, a label and a size.
pub fn plain_entry(crc: u32, label: &[char], size: Option<u64>) -> (e: DatEntry)
    ensures
        e@ == plain_row(crc, label@, size),
{
    DatEntry { crc32: crc, name: string_of(label), size: size, md5: None, sha1: None }
}

/// The display label as characters.
pub fn pick_label(desc: &[char], name: &[char], other: &[char]) -> (r: Vec<char>)
    ensures
        r@ == label_for(desc@, name@, other@),
{
    let mut r: Vec<char> = Vec::new();
    if desc.len() > 0 {
        append(&mut r, desc);
    } else if name.len() > 0 {
        append(&mut r, name);
    } else {
        append(&mut r, other);
    }
    assert(Seq::<char>::empty() + desc@ == desc@);
    assert(Seq::<char>::empty() + name@ == name@);
    assert(Seq::<char>::empty() + other@ == other@);
    r
}

/// The entry of a ROM written on one line.
pub fn rom_line(line: &[char], name: &[char], desc: &[char]) -> (r: Option<DatEntry>)
    ensures
        r is Some <==> rom_line_row(line@, name@, desc@) is Some,
        r matches Some(e) ==> rom_line_row(line@, name@, desc@) == Some(e@),
{
    let parts = words(line);
    let found = scan_rom_words(&parts);
    match found.0 {
        None => None,
        Some(i) => match parse_crc_token(parts[i].as_slice()) {
            None => None,
            Some(crc) => {
                let mut other = chars_of("Unknown ROM (CRC: ");
                push_hex8(&mut other, crc);
                let close = chars_of(")");
                append(&mut other, close.as_slice());
                let label = pick_label(desc, name, other.as_slice());
                Some(plain_entry(crc, label.as_slice(), found.1))
            },
        },
    }
}

/// What the attribute lines of a ROM sub-block have given so far.
pub struct RomAttrs {
    pub crc_token: Option<Seq<char>>,
    pub size: Option<u64>,
    pub name: Seq<char>,
}

/// The attributes after one more line, given without the white space around it.
pub open spec fn attrs_after(a: RomAttrs, line: Seq<char>) -> RomAttrs {
    if has_prefix(line, "name "@) && line.contains('"') {
        match quoted(line) {
            Some(v) => RomAttrs { name: v, ..a },
            None => a,
        }
    } else if has_prefix(line, "size "@) {
        let parts = words_of(line);
        if parts.len() > 1 && dec_u64(parts[1]) is Some {
            RomAttrs { size: dec_u64(parts[1]), ..a }
        } else {
            a
        }
    } else if has_prefix(line, "crc "@) {
        let parts = words_of(line);
        if parts.len() > 1 {
            RomAttrs { crc_token: Some(parts[1]), ..a }
        } else {
            a
        }
    } else {
        a
    }
}

/// Where the body of a ROM sub-block starts: after the first line from `i` on that
/// is a lone opening parenthesis, or at the first line that starts with `rom (`.
pub open spec fn seek_open(lines: Seq<Seq<char>>, i: nat) -> nat
    decreases lines.len() - i,
{
    if i >= lines.len() {
        i
    } else {
        let l = trimmed(lines[i as int]);
        if l == "("@ {
            i + 1
        } else if has_prefix(l, "rom ("@) {
            i
        } else {
            seek_open(lines, i + 1)
        }
    }
}

/// The attributes gathered from line `i` on until the nesting depth reaches zero,
/// and the line at which that happened.
pub open spec fn rom_body(lines: Seq<Seq<char>>, i: nat, depth: nat, a: RomAttrs) -> (nat, RomAttrs)
    decreases lines.len() - i,
{
    if i >= lines.len() || depth == 0 {
        (i, a)
    } else {
        let l = trimmed(lines[i as int]);
        rom_body(lines, i + 1, depth_past(depth, l), attrs_after(a, l))
    }
}

/// The row of a ROM sub-block that starts at the first of `lines` and spans several
/// lines, with the number of lines it spans.
pub open spec fn rom_block_row(lines: Seq<Seq<char>>, name: Seq<char>, desc: Seq<char>) -> Option<
    (DatRow, nat),
> {
    if lines.len() == 0 || !has_prefix(trimmed(lines[0]), "rom"@) {
        None
    } else {
        let start = RomAttrs { crc_token: None, size: None, name: Seq::empty() };
        let (end, a) = rom_body(lines, seek_open(lines, 1), 1, start);
        match a.crc_token {
            None => None,
            Some(tok) => match crc_of_token(tok) {
                None => None,
                Some(crc) => Some((plain_row(crc, label_for(desc, name, a.name), a.size), end)),
            },
        }
    }
}

/// The search for the opening parenthesis ends between its start and the last line.
pub proof fn lemma_seek_open_bounds(lines: Seq<Seq<char>>, i: nat)
    ensures
        i <= seek_open(lines, i),
        i <= lines.len() ==> seek_open(lines, i) <= lines.len(),
    decreases lines.len() - i,
{
    if i < lines.len() {
        lemma_seek_open_bounds(lines, i + 1);
    }
}

/// The body of a ROM sub-block ends between its start and the last line.
pub proof fn lemma_rom_body_bounds(lines: Seq<Seq<char>>, i: nat, depth: nat, a: RomAttrs)
    ensures
        i <= rom_body(lines, i, depth, a).0,
        i <= lines.len() ==> rom_body(lines, i, depth, a).0 <= lines.len(),
    decreases lines.len() - i,
{
    if i < lines.len() && depth != 0 {
        let l = trimmed(lines[i as int]);
        lemma_rom_body_bounds(lines, i + 1, depth_past(depth, l), attrs_after(a, l));
    }
}

/// A ROM sub-block spans at least its first line and at most all lines.
pub proof fn lemma_rom_block_span(lines: Seq<Seq<char>>, name: Seq<char>, desc: Seq<char>)
    ensures
        rom_block_row(lines, name, desc) matches Some(p) ==> 1 <= p.1 <= lines.len(),
{
    if lines.len() > 0 {
        let start = RomAttrs { crc_token: None, size: None, name: Seq::empty() };
        lemma_seek_open_bounds(lines, 1);
        lemma_rom_body_bounds(lines, seek_open(lines, 1), 1, start);
    }
}

/// The gathered attributes of a ROM sub-block, as the parser holds them.
pub struct RomFields {
    pub crc_token: Option<Vec<char>>,
    pub size: Option<u64>,
    pub name: Vec<char>,
}

impl View for RomFields {
    type V = RomAttrs;

    open spec fn view(&self) -> RomAttrs {
        RomAttrs {
            crc_token: match self.crc_token {
                Some(t) => Some(t@),
                None => None,
            },
            size: self.size,
            name: self.name@,
        }
    }
}

/// Takes one attribute line, given without the white space around it, into `f`.
pub fn take_attr_line(f: RomFields, line: &[char]) -> (r: RomFields)
    ensures
        r@ == attrs_after(f@, line@),
{
    let mut f = f;
    if starts_with(line, "name ") && has_char(line, '"') {
        match quoted_value(line) {
            Some(v) => {
                f.name = v;
            },
            None => {},
        }
    } else if starts_with(line, "size ") {
        let parts = words(line);
        assert(parts@.len() > 1 ==> texts(parts@)[1] == parts@[1]@);
        if parts.len() > 1 {
            match parse_dec_u64(parts[1].as_slice()) {
                Some(v) => {
                    f.size = Some(v);
                },
                None => {},
            }
        }
    } else if starts_with(line, "crc ") {
        let mut parts = words(line);
        assert(parts@.len() > 1 ==> texts(parts@)[1] == parts@[1]@);
        if parts.len() > 1 {
            let tok = parts.swap_remove(1);
            f.crc_token = Some(tok);
        }
    }
    f
}

/// The entry of a ROM sub-block that starts at line `from` of `lines` and spans
/// several lines, with the number of lines it spans.
pub fn rom_block(lines: &Vec<Vec<char>>, from: usize, name: &[char], desc: &[char]) -> (r: Option<
    (DatEntry, usize),
>)
    requires
        from <= lines.len(),
    ensures
        r is Some <==> rom_block_row(texts(lines@).skip(from as int), name@, desc@) is Some,
        r matches Some(p) ==> rom_block_row(texts(lines@).skip(from as int), name@, desc@) == Some(
            (p.0@, p.1 as nat),
        ) && 1 <= p.1 && from + p.1 <= lines.len(),
{
    let ghost ls = texts(lines@).skip(from as int);
    let n: usize = lines.len() - from;
    if n == 0 {
        return None;
    }
    assert(ls[0] == lines@[from as int]@);
    let first = trim(lines[from].as_slice());
    if !starts_with(first.as_slice(), "rom") {
        return None;
    }
    let mut i: usize = 1;
    let mut seeking: bool = true;
    while seeking && i < n
        invariant
            1 <= i <= n,
            n == lines.len() - from,
            from <= lines.len(),
            ls == texts(lines@).skip(from as int),
            seeking ==> seek_open(ls, 1) == seek_open(ls, i as nat),
            !seeking ==> seek_open(ls, 1) == i,
        decreases n - i + if seeking { 1int } else { 0int },
    {
        assert(ls[i as int] == lines@[from + i]@);
        let l = trim(lines[from + i].as_slice());
        if is_text(l.as_slice(), "(") {
            i += 1;
            seeking = false;
        } else if starts_with(l.as_slice(), "rom (") {
            seeking = false;
        } else {
            i += 1;
        }
    }
    assert(seek_open(ls, 1) == i);
    let mut f = RomFields { crc_token: None, size: None, name: Vec::new() };
    let mut depth: u128 = 1;
    let ghost start = f@;
    let ghost i0 = i;
    while i < n && depth > 0
        invariant
            1 <= i0 <= i <= n,
            n == lines.len() - from,
            from <= lines.len(),
            ls == texts(lines@).skip(from as int),
            depth <= 1 + (i - i0) * 0xFFFF_FFFF_FFFF_FFFF,
            rom_body(ls, i0 as nat, 1, start) == rom_body(ls, i as nat, depth as nat, f@),
        decreases n - i,
    {
        assert(ls[i as int] == lines@[from + i]@);
        let l = trim(lines[from + i].as_slice());
        depth = next_depth(depth, l.as_slice());
        f = take_attr_line(f, l.as_slice());
        i += 1;
    }
    assert(rom_body(ls, i0 as nat, 1, start) == (i as nat, f@));
    match f.crc_token {
        None => None,
        Some(tok) => match parse_crc_token(tok.as_slice()) {
            None => None,
            Some(crc) => {
                let label = pick_label(desc, name, f.name.as_slice());
                Some((plain_entry(crc, label.as_slice(), f.size), i))
            },
        },
    }
}


/// Whether a line, given without the white space around it, is blank or a comment.
pub open spec fn is_skipped(l: Seq<char>) -> bool {
    l.len() == 0 || l[0] == '#' || l[0] == ';'
}

/// Whether a line is blank or a comment.
pub fn skip_line(l: &[char]) -> (r: bool)
    ensures
        r == is_skipped(l@),
{
    l.len() == 0 || l[0] == '#' || l[0] == ';'
}

/// The value of a field written within `text`: what stands between the first
/// occurrence of `key`, which ends with an opening quote, and the next quote.
pub open spec fn inline_field(text: Seq<char>, key: Seq<char>) -> Option<Seq<char>> {
    match first_sub(text, key) {
        None => None,
        Some(p) => {
            let rest = text.skip(p + key.len());
            let n = lead_run(rest, CharClass::IsNot('"')) as int;
            if n < rest.len() {
                Some(rest.take(n))
            } else {
                None
            }
        },
    }
}

/// The part of a line that speaks of the game itself: what stands before its
/// first ROM entry.
pub open spec fn game_part(l: Seq<char>) -> Seq<char> {
    match first_sub(l, "rom ("@) {
        Some(p) => l.take(p),
        None => l,
    }
}

/// The game's name and description after a line that may hold them among other
/// things, as on the one line of a block written on one line.
pub open spec fn fields_in(l: Seq<char>, name: Seq<char>, desc: Seq<char>) -> (
    Seq<char>,
    Seq<char>,
) {
    let g = game_part(l);
    (
        match inline_field(g, "name \""@) {
            Some(v) => v,
            None => name,
        },
        match inline_field(g, "description \""@) {
            Some(v) => v,
            None => desc,
        },
    )
}

/// The name and the description of the game whose block has the lines `lines`,
/// read from line `i` on, where `name` and `desc` were read before: those of the
/// last line that gives them. The lines of a ROM sub-block are passed over.
pub open spec fn game_fields(lines: Seq<Seq<char>>, i: nat, name: Seq<char>, desc: Seq<char>) -> (
    Seq<char>,
    Seq<char>,
)
    decreases lines.len() - i,
{
    if i >= lines.len() {
        (name, desc)
    } else {
        let l = trimmed(lines[i as int]);
        if is_skipped(l) {
            game_fields(lines, i + 1, name, desc)
        } else if has_prefix(l, "name "@) && l.contains('"') {
            game_fields(
                lines,
                i + 1,
                match quoted(l) {
                    Some(v) => v,
                    None => name,
                },
                desc,
            )
        } else if has_prefix(l, "description "@) && l.contains('"') {
            game_fields(
                lines,
                i + 1,
                name,
                match quoted(l) {
                    Some(v) => v,
                    None => desc,
                },
            )
        } else if contains_sub(l, "rom ("@) && contains_sub(l, "crc"@) {
            game_fields(lines, i + 1, fields_in(l, name, desc).0, fields_in(l, name, desc).1)
        } else if has_prefix(l, "rom"@) {
            match rom_block_row(lines.skip(i as int), Seq::empty(), Seq::empty()) {
                Some((_, used)) => {
                    proof {
                        lemma_rom_block_span(lines.skip(i as int), Seq::empty(), Seq::empty());
                    }
                    game_fields(lines, i + used, name, desc)
                },
                None => game_fields(lines, i + 1, name, desc),
            }
        } else {
            game_fields(lines, i + 1, fields_in(l, name, desc).0, fields_in(l, name, desc).1)
        }
    }
}

/// The rows of the ROM entries in the lines of one game block from line `i` on,
/// for the game with the name `name` and the description `desc`. A ROM sub-block
/// over several lines that yields no row is passed by its first line only.
pub open spec fn game_rows(lines: Seq<Seq<char>>, i: nat, name: Seq<char>, desc: Seq<char>) -> Seq<
    DatRow,
>
    decreases lines.len() - i,
{
    if i >= lines.len() {
        Seq::empty()
    } else {
        let l = trimmed(lines[i as int]);
        if is_skipped(l) {
            game_rows(lines, i + 1, name, desc)
        } else if has_prefix(l, "name "@) && l.contains('"') {
            game_rows(lines, i + 1, name, desc)
        } else if has_prefix(l, "description "@) && l.contains('"') {
            game_rows(lines, i + 1, name, desc)
        } else if contains_sub(l, "rom ("@) && contains_sub(l, "crc"@) {
            (match rom_line_row(l, name, desc) {
                Some(row) => seq![row],
                None => Seq::empty(),
            }) + game_rows(lines, i + 1, name, desc)
        } else if has_prefix(l, "rom"@) {
            match rom_block_row(lines.skip(i as int), name, desc) {
                Some((row, used)) => {
                    proof {
                        lemma_rom_block_span(lines.skip(i as int), name, desc);
                    }
                    seq![row] + game_rows(lines, i + used, name, desc)
                },
                None => game_rows(lines, i + 1, name, desc),
            }
        } else {
            game_rows(lines, i + 1, name, desc)
        }
    }
}

/// The rows of the game block with the lines `lines`: the name and the
/// description are read from the whole block first, and every ROM entry of the
/// block carries the label that they give.
pub open spec fn block_rows(lines: Seq<Seq<char>>) -> Seq<DatRow> {
    let f = game_fields(lines, 0, Seq::empty(), Seq::empty());
    game_rows(lines, 0, f.0, f.1)
}

/// The value of the field `key` written within `text`.
pub fn find_inline(text: &[char], key: &str) -> (r: Option<Vec<char>>)
    ensures
        r is Some <==> inline_field(text@, key@) is Some,
        r matches Some(v) ==> inline_field(text@, key@) == Some(v@),
{
    let k = chars_of(key);
    let found = find_chars(text, k.as_slice());
    match found {
        None => None,
        Some(p) => {
            assert(is_sub_at(text@, k@, p as int));
            assert(p + k@.len() <= text@.len());
            let total = text.len();
            assert(p + k.len() <= total);
            let from: usize = p + k.len();
            let n = run_from(text, from, CharClass::IsNot('"'));
            if from + n < text.len() {
                let v = slice_of(text, from, from + n);
                assert(v@ == text@.skip(from as int).take(n as int));
                Some(v)
            } else {
                None
            }
        },
    }
}

/// The game's name and description after the line `l`, given without the white
/// space around it.
pub fn take_fields(l: &[char], name: Vec<char>, desc: Vec<char>) -> (r: (Vec<char>, Vec<char>))
    ensures
        (r.0@, r.1@) == fields_in(l@, name@, desc@),
{
    let cut = chars_of("rom (");
    let g = match find_chars(l, cut.as_slice()) {
        Some(p) => {
            let g = slice_of(l, 0, p);
            assert(g@ == l@.take(p as int));
            g
        },
        None => {
            let g = slice_of(l, 0, l.len());
            assert(g@ == l@);
            g
        },
    };
    assert(g@ == game_part(l@));
    let n = match find_inline(g.as_slice(), "name \"") {
        Some(v) => v,
        None => name,
    };
    let d = match find_inline(g.as_slice(), "description \"") {
        Some(v) => v,
        None => desc,
    };
    (n, d)
}

/// The name and the description of the game whose block has the lines `lines`.
pub fn block_fields(lines: &Vec<Vec<char>>) -> (r: (Vec<char>, Vec<char>))
    ensures
        (r.0@, r.1@) == game_fields(texts(lines@), 0, Seq::empty(), Seq::empty()),
{
    let mut name: Vec<char> = Vec::new();
    let mut desc: Vec<char> = Vec::new();
    let none: Vec<char> = Vec::new();
    let mut i: usize = 0;
    let ghost ls = texts(lines@);
    while i < lines.len()
        invariant
            i <= lines.len(),
            ls == texts(lines@),
            none@ == Seq::<char>::empty(),
            game_fields(ls, 0, Seq::empty(), Seq::empty()) == game_fields(
                ls,
                i as nat,
                name@,
                desc@,
            ),
        decreases lines.len() - i,
    {
        assert(ls[i as int] == lines@[i as int]@);
        let l = trim(lines[i].as_slice());
        if skip_line(l.as_slice()) {
            i += 1;
        } else if starts_with(l.as_slice(), "name ") && has_char(l.as_slice(), '"') {
            match quoted_value(l.as_slice()) {
                Some(v) => {
                    name = v;
                },
                None => {},
            }
            i += 1;
        } else if starts_with(l.as_slice(), "description ") && has_char(l.as_slice(), '"') {
            match quoted_value(l.as_slice()) {
                Some(v) => {
                    desc = v;
                },
                None => {},
            }
            i += 1;
        } else if contains(l.as_slice(), "rom (") && contains(l.as_slice(), "crc") {
            let both = take_fields(l.as_slice(), name, desc);
            name = both.0;
            desc = both.1;
            i += 1;
        } else if starts_with(l.as_slice(), "rom") {
            match rom_block(lines, i, none.as_slice(), none.as_slice()) {
                Some(p) => {
                    i += p.1;
                },
                None => {
                    i += 1;
                },
            }
        } else {
            let both = take_fields(l.as_slice(), name, desc);
            name = both.0;
            desc = both.1;
            i += 1;
        }
    }
    (name, desc)
}

/// The entries of the ROMs in the lines of one game block.
pub fn game_block(lines: &Vec<Vec<char>>) -> (r: Vec<DatEntry>)
    ensures
        rows(r@) == block_rows(texts(lines@)),
{
    let fields = block_fields(lines);
    let name = fields.0;
    let desc = fields.1;
    let mut out: Vec<DatEntry> = Vec::new();
    let mut i: usize = 0;
    let ghost ls = texts(lines@);
    assert(rows(out@) =~= Seq::<DatRow>::empty());
    while i < lines.len()
        invariant
            i <= lines.len(),
            ls == texts(lines@),
            game_rows(ls, 0, name@, desc@) == rows(out@) + game_rows(ls, i as nat, name@, desc@),
        decreases lines.len() - i,
    {
        let ghost before = rows(out@);
        assert(ls[i as int] == lines@[i as int]@);
        let l = trim(lines[i].as_slice());
        if skip_line(l.as_slice()) {
            i += 1;
        } else if starts_with(l.as_slice(), "name ") && has_char(l.as_slice(), '"') {
            i += 1;
        } else if starts_with(l.as_slice(), "description ") && has_char(l.as_slice(), '"') {
            i += 1;
        } else if contains(l.as_slice(), "rom (") && contains(l.as_slice(), "crc") {
            let ghost mut added = Seq::<DatRow>::empty();
            match rom_line(l.as_slice(), name.as_slice(), desc.as_slice()) {
                Some(e) => {
                    proof {
                        added = seq![e@];
                    }
                    out.push(e);
                },
                None => {},
            }
            assert(rows(out@) =~= before + added);
            i += 1;
            assert(before + (added + game_rows(ls, i as nat, name@, desc@)) =~= (before + added)
                + game_rows(ls, i as nat, name@, desc@));
        } else if starts_with(l.as_slice(), "rom") {
            match rom_block(lines, i, name.as_slice(), desc.as_slice()) {
                Some(p) => {
                    let e = p.0;
                    out.push(e);
                    assert(rows(out@) =~= before + seq![e@]);
                    i += p.1;
                    assert(before + (seq![e@] + game_rows(ls, i as nat, name@, desc@)) =~= (before
                        + seq![e@]) + game_rows(ls, i as nat, name@, desc@));
                },
                None => {
                    i += 1;
                },
            }
        } else {
            i += 1;
        }
    }
    assert(rows(out@) + Seq::<DatRow>::empty() =~= rows(out@));
    out
}

/// The lines of a game block from line `i` on, entered at nesting depth `depth`,
/// and the line after the block. A line belongs to the block while the depth after
/// it is above zero; the line that brings the depth to zero ends the block and is
/// left out.
pub open spec fn block_body(lines: Seq<Seq<char>>, i: nat, depth: nat) -> (nat, Seq<Seq<char>>)
    decreases lines.len() - i,
{
    if i >= lines.len() || depth == 0 {
        (i, Seq::empty())
    } else {
        let d = depth_past(depth, trimmed(lines[i as int]));
        let (end, rest) = block_body(lines, i + 1, d);
        (
            end,
            if d > 0 {
                seq![lines[i as int]] + rest
            } else {
                rest
            },
        )
    }
}

/// A game block ends between its start and the last line.
pub proof fn lemma_block_body_bounds(lines: Seq<Seq<char>>, i: nat, depth: nat)
    ensures
        i <= block_body(lines, i, depth).0,
        i <= lines.len() ==> block_body(lines, i, depth).0 <= lines.len(),
    decreases lines.len() - i,
{
    if i < lines.len() && depth != 0 {
        lemma_block_body_bounds(lines, i + 1, depth_past(depth, trimmed(lines[i as int])));
    }
}

/// What a header line `game ( ...` itself adds to its block: what follows the word
/// `game`, unless that is the opening parenthesis alone.
pub open spec fn header_rest(l: Seq<char>) -> Seq<Seq<char>> {
    let head = trimmed(l.skip(5));
    if head.len() > 0 && head != "("@ {
        seq![head]
    } else {
        Seq::empty()
    }
}

/// The rows of a block-format catalog from line `i` on. A game block starts at a
/// line that begins with `game (`, or at a line `game` followed by a line `(`.
/// The parentheses of the header line count towards the nesting depth, so that a
/// block on one line ends there; what that line holds after the word `game` is
/// the first line of the block.
pub open spec fn dat_rows(lines: Seq<Seq<char>>, i: nat) -> Seq<DatRow>
    decreases lines.len() - i,
{
    if i >= lines.len() {
        Seq::empty()
    } else {
        let l = trimmed(lines[i as int]);
        if has_prefix(l, "game ("@) {
            let (end, body) = block_body(lines, i + 1, depth_past(0, l));
            proof {
                lemma_block_body_bounds(lines, i + 1, depth_past(0, l));
            }
            block_rows(header_rest(l) + body) + dat_rows(lines, end)
        } else if l == "game"@ && i + 1 < lines.len() && trimmed(lines[i as int + 1]) == "("@ {
            let (end, body) = block_body(lines, i + 2, 1);
            proof {
                lemma_block_body_bounds(lines, i + 2, 1);
            }
            block_rows(body) + dat_rows(lines, end)
        } else {
            dat_rows(lines, i + 1)
        }
    }
}

/// Moves the entries of `more` to the end of `out`.
pub fn extend_entries(out: &mut Vec<DatEntry>, more: Vec<DatEntry>)
    ensures
        rows(final(out)@) == rows(old(out)@) + rows(more@),
{
    let mut more = more;
    let ghost all = more@;
    let ghost start = out@;
    out.append(&mut more);
    assert(out@ == start + all);
    assert(rows(start + all) =~= rows(start) + rows(all));
}

/// Gathers the lines of a game block from line `from` on into `content`.
/// Returns the line after the block.
pub fn gather_block(
    lines: &Vec<Vec<char>>,
    from: usize,
    depth: u128,
    content: &mut Vec<Vec<char>>,
) -> (end: usize)
    requires
        from <= lines.len(),
        depth <= 0xFFFF_FFFF_FFFF_FFFF,
    ensures
        end == block_body(texts(lines@), from as nat, depth as nat).0,
        from <= end <= lines.len(),
        texts(final(content)@) == texts(old(content)@) + block_body(
            texts(lines@),
            from as nat,
            depth as nat,
        ).1,
{
    let ghost ls = texts(lines@);
    let ghost head = texts(content@);
    let ghost whole = block_body(ls, from as nat, depth as nat);
    let mut i: usize = from;
    let mut depth: u128 = depth;
    assert(head + whole.1 =~= texts(content@) + whole.1);
    while i < lines.len() && depth > 0
        invariant
            from <= i <= lines.len(),
            ls == texts(lines@),
            depth <= (1 + i - from) * 0xFFFF_FFFF_FFFF_FFFF,
            whole.0 == block_body(ls, i as nat, depth as nat).0,
            head + whole.1 == texts(content@) + block_body(ls, i as nat, depth as nat).1,
        decreases lines.len() - i,
    {
        let ghost before = texts(content@);
        assert(ls[i as int] == lines@[i as int]@);
        let l = trim(lines[i].as_slice());
        depth = next_depth(depth, l.as_slice());
        let ghost rest = block_body(ls, (i + 1) as nat, depth as nat).1;
        if depth > 0 {
            let copy = slice_of(lines[i].as_slice(), 0, lines[i].len());
            assert(copy@ == lines@[i as int]@);
            content.push(copy);
            assert(texts(content@) =~= before.push(lines@[i as int]@));
            assert(before + (seq![ls[i as int]] + rest) =~= before.push(lines@[i as int]@) + rest);
        }
        i += 1;
    }
    assert(block_body(ls, i as nat, depth as nat).1 =~= Seq::<Seq<char>>::empty());
    assert(texts(content@) + Seq::<Seq<char>>::empty() =~= texts(content@));
    i
}

/// The entries of a block-format catalog, given as its lines.
#[verifier::rlimit(60)]
pub fn block_format_entries(lines: &Vec<Vec<char>>) -> (r: Vec<DatEntry>)
    ensures
        rows(r@) == dat_rows(texts(lines@), 0),
{
    let mut out: Vec<DatEntry> = Vec::new();
    let mut i: usize = 0;
    let ghost ls = texts(lines@);
    assert(rows(out@) =~= Seq::<DatRow>::empty());
    while i < lines.len()
        invariant
            i <= lines.len(),
            ls == texts(lines@),
            dat_rows(ls, 0) == rows(out@) + dat_rows(ls, i as nat),
        decreases lines.len() - i,
    {
        let ghost before = rows(out@);
        assert(ls[i as int] == lines@[i as int]@);
        let l = trim(lines[i].as_slice());
        if starts_with(l.as_slice(), "game (") {
            proof {
                reveal_strlit("game (");
            }
            let rest = slice_of(l.as_slice(), 5, l.len());
            assert(rest@ == l@.skip(5));
            let head = trim(rest.as_slice());
            let mut content: Vec<Vec<char>> = Vec::new();
            if head.len() > 0 && !is_text(head.as_slice(), "(") {
                content.push(head);
            }
            assert(texts(content@) =~= header_rest(l@));
            let depth = next_depth(0, l.as_slice());
            let end = gather_block(lines, i + 1, depth, &mut content);
            let found = game_block(&content);
            let ghost added = rows(found@);
            extend_entries(&mut out, found);
            i = end;
            assert(before + (added + dat_rows(ls, i as nat)) =~= (before + added) + dat_rows(
                ls,
                i as nat,
            ));
        } else if is_text(l.as_slice(), "game") && i + 1 < lines.len() && is_text(
            trim(lines[i + 1].as_slice()).as_slice(),
            "(",
        ) {
            assert(ls[i + 1] == lines@[i + 1]@);
            let mut content: Vec<Vec<char>> = Vec::new();
            assert(texts(content@) =~= Seq::<Seq<char>>::empty());
            let end = gather_block(lines, i + 2, 1, &mut content);
            assert(Seq::<Seq<char>>::empty() + block_body(ls, (i + 2) as nat, 1).1 =~= block_body(
                ls,
                (i + 2) as nat,
                1,
            ).1);
            let found = game_block(&content);
            let ghost added = rows(found@);
            extend_entries(&mut out, found);
            i = end;
            assert(before + (added + dat_rows(ls, i as nat)) =~= (before + added) + dat_rows(
                ls,
                i as nat,
            ));
        } else {
            if i + 1 < lines.len() {
                assert(ls[i + 1] == lines@[i + 1]@);
            }
            i += 1;
        }
    }
    assert(rows(out@) + Seq::<DatRow>::empty() =~= rows(out@));
    out
}

} // verus!
