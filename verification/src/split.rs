//! Splitting text into lines, words and fields, and putting pieces together again.

use vstd::prelude::*;
use crate::text::{has_prefix, lead_run, matches_at, run_from, slice_of, CharClass};

verus! {

/// The texts that a list of character vectors holds.
pub open spec fn texts(v: Seq<Vec<char>>) -> Seq<Seq<char>> {
    v.map_values(|x: Vec<char>| x@)
}

/// `l` without one carriage return at its end.
pub open spec fn chomp_cr(l: Seq<char>) -> Seq<char> {
    if l.len() > 0 && l.last() == '\r' {
        l.drop_last()
    } else {
        l
    }
}

/// The lines of `s`: the pieces between line feeds, each without the carriage return
/// that stood before its line feed. A last piece without a line feed is a line as it
/// stands; nothing follows a final line feed.
pub open spec fn lines_of(s: Seq<char>) -> Seq<Seq<char>>
    decreases s.len(),
{
    if s.len() == 0 {
        Seq::empty()
    } else {
        let n = lead_run(s, CharClass::IsNot('\n')) as int;
        if n >= s.len() {
            seq![s]
        } else {
            seq![chomp_cr(s.take(n))] + lines_of(s.skip(n + 1))
        }
    }
}

/// The lines of `s`.
pub fn lines(s: &[char]) -> (r: Vec<Vec<char>>)
    ensures
        texts(r@) == lines_of(s@),
{
    let mut r: Vec<Vec<char>> = Vec::new();
    let mut pos: usize = 0;
    assert(s@.skip(0) == s@);
    assert(texts(r@) =~= Seq::<Seq<char>>::empty());
    while pos < s.len()
        invariant
            pos <= s.len(),
            lines_of(s@) == texts(r@) + lines_of(s@.skip(pos as int)),
        decreases s.len() - pos,
    {
        let ghost rest = s@.skip(pos as int);
        let ghost before = texts(r@);
        let n = run_from(s, pos, CharClass::IsNot('\n'));
        if pos + n >= s.len() {
            let line = slice_of(s, pos, s.len());
            assert(line@ == rest);
            r.push(line);
            assert(texts(r@) =~= before.push(rest));
            pos = s.len();
            assert(lines_of(s@.skip(pos as int)) =~= Seq::<Seq<char>>::empty());
            assert(before + seq![rest] =~= before.push(rest) + Seq::<Seq<char>>::empty());
        } else {
            let mut end: usize = pos + n;
            assert(rest.take(n as int) == s@.subrange(pos as int, pos + n));
            if n > 0 && s[end - 1] == '\r' {
                end -= 1;
            }
            let line = slice_of(s, pos, end);
            assert(line@ == chomp_cr(rest.take(n as int)));
            r.push(line);
            assert(texts(r@) =~= before.push(line@));
            assert(rest.skip(n + 1) == s@.skip(pos + n + 1));
            pos = pos + n + 1;
            assert(before + (seq![line@] + lines_of(rest.skip(n + 1))) =~= before.push(line@)
                + lines_of(rest.skip(n + 1)));
        }
    }
    assert(lines_of(s@.skip(pos as int)) =~= Seq::<Seq<char>>::empty());
    r
}

/// The words of `s`: its longest pieces free of white space, in order.
pub open spec fn words_of(s: Seq<char>) -> Seq<Seq<char>>
    decreases s.len(),
{
    let a = lead_run(s, CharClass::Space) as int;
    if a > s.len() {
        Seq::empty()
    } else {
        let t = s.skip(a);
        let n = lead_run(t, CharClass::NonSpace) as int;
        if n <= 0 || n > t.len() {
            Seq::empty()
        } else {
            seq![t.take(n)] + words_of(t.skip(n))
        }
    }
}

/// The words of `s`.
pub fn words(s: &[char]) -> (r: Vec<Vec<char>>)
    ensures
        texts(r@) == words_of(s@),
{
    let mut r: Vec<Vec<char>> = Vec::new();
    let mut pos: usize = 0;
    assert(s@.skip(0) == s@);
    assert(texts(r@) =~= Seq::<Seq<char>>::empty());
    loop
        invariant
            pos <= s.len(),
            words_of(s@) == texts(r@) + words_of(s@.skip(pos as int)),
        ensures
            words_of(s@) == texts(r@),
        decreases s.len() - pos,
    {
        let ghost rest = s@.skip(pos as int);
        let ghost before = texts(r@);
        let a = run_from(s, pos, CharClass::Space);
        let start: usize = pos + a;
        let n = run_from(s, start, CharClass::NonSpace);
        assert(rest.skip(a as int) == s@.skip(start as int));
        if n == 0 {
            assert(words_of(rest) =~= Seq::<Seq<char>>::empty());
            assert(before + Seq::<Seq<char>>::empty() =~= before);
            break;
        }
        let word = slice_of(s, start, start + n);
        assert(word@ == s@.skip(start as int).take(n as int));
        r.push(word);
        assert(texts(r@) =~= before.push(word@));
        assert(s@.skip(start as int).skip(n as int) == s@.skip(start + n));
        pos = start + n;
        assert(before + (seq![word@] + words_of(s@.skip(pos as int))) =~= before.push(word@)
            + words_of(s@.skip(pos as int)));
    }
    r
}

/// `s` cut at its first `c`: what stands before it and what stands after it.
pub open spec fn cut_at(s: Seq<char>, c: char) -> Option<(Seq<char>, Seq<char>)> {
    let n = lead_run(s, CharClass::IsNot(c)) as int;
    if n >= s.len() {
        None
    } else {
        Some((s.take(n), s.skip(n + 1)))
    }
}

/// `s` cut at its first `c`.
pub fn split_once(s: &[char], c: char) -> (r: Option<(Vec<char>, Vec<char>)>)
    ensures
        r is Some <==> cut_at(s@, c) is Some,
        r matches Some(p) ==> cut_at(s@, c) == Some((p.0@, p.1@)),
{
    let n = run_from(s, 0, CharClass::IsNot(c));
    assert(s@.skip(0) == s@);
    if n >= s.len() {
        None
    } else {
        let a = slice_of(s, 0, n);
        let b = slice_of(s, n + 1, s.len());
        Some((a, b))
    }
}

/// The pieces of `parts` in one text, with `sep` between neighbours.
pub open spec fn joined(parts: Seq<Seq<char>>, sep: Seq<char>) -> Seq<char>
    decreases parts.len(),
{
    if parts.len() == 0 {
        Seq::empty()
    } else if parts.len() == 1 {
        parts[0]
    } else {
        joined(parts.drop_last(), sep) + sep + parts.last()
    }
}

/// Appends the characters of `more` to `out`.
pub fn append(out: &mut Vec<char>, more: &[char])
    ensures
        final(out)@ == old(out)@ + more@,
{
    let mut i: usize = 0;
    while i < more.len()
        invariant
            i <= more.len(),
            out@ == old(out)@ + more@.take(i as int),
        decreases more.len() - i,
    {
        out.push(more[i]);
        assert(more@.take(i + 1) == more@.take(i as int).push(more@[i as int]));
        i += 1;
    }
    assert(more@.take(more@.len() as int) == more@);
}

/// Appends the text `s` to `out`.
pub fn push_str(out: &mut Vec<char>, s: &str)
    ensures
        final(out)@ == old(out)@ + s@,
{
    let more = crate::text::chars_of(s);
    append(out, more.as_slice());
}

/// The pieces of `parts` in one text, with `sep` between neighbours.
pub fn join(parts: &Vec<Vec<char>>, sep: &[char]) -> (r: Vec<char>)
    ensures
        r@ == joined(texts(parts@), sep@),
{
    let mut r: Vec<char> = Vec::new();
    let mut i: usize = 0;
    while i < parts.len()
        invariant
            i <= parts.len(),
            r@ == joined(texts(parts@).take(i as int), sep@),
        decreases parts.len() - i,
    {
        let ghost done = texts(parts@).take(i as int);
        let ghost next = texts(parts@).take(i + 1);
        assert(next.drop_last() == done);
        assert(next.last() == parts@[i as int]@);
        if i > 0 {
            append(&mut r, sep);
        }
        append(&mut r, parts[i].as_slice());
        assert(r@ == joined(next, sep@)) by {
            if i == 0 {
                assert(done.len() == 0);
                assert(Seq::<char>::empty() + parts@[0]@ == parts@[0]@);
            }
        }
        i += 1;
    }
    assert(texts(parts@).take(parts@.len() as int) == texts(parts@));
    r
}


/// `to`, then each character of `s` with `to` after it.
pub open spec fn spread(s: Seq<char>, to: Seq<char>) -> Seq<char>
    decreases s.len(),
{
    if s.len() == 0 {
        to
    } else {
        spread(s.drop_last(), to) + seq![s.last()] + to
    }
}

/// `s` with each occurrence of `from` replaced by `to`, found from left to right
/// without overlap. An empty `from` is found before each character and at the end.
pub open spec fn replaced(s: Seq<char>, from: Seq<char>, to: Seq<char>) -> Seq<char>
    decreases s.len(),
{
    if from.len() == 0 {
        spread(s, to)
    } else if s.len() == 0 {
        Seq::empty()
    } else if has_prefix(s, from) {
        to + replaced(s.skip(from.len() as int), from, to)
    } else {
        seq![s[0]] + replaced(s.skip(1), from, to)
    }
}

/// `s` with each occurrence of `from` replaced by `to`.
pub fn replace(s: &[char], from: &[char], to: &[char]) -> (r: Vec<char>)
    ensures
        r@ == replaced(s@, from@, to@),
{
    let mut r: Vec<char> = Vec::new();
    let mut pos: usize = 0;
    assert(s@.skip(0) == s@);
    if from.len() == 0 {
        append(&mut r, to);
        while pos < s.len()
            invariant
                pos <= s.len(),
                r@ == spread(s@.take(pos as int), to@),
            decreases s.len() - pos,
        {
            assert(s@.take(pos + 1).drop_last() == s@.take(pos as int));
            r.push(s[pos]);
            append(&mut r, to);
            pos += 1;
        }
        assert(s@.take(s@.len() as int) == s@);
        return r;
    }
    while pos < s.len()
        invariant
            pos <= s.len(),
            from@.len() > 0,
            replaced(s@, from@, to@) == r@ + replaced(s@.skip(pos as int), from@, to@),
        decreases s.len() - pos,
    {
        let ghost rest = s@.skip(pos as int);
        let ghost before = r@;
        assert(has_prefix(rest, from@) == crate::text::is_sub_at(s@, from@, pos as int)) by {
            if pos + from@.len() <= s@.len() {
                assert(rest.subrange(0, from@.len() as int) == s@.subrange(
                    pos as int,
                    pos + from@.len(),
                ));
            }
        }
        if matches_at(s, from, pos) {
            append(&mut r, to);
            assert(rest.skip(from@.len() as int) == s@.skip(pos + from@.len()));
            pos = pos + from.len();
            assert(before + (to@ + replaced(s@.skip(pos as int), from@, to@)) == before + to@
                + replaced(s@.skip(pos as int), from@, to@));
        } else {
            r.push(s[pos]);
            assert(rest.skip(1) == s@.skip(pos + 1));
            pos += 1;
            assert(before + (seq![rest[0]] + replaced(s@.skip(pos as int), from@, to@))
                == before.push(rest[0]) + replaced(s@.skip(pos as int), from@, to@));
        }
    }
    assert(r@ + Seq::<char>::empty() == r@);
    r
}

/// `s` with each character that occurs in `set` replaced by `to`.
pub open spec fn swapped(s: Seq<char>, set: Seq<char>, to: Seq<char>) -> Seq<char>
    decreases s.len(),
{
    if s.len() == 0 {
        Seq::empty()
    } else {
        swapped(s.drop_last(), set, to) + (if set.contains(s.last()) {
            to
        } else {
            seq![s.last()]
        })
    }
}

/// Whether `c` occurs in `set`.
pub fn has_char(set: &[char], c: char) -> (r: bool)
    ensures
        r == set@.contains(c),
{
    let mut i: usize = 0;
    while i < set.len()
        invariant
            i <= set.len(),
            forall|j: int| 0 <= j < i ==> set@[j] != c,
        decreases set.len() - i,
    {
        if set[i] == c {
            return true;
        }
        i += 1;
    }
    false
}

/// `s` with each character that occurs in `set` replaced by `to`.
pub fn replace_each(s: &[char], set: &[char], to: &[char]) -> (r: Vec<char>)
    ensures
        r@ == swapped(s@, set@, to@),
{
    let mut r: Vec<char> = Vec::new();
    let mut i: usize = 0;
    while i < s.len()
        invariant
            i <= s.len(),
            r@ == swapped(s@.take(i as int), set@, to@),
        decreases s.len() - i,
    {
        assert(s@.take(i + 1).drop_last() == s@.take(i as int));
        if has_char(set, s[i]) {
            append(&mut r, to);
        } else {
            r.push(s[i]);
        }
        i += 1;
    }
    assert(s@.take(s@.len() as int) == s@);
    r
}

} // verus!
