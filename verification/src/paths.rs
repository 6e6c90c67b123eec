//! File names, stems and extensions of path text. A path is split at `/` and at
//! `\`, whatever the machine.

use vstd::prelude::*;
use crate::text::{run_back, slice_of, trail_run, CharClass};

verus! {

/// Whether `c` separates the components of a path.
pub open spec fn is_sep(c: char) -> bool {
    c == '/' || c == '\\'
}

/// How many characters at the end of `s` are no separators.
pub open spec fn tail_len(s: Seq<char>) -> nat
    decreases s.len(),
{
    if s.len() > 0 && !is_sep(s.last()) {
        1 + tail_len(s.drop_last())
    } else {
        0
    }
}

/// How many characters at the end of `s` are separators.
pub open spec fn sep_tail(s: Seq<char>) -> nat
    decreases s.len(),
{
    if s.len() > 0 && is_sep(s.last()) {
        1 + sep_tail(s.drop_last())
    } else {
        0
    }
}

/// The last component of `path`: what stands after its last separator, once the
/// separators at its end are taken off. Empty where there is none, and for `..`.
pub open spec fn file_name_of(path: Seq<char>) -> Seq<char> {
    let p = path.take(path.len() - sep_tail(path));
    let name = p.skip(p.len() - tail_len(p));
    if name == ".."@ {
        Seq::empty()
    } else {
        name
    }
}

/// Where the extension of a file name starts: after its last dot, if that dot is
/// not the first character.
pub open spec fn ext_start(name: Seq<char>) -> Option<int> {
    let after = trail_run(name, CharClass::IsNot('.')) as int;
    if after < name.len() - 1 {
        Some(name.len() - after)
    } else {
        None
    }
}

/// The extension of a file name, without its dot; empty where it has none.
pub open spec fn extension_of_name(name: Seq<char>) -> Seq<char> {
    match ext_start(name) {
        Some(i) => name.skip(i),
        None => Seq::empty(),
    }
}

/// Whether a file name has an extension, be it empty.
pub open spec fn has_extension(name: Seq<char>) -> bool {
    ext_start(name) is Some
}

/// A file name without its dot and extension.
pub open spec fn stem_of_name(name: Seq<char>) -> Seq<char> {
    match ext_start(name) {
        Some(i) => name.take(i - 1),
        None => name,
    }
}

/// The extension of the last component of `path`.
pub open spec fn extension_of(path: Seq<char>) -> Seq<char> {
    extension_of_name(file_name_of(path))
}

/// The last component of `path` without its extension.
pub open spec fn file_stem_of(path: Seq<char>) -> Seq<char> {
    stem_of_name(file_name_of(path))
}

/// The two tail counts are the lengths of the longest fitting suffixes.
pub proof fn lemma_tails(s: Seq<char>, n: int, seps: bool)
    requires
        0 <= n <= s.len(),
        forall|i: int| s.len() - n <= i < s.len() ==> is_sep(s[i]) == seps,
        n < s.len() ==> is_sep(s[s.len() - n - 1]) != seps,
    ensures
        seps ==> sep_tail(s) == n,
        !seps ==> tail_len(s) == n,
    decreases n,
{
    if n > 0 {
        lemma_tails(s.drop_last(), n - 1, seps);
    }
}

/// The last component of `path`.
pub fn file_name(path: &[char]) -> (r: Vec<char>)
    ensures
        r@ == file_name_of(path@),
{
    let mut end: usize = path.len();
    while end > 0 && (path[end - 1] == '/' || path[end - 1] == '\\')
        invariant
            end <= path.len(),
            forall|i: int| end <= i < path.len() ==> is_sep(path@[i]),
        decreases end,
    {
        end -= 1;
    }
    proof {
        lemma_tails(path@, path.len() - end, true);
    }
    let mut start: usize = end;
    while start > 0 && !(path[start - 1] == '/' || path[start - 1] == '\\')
        invariant
            start <= end <= path.len(),
            forall|i: int| start <= i < end ==> !is_sep(path@[i]),
        decreases start,
    {
        start -= 1;
    }
    proof {
        lemma_tails(path@.take(end as int), end - start, false);
    }
    let name = slice_of(path, start, end);
    assert(name@ == path@.take(end as int).skip(start as int));
    proof {
        reveal_strlit("..");
    }
    if name.len() == 2 && name[0] == '.' && name[1] == '.' {
        assert(name@ =~= ".."@);
        Vec::new()
    } else {
        name
    }
}

/// Where the extension of a file name starts.
pub fn extension_start(name: &[char]) -> (r: Option<usize>)
    ensures
        r is Some <==> ext_start(name@) is Some,
        r matches Some(i) ==> ext_start(name@) == Some(i as int) && 1 <= i <= name.len(),
{
    let after = run_back(name, name.len(), CharClass::IsNot('.'));
    assert(name@.take(name@.len() as int) == name@);
    if name.len() >= 1 && after < name.len() - 1 {
        Some(name.len() - after)
    } else {
        None
    }
}

/// The extension of a file name, without its dot; empty where it has none.
pub fn name_extension(name: &[char]) -> (r: Vec<char>)
    ensures
        r@ == extension_of_name(name@),
{
    match extension_start(name) {
        Some(i) => slice_of(name, i, name.len()),
        None => Vec::new(),
    }
}

/// A file name without its dot and extension.
pub fn name_stem(name: &[char]) -> (r: Vec<char>)
    ensures
        r@ == stem_of_name(name@),
{
    match extension_start(name) {
        Some(i) => slice_of(name, 0, i - 1),
        None => {
            let r = slice_of(name, 0, name.len());
            assert(r@ == name@);
            r
        },
    }
}

/// The extension of the last component of `path`.
pub fn extension(path: &[char]) -> (r: Vec<char>)
    ensures
        r@ == extension_of(path@),
{
    let name = file_name(path);
    name_extension(name.as_slice())
}

/// The last component of `path` without its extension.
pub fn file_stem(path: &[char]) -> (r: Vec<char>)
    ensures
        r@ == file_stem_of(path@),
{
    let name = file_name(path);
    name_stem(name.as_slice())
}


/// The directory that holds the last component of `path`: what stands before that
/// component, without the separators between them; the root where nothing else
/// stands before it. None where the path has no last component.
pub open spec fn parent_of(path: Seq<char>) -> Option<Seq<char>> {
    let p = path.take(path.len() - sep_tail(path));
    let n = tail_len(p);
    if n == 0 {
        None
    } else {
        let head = p.take(p.len() - n);
        let bare = head.take(head.len() - sep_tail(head));
        if bare.len() == 0 && head.len() > 0 {
            Some(head.take(1))
        } else {
            Some(bare)
        }
    }
}

/// How many separators stand at the end of the first `end` characters of `path`.
pub fn separators_before(path: &[char], end: usize) -> (n: usize)
    requires
        end <= path.len(),
    ensures
        n == sep_tail(path@.take(end as int)),
        n <= end,
{
    let mut i: usize = end;
    while i > 0 && (path[i - 1] == '/' || path[i - 1] == '\\')
        invariant
            i <= end <= path.len(),
            forall|j: int| i <= j < end ==> is_sep(path@[j]),
        decreases i,
    {
        i -= 1;
    }
    proof {
        lemma_tails(path@.take(end as int), end - i, true);
    }
    end - i
}

/// How many characters that are no separators stand at the end of the first `end`
/// characters of `path`.
pub fn name_chars_before(path: &[char], end: usize) -> (n: usize)
    requires
        end <= path.len(),
    ensures
        n == tail_len(path@.take(end as int)),
        n <= end,
{
    let mut i: usize = end;
    while i > 0 && !(path[i - 1] == '/' || path[i - 1] == '\\')
        invariant
            i <= end <= path.len(),
            forall|j: int| i <= j < end ==> !is_sep(path@[j]),
        decreases i,
    {
        i -= 1;
    }
    proof {
        lemma_tails(path@.take(end as int), end - i, false);
    }
    end - i
}

/// The directory that holds the last component of `path`.
pub fn parent(path: &[char]) -> (r: Option<Vec<char>>)
    ensures
        r is Some <==> parent_of(path@) is Some,
        r matches Some(d) ==> parent_of(path@) == Some(d@),
{
    let seps = separators_before(path, path.len());
    assert(path@.take(path@.len() as int) == path@);
    let end: usize = path.len() - seps;
    let n = name_chars_before(path, end);
    if n == 0 {
        return None;
    }
    let head_len: usize = end - n;
    assert(path@.take(end as int).take(head_len as int) == path@.take(head_len as int));
    let more = separators_before(path, head_len);
    let bare_len: usize = head_len - more;
    assert(path@.take(head_len as int).take(bare_len as int) == path@.take(bare_len as int));
    if bare_len == 0 && head_len > 0 {
        assert(path@.take(head_len as int).take(1) == path@.take(1));
        let d = slice_of(path, 0, 1);
        assert(d@ == path@.take(1));
        Some(d)
    } else {
        let d = slice_of(path, 0, bare_len);
        assert(d@ == path@.take(bare_len as int));
        Some(d)
    }
}

} // verus!
