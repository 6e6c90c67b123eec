//! Character-sequence primitives shared by the parsers and classifiers.

use vstd::prelude::*;
use crate::scanner::string_texts;

verus! {

/// `String::push` appends one character.
pub assume_specification[ String::push ](s: &mut String, c: char)
    ensures
        final(s)@ == old(s)@.push(c),
;

/// The lower-case form of a text as `str::to_lowercase` gives it: the Unicode
/// lower-case mapping of each character, with the final-sigma rule.
pub uninterp spec fn lowercase(s: Seq<char>) -> Seq<char>;

/// `str::to_lowercase`: the result is the Unicode lower-case form of `s`, a function
/// of the text alone.
#[verifier::external_body]
pub(crate) fn to_lowercase(s: &str) -> (r: String)
    ensures
        r@ == lowercase(s@),
{
    s.to_lowercase()
}

/// The lower-case form of the text `s`, as characters.
pub fn lower_chars(s: &[char]) -> (r: Vec<char>)
    ensures
        r@ == lowercase(s@),
{
    let text = string_of(s);
    let low = to_lowercase(text.as_str());
    chars_of(low.as_str())
}

/// The characters of `s`, in order.
pub fn chars_of(s: &str) -> (v: Vec<char>)
    ensures
        v@ == s@,
{
    let mut v: Vec<char> = Vec::new();
    for c in it: s.chars()
        invariant
            it.seq() == s@,
            v@ == s@.take(it.index()),
    {
        v.push(c);
    }
    assert(s@.take(s@.len() as int) == s@);
    v
}

/// The string made of the characters of `v`, in order.
pub fn string_of(v: &[char]) -> (s: String)
    ensures
        s@ == v@,
{
    let mut s = String::new();
    let mut i: usize = 0;
    while i < v.len()
        invariant
            i <= v.len(),
            s@ == v@.take(i as int),
        decreases v.len() - i,
    {
        s.push(v[i]);
        i += 1;
    }
    s
}


/// Whether `needle` occurs in `hay` starting at position `i`.
pub open spec fn is_sub_at(hay: Seq<char>, needle: Seq<char>, i: int) -> bool {
    0 <= i && i + needle.len() <= hay.len() && hay.subrange(i, i + needle.len()) == needle
}

/// Whether `needle` occurs somewhere in `hay`.
pub open spec fn contains_sub(hay: Seq<char>, needle: Seq<char>) -> bool {
    exists|i: int| is_sub_at(hay, needle, i)
}

/// Whether `hay` begins with `needle`.
pub open spec fn has_prefix(hay: Seq<char>, needle: Seq<char>) -> bool {
    is_sub_at(hay, needle, 0)
}

/// Whether `hay` ends with `needle`.
pub open spec fn has_suffix(hay: Seq<char>, needle: Seq<char>) -> bool {
    is_sub_at(hay, needle, hay.len() - needle.len())
}

/// The position of the first occurrence of `needle` in `hay`, if there is one.
pub open spec fn first_sub(hay: Seq<char>, needle: Seq<char>) -> Option<int> {
    if contains_sub(hay, needle) {
        Some(choose|i: int| is_sub_at(hay, needle, i) && forall|j: int| 0 <= j < i ==> !is_sub_at(hay, needle, j))
    } else {
        None
    }
}

/// The position of the first `c` in `s`, if there is one.
pub open spec fn first_char(s: Seq<char>, c: char) -> Option<int> {
    if s.contains(c) {
        Some(s.index_of_first(c).unwrap())
    } else {
        None
    }
}

/// Whether two character slices hold the same text.
pub fn same_text(a: &[char], b: &[char]) -> (r: bool)
    ensures
        r == (a@ == b@),
{
    if a.len() != b.len() {
        return false;
    }
    let mut i: usize = 0;
    while i < a.len()
        invariant
            a.len() == b.len(),
            i <= a.len(),
            a@.take(i as int) == b@.take(i as int),
        decreases a.len() - i,
    {
        if a[i] != b[i] {
            return false;
        }
        assert(a@.take(i + 1) == a@.take(i as int).push(a@[i as int]));
        assert(b@.take(i + 1) == b@.take(i as int).push(b@[i as int]));
        i += 1;
    }
    assert(a@.take(a@.len() as int) == a@);
    assert(b@.take(b@.len() as int) == b@);
    true
}

/// Whether `needle` occurs in `hay` at position `i`.
pub fn matches_at(hay: &[char], needle: &[char], i: usize) -> (r: bool)
    ensures
        r == is_sub_at(hay@, needle@, i as int),
{
    if needle.len() > hay.len() || i > hay.len() - needle.len() {
        return false;
    }
    let mut k: usize = 0;
    while k < needle.len()
        invariant
            i + needle.len() <= hay.len(),
            k <= needle.len(),
            hay@.subrange(i as int, i + k) == needle@.take(k as int),
        decreases needle.len() - k,
    {
        if hay[i + k] != needle[k] {
            assert(hay@.subrange(i as int, i + needle.len())[k as int] != needle@[k as int]);
            return false;
        }
        assert(hay@.subrange(i as int, i + k + 1) == hay@.subrange(i as int, i + k).push(hay@[i + k]));
        assert(needle@.take(k + 1) == needle@.take(k as int).push(needle@[k as int]));
        k += 1;
    }
    assert(needle@.take(needle@.len() as int) == needle@);
    true
}

/// The position of the first occurrence of `needle` in `hay`.
pub fn find_chars(hay: &[char], needle: &[char]) -> (r: Option<usize>)
    ensures
        r is Some <==> contains_sub(hay@, needle@),
        r matches Some(i) ==> is_sub_at(hay@, needle@, i as int) && forall|j: int|
            0 <= j < i ==> !is_sub_at(hay@, needle@, j),
        r matches Some(i) ==> first_sub(hay@, needle@) == Some(i as int),
        r is None ==> first_sub(hay@, needle@) is None,
{
    if needle.len() > hay.len() {
        return None;
    }
    let last: usize = hay.len() - needle.len();
    let mut i: usize = 0;
    while i <= last
        invariant
            last == hay.len() - needle.len(),
            i <= last + 1,
            forall|j: int| 0 <= j < i ==> !is_sub_at(hay@, needle@, j),
        decreases last + 1 - i,
    {
        if matches_at(hay, needle, i) {
            proof {
                lemma_first_sub_unique(hay@, needle@, i as int);
            }
            return Some(i);
        }
        assert(needle@.len() > 0) by {
            if needle@.len() == 0 {
                assert(hay@.subrange(i as int, i as int) =~= needle@);
            }
        }
        i += 1;
    }
    None
}

/// The first occurrence is the only position that matches with no match before it.
pub proof fn lemma_first_sub_unique(hay: Seq<char>, needle: Seq<char>, i: int)
    requires
        is_sub_at(hay, needle, i),
        forall|j: int| 0 <= j < i ==> !is_sub_at(hay, needle, j),
    ensures
        first_sub(hay, needle) == Some(i),
{
    let k = choose|k: int| is_sub_at(hay, needle, k) && forall|j: int| 0 <= j < k ==> !is_sub_at(hay, needle, j);
    assert(is_sub_at(hay, needle, k) && forall|j: int| 0 <= j < k ==> !is_sub_at(hay, needle, j));
    if k < i {
        assert(!is_sub_at(hay, needle, k));
    }
    if i < k {
        assert(!is_sub_at(hay, needle, i));
    }
}


/// A copy of the part of `s` from position `from` up to, not including, `to`.
pub fn slice_of(s: &[char], from: usize, to: usize) -> (r: Vec<char>)
    requires
        from <= to <= s.len(),
    ensures
        r@ == s@.subrange(from as int, to as int),
{
    let mut r: Vec<char> = Vec::new();
    let mut i: usize = from;
    while i < to
        invariant
            from <= i <= to <= s.len(),
            r@ == s@.subrange(from as int, i as int),
        decreases to - i,
    {
        r.push(s[i]);
        i += 1;
    }
    r
}

/// Whether `needle` occurs somewhere in `hay`.
pub fn contains(hay: &[char], needle: &str) -> (r: bool)
    ensures
        r == contains_sub(hay@, needle@),
{
    let n = chars_of(needle);
    find_chars(hay, n.as_slice()).is_some()
}

/// Whether `hay` begins with `needle`.
pub fn starts_with(hay: &[char], needle: &str) -> (r: bool)
    ensures
        r == has_prefix(hay@, needle@),
{
    let n = chars_of(needle);
    matches_at(hay, n.as_slice(), 0)
}

/// Whether `hay` ends with `needle`.
pub fn ends_with(hay: &[char], needle: &str) -> (r: bool)
    ensures
        r == has_suffix(hay@, needle@),
{
    let n = chars_of(needle);
    if n.len() > hay.len() {
        return false;
    }
    matches_at(hay, n.as_slice(), hay.len() - n.len())
}

/// Whether `a` holds exactly the text `lit`.
pub fn is_text(a: &[char], lit: &str) -> (r: bool)
    ensures
        r == (a@ == lit@),
{
    let n = chars_of(lit);
    same_text(a, n.as_slice())
}

/// Whether `c` has the Unicode property White_Space.
pub open spec fn is_white(c: char) -> bool {
    let n = c as u32;
    (0x09 <= n <= 0x0D) || n == 0x20 || n == 0x85 || n == 0xA0 || n == 0x1680 || (0x2000 <= n
        <= 0x200A) || n == 0x2028 || n == 0x2029 || n == 0x202F || n == 0x205F || n == 0x3000
}

/// A set of characters that a scan can run over.
#[derive(Clone, Copy, Debug)]
pub enum CharClass {
    /// White space.
    Space,
    /// Everything but white space.
    NonSpace,
    /// One character.
    Is(char),
    /// Everything but one character.
    IsNot(char),
}

impl CharClass {
    /// Whether `c` belongs to the class.
    pub open spec fn has(self, c: char) -> bool {
        match self {
            CharClass::Space => is_white(c),
            CharClass::NonSpace => !is_white(c),
            CharClass::Is(x) => c == x,
            CharClass::IsNot(x) => c != x,
        }
    }

    /// Whether `c` belongs to the class.
    pub fn holds(&self, c: char) -> (r: bool)
        ensures
            r == self.has(c),
    {
        let n: u32 = c as u32;
        let white = (0x09 <= n && n <= 0x0D) || n == 0x20 || n == 0x85 || n == 0xA0 || n == 0x1680
            || (0x2000 <= n && n <= 0x200A) || n == 0x2028 || n == 0x2029 || n == 0x202F || n
            == 0x205F || n == 0x3000;
        match self {
            CharClass::Space => white,
            CharClass::NonSpace => !white,
            CharClass::Is(x) => c == *x,
            CharClass::IsNot(x) => c != *x,
        }
    }
}

/// How many characters at the start of `s` belong to `k`.
pub open spec fn lead_run(s: Seq<char>, k: CharClass) -> nat
    decreases s.len(),
{
    if s.len() > 0 && k.has(s[0]) {
        1 + lead_run(s.drop_first(), k)
    } else {
        0
    }
}

/// How many characters at the end of `s` belong to `k`.
pub open spec fn trail_run(s: Seq<char>, k: CharClass) -> nat
    decreases s.len(),
{
    if s.len() > 0 && k.has(s.last()) {
        1 + trail_run(s.drop_last(), k)
    } else {
        0
    }
}

/// `lead_run` is the length of the longest prefix inside the class.
pub proof fn lemma_lead_run(s: Seq<char>, k: CharClass, n: int)
    requires
        0 <= n <= s.len(),
        forall|i: int| 0 <= i < n ==> k.has(s[i]),
        n < s.len() ==> !k.has(s[n]),
    ensures
        lead_run(s, k) == n,
    decreases n,
{
    if n > 0 {
        lemma_lead_run(s.drop_first(), k, n - 1);
    }
}

/// `trail_run` is the length of the longest suffix inside the class.
pub proof fn lemma_trail_run(s: Seq<char>, k: CharClass, n: int)
    requires
        0 <= n <= s.len(),
        forall|i: int| s.len() - n <= i < s.len() ==> k.has(s[i]),
        n < s.len() ==> !k.has(s[s.len() - n - 1]),
    ensures
        trail_run(s, k) == n,
    decreases n,
{
    if n > 0 {
        lemma_trail_run(s.drop_last(), k, n - 1);
    }
}

/// What `lead_run` says of the characters it counts and of the one after them.
pub proof fn lemma_lead_run_props(s: Seq<char>, k: CharClass)
    ensures
        lead_run(s, k) <= s.len(),
        forall|i: int| 0 <= i < lead_run(s, k) ==> k.has(s[i]),
        lead_run(s, k) < s.len() ==> !k.has(s[lead_run(s, k) as int]),
    decreases s.len(),
{
    if s.len() > 0 && k.has(s[0]) {
        lemma_lead_run_props(s.drop_first(), k);
        let t = s.drop_first();
        assert forall|i: int| 0 <= i < lead_run(s, k) implies k.has(s[i]) by {
            if i > 0 {
                assert(s[i] == t[i - 1]);
            }
        }
        if lead_run(s, k) < s.len() {
            assert(s[lead_run(s, k) as int] == t[lead_run(t, k) as int]);
        }
    }
}

/// How many characters of `s` from position `from` on belong to `k` without a break.
pub fn run_from(s: &[char], from: usize, k: CharClass) -> (n: usize)
    requires
        from <= s.len(),
    ensures
        n == lead_run(s@.skip(from as int), k),
        from + n <= s.len(),
{
    let mut i: usize = from;
    while i < s.len() && k.holds(s[i])
        invariant
            from <= i <= s.len(),
            forall|j: int| from <= j < i ==> k.has(s@[j]),
        decreases s.len() - i,
    {
        i += 1;
    }
    proof {
        lemma_lead_run(s@.skip(from as int), k, i - from);
    }
    i - from
}

/// How many characters of `s` before position `to` belong to `k` without a break.
pub fn run_back(s: &[char], to: usize, k: CharClass) -> (n: usize)
    requires
        to <= s.len(),
    ensures
        n == trail_run(s@.take(to as int), k),
        n <= to,
{
    let mut i: usize = to;
    while i > 0 && k.holds(s[i - 1])
        invariant
            i <= to <= s.len(),
            forall|j: int| i <= j < to ==> k.has(s@[j]),
        decreases i,
    {
        i -= 1;
    }
    proof {
        lemma_trail_run(s@.take(to as int), k, to - i);
    }
    to - i
}

/// `s` without the characters of `k` at its start and at its end.
pub open spec fn stripped(s: Seq<char>, k: CharClass) -> Seq<char> {
    let t = s.skip(lead_run(s, k) as int);
    t.take(t.len() - trail_run(t, k))
}

/// `s` without the white space at its start and at its end.
pub open spec fn trimmed(s: Seq<char>) -> Seq<char> {
    stripped(s, CharClass::Space)
}

/// `s` without the characters of `k` at its start and at its end.
pub fn strip(s: &[char], k: CharClass) -> (r: Vec<char>)
    ensures
        r@ == stripped(s@, k),
{
    let a = run_from(s, 0, k);
    assert(s@.skip(0) == s@);
    let rest = slice_of(s, a, s.len());
    assert(rest@ == s@.skip(a as int));
    let b = run_back(rest.as_slice(), rest.len(), k);
    assert(rest@.take(rest@.len() as int) == rest@);
    slice_of(rest.as_slice(), 0, rest.len() - b)
}

/// `s` without the white space at its start and at its end.
pub fn trim(s: &[char]) -> (r: Vec<char>)
    ensures
        r@ == trimmed(s@),
{
    strip(s, CharClass::Space)
}

/// Pairs of strings as texts.
pub open spec fn pair_texts(v: Seq<(String, String)>) -> Seq<(Seq<char>, Seq<char>)> {
    v.map_values(|p: (String, String)| (p.0@, p.1@))
}

/// Whether `list` holds the text `path`.
pub fn holds_text(list: &Vec<String>, path: &str) -> (r: bool)
    ensures
        r == string_texts(list@).contains(path@),
{
    let p = path.to_owned();
    let mut i: usize = 0;
    while i < list.len()
        invariant
            i <= list.len(),
            p@ == path@,
            forall|j: int| 0 <= j < i ==> string_texts(list@)[j] != path@,
        decreases list.len() - i,
    {
        if list[i] == p {
            assert(string_texts(list@)[i as int] == path@);
            return true;
        }
        i += 1;
    }
    false
}

} // verus!
