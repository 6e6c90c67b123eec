//! Ranking the members of a duplicate group: region tags, quality tags, and the
//! choice of the first member with the best rank.

use vstd::prelude::*;
use crate::classifier::{holds_any, mentions};
use crate::paths::{file_name, file_name_of, is_sep};
use crate::text::{
    chars_of, contains, contains_sub, lower_chars, lowercase, same_text, slice_of,
};

verus! {

/// The region that a file name is tagged with.
#[derive(Debug, Clone, Copy, PartialEq, Eq, Hash, Structural)]
pub enum Region {
    USA,
    Europe,
    Japan,
    World,
    Asia,
    Korea,
    Brazil,
    Australia,
    Germany,
    France,
    Spain,
    Italy,
    Unknown,
}

/// The region of a file name, given in lower case: that of the first tag in the
/// order of the list that the name holds.
pub open spec fn region_of(lower: Seq<char>) -> Region {
    if mentions(lower, seq!["(usa)", "(u)"]) {
        Region::USA
    } else if mentions(lower, seq!["(world)", "(w)"]) {
        Region::World
    } else if mentions(lower, seq!["(europe)", "(e)"]) {
        Region::Europe
    } else if mentions(lower, seq!["(japan)", "(j)"]) {
        Region::Japan
    } else if contains_sub(lower, "(asia)"@) {
        Region::Asia
    } else if contains_sub(lower, "(korea)"@) {
        Region::Korea
    } else if contains_sub(lower, "(brazil)"@) {
        Region::Brazil
    } else if contains_sub(lower, "(australia)"@) {
        Region::Australia
    } else if contains_sub(lower, "(germany)"@) {
        Region::Germany
    } else if contains_sub(lower, "(france)"@) {
        Region::France
    } else if contains_sub(lower, "(spain)"@) {
        Region::Spain
    } else if contains_sub(lower, "(italy)"@) {
        Region::Italy
    } else {
        Region::Unknown
    }
}

/// The priority of a region; a lower number is preferred.
pub open spec fn region_priority(r: Region) -> u32 {
    match r {
        Region::USA => 1,
        Region::World => 2,
        Region::Europe => 3,
        Region::Japan => 4,
        Region::Asia => 5,
        Region::Korea => 6,
        Region::Australia => 7,
        Region::Brazil => 8,
        Region::Germany => 9,
        Region::France => 10,
        Region::Spain => 11,
        Region::Italy => 12,
        Region::Unknown => 100,
    }
}

impl Region {
    /// The priority of the region; a lower number is preferred.
    pub fn priority_score(&self) -> (r: u32)
        ensures
            r == region_priority(*self),
            1 <= r <= 100,
    {
        match self {
            Region::USA => 1,
            Region::World => 2,
            Region::Europe => 3,
            Region::Japan => 4,
            Region::Asia => 5,
            Region::Korea => 6,
            Region::Australia => 7,
            Region::Brazil => 8,
            Region::Germany => 9,
            Region::France => 10,
            Region::Spain => 11,
            Region::Italy => 12,
            Region::Unknown => 100,
        }
    }

    /// The region of a file name given in lower case.
    pub fn from_lowercase(lower: &[char]) -> (r: Self)
        ensures
            r == region_of(lower@),
    {
        if holds_any(lower, vec!["(usa)", "(u)"]) {
            Region::USA
        } else if holds_any(lower, vec!["(world)", "(w)"]) {
            Region::World
        } else if holds_any(lower, vec!["(europe)", "(e)"]) {
            Region::Europe
        } else if holds_any(lower, vec!["(japan)", "(j)"]) {
            Region::Japan
        } else if contains(lower, "(asia)") {
            Region::Asia
        } else if contains(lower, "(korea)") {
            Region::Korea
        } else if contains(lower, "(brazil)") {
            Region::Brazil
        } else if contains(lower, "(australia)") {
            Region::Australia
        } else if contains(lower, "(germany)") {
            Region::Germany
        } else if contains(lower, "(france)") {
            Region::France
        } else if contains(lower, "(spain)") {
            Region::Spain
        } else if contains(lower, "(italy)") {
            Region::Italy
        } else {
            Region::Unknown
        }
    }

    /// The region that `filename` is tagged with, whatever the case of the tag.
    pub fn from_filename(filename: &str) -> (r: Self)
        ensures
            r == region_of(lowercase(filename@)),
    {
        let lower = lower_chars(chars_of(filename).as_slice());
        Region::from_lowercase(lower.as_slice())
    }
}

/// The quality that the tags of a file name tell.
#[derive(Debug, Clone, Copy, PartialEq, Eq, Structural)]
pub enum RomQuality {
    /// No marks.
    Excellent,
    /// Marked as fixed.
    Good,
    /// Marked as a hack or a translation.
    Fair,
    /// Marked as a bad dump.
    Poor,
}

/// The quality of a file name, given in lower case.
pub open spec fn quality_of(lower: Seq<char>) -> RomQuality {
    if mentions(lower, seq!["[b]", "[bad]", "(bad)", "[corrupt]"]) {
        RomQuality::Poor
    } else if mentions(lower, seq!["[h", "[t", "(hack)", "(translation)"]) {
        RomQuality::Fair
    } else if mentions(lower, seq!["[f", "(fixed)"]) {
        RomQuality::Good
    } else {
        RomQuality::Excellent
    }
}

/// The score of a quality; a higher number is better.
pub open spec fn quality_score(q: RomQuality) -> u32 {
    match q {
        RomQuality::Excellent => 4,
        RomQuality::Good => 3,
        RomQuality::Fair => 2,
        RomQuality::Poor => 1,
    }
}

impl RomQuality {
    /// The quality of a file name given in lower case.
    pub fn from_lowercase(lower: &[char]) -> (r: Self)
        ensures
            r == quality_of(lower@),
    {
        if holds_any(lower, vec!["[b]", "[bad]", "(bad)", "[corrupt]"]) {
            RomQuality::Poor
        } else if holds_any(lower, vec!["[h", "[t", "(hack)", "(translation)"]) {
            RomQuality::Fair
        } else if holds_any(lower, vec!["[f", "(fixed)"]) {
            RomQuality::Good
        } else {
            RomQuality::Excellent
        }
    }

    /// The quality that the tags of `filename` tell, whatever their case.
    pub fn assess_from_filename(filename: &str) -> (r: Self)
        ensures
            r == quality_of(lowercase(filename@)),
    {
        let lower = lower_chars(chars_of(filename).as_slice());
        RomQuality::from_lowercase(lower.as_slice())
    }

    /// The score of the quality; a higher number is better.
    pub fn score(&self) -> (r: u32)
        ensures
            r == quality_score(*self),
            1 <= r <= 4,
    {
        match self {
            RomQuality::Excellent => 4,
            RomQuality::Good => 3,
            RomQuality::Fair => 2,
            RomQuality::Poor => 1,
        }
    }
}

/// Whether `k` is the first position of `s` that holds its least value.
pub open spec fn is_first_min(s: Seq<int>, k: int) -> bool {
    &&& 0 <= k < s.len()
    &&& forall|j: int| 0 <= j < s.len() ==> s[k] <= #[trigger] s[j]
    &&& forall|j: int| 0 <= j < k ==> #[trigger] s[j] > s[k]
}

/// The first position of `s` that holds its least value; 0 for an empty `s`.
pub open spec fn first_min(s: Seq<int>) -> int {
    if s.len() == 0 {
        0
    } else {
        choose|k: int| is_first_min(s, k)
    }
}

/// The first position with the least value is the only one of its kind.
pub proof fn lemma_first_min(s: Seq<int>, k: int)
    requires
        is_first_min(s, k),
    ensures
        first_min(s) == k,
        0 <= first_min(s) < s.len(),
{
    let c = choose|c: int| is_first_min(s, c);
    assert(is_first_min(s, c));
    if c < k {
        assert(s[c] > s[k]);
        assert(s[c] <= s[k]);
    }
    if k < c {
        assert(s[k] > s[c]);
        assert(s[k] <= s[c]);
    }
}

/// A sequence that is not empty has a first position with its least value.
pub proof fn lemma_first_min_exists(s: Seq<int>)
    requires
        s.len() > 0,
    ensures
        is_first_min(s, first_min(s)),
    decreases s.len(),
{
    if s.len() == 1 {
        assert(is_first_min(s, 0));
    } else {
        let t = s.drop_last();
        lemma_first_min_exists(t);
        let k = first_min(t);
        assert forall|j: int| 0 <= j < t.len() implies t[j] == s[j] by {}
        if s.last() < t[k] {
            assert(is_first_min(s, s.len() - 1)) by {
                assert forall|j: int| 0 <= j < s.len() - 1 implies #[trigger] s[j] > s[s.len()
                    - 1] by {
                    assert(t[k] <= t[j]);
                }
            }
        } else {
            assert(is_first_min(s, k)) by {
                assert forall|j: int| 0 <= j < s.len() implies s[k] <= #[trigger] s[j] by {
                    if j < t.len() {
                        assert(t[k] <= t[j]);
                    }
                }
                assert forall|j: int| 0 <= j < k implies #[trigger] s[j] > s[k] by {
                    assert(t[j] > t[k]);
                }
            }
        }
    }
}

/// The ranks as integers.
pub open spec fn ints(v: Seq<i128>) -> Seq<int> {
    v.map_values(|x: i128| x as int)
}

/// The first position of `ranks` that holds its least value; 0 where there is none.
pub fn pick_first_min(ranks: &Vec<i128>) -> (k: usize)
    ensures
        k == first_min(ints(ranks@)),
        ranks@.len() > 0 ==> k < ranks@.len(),
        ranks@.len() > 0 ==> is_first_min(ints(ranks@), k as int),
{
    if ranks.len() == 0 {
        return 0;
    }
    let mut best: usize = 0;
    let mut i: usize = 1;
    let ghost s = ints(ranks@);
    while i < ranks.len()
        invariant
            1 <= i <= ranks.len(),
            best < i,
            s == ints(ranks@),
            forall|j: int| 0 <= j < i ==> s[best as int] <= #[trigger] s[j],
            forall|j: int| 0 <= j < best ==> #[trigger] s[j] > s[best as int],
        decreases ranks.len() - i,
    {
        if ranks[i] < ranks[best] {
            best = i;
        }
        i += 1;
    }
    proof {
        lemma_first_min(s, best as int);
    }
    best
}

/// The rank of a file path when region decides and quality breaks ties; a lower
/// rank is better.
pub open spec fn region_rank(path: Seq<char>) -> int {
    let name = lowercase(file_name_of(path));
    region_priority(region_of(name)) * 10 + (5 - quality_score(quality_of(name)))
}

/// The rank of a file path when quality decides and region breaks ties; a higher
/// rank is better.
pub open spec fn quality_rank(path: Seq<char>) -> int {
    let name = lowercase(file_name_of(path));
    quality_score(quality_of(name)) * 100 + (200 - region_priority(region_of(name)))
}

/// The region and the quality that the file name of `path` tells.
pub fn region_and_quality(path: &str) -> (r: (Region, RomQuality))
    ensures
        r.0 == region_of(lowercase(file_name_of(path@))),
        r.1 == quality_of(lowercase(file_name_of(path@))),
{
    let p = chars_of(path);
    let lower = lower_chars(file_name(p.as_slice()).as_slice());
    (Region::from_lowercase(lower.as_slice()), RomQuality::from_lowercase(lower.as_slice()))
}

/// The rank of `path` when region decides; lower is better.
pub fn rank_by_region(path: &str) -> (r: i128)
    ensures
        r == region_rank(path@),
{
    let rq = region_and_quality(path);
    (rq.0.priority_score() * 10 + (5 - rq.1.score())) as i128
}

/// The rank of `path` when quality decides; higher is better.
pub fn rank_by_quality(path: &str) -> (r: i128)
    ensures
        r == quality_rank(path@),
{
    let rq = region_and_quality(path);
    (rq.1.score() * 100 + (200 - rq.0.priority_score())) as i128
}

/// The components of a path: its pieces between separators, empty pieces left out.
pub open spec fn components(p: Seq<char>) -> Seq<Seq<char>>
    decreases p.len(),
{
    if p.len() == 0 {
        Seq::empty()
    } else {
        let n = sep_free_run(p);
        if n == 0 {
            components(p.skip(1))
        } else {
            proof {
                lemma_sep_free_bound(p);
            }
            seq![p.take(n as int)] + components(p.skip(n as int))
        }
    }
}

/// How many characters at the start of `p` are no separators.
pub open spec fn sep_free_run(p: Seq<char>) -> nat
    decreases p.len(),
{
    if p.len() > 0 && !is_sep(p[0]) {
        1 + sep_free_run(p.drop_first())
    } else {
        0
    }
}

/// The run without separators is no longer than the path.
pub proof fn lemma_sep_free_bound(p: Seq<char>)
    ensures
        sep_free_run(p) <= p.len(),
    decreases p.len(),
{
    if p.len() > 0 && !is_sep(p[0]) {
        lemma_sep_free_bound(p.drop_first());
    }
}

/// The run without separators is as long as the longest such prefix.
pub proof fn lemma_sep_free_run(p: Seq<char>, n: int)
    requires
        0 <= n <= p.len(),
        forall|i: int| 0 <= i < n ==> !is_sep(p[i]),
        n < p.len() ==> is_sep(p[n]),
    ensures
        sep_free_run(p) == n,
    decreases n,
{
    if n > 0 {
        lemma_sep_free_run(p.drop_first(), n - 1);
    }
}

/// Whether a path starts at the root: with a separator.
pub open spec fn is_rooted(p: Seq<char>) -> bool {
    p.len() > 0 && is_sep(p[0])
}

/// Whether the path `p` lies under the directory `dir`, or is `dir`: both start at
/// the root or neither does, and the components of `dir` are the first components
/// of `p`.
pub open spec fn path_under(p: Seq<char>, dir: Seq<char>) -> bool {
    is_rooted(p) == is_rooted(dir) && components(dir).is_prefix_of(components(p))
}

/// The components of a path.
pub fn split_components(p: &[char]) -> (r: Vec<Vec<char>>)
    ensures
        crate::split::texts(r@) == components(p@),
{
    let mut r: Vec<Vec<char>> = Vec::new();
    let mut pos: usize = 0;
    assert(p@.skip(0) == p@);
    assert(crate::split::texts(r@) =~= Seq::<Seq<char>>::empty());
    while pos < p.len()
        invariant
            pos <= p.len(),
            components(p@) == crate::split::texts(r@) + components(p@.skip(pos as int)),
        decreases p.len() - pos,
    {
        let ghost rest = p@.skip(pos as int);
        let ghost before = crate::split::texts(r@);
        let mut end: usize = pos;
        while end < p.len() && !(p[end] == '/' || p[end] == '\\')
            invariant
                pos <= end <= p.len(),
                forall|i: int| pos <= i < end ==> !is_sep(p@[i]),
            decreases p.len() - end,
        {
            end += 1;
        }
        proof {
            lemma_sep_free_run(rest, end - pos);
        }
        if end == pos {
            assert(rest.skip(1) == p@.skip(pos + 1));
            pos += 1;
        } else {
            let piece = slice_of(p, pos, end);
            assert(piece@ == rest.take(end - pos));
            r.push(piece);
            assert(crate::split::texts(r@) =~= before.push(piece@));
            assert(rest.skip(end - pos) == p@.skip(end as int));
            pos = end;
            assert(before + (seq![piece@] + components(p@.skip(pos as int))) =~= before.push(
                piece@,
            ) + components(p@.skip(pos as int)));
        }
    }
    assert(components(p@.skip(pos as int)) =~= Seq::<Seq<char>>::empty());
    assert(crate::split::texts(r@) + Seq::<Seq<char>>::empty() =~= crate::split::texts(r@));
    r
}

/// Whether the path `p` lies under the directory `dir`.
pub fn is_under(p: &str, dir: &str) -> (r: bool)
    ensures
        r == path_under(p@, dir@),
{
    let pc = chars_of(p);
    let dc = chars_of(dir);
    let p_root = pc.len() > 0 && (pc[0] == '/' || pc[0] == '\\');
    let d_root = dc.len() > 0 && (dc[0] == '/' || dc[0] == '\\');
    if p_root != d_root {
        return false;
    }
    let ps = split_components(pc.as_slice());
    let ds = split_components(dc.as_slice());
    if ds.len() > ps.len() {
        return false;
    }
    let ghost a = components(dir@);
    let ghost b = components(p@);
    let mut i: usize = 0;
    while i < ds.len()
        invariant
            i <= ds.len() <= ps.len(),
            a == crate::split::texts(ds@),
            b == crate::split::texts(ps@),
            a == components(dir@),
            b == components(p@),
            is_rooted(p@) == is_rooted(dir@),
            forall|j: int| 0 <= j < i ==> a[j] == b[j],
        decreases ds.len() - i,
    {
        if !same_text(ds[i].as_slice(), ps[i].as_slice()) {
            assert(a[i as int] != b[i as int]);
            assert(!a.is_prefix_of(b)) by {
                if a.is_prefix_of(b) {
                    assert(b.subrange(0, a.len() as int)[i as int] == a[i as int]);
                }
            }
            return false;
        }
        i += 1;
    }
    assert(a =~= b.subrange(0, a.len() as int));
    true
}

} // verus!
