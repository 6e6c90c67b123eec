//! The pieces of one catalog line: quoted values, parenthesis counts, checksum and
//! size tokens.

use vstd::prelude::*;
use crate::numbers::{dec_u64, hex_u32, parse_dec_u64, parse_hex_u32};
use crate::split::{texts, words, words_of};
use crate::text::{
    has_prefix, is_text, lead_run, run_back, run_from, slice_of, starts_with, strip, stripped,
    trail_run, CharClass,
};

verus! {

/// What stands between the first and the last double quote of `line`, where these
/// are two different quotes.
pub open spec fn quoted(line: Seq<char>) -> Option<Seq<char>> {
    let first = lead_run(line, CharClass::IsNot('"')) as int;
    let last = line.len() - 1 - trail_run(line, CharClass::IsNot('"'));
    if first < last {
        Some(line.subrange(first + 1, last))
    } else {
        None
    }
}

/// What stands between the first and the last double quote of `line`.
pub fn quoted_value(line: &[char]) -> (r: Option<Vec<char>>)
    ensures
        r is Some <==> quoted(line@) is Some,
        r matches Some(v) ==> quoted(line@) == Some(v@),
{
    let first = run_from(line, 0, CharClass::IsNot('"'));
    let back = run_back(line, line.len(), CharClass::IsNot('"'));
    assert(line@.skip(0) == line@);
    assert(line@.take(line@.len() as int) == line@);
    if back < line.len() && first < line.len() - 1 - back {
        Some(slice_of(line, first + 1, line.len() - 1 - back))
    } else {
        None
    }
}

/// How often `c` occurs in `s`.
pub open spec fn count_of(s: Seq<char>, c: char) -> nat
    decreases s.len(),
{
    if s.len() == 0 {
        0
    } else {
        count_of(s.drop_last(), c) + if s.last() == c {
            1nat
        } else {
            0nat
        }
    }
}

/// A character occurs at most as often as the text is long.
pub proof fn lemma_count_of_bound(s: Seq<char>, c: char)
    ensures
        count_of(s, c) <= s.len(),
    decreases s.len(),
{
    if s.len() > 0 {
        lemma_count_of_bound(s.drop_last(), c);
    }
}

/// How often `c` occurs in `s`.
pub fn count_char(s: &[char], c: char) -> (n: usize)
    ensures
        n == count_of(s@, c),
{
    let mut n: usize = 0;
    let mut i: usize = 0;
    while i < s.len()
        invariant
            i <= s.len(),
            n == count_of(s@.take(i as int), c),
            n <= i,
        decreases s.len() - i,
    {
        assert(s@.take(i + 1).drop_last() == s@.take(i as int));
        if s[i] == c {
            n += 1;
        }
        i += 1;
    }
    assert(s@.take(s@.len() as int) == s@);
    n
}

/// The nesting depth after a line with `opens` opening and `closes` closing
/// parentheses, seen at depth `depth`. The depth never falls below zero.
pub open spec fn depth_after(depth: nat, opens: nat, closes: nat) -> nat {
    if depth + opens >= closes {
        (depth + opens - closes) as nat
    } else {
        0
    }
}

/// The nesting depth after `line`, seen at depth `depth`.
pub open spec fn depth_past(depth: nat, line: Seq<char>) -> nat {
    depth_after(depth, count_of(line, '('), count_of(line, ')'))
}

/// The nesting depth after `line`, seen at depth `depth`.
pub fn next_depth(depth: u128, line: &[char]) -> (r: u128)
    requires
        depth + 0xFFFF_FFFF_FFFF_FFFF <= u128::MAX,
    ensures
        r == depth_past(depth as nat, line@),
        r <= depth + 0xFFFF_FFFF_FFFF_FFFF,
{
    let opens = count_char(line, '(');
    let closes = count_char(line, ')');
    proof {
        lemma_count_of_bound(line@, '(');
    }
    let up: u128 = depth + opens as u128;
    if up >= closes as u128 {
        up - closes as u128
    } else {
        0
    }
}

/// A checksum token without the parentheses and quotes around it: closing
/// parentheses go first, then opening ones, then double quotes, each from both ends.
pub open spec fn bare_token(tok: Seq<char>) -> Seq<char> {
    stripped(stripped(stripped(tok, CharClass::Is(')')), CharClass::Is('(')), CharClass::Is('"'))
}

/// The hexadecimal digits of a bare checksum token: what follows `0x` or `0X`, or
/// the whole token.
pub open spec fn hex_part(tok: Seq<char>) -> Seq<char> {
    if has_prefix(tok, "0x"@) || has_prefix(tok, "0X"@) {
        tok.skip(2)
    } else {
        tok
    }
}

/// The checksum that a token writes.
pub open spec fn crc_of_token(tok: Seq<char>) -> Option<u32> {
    hex_u32(hex_part(bare_token(tok)))
}

/// The checksum that a token writes.
pub fn parse_crc_token(tok: &[char]) -> (r: Option<u32>)
    ensures
        r == crc_of_token(tok@),
{
    let a = strip(tok, CharClass::Is(')'));
    let b = strip(a.as_slice(), CharClass::Is('('));
    let c = strip(b.as_slice(), CharClass::Is('"'));
    if starts_with(c.as_slice(), "0x") || starts_with(c.as_slice(), "0X") {
        proof {
            reveal_strlit("0x");
            reveal_strlit("0X");
        }
        let d = slice_of(c.as_slice(), 2, c.len());
        parse_hex_u32(d.as_slice())
    } else {
        parse_hex_u32(c.as_slice())
    }
}

/// The token after the last of the first `k` words that is `key` and has a word
/// after it.
pub open spec fn token_after(parts: Seq<Seq<char>>, key: Seq<char>, k: nat) -> Option<Seq<char>>
    decreases k,
{
    if k == 0 {
        None
    } else if k < parts.len() && parts[k - 1] == key {
        Some(parts[k as int])
    } else {
        token_after(parts, key, (k - 1) as nat)
    }
}

/// The size that the first `k` words give: the number after the last `size` word
/// whose successor is a decimal number.
pub open spec fn size_in(parts: Seq<Seq<char>>, k: nat) -> Option<u64>
    decreases k,
{
    if k == 0 {
        None
    } else if k < parts.len() && parts[k - 1] == "size"@ && dec_u64(parts[k as int]) is Some {
        dec_u64(parts[k as int])
    } else {
        size_in(parts, (k - 1) as nat)
    }
}

/// The checksum token and the size that the words of a one-line ROM entry give.
pub fn scan_rom_words(parts: &Vec<Vec<char>>) -> (r: (Option<usize>, Option<u64>))
    ensures
        r.0 is Some <==> token_after(texts(parts@), "crc"@, parts@.len()) is Some,
        r.0 matches Some(i) ==> i < parts@.len() && token_after(
            texts(parts@),
            "crc"@,
            parts@.len(),
        ) == Some(parts@[i as int]@),
        r.1 == size_in(texts(parts@), parts@.len()),
{
    let mut crc_at: Option<usize> = None;
    let mut size: Option<u64> = None;
    let mut i: usize = 0;
    let ghost ps = texts(parts@);
    while i < parts.len()
        invariant
            i <= parts.len(),
            ps == texts(parts@),
            crc_at is Some <==> token_after(ps, "crc"@, i as nat) is Some,
            crc_at matches Some(j) ==> j < parts@.len() && token_after(ps, "crc"@, i as nat)
                == Some(parts@[j as int]@),
            size == size_in(ps, i as nat),
        decreases parts.len() - i,
    {
        assert(ps[i as int] == parts@[i as int]@);
        if i + 1 < parts.len() {
            assert(ps[i + 1] == parts@[i + 1]@);
            if is_text(parts[i].as_slice(), "crc") {
                crc_at = Some(i + 1);
            }
            if is_text(parts[i].as_slice(), "size") {
                match parse_dec_u64(parts[i + 1].as_slice()) {
                    Some(v) => {
                        size = Some(v);
                    },
                    None => {},
                }
            }
        }
        i += 1;
    }
    (crc_at, size)
}

/// The words of `line`, for callers that hold the line as characters.
pub fn line_words(line: &[char]) -> (r: Vec<Vec<char>>)
    ensures
        texts(r@) == words_of(line@),
{
    words(line)
}

} // verus!
