//! Reading and writing unsigned numbers as text.

use vstd::prelude::*;
use crate::split::append;

verus! {

/// The value of `c` as a digit, for 0-9 and the letters of either case, where it is
/// below `radix`.
pub open spec fn digit_value(c: char, radix: nat) -> Option<nat> {
    let n = c as u32;
    if 48 <= n <= 57 && n - 48 < radix {
        Some((n - 48) as nat)
    } else if 97 <= n <= 122 && n - 87 < radix {
        Some((n - 87) as nat)
    } else if 65 <= n <= 90 && n - 55 < radix {
        Some((n - 55) as nat)
    } else {
        None
    }
}

/// Whether every character of `s` is a digit in `radix`.
pub open spec fn all_digits(s: Seq<char>, radix: nat) -> bool {
    forall|i: int| 0 <= i < s.len() ==> (#[trigger] digit_value(s[i], radix)) is Some
}

/// The number that the digits of `s` write in `radix`.
pub open spec fn digits_num(s: Seq<char>, radix: nat) -> nat
    decreases s.len(),
{
    if s.len() == 0 {
        0
    } else {
        digits_num(s.drop_last(), radix) * radix + match digit_value(s.last(), radix) {
            Some(d) => d,
            None => 0,
        }
    }
}

/// `s` without one plus sign at its start.
pub open spec fn unsigned_digits(s: Seq<char>) -> Seq<char> {
    if s.len() > 0 && s[0] == '+' {
        s.skip(1)
    } else {
        s
    }
}

/// The number that `s` writes: an optional plus sign, then one or more digits in
/// `radix` and nothing else, with a value of at most `max`.
pub open spec fn parse_unsigned(s: Seq<char>, radix: nat, max: nat) -> Option<nat> {
    let d = unsigned_digits(s);
    if d.len() > 0 && all_digits(d, radix) && digits_num(d, radix) <= max {
        Some(digits_num(d, radix))
    } else {
        None
    }
}

/// The 32-bit number that `s` writes in base 16.
pub open spec fn hex_u32(s: Seq<char>) -> Option<u32> {
    match parse_unsigned(s, 16, 0xFFFF_FFFF) {
        Some(v) => Some(v as u32),
        None => None,
    }
}

/// The 64-bit number that `s` writes in base 10.
pub open spec fn dec_u64(s: Seq<char>) -> Option<u64> {
    match parse_unsigned(s, 10, 0xFFFF_FFFF_FFFF_FFFF) {
        Some(v) => Some(v as u64),
        None => None,
    }
}

/// A longer row of digits writes no smaller number.
pub proof fn lemma_digits_num_grows(s: Seq<char>, radix: nat, k: int)
    requires
        radix >= 1,
        0 <= k <= s.len(),
    ensures
        digits_num(s.take(k), radix) <= digits_num(s, radix),
    decreases s.len() - k,
{
    if k < s.len() {
        lemma_digits_num_grows(s.drop_last(), radix, k);
        assert(s.drop_last().take(k) == s.take(k));
        let a = digits_num(s.drop_last(), radix);
        assert(a <= a * radix) by (nonlinear_arith)
            requires
                radix >= 1,
                a >= 0,
        ;
    } else {
        assert(s.take(k) == s);
    }
}

/// The value of `c` as a digit in `radix`.
pub fn digit_of(c: char, radix: u32) -> (r: Option<u32>)
    requires
        radix <= 36,
    ensures
        r is Some <==> digit_value(c, radix as nat) is Some,
        r matches Some(d) ==> digit_value(c, radix as nat) == Some(d as nat) && d < radix,
{
    let n: u32 = c as u32;
    if 48 <= n && n <= 57 && n - 48 < radix {
        Some(n - 48)
    } else if 97 <= n && n <= 122 && n - 87 < radix {
        Some(n - 87)
    } else if 65 <= n && n <= 90 && n - 55 < radix {
        Some(n - 55)
    } else {
        None
    }
}

/// The number that `s` writes in `radix`, if it is at most `max`.
pub fn parse_number(s: &[char], radix: u32, max: u64) -> (r: Option<u64>)
    requires
        1 <= radix <= 36,
    ensures
        r is Some <==> parse_unsigned(s@, radix as nat, max as nat) is Some,
        r matches Some(v) ==> parse_unsigned(s@, radix as nat, max as nat) == Some(v as nat),
{
    let start: usize = if s.len() > 0 && s[0] == '+' {
        1
    } else {
        0
    };
    let ghost d = unsigned_digits(s@);
    assert(d == s@.skip(start as int));
    if start >= s.len() {
        return None;
    }
    let mut acc: u64 = 0;
    let mut i: usize = start;
    while i < s.len()
        invariant
            start <= i <= s.len(),
            1 <= radix <= 36,
            d == s@.skip(start as int),
            d == unsigned_digits(s@),
            all_digits(d.take(i - start), radix as nat),
            acc == digits_num(d.take(i - start), radix as nat),
            acc <= max,
        decreases s.len() - i,
    {
        let ghost next = d.take(i - start + 1);
        assert(next.drop_last() == d.take(i - start));
        assert(next.last() == s@[i as int]);
        match digit_of(s[i], radix) {
            None => {
                assert(d[i - start] == s@[i as int]);
                assert(digit_value(d[i - start], radix as nat) is None);
                return None;
            },
            Some(v) => {
                assert(acc * radix <= 0xFFFF_FFFF_FFFF_FFFF * 36) by (nonlinear_arith)
                    requires
                        acc <= 0xFFFF_FFFF_FFFF_FFFF,
                        radix <= 36,
                ;
                let wide: u128 = acc as u128 * radix as u128 + v as u128;
                assert(wide == digits_num(next, radix as nat));
                if wide > max as u128 {
                    proof {
                        lemma_digits_num_grows(d, radix as nat, i - start + 1);
                        assert(digits_num(d, radix as nat) > max);
                    }
                    return None;
                }
                acc = wide as u64;
                assert forall|j: int| 0 <= j < next.len() implies (#[trigger] digit_value(
                    next[j],
                    radix as nat,
                )) is Some by {
                    if j < next.len() - 1 {
                        assert(next[j] == d.take(i - start)[j]);
                    }
                }
            },
        }
        i += 1;
    }
    assert(d.take(d.len() as int) == d);
    Some(acc)
}

/// The 32-bit number that `s` writes in base 16.
pub fn parse_hex_u32(s: &[char]) -> (r: Option<u32>)
    ensures
        r == hex_u32(s@),
{
    match parse_number(s, 16, 0xFFFF_FFFF) {
        Some(v) => Some(v as u32),
        None => None,
    }
}

/// The 64-bit number that `s` writes in base 10.
pub fn parse_dec_u64(s: &[char]) -> (r: Option<u64>)
    ensures
        r == dec_u64(s@),
{
    parse_number(s, 10, 0xFFFF_FFFF_FFFF_FFFF)
}

/// The upper-case character for a digit below 16.
pub open spec fn upper_hex_char(d: int) -> char {
    if d == 0 {
        '0'
    } else if d == 1 {
        '1'
    } else if d == 2 {
        '2'
    } else if d == 3 {
        '3'
    } else if d == 4 {
        '4'
    } else if d == 5 {
        '5'
    } else if d == 6 {
        '6'
    } else if d == 7 {
        '7'
    } else if d == 8 {
        '8'
    } else if d == 9 {
        '9'
    } else if d == 10 {
        'A'
    } else if d == 11 {
        'B'
    } else if d == 12 {
        'C'
    } else if d == 13 {
        'D'
    } else if d == 14 {
        'E'
    } else {
        'F'
    }
}

/// `n` written with eight upper-case hexadecimal digits.
pub open spec fn hex8(n: u32) -> Seq<char> {
    let v = n as int;
    seq![
        upper_hex_char(v / 0x1000_0000 % 16),
        upper_hex_char(v / 0x100_0000 % 16),
        upper_hex_char(v / 0x10_0000 % 16),
        upper_hex_char(v / 0x1_0000 % 16),
        upper_hex_char(v / 0x1000 % 16),
        upper_hex_char(v / 0x100 % 16),
        upper_hex_char(v / 0x10 % 16),
        upper_hex_char(v % 16),
    ]
}

/// The upper-case character for a digit below 16.
pub fn upper_hex(d: u32) -> (c: char)
    requires
        d < 16,
    ensures
        c == upper_hex_char(d as int),
{
    if d == 0 {
        '0'
    } else if d == 1 {
        '1'
    } else if d == 2 {
        '2'
    } else if d == 3 {
        '3'
    } else if d == 4 {
        '4'
    } else if d == 5 {
        '5'
    } else if d == 6 {
        '6'
    } else if d == 7 {
        '7'
    } else if d == 8 {
        '8'
    } else if d == 9 {
        '9'
    } else if d == 10 {
        'A'
    } else if d == 11 {
        'B'
    } else if d == 12 {
        'C'
    } else if d == 13 {
        'D'
    } else if d == 14 {
        'E'
    } else {
        'F'
    }
}

/// Appends `n`, written with eight upper-case hexadecimal digits, to `out`.
pub fn push_hex8(out: &mut Vec<char>, n: u32)
    ensures
        final(out)@ == old(out)@ + hex8(n),
{
    let digits: Vec<char> = vec![
        upper_hex(n / 0x1000_0000 % 16),
        upper_hex(n / 0x100_0000 % 16),
        upper_hex(n / 0x10_0000 % 16),
        upper_hex(n / 0x1_0000 % 16),
        upper_hex(n / 0x1000 % 16),
        upper_hex(n / 0x100 % 16),
        upper_hex(n / 0x10 % 16),
        upper_hex(n % 16),
    ];
    assert(digits@ == hex8(n));
    append(out, digits.as_slice());
}

/// The character for a digit below 10.
pub open spec fn dec_char(d: int) -> char {
    upper_hex_char(d)
}

/// `n` written in base 10, without leading zeros.
pub open spec fn decimal(n: nat) -> Seq<char>
    decreases n,
{
    if n < 10 {
        seq![dec_char(n as int)]
    } else {
        decimal(n / 10).push(dec_char((n % 10) as int))
    }
}

/// Appends `n`, written in base 10, to `out`.
pub fn push_decimal(out: &mut Vec<char>, n: u64)
    ensures
        final(out)@ == old(out)@ + decimal(n as nat),
    decreases n,
{
    if n < 10 {
        out.push(upper_hex(n as u32));
        assert(old(out)@.push(dec_char(n as int)) == old(out)@ + decimal(n as nat));
    } else {
        push_decimal(out, n / 10);
        out.push(upper_hex((n % 10) as u32));
        assert((old(out)@ + decimal((n / 10) as nat)).push(dec_char((n % 10) as int)) == old(out)@
            + decimal(n as nat));
    }
}

/// Appends `n`, written in base 10, to `out`.
pub fn push_decimal_wide(out: &mut Vec<char>, n: u128)
    ensures
        final(out)@ == old(out)@ + decimal(n as nat),
    decreases n,
{
    if n < 10 {
        out.push(upper_hex(n as u32));
        assert(old(out)@.push(dec_char(n as int)) == old(out)@ + decimal(n as nat));
    } else {
        push_decimal_wide(out, n / 10);
        out.push(upper_hex((n % 10) as u32));
        assert((old(out)@ + decimal((n / 10) as nat)).push(dec_char((n % 10) as int)) == old(out)@
            + decimal(n as nat));
    }
}

/// `n` written in base 10, with a minus sign where it is negative.
pub open spec fn signed_decimal(n: int) -> Seq<char> {
    if n < 0 {
        seq!['-'] + decimal((-n) as nat)
    } else {
        decimal(n as nat)
    }
}

/// Appends `n`, written in base 10, to `out`.
pub fn push_signed(out: &mut Vec<char>, n: i64)
    ensures
        final(out)@ == old(out)@ + signed_decimal(n as int),
{
    if n < 0 {
        out.push('-');
        let m: u64 = (-(n as i128)) as u64;
        push_decimal(out, m);
        assert(final(out)@ =~= old(out)@ + (seq!['-'] + decimal((-n) as nat)));
    } else {
        push_decimal(out, n as u64);
    }
}

} // verus!
