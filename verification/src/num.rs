//! Decimal integers: std's `Display` (with `{:0N}` padding) and `FromStr`.
use vstd::prelude::*;
use crate::text::{push_range, string_from_chars};

verus! {

/// The ASCII digit for `d < 10`.
pub open spec fn digit_char(d: nat) -> char {
    ((d + 48) as u8) as char
}

/// Decimal representation of `n` without sign or leading zeros.
pub open spec fn dec(n: nat) -> Seq<char>
    decreases n,
{
    if n < 10 {
        seq![digit_char(n)]
    } else {
        dec(n / 10).push(digit_char(n % 10))
    }
}

/// `Display` of a signed integer.
pub open spec fn dec_signed(n: int) -> Seq<char> {
    if n < 0 {
        seq!['-'] + dec((-n) as nat)
    } else {
        dec(n as nat)
    }
}

/// `{:0w}`: left-pad with `'0'` up to width `w`.
pub open spec fn zero_pad(s: Seq<char>, w: nat) -> Seq<char> {
    if s.len() < w {
        Seq::new((w - s.len()) as nat, |i: int| '0') + s
    } else {
        s
    }
}

pub open spec fn is_digit(c: char) -> bool {
    '0' <= c && c <= '9'
}

pub open spec fn digit_value(c: char) -> int {
    (c as u32) as int - 48
}

pub open spec fn all_digits(s: Seq<char>) -> bool {
    forall|i: int| 0 <= i < s.len() ==> is_digit(#[trigger] s[i])
}

/// The number a string of decimal digits denotes.
pub open spec fn digits_value(s: Seq<char>) -> int
    decreases s.len(),
{
    if s.len() == 0 {
        0
    } else {
        digits_value(s.drop_last()) * 10 + digit_value(s.last())
    }
}

/// std's `FromStr` for an integer type whose values are `lo..=hi`: an optional
/// `+` (or `-` when the type is signed) followed by at least one ASCII digit,
/// and a value in range.
pub open spec fn parse_int(s: Seq<char>, lo: int, hi: int) -> Option<int> {
    if s.len() == 0 || ((s[0] == '+' || s[0] == '-') && s.len() == 1) {
        None
    } else {
        let neg = s[0] == '-' && lo < 0;
        let d = if s[0] == '+' || neg {
            s.drop_first()
        } else {
            s
        };
        let v = if neg {
            -digits_value(d)
        } else {
            digits_value(d)
        };
        if all_digits(d) && lo <= v <= hi {
            Some(v)
        } else {
            None
        }
    }
}

pub open spec fn parse_u16(s: Seq<char>) -> Option<u16> {
    match parse_int(s, 0, u16::MAX as int) {
        Some(v) => Some(v as u16),
        None => None,
    }
}

pub open spec fn parse_u64(s: Seq<char>) -> Option<u64> {
    match parse_int(s, 0, u64::MAX as int) {
        Some(v) => Some(v as u64),
        None => None,
    }
}

pub open spec fn parse_i32(s: Seq<char>) -> Option<i32> {
    match parse_int(s, i32::MIN as int, i32::MAX as int) {
        Some(v) => Some(v as i32),
        None => None,
    }
}

pub open spec fn parse_i64(s: Seq<char>) -> Option<i64> {
    match parse_int(s, i64::MIN as int, i64::MAX as int) {
        Some(v) => Some(v as i64),
        None => None,
    }
}

// ---------------------------------------------------------------------------
// Lemmas
// ---------------------------------------------------------------------------

pub proof fn lemma_digits_value_nonneg(s: Seq<char>)
    requires
        all_digits(s),
    ensures
        digits_value(s) >= 0,
    decreases s.len(),
{
    if s.len() > 0 {
        assert(is_digit(s[s.len() - 1]));
        lemma_digits_value_nonneg(s.drop_last());
    }
}

/// A prefix of a digit string denotes at most the whole string's value.
pub proof fn lemma_digits_prefix_le(s: Seq<char>, k: int)
    requires
        all_digits(s),
        0 <= k <= s.len(),
    ensures
        digits_value(s.take(k)) <= digits_value(s),
    decreases s.len(),
{
    if k < s.len() {
        assert(is_digit(s[s.len() - 1]));
        lemma_digits_prefix_le(s.drop_last(), k);
        assert(s.drop_last().take(k) =~= s.take(k));
        lemma_digits_value_nonneg(s.drop_last());
    } else {
        assert(s.take(k) =~= s);
    }
}

/// `dec(n)` is a non-empty digit string denoting `n`.
pub proof fn lemma_dec_digits(n: nat)
    ensures
        dec(n).len() >= 1,
        all_digits(dec(n)),
        digits_value(dec(n)) == n,
    decreases n,
{
    if n < 10 {
        assert(digit_value(digit_char(n)) == n);
        assert(dec(n).drop_last() =~= Seq::<char>::empty());
        assert(digits_value(Seq::<char>::empty()) == 0);
        assert(dec(n).last() == digit_char(n));
        assert(digits_value(dec(n)) == digits_value(dec(n).drop_last()) * 10 + digit_value(
            dec(n).last(),
        ));
    } else {
        lemma_dec_digits(n / 10);
        assert(dec(n).drop_last() =~= dec(n / 10));
        assert(digit_value(digit_char(n % 10)) == n % 10);
        assert(dec(n).last() == digit_char(n % 10));
        assert(digits_value(dec(n)) == digits_value(dec(n).drop_last()) * 10 + digit_value(
            dec(n).last(),
        ));
        assert((n / 10) * 10 + n % 10 == n);
    }
}

/// Parsing the `Display` of an in-range integer gives it back.
pub proof fn lemma_parse_dec_signed(n: int, lo: int, hi: int)
    requires
        lo <= n <= hi,
        lo <= 0,
    ensures
        parse_int(dec_signed(n), lo, hi) == Some(n),
{
    if n < 0 {
        let d = dec((-n) as nat);
        lemma_dec_digits((-n) as nat);
        assert(dec_signed(n).drop_first() =~= d);
        assert(is_digit(d[0]));
    } else {
        lemma_dec_digits(n as nat);
        assert(is_digit(dec(n as nat)[0]));
    }
}

// ---------------------------------------------------------------------------
// Executable functions
// ---------------------------------------------------------------------------

fn digit_exec(d: u64) -> (c: char)
    requires
        d < 10,
    ensures
        c == digit_char(d as nat),
{
    ((d as u8) + 48) as char
}

/// Append the decimal digits of `n`.
pub fn push_dec(out: &mut Vec<char>, n: u64)
    ensures
        final(out)@ == old(out)@ + dec(n as nat),
    decreases n,
{
    if n >= 10 {
        push_dec(out, n / 10);
    }
    out.push(digit_exec(n % 10));
    proof {
        if n >= 10 {
            assert(dec(n as nat) == dec((n / 10) as nat).push(digit_char((n % 10) as nat)));
        }
    }
    assert(out@ =~= old(out)@ + dec(n as nat));
}

/// Append `{:0w}` of `n`.
pub fn push_dec_padded(out: &mut Vec<char>, n: u64, w: usize)
    ensures
        final(out)@ == old(out)@ + zero_pad(dec(n as nat), w as nat),
{
    let mut digits: Vec<char> = Vec::new();
    push_dec(&mut digits, n);
    assert(digits@ =~= dec(n as nat));
    let len = digits.len();
    if len < w {
        let mut k: usize = 0;
        while k < w - len
            invariant
                len < w,
                0 <= k <= w - len,
                out@ == old(out)@ + Seq::new(k as nat, |i: int| '0'),
            decreases w - len - k,
        {
            out.push('0');
            k += 1;
            assert(out@ =~= old(out)@ + Seq::new(k as nat, |i: int| '0'));
        }
    }
    let n2 = digits.len();
    push_range(out, &digits, 0, n2);
    assert(digits@.subrange(0, n2 as int) =~= digits@);
    assert(out@ =~= old(out)@ + zero_pad(dec(n as nat), w as nat));
}

/// Append the `Display` of `n`.
pub fn push_i64(out: &mut Vec<char>, n: i64)
    ensures
        final(out)@ == old(out)@ + dec_signed(n as int),
{
    if n < 0 {
        out.push('-');
        let mag: u64 = ((-(n + 1)) as u64) + 1;
        push_dec(out, mag);
        assert(out@ =~= old(out)@ + dec_signed(n as int));
    } else {
        push_dec(out, n as u64);
    }
}

/// `n.to_string()` for `u64`.
pub fn u64_to_string(n: u64) -> (s: String)
    ensures
        s@ == dec(n as nat),
{
    let mut v: Vec<char> = Vec::new();
    push_dec(&mut v, n);
    assert(v@ =~= dec(n as nat));
    string_from_chars(v.as_slice())
}

/// `n.to_string()` for `i64`.
pub fn i64_to_string(n: i64) -> (s: String)
    ensures
        s@ == dec_signed(n as int),
{
    let mut v: Vec<char> = Vec::new();
    push_i64(&mut v, n);
    assert(v@ =~= dec_signed(n as int));
    string_from_chars(v.as_slice())
}

/// Core of `FromStr`: the sign and magnitude of `parse_int(v[a..b], lo, hi)`
/// where `lo == -neg_limit` (or `0` when `neg_limit == 0`) and `hi == pos_limit`.
fn parse_core(v: &Vec<char>, a: usize, b: usize, neg_limit: u64, pos_limit: u64) -> (r: Option<
    (bool, u64),
>)
    requires
        a <= b <= v@.len(),
    ensures
        match parse_int(v@.subrange(a as int, b as int), -(neg_limit as int), pos_limit as int) {
            Some(x) => r matches Some((neg, m)) && x == (if neg {
                -(m as int)
            } else {
                m as int
            }),
            None => r is None,
        },
{
    let ghost s = v@.subrange(a as int, b as int);
    let ghost lo: int = -(neg_limit as int);
    if a == b {
        return None;
    }
    let c0 = v[a];
    if (c0 == '+' || c0 == '-') && b - a == 1 {
        return None;
    }
    assert(s[0] == c0);
    let neg = c0 == '-' && neg_limit > 0;
    let start = if c0 == '+' || neg {
        a + 1
    } else {
        a
    };
    let ghost d = v@.subrange(start as int, b as int);
    assert(d =~= (if s[0] == '+' || (s[0] == '-' && lo < 0) {
        s.drop_first()
    } else {
        s
    }));
    let limit: u64 = if neg {
        neg_limit
    } else {
        pos_limit
    };
    let mut acc: u64 = 0;
    let mut i = start;
    while i < b
        invariant
            a <= start <= i <= b <= v@.len(),
            d == v@.subrange(start as int, b as int),
            s == v@.subrange(a as int, b as int),
            lo == -(neg_limit as int),
            s.len() > 0,
            !((s[0] == '+' || s[0] == '-') && s.len() == 1),
            neg == (s[0] == '-' && lo < 0),
            d == (if s[0] == '+' || neg {
                s.drop_first()
            } else {
                s
            }),
            limit == (if neg {
                neg_limit
            } else {
                pos_limit
            }),
            all_digits(d.take(i - start)),
            acc as int == digits_value(d.take(i - start)),
            acc <= limit,
        decreases b - i,
    {
        let c = v[i];
        if !('0' <= c && c <= '9') {
            assert(d[i - start] == c);
            assert(!is_digit(d[i - start]));
            assert(!all_digits(d));
            return None;
        }
        let dv: u64 = ((c as u32) - 48) as u64;
        let next: u128 = (acc as u128) * 10 + (dv as u128);
        assert(d.take(i - start + 1).drop_last() =~= d.take(i - start));
        assert(d.take(i - start + 1).last() == c);
        assert(digit_value(c) == dv as int);
        assert(digits_value(d.take(i - start + 1)) == digits_value(d.take(i - start)) * 10
            + digit_value(c));
        assert(digits_value(d.take(i - start + 1)) == next as int);
        if next > limit as u128 {
            proof {
                if all_digits(d) {
                    lemma_digits_prefix_le(d, i - start + 1);
                    assert(digits_value(d) > limit);
                    if neg {
                        assert(-digits_value(d) < lo);
                    }
                }
            }
            return None;
        }
        acc = next as u64;
        i += 1;
        assert(all_digits(d.take(i - start)));
    }
    assert(d.take(i - start) =~= d);
    proof {
        if neg {
            assert(neg_limit > 0);
        }
    }
    assert(d.len() > 0);
    Some((neg, acc))
}

/// `str::parse::<u16>` on `v[a..b]`.
pub fn parse_u16_range(v: &Vec<char>, a: usize, b: usize) -> (r: Option<u16>)
    requires
        a <= b <= v@.len(),
    ensures
        r == parse_u16(v@.subrange(a as int, b as int)),
{
    match parse_core(v, a, b, 0, 65535) {
        Some((_, m)) => Some(m as u16),
        None => None,
    }
}

/// `str::parse::<u64>` on `v[a..b]`.
pub fn parse_u64_range(v: &Vec<char>, a: usize, b: usize) -> (r: Option<u64>)
    requires
        a <= b <= v@.len(),
    ensures
        r == parse_u64(v@.subrange(a as int, b as int)),
{
    match parse_core(v, a, b, 0, u64::MAX) {
        Some((_, m)) => Some(m),
        None => None,
    }
}

/// `str::parse::<i32>` on `v[a..b]`.
pub fn parse_i32_range(v: &Vec<char>, a: usize, b: usize) -> (r: Option<i32>)
    requires
        a <= b <= v@.len(),
    ensures
        r == parse_i32(v@.subrange(a as int, b as int)),
{
    match parse_core(v, a, b, 2147483648, 2147483647) {
        Some((neg, m)) => {
            if neg {
                if m == 2147483648 {
                    Some(-2147483648i32)
                } else {
                    Some(-(m as i32))
                }
            } else {
                Some(m as i32)
            }
        },
        None => None,
    }
}

/// `str::parse::<i64>` on `v[a..b]`.
pub fn parse_i64_range(v: &Vec<char>, a: usize, b: usize) -> (r: Option<i64>)
    requires
        a <= b <= v@.len(),
    ensures
        r == parse_i64(v@.subrange(a as int, b as int)),
{
    match parse_core(v, a, b, 9223372036854775808, 9223372036854775807) {
        Some((neg, m)) => {
            if neg {
                if m == 9223372036854775808 {
                    Some(i64::MIN)
                } else {
                    Some(-(m as i64))
                }
            } else {
                Some(m as i64)
            }
        },
        None => None,
    }
}

} // verus!
