//! Character-level text model shared by the profile parsers.
//!
//! Every function here works on a `Vec<char>` and a half-open range of it, and
//! is specified over `Seq<char>`: the spec functions say what std's `lines`,
//! `trim`, `split_whitespace`, `to_ascii_lowercase`, `starts_with` and
//! `contains` compute on the characters of a string.
use vstd::prelude::*;

verus! {

// ---------------------------------------------------------------------------
// Spec model
// ---------------------------------------------------------------------------

/// `char::is_whitespace`: the Unicode `White_Space` property.
pub open spec fn is_ws(c: char) -> bool {
    ||| ('\t' <= c && c <= '\r')
    ||| c == ' '
    ||| c == '\u{85}'
    ||| c == '\u{a0}'
    ||| c == '\u{1680}'
    ||| ('\u{2000}' <= c && c <= '\u{200a}')
    ||| c == '\u{2028}'
    ||| c == '\u{2029}'
    ||| c == '\u{202f}'
    ||| c == '\u{205f}'
    ||| c == '\u{3000}'
}

/// `str::trim_start`.
pub open spec fn trim_start(s: Seq<char>) -> Seq<char>
    decreases s.len(),
{
    if s.len() > 0 && is_ws(s[0]) {
        trim_start(s.drop_first())
    } else {
        s
    }
}

/// `str::trim_end`.
pub open spec fn trim_end(s: Seq<char>) -> Seq<char>
    decreases s.len(),
{
    if s.len() > 0 && is_ws(s.last()) {
        trim_end(s.drop_last())
    } else {
        s
    }
}

/// `str::trim`.
pub open spec fn trim(s: Seq<char>) -> Seq<char> {
    trim_end(trim_start(s))
}

/// `i` is the position of the first occurrence of `c` in `s`.
pub open spec fn is_first(s: Seq<char>, c: char, i: int) -> bool {
    &&& 0 <= i < s.len()
    &&& s[i] == c
    &&& forall|k: int| 0 <= k < i ==> s[k] != c
}

/// Drop one trailing carriage return.
pub open spec fn strip_cr(l: Seq<char>) -> Seq<char> {
    if l.len() > 0 && l.last() == '\r' {
        l.drop_last()
    } else {
        l
    }
}

/// `str::lines`: split after each `\n`, drop the `\n` and a `\r` before it;
/// a last line without `\n` is kept as it is; no line follows a final `\n`.
pub open spec fn lines(s: Seq<char>) -> Seq<Seq<char>>
    decreases s.len(),
{
    if s.len() == 0 {
        seq![]
    } else if exists|i: int| is_first(s, '\n', i) {
        let i = choose|i: int| is_first(s, '\n', i);
        seq![strip_cr(s.take(i))] + lines(s.skip(i + 1))
    } else {
        seq![s]
    }
}

/// `i` is the position of the first whitespace character of `s`.
pub open spec fn is_first_ws(s: Seq<char>, i: int) -> bool {
    &&& 0 <= i < s.len()
    &&& is_ws(s[i])
    &&& forall|k: int| 0 <= k < i ==> !is_ws(s[k])
}

/// One step of `str::split_whitespace`: the next word and what follows it.
pub open spec fn first_word(s: Seq<char>) -> Option<(Seq<char>, Seq<char>)> {
    let t = trim_start(s);
    if t.len() == 0 {
        None
    } else if exists|i: int| is_first_ws(t, i) {
        let i = choose|i: int| is_first_ws(t, i);
        Some((t.take(i), t.skip(i)))
    } else {
        Some((t, Seq::<char>::empty()))
    }
}

/// The first word of `s` (`split_whitespace().next()`).
pub open spec fn word1(s: Seq<char>) -> Option<Seq<char>> {
    match first_word(s) {
        Some((w, _)) => Some(w),
        None => None,
    }
}

/// The second word of `s`.
pub open spec fn word2(s: Seq<char>) -> Option<Seq<char>> {
    match first_word(s) {
        Some((_, r)) => word1(r),
        None => None,
    }
}

/// `char::to_ascii_lowercase`.
pub open spec fn lower_char(c: char) -> char {
    if 'A' <= c && c <= 'Z' {
        ((c as u32) + 32) as char
    } else {
        c
    }
}

/// `str::to_ascii_lowercase`.
pub open spec fn lower(s: Seq<char>) -> Seq<char> {
    s.map_values(|c: char| lower_char(c))
}

/// `str::starts_with` with a string pattern.
pub open spec fn starts_with(s: Seq<char>, p: Seq<char>) -> bool {
    p.len() <= s.len() && s.take(p.len() as int) == p
}

/// `str::ends_with` with a string pattern.
pub open spec fn ends_with(s: Seq<char>, p: Seq<char>) -> bool {
    p.len() <= s.len() && s.skip(s.len() - p.len()) == p
}

/// `needle` occurs in `s` starting at `i`.
pub open spec fn occurs_at(s: Seq<char>, needle: Seq<char>, i: int) -> bool {
    0 <= i && i + needle.len() <= s.len() && s.subrange(i, i + needle.len()) == needle
}

/// `str::contains` with a string pattern.
pub open spec fn contains(s: Seq<char>, needle: Seq<char>) -> bool {
    exists|i: int| occurs_at(s, needle, i)
}

/// Replace every `from` with `to` (`str::replace` with single characters).
pub open spec fn replace_char(s: Seq<char>, from: char, to: char) -> Seq<char> {
    s.map_values(|c: char| if c == from { to } else { c })
}

// ---------------------------------------------------------------------------
// Lemmas
// ---------------------------------------------------------------------------

pub proof fn lemma_trim_start_len(s: Seq<char>)
    ensures
        trim_start(s).len() <= s.len(),
        trim_start(s).len() == 0 || !is_ws(trim_start(s)[0]),
        trim_start(s) == s.skip(s.len() - trim_start(s).len()),
    decreases s.len(),
{
    if s.len() > 0 && is_ws(s[0]) {
        lemma_trim_start_len(s.drop_first());
        assert(s.drop_first().skip(s.drop_first().len() - trim_start(s).len()) =~= s.skip(
            s.len() - trim_start(s).len(),
        ));
    } else {
        assert(s.skip(0) =~= s);
    }
}

/// The first occurrence of a character is unique.
pub proof fn lemma_first_unique(s: Seq<char>, c: char, i: int)
    requires
        is_first(s, c, i),
    ensures
        (choose|j: int| is_first(s, c, j)) == i,
{
    let j = choose|j: int| is_first(s, c, j);
    assert(is_first(s, c, j));
    if j < i {
        assert(s[j] != c);
    } else if i < j {
        assert(s[i] != c);
    }
}

/// The first whitespace position is unique.
pub proof fn lemma_first_ws_unique(s: Seq<char>, i: int)
    requires
        is_first_ws(s, i),
    ensures
        (choose|j: int| is_first_ws(s, j)) == i,
{
    let j = choose|j: int| is_first_ws(s, j);
    assert(is_first_ws(s, j));
    if j < i {
        assert(!is_ws(s[j]));
    } else if i < j {
        assert(!is_ws(s[i]));
    }
}

// ---------------------------------------------------------------------------
// Executable helpers
// ---------------------------------------------------------------------------

/// The characters of `s`, in order.
pub fn chars_of(s: &str) -> (v: Vec<char>)
    ensures
        v@ == s@,
{
    let mut v: Vec<char> = Vec::new();
    for c in it: s.chars()
        invariant
            v@ == it.seq().take(it.index() as int),
            it.seq() == s@,
    {
        v.push(c);
    }
    v
}

/// std's `String: FromIterator<char>`: a string holding exactly `v`'s characters.
#[verifier::external_body]
pub(crate) fn string_from_chars(v: &[char]) -> (s: String)
    ensures
        s@ == v@,
{
    String::from_iter(v.iter())
}

/// An owned copy of `s`.
pub fn owned(s: &str) -> (r: String)
    ensures
        r@ == s@,
{
    let v = chars_of(s);
    string_from_chars(v.as_slice())
}

/// A string holding `v[lo..hi]`.
pub fn string_of_range(v: &Vec<char>, lo: usize, hi: usize) -> (s: String)
    requires
        lo <= hi <= v@.len(),
    ensures
        s@ == v@.subrange(lo as int, hi as int),
{
    let mut out: Vec<char> = Vec::new();
    let mut i = lo;
    while i < hi
        invariant
            lo <= i <= hi <= v@.len(),
            out@ == v@.subrange(lo as int, i as int),
        decreases hi - i,
    {
        out.push(v[i]);
        assert(out@ =~= v@.subrange(lo as int, i + 1));
        i += 1;
    }
    string_from_chars(out.as_slice())
}

/// Append `v[lo..hi]` to `out`.
pub fn push_range(out: &mut Vec<char>, v: &Vec<char>, lo: usize, hi: usize)
    requires
        lo <= hi <= v@.len(),
    ensures
        final(out)@ == old(out)@ + v@.subrange(lo as int, hi as int),
{
    let mut i = lo;
    while i < hi
        invariant
            lo <= i <= hi <= v@.len(),
            out@ == old(out)@ + v@.subrange(lo as int, i as int),
        decreases hi - i,
    {
        out.push(v[i]);
        assert(out@ =~= old(out)@ + v@.subrange(lo as int, i + 1));
        i += 1;
    }
}

/// Append the characters of `s` to `out`.
pub fn push_str(out: &mut Vec<char>, s: &str)
    ensures
        final(out)@ == old(out)@ + s@,
{
    let v = chars_of(s);
    push_range(out, &v, 0, v.len());
    assert(v@.subrange(0, v@.len() as int) =~= v@);
}

/// `char::is_whitespace`.
pub fn is_ws_exec(c: char) -> (r: bool)
    ensures
        r == is_ws(c),
{
    ('\t' <= c && c <= '\r') || c == ' ' || c == '\u{85}' || c == '\u{a0}' || c == '\u{1680}'
        || ('\u{2000}' <= c && c <= '\u{200a}') || c == '\u{2028}' || c == '\u{2029}' || c
        == '\u{202f}' || c == '\u{205f}' || c == '\u{3000}'
}

/// `char::to_ascii_lowercase`.
pub fn lower_char_exec(c: char) -> (r: char)
    ensures
        r == lower_char(c),
{
    if 'A' <= c && c <= 'Z' {
        ((c as u8) + 32) as char
    } else {
        c
    }
}

/// `to_ascii_lowercase` of `v[lo..hi]`.
pub fn lower_range(v: &Vec<char>, lo: usize, hi: usize) -> (r: Vec<char>)
    requires
        lo <= hi <= v@.len(),
    ensures
        r@ == lower(v@.subrange(lo as int, hi as int)),
{
    let mut out: Vec<char> = Vec::new();
    let mut i = lo;
    while i < hi
        invariant
            lo <= i <= hi <= v@.len(),
            out@ =~= lower(v@.subrange(lo as int, i as int)),
        decreases hi - i,
    {
        out.push(lower_char_exec(v[i]));
        i += 1;
        assert(out@ =~= lower(v@.subrange(lo as int, i as int)));
    }
    out
}

/// The bounds of `trim(v[lo..hi])` inside `v`.
pub fn trim_range(v: &Vec<char>, lo: usize, hi: usize) -> (r: (usize, usize))
    requires
        lo <= hi <= v@.len(),
    ensures
        lo <= r.0 <= r.1 <= hi,
        v@.subrange(r.0 as int, r.1 as int) == trim(v@.subrange(lo as int, hi as int)),
        v@.subrange(r.0 as int, hi as int) == trim_start(v@.subrange(lo as int, hi as int)),
{
    let mut a = lo;
    while a < hi && is_ws_exec(v[a])
        invariant
            lo <= a <= hi <= v@.len(),
            trim_start(v@.subrange(lo as int, hi as int)) == trim_start(
                v@.subrange(a as int, hi as int),
            ),
        decreases hi - a,
    {
        assert(v@.subrange(a as int, hi as int).drop_first() =~= v@.subrange(a + 1, hi as int));
        a += 1;
    }
    let ghost ts = v@.subrange(a as int, hi as int);
    assert(trim_start(ts) == ts);
    let mut b = hi;
    while b > a && is_ws_exec(v[b - 1])
        invariant
            a <= b <= hi <= v@.len(),
            trim_end(ts) == trim_end(v@.subrange(a as int, b as int)),
            ts == v@.subrange(a as int, hi as int),
        decreases b - a,
    {
        assert(v@.subrange(a as int, b as int).drop_last() =~= v@.subrange(a as int, b - 1));
        b -= 1;
    }
    (a, b)
}

/// Compare `v[lo..hi]` with the characters of `lit`.
pub fn range_eq(v: &Vec<char>, lo: usize, hi: usize, lit: &str) -> (r: bool)
    requires
        lo <= hi <= v@.len(),
    ensures
        r == (v@.subrange(lo as int, hi as int) == lit@),
{
    let n = lit.unicode_len();
    if hi - lo != n {
        return false;
    }
    let mut i: usize = 0;
    while i < n
        invariant
            n == lit@.len(),
            hi - lo == n,
            lo <= hi <= v@.len(),
            0 <= i <= n,
            forall|k: int| 0 <= k < i ==> v@[lo + k] == lit@[k],
        decreases n - i,
    {
        if v[lo + i] != lit.get_char(i) {
            assert(v@.subrange(lo as int, hi as int)[i as int] != lit@[i as int]);
            return false;
        }
        i += 1;
    }
    assert(v@.subrange(lo as int, hi as int) =~= lit@);
    true
}

/// Whether `v[lo..hi]` starts with the characters of `lit`.
pub fn range_starts_with(v: &Vec<char>, lo: usize, hi: usize, lit: &str) -> (r: bool)
    requires
        lo <= hi <= v@.len(),
    ensures
        r == starts_with(v@.subrange(lo as int, hi as int), lit@),
{
    let n = lit.unicode_len();
    if hi - lo < n {
        return false;
    }
    let r = range_eq(v, lo, lo + n, lit);
    assert(v@.subrange(lo as int, hi as int).take(n as int) =~= v@.subrange(
        lo as int,
        lo + n,
    ));
    r
}

/// Whether `s` occurs in `v[lo..hi]` at offset `i` (relative to `lo`).
fn occurs_at_exec(v: &Vec<char>, lo: usize, hi: usize, s: &Vec<char>, i: usize) -> (r: bool)
    requires
        lo <= hi <= v@.len(),
    ensures
        r == occurs_at(v@.subrange(lo as int, hi as int), s@, i as int),
{
    let n = s.len();
    if i > hi - lo || n > hi - lo - i {
        return false;
    }
    let mut k: usize = 0;
    while k < n
        invariant
            lo <= hi <= v@.len(),
            i + n <= hi - lo,
            n == s@.len(),
            0 <= k <= n,
            forall|j: int| 0 <= j < k ==> v@[lo + i + j] == s@[j],
        decreases n - k,
    {
        if v[lo + i + k] != s[k] {
            assert(v@.subrange(lo as int, hi as int).subrange(i as int, i + n)[k as int]
                != s@[k as int]);
            return false;
        }
        k += 1;
    }
    assert(v@.subrange(lo as int, hi as int).subrange(i as int, i + n) =~= s@);
    true
}

/// `str::contains` on `v[lo..hi]`.
pub fn range_contains(v: &Vec<char>, lo: usize, hi: usize, s: &Vec<char>) -> (r: bool)
    requires
        lo <= hi <= v@.len(),
    ensures
        r == contains(v@.subrange(lo as int, hi as int), s@),
{
    let ghost h = v@.subrange(lo as int, hi as int);
    let len = hi - lo;
    if s.len() == 0 {
        assert(h.subrange(0, 0) =~= s@);
        assert(occurs_at(h, s@, 0));
        return true;
    }
    let mut i: usize = 0;
    while i < len
        invariant
            lo <= hi <= v@.len(),
            len == hi - lo,
            s@.len() > 0,
            h == v@.subrange(lo as int, hi as int),
            0 <= i <= len,
            forall|j: int| 0 <= j < i ==> !occurs_at(h, s@, j),
        decreases len - i,
    {
        if occurs_at_exec(v, lo, hi, s, i) {
            return true;
        }
        i += 1;
    }
    assert forall|j: int| !occurs_at(h, s@, j) by {
        if 0 <= j && j < i {
        }
    }
    false
}

/// The first line of `v[pos..]` and where the rest starts.
///
/// Returns `(a, b, next)`: the line is `v[a..b]` and
/// `lines(v[pos..]) == [v[a..b]] + lines(v[next..])`.
pub fn next_line(v: &Vec<char>, pos: usize) -> (r: (usize, usize, usize))
    requires
        pos < v@.len(),
    ensures
        pos <= r.0 <= r.1 <= r.2 <= v@.len(),
        r.2 > pos,
        lines(v@.skip(pos as int)) == seq![v@.subrange(r.0 as int, r.1 as int)] + lines(
            v@.skip(r.2 as int),
        ),
{
    let ghost s = v@.skip(pos as int);
    let mut j = pos;
    while j < v.len() && v[j] != '\n'
        invariant
            pos <= j <= v@.len(),
            s == v@.skip(pos as int),
            forall|k: int| pos <= k < j ==> v@[k] != '\n',
        decreases v@.len() - j,
    {
        j += 1;
    }
    if j < v.len() {
        assert(is_first(s, '\n', j - pos));
        proof { lemma_first_unique(s, '\n', (j - pos) as int); }
        assert(s.skip(j - pos + 1) =~= v@.skip(j + 1));
        let mut e = j;
        if e > pos && v[e - 1] == '\r' {
            e = e - 1;
            assert(strip_cr(s.take(j - pos)) =~= v@.subrange(pos as int, e as int));
        } else {
            assert(strip_cr(s.take(j - pos)) =~= v@.subrange(pos as int, e as int));
        }
        (pos, e, j + 1)
    } else {
        assert forall|i: int| !is_first(s, '\n', i) by {
            if 0 <= i < s.len() {
                assert(s[i] == v@[pos + i]);
            }
        }
        assert(s =~= v@.subrange(pos as int, v@.len() as int));
        assert(v@.skip(v@.len() as int) =~= Seq::<char>::empty());
        assert(lines(v@.skip(v@.len() as int)) == Seq::<Seq<char>>::empty());
        assert(seq![s] + Seq::<Seq<char>>::empty() =~= seq![s]);
        (pos, v.len(), v.len())
    }
}

/// The next word of `v[lo..hi]`: its bounds `(a, b)`, the rest being `v[b..hi]`.
pub fn next_word(v: &Vec<char>, lo: usize, hi: usize) -> (r: Option<(usize, usize)>)
    requires
        lo <= hi <= v@.len(),
    ensures
        match first_word(v@.subrange(lo as int, hi as int)) {
            None => r is None,
            Some((w, rest)) => r matches Some((a, b)) && lo <= a < b <= hi && v@.subrange(
                a as int,
                b as int,
            ) == w && v@.subrange(b as int, hi as int) == rest,
        },
{
    let (a, _) = trim_range(v, lo, hi);
    let ghost t = v@.subrange(a as int, hi as int);
    assert(t == trim_start(v@.subrange(lo as int, hi as int)));
    if a == hi {
        return None;
    }
    proof {
        lemma_trim_start_len(v@.subrange(lo as int, hi as int));
    }
    let mut b = a;
    while b < hi && !is_ws_exec(v[b])
        invariant
            lo <= a <= b <= hi <= v@.len(),
            t == v@.subrange(a as int, hi as int),
            forall|k: int| a <= k < b ==> !is_ws(v@[k]),
        decreases hi - b,
    {
        b += 1;
    }
    if b < hi {
        assert(is_first_ws(t, b - a));
        proof { lemma_first_ws_unique(t, (b - a) as int); }
        assert(t.take(b - a) =~= v@.subrange(a as int, b as int));
        assert(t.skip(b - a) =~= v@.subrange(b as int, hi as int));
    } else {
        assert forall|i: int| !is_first_ws(t, i) by {
            if 0 <= i < t.len() {
                assert(t[i] == v@[a + i]);
            }
        }
        assert(v@.subrange(b as int, hi as int) =~= Seq::<char>::empty());
    }
    Some((a, b))
}

} // verus!
