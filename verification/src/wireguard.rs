//! WireGuard `.conf` summaries and endpoint strings.
use vstd::prelude::*;
use crate::text::{
    chars_of, contains, ends_with, is_first, lemma_first_unique, lines, lower, lower_range, next_line,
    owned, push_str, range_contains, range_eq, range_starts_with, starts_with, string_from_chars,
    string_of_range, trim, trim_range, trim_start, trim_end, is_ws, lemma_trim_start_len,
};
use crate::num::{dec, lemma_dec_digits};

verus! {

/// Display fields of a WireGuard config.
#[derive(Clone, Debug)]
pub struct WgSummary {
    pub endpoint: Option<String>,
    pub public_key: Option<String>,
    pub address: Option<String>,
}

pub open spec fn opt_string_view(o: Option<String>) -> Option<Seq<char>> {
    match o {
        Some(s) => Some(s@),
        None => None,
    }
}

/// The value of a [`WgSummary`].
pub struct WgSummaryView {
    pub endpoint: Option<Seq<char>>,
    pub public_key: Option<Seq<char>>,
    pub address: Option<Seq<char>>,
}

impl View for WgSummary {
    type V = WgSummaryView;

    open spec fn view(&self) -> WgSummaryView {
        WgSummaryView {
            endpoint: opt_string_view(self.endpoint),
            public_key: opt_string_view(self.public_key),
            address: opt_string_view(self.address),
        }
    }
}

impl Default for WgSummary {
    /// No field found.
    fn default() -> (r: Self)
        ensures
            r.endpoint is None && r.public_key is None && r.address is None,
    {
        WgSummary { endpoint: None, public_key: None, address: None }
    }
}

/// Parser state: the fields so far, and which section we are in.
pub struct WgState {
    pub sum: WgSummaryView,
    pub in_interface: bool,
    pub in_peer: bool,
}

pub open spec fn wg_initial() -> WgState {
    WgState {
        sum: WgSummaryView { endpoint: None, public_key: None, address: None },
        in_interface: false,
        in_peer: false,
    }
}

/// The text before the first `,` (all of it when there is none).
pub open spec fn before_comma(s: Seq<char>) -> Seq<char> {
    if exists|i: int| is_first(s, ',', i) {
        s.take(choose|i: int| is_first(s, ',', i))
    } else {
        s
    }
}

/// Effect of one config line.
pub open spec fn wg_step(st: WgState, raw: Seq<char>) -> WgState {
    let line = trim(raw);
    if line.len() == 0 || line[0] == '#' {
        st
    } else if lower(line) == "[interface]"@ {
        WgState { in_interface: true, in_peer: false, ..st }
    } else if lower(line) == "[peer]"@ {
        WgState { in_interface: false, in_peer: true, ..st }
    } else if exists|i: int| is_first(line, '=', i) {
        let i = choose|i: int| is_first(line, '=', i);
        let k = trim(line.take(i));
        let v = trim(line.skip(i + 1));
        if k == "Address"@ && st.in_interface && !st.in_peer {
            WgState { sum: WgSummaryView { address: Some(trim(before_comma(v))), ..st.sum }, ..st }
        } else if k == "PublicKey"@ && !st.in_interface && st.in_peer {
            WgState { sum: WgSummaryView { public_key: Some(v), ..st.sum }, ..st }
        } else if k == "Endpoint"@ && !st.in_interface && st.in_peer {
            WgState { sum: WgSummaryView { endpoint: Some(v), ..st.sum }, ..st }
        } else {
            st
        }
    } else {
        st
    }
}

pub open spec fn wg_fold(ls: Seq<Seq<char>>) -> WgState
    decreases ls.len(),
{
    if ls.len() == 0 {
        wg_initial()
    } else {
        wg_step(wg_fold(ls.drop_last()), ls.last())
    }
}

/// What [`parse_wg_summary`] returns for a config text.
pub open spec fn spec_parse_wg_summary(content: Seq<char>) -> WgSummaryView {
    wg_fold(lines(content)).sum
}

/// The section a config is in after the lines `ls`: the last `[Interface]`
/// or `[Peer]` header (trimmed, lower-cased), if any.
pub open spec fn last_wg_section(ls: Seq<Seq<char>>) -> Option<Seq<char>>
    decreases ls.len(),
{
    if ls.len() == 0 {
        None
    } else {
        let h = lower(trim(ls.last()));
        if h == "[interface]"@ || h == "[peer]"@ {
            Some(h)
        } else {
            last_wg_section(ls.drop_last())
        }
    }
}

/// `l` is a `key = value` line: trimmed, it is a key text without `=`, then
/// `=`, then the value text; the key text trims to `key` and the value text
/// to `value`.
pub open spec fn wg_key_line(l: Seq<char>, key: Seq<char>, value: Seq<char>) -> bool {
    exists|a: Seq<char>, b: Seq<char>|
        #![trigger a + seq!['='] + b]
        {
            &&& trim(l) == a + seq!['='] + b
            &&& forall|j: int| 0 <= j < a.len() ==> a[j] != '='
            &&& trim(a) == key
            &&& trim(b) == value
        }
}

proof fn lemma_wg_lower_char_bracket(c: char)
    requires
        crate::text::lower_char(c) == '[',
    ensures
        c == '[',
{
    if 'A' <= c && c <= 'Z' {
        assert(((c as u32) + 32) as char == crate::text::lower_char(c));
        assert('a' <= crate::text::lower_char(c) && crate::text::lower_char(c) <= 'z');
    }
}

proof fn lemma_wg_fold_section(ls: Seq<Seq<char>>)
    ensures
        wg_fold(ls).in_peer == (last_wg_section(ls) == Some("[peer]"@)),
        wg_fold(ls).in_interface == (last_wg_section(ls) == Some("[interface]"@)),
    decreases ls.len(),
{
    reveal_strlit("[peer]");
    reveal_strlit("[interface]");
    if ls.len() > 0 {
        lemma_wg_fold_section(ls.drop_last());
        let t = trim(ls.last());
        let h = lower(t);
        if h == "[interface]"@ || h == "[peer]"@ {
            assert(h.len() > 0 && h[0] == '[');
            assert(h[0] == crate::text::lower_char(t[0]));
            lemma_wg_lower_char_bracket(t[0]);
        }
    }
}

proof fn lemma_wg_trim_first(l: Seq<char>)
    requires
        trim(l).len() > 0,
    ensures
        !is_ws(trim(l)[0]),
{
    lemma_trim_start_len(l);
    lemma_trim_end_len(trim_start(l));
    lemma_trim_end_is_prefix(trim_start(l));
    assert(trim(l)[0] == trim_start(l)[0]);
}

proof fn lemma_trim_end_is_prefix(s: Seq<char>)
    ensures
        trim_end(s) == s.take(trim_end(s).len() as int),
    decreases s.len(),
{
    lemma_trim_end_len(s);
    if s.len() > 0 && is_ws(s.last()) {
        lemma_trim_end_is_prefix(s.drop_last());
        lemma_trim_end_len(s.drop_last());
        assert(s.drop_last().take(trim_end(s).len() as int) =~= s.take(trim_end(s).len() as int));
    } else {
        assert(s.take(s.len() as int) =~= s);
    }
}

/// In a `[Peer]` section, a `PublicKey = v` line makes `v` the peer's
/// public key.
pub proof fn law_wg_public_key_line_sets_key(ls: Seq<Seq<char>>, l: Seq<char>, v: Seq<char>)
    requires
        last_wg_section(ls) == Some("[peer]"@),
        wg_key_line(l, "PublicKey"@, v),
    ensures
        wg_fold(ls.push(l)).sum.public_key == Some(v),
{
    reveal_strlit("PublicKey");
    reveal_strlit("Address");
    reveal_strlit("[peer]");
    reveal_strlit("[interface]");
    lemma_wg_fold_section(ls);
    assert(ls.push(l).drop_last() =~= ls);
    assert(ls.push(l).last() == l);
    let (a, b) = choose|a: Seq<char>, b: Seq<char>|
        #![trigger a + seq!['='] + b]
        {
            &&& trim(l) == a + seq!['='] + b
            &&& forall|j: int| 0 <= j < a.len() ==> a[j] != '='
            &&& trim(a) == "PublicKey"@
            &&& trim(b) == v
        };
    let line = trim(l);
    let n = a.len() as int;
    assert(line[n] == '=');
    assert(crate::text::is_first(line, '=', n));
    lemma_first_unique(line, '=', n);
    assert(line.take(n) =~= a);
    assert(line.skip(n + 1) =~= b);
    assert(line.len() > 0);
    lemma_wg_trim_first(l);
    // the key text starts the line, and its first character is `P`
    assert(trim(a).len() > 0);
    assert(a.len() > 0) by {
        if a.len() == 0 {
            assert(trim(a) =~= Seq::<char>::empty());
        }
    }
    assert(a[0] == line[0]);
    assert(!is_ws(a[0]));
    assert(trim_start(a) == a);
    assert(trim(a) == trim_end(a));
    lemma_trim_end_is_prefix(a);
    lemma_trim_end_len(a);
    assert(trim(a) == a.take(trim(a).len() as int));
    assert(trim(a)[0] == a.take(trim(a).len() as int)[0]);
    assert(trim(a)[0] == a[0]);
    assert(line[0] == 'P');
    let h = lower(line);
    assert(h[0] == crate::text::lower_char(line[0]));
    assert(h[0] == 'p');
    assert(h != "[interface]"@ && h != "[peer]"@);
    assert("PublicKey"@ != "Address"@);
    assert(!(line.len() == 0 || line[0] == '#'));
    let st = wg_fold(ls);
    assert("[peer]"@.len() != "[interface]"@.len());
    assert(Some("[peer]"@) != Some("[interface]"@));
    assert(st.in_peer);
    assert(!st.in_interface);
    assert(wg_fold(ls.push(l)) == wg_step(st, l));
    let i = choose|i: int| crate::text::is_first(line, '=', i);
    assert(i == n);
    assert(trim(line.take(i)) == "PublicKey"@);
    assert(trim(line.skip(i + 1)) == v);
}

/// Only a `PublicKey` line changes the peer's public key: any other line
/// (another key such as `PresharedKey`, a section header, a comment)
/// leaves it as it was.
pub proof fn law_wg_other_lines_keep_key(ls: Seq<Seq<char>>, l: Seq<char>)
    requires
        forall|v: Seq<char>| !wg_key_line(l, "PublicKey"@, v),
    ensures
        wg_fold(ls.push(l)).sum.public_key == wg_fold(ls).sum.public_key,
{
    assert(ls.push(l).drop_last() =~= ls);
    assert(ls.push(l).last() == l);
    let line = trim(l);
    if exists|i: int| crate::text::is_first(line, '=', i) {
        let i = choose|i: int| crate::text::is_first(line, '=', i);
        let a = line.take(i);
        let b = line.skip(i + 1);
        assert(line =~= a + seq!['='] + b);
        if trim(a) == "PublicKey"@ {
            assert(wg_key_line(l, "PublicKey"@, trim(b)));
        }
    }
}

/// In a `[Peer]` section, a `Endpoint = v` line makes `v` the peer's
/// endpoint.
pub proof fn law_wg_endpoint_line_sets_endpoint(ls: Seq<Seq<char>>, l: Seq<char>, v: Seq<char>)
    requires
        last_wg_section(ls) == Some("[peer]"@),
        wg_key_line(l, "Endpoint"@, v),
    ensures
        wg_fold(ls.push(l)).sum.endpoint == Some(v),
{
    reveal_strlit("Endpoint");
    reveal_strlit("Address");
    reveal_strlit("PublicKey");
    reveal_strlit("[peer]");
    reveal_strlit("[interface]");
    lemma_wg_fold_section(ls);
    assert(ls.push(l).drop_last() =~= ls);
    assert(ls.push(l).last() == l);
    let (a, b) = choose|a: Seq<char>, b: Seq<char>|
        #![trigger a + seq!['='] + b]
        {
            &&& trim(l) == a + seq!['='] + b
            &&& forall|j: int| 0 <= j < a.len() ==> a[j] != '='
            &&& trim(a) == "Endpoint"@
            &&& trim(b) == v
        };
    let line = trim(l);
    let n = a.len() as int;
    assert(line[n] == '=');
    assert(crate::text::is_first(line, '=', n));
    lemma_first_unique(line, '=', n);
    assert(line.take(n) =~= a);
    assert(line.skip(n + 1) =~= b);
    assert(line.len() > 0);
    lemma_wg_trim_first(l);
    // the key text starts the line, and its first character is `P`
    assert(trim(a).len() > 0);
    assert(a.len() > 0) by {
        if a.len() == 0 {
            assert(trim(a) =~= Seq::<char>::empty());
        }
    }
    assert(a[0] == line[0]);
    assert(!is_ws(a[0]));
    assert(trim_start(a) == a);
    assert(trim(a) == trim_end(a));
    lemma_trim_end_is_prefix(a);
    lemma_trim_end_len(a);
    assert(trim(a) == a.take(trim(a).len() as int));
    assert(trim(a)[0] == a.take(trim(a).len() as int)[0]);
    assert(trim(a)[0] == a[0]);
    assert(line[0] == 'E');
    let h = lower(line);
    assert(h[0] == crate::text::lower_char(line[0]));
    assert(h[0] == 'e');
    assert(h != "[interface]"@ && h != "[peer]"@);
    assert("Endpoint"@ != "Address"@);
    assert("Endpoint"@ != "PublicKey"@);
    assert(!(line.len() == 0 || line[0] == '#'));
    let st = wg_fold(ls);
    assert("[peer]"@.len() != "[interface]"@.len());
    assert(Some("[peer]"@) != Some("[interface]"@));
    assert(st.in_peer);
    assert(!st.in_interface);
    assert(wg_fold(ls.push(l)) == wg_step(st, l));
    let i = choose|i: int| crate::text::is_first(line, '=', i);
    assert(i == n);
    assert(trim(line.take(i)) == "Endpoint"@);
    assert(trim(line.skip(i + 1)) == v);
}

/// Only an `Endpoint` line changes the peer's endpoint: any other line
/// leaves it as it was.
pub proof fn law_wg_other_lines_keep_endpoint(ls: Seq<Seq<char>>, l: Seq<char>)
    requires
        forall|v: Seq<char>| !wg_key_line(l, "Endpoint"@, v),
    ensures
        wg_fold(ls.push(l)).sum.endpoint == wg_fold(ls).sum.endpoint,
{
    assert(ls.push(l).drop_last() =~= ls);
    assert(ls.push(l).last() == l);
    let line = trim(l);
    if exists|i: int| crate::text::is_first(line, '=', i) {
        let i = choose|i: int| crate::text::is_first(line, '=', i);
        let a = line.take(i);
        let b = line.skip(i + 1);
        assert(line =~= a + seq!['='] + b);
        if trim(a) == "Endpoint"@ {
            assert(wg_key_line(l, "Endpoint"@, trim(b)));
        }
    }
}

/// Position of the first `c` in `v[a..b]`, if any.
fn find_first(v: &Vec<char>, a: usize, b: usize, c: char) -> (r: Option<usize>)
    requires
        a <= b <= v@.len(),
    ensures
        match r {
            Some(i) => a <= i < b && is_first(v@.subrange(a as int, b as int), c, i - a),
            None => !exists|i: int| is_first(v@.subrange(a as int, b as int), c, i),
        },
{
    let ghost s = v@.subrange(a as int, b as int);
    let mut i = a;
    while i < b
        invariant
            a <= i <= b <= v@.len(),
            s == v@.subrange(a as int, b as int),
            forall|k: int| a <= k < i ==> v@[k] != c,
        decreases b - i,
    {
        if v[i] == c {
            assert(is_first(s, c, i - a));
            return Some(i);
        }
        i += 1;
    }
    assert forall|j: int| !is_first(s, c, j) by {
        if 0 <= j < s.len() {
            assert(s[j] == v@[a + j]);
        }
    }
    None
}

fn lower_eq(v: &Vec<char>, a: usize, b: usize, lit: &str) -> (r: bool)
    requires
        a <= b <= v@.len(),
    ensures
        r == (lower(v@.subrange(a as int, b as int)) == lit@),
{
    let l = lower_range(v, a, b);
    let n = l.len();
    assert(l@.subrange(0, n as int) =~= l@);
    range_eq(&l, 0, n, lit)
}

/// Apply one config line `v[a..b]`.
fn wg_apply_line(
    sum: &mut WgSummary,
    in_interface: &mut bool,
    in_peer: &mut bool,
    v: &Vec<char>,
    a: usize,
    b: usize,
)
    requires
        a <= b <= v@.len(),
    ensures
        wg_step(
            WgState { sum: old(sum)@, in_interface: *old(in_interface), in_peer: *old(in_peer) },
            v@.subrange(a as int, b as int),
        ) == (WgState {
            sum: final(sum)@,
            in_interface: *final(in_interface),
            in_peer: *final(in_peer),
        }),
{
    let (ta, tb) = trim_range(v, a, b);
    let ghost line = v@.subrange(ta as int, tb as int);
    if ta == tb || v[ta] == '#' {
        return;
    }
    if lower_eq(v, ta, tb, "[interface]") {
        *in_interface = true;
        *in_peer = false;
        return;
    }
    if lower_eq(v, ta, tb, "[peer]") {
        *in_interface = false;
        *in_peer = true;
        return;
    }
    match find_first(v, ta, tb, '=') {
        None => {},
        Some(e) => {
            proof {
                lemma_first_unique(line, '=', (e - ta) as int);
            }
            assert(line.take(e - ta) =~= v@.subrange(ta as int, e as int));
            assert(line.skip(e - ta + 1) =~= v@.subrange(e + 1, tb as int));
            let (ka, kb) = trim_range(v, ta, e);
            let (va, vb) = trim_range(v, e + 1, tb);
            if range_eq(v, ka, kb, "Address") && *in_interface && !*in_peer {
                let (ca, cb) = match find_first(v, va, vb, ',') {
                    Some(c) => {
                        proof {
                            lemma_first_unique(v@.subrange(va as int, vb as int), ',', (c - va) as int);
                        }
                        assert(v@.subrange(va as int, vb as int).take(c - va) =~= v@.subrange(
                            va as int,
                            c as int,
                        ));
                        trim_range(v, va, c)
                    },
                    None => trim_range(v, va, vb),
                };
                sum.address = Some(string_of_range(v, ca, cb));
            } else if range_eq(v, ka, kb, "PublicKey") && !*in_interface && *in_peer {
                sum.public_key = Some(string_of_range(v, va, vb));
            } else if range_eq(v, ka, kb, "Endpoint") && !*in_interface && *in_peer {
                sum.endpoint = Some(string_of_range(v, va, vb));
            }
        },
    }
}

/// Extract WireGuard display fields (peer endpoint and public key, first
/// interface address) from a `.conf` without starting a tunnel.
pub fn parse_wg_summary(content: &str) -> (r: WgSummary)
    ensures
        r@ == spec_parse_wg_summary(content@),
{
    let v = chars_of(content);
    let mut sum = WgSummary { endpoint: None, public_key: None, address: None };
    let mut in_interface = false;
    let mut in_peer = false;
    let ghost mut done: Seq<Seq<char>> = Seq::empty();
    let mut pos: usize = 0;
    proof {
        assert(v@.skip(0) =~= v@);
    }
    while pos < v.len()
        invariant
            pos <= v@.len(),
            v@ == content@,
            done + lines(v@.skip(pos as int)) == lines(v@),
            wg_fold(done) == (WgState { sum: sum@, in_interface, in_peer }),
        decreases v@.len() - pos,
    {
        let (a, b, next) = next_line(&v, pos);
        let ghost line = v@.subrange(a as int, b as int);
        wg_apply_line(&mut sum, &mut in_interface, &mut in_peer, &v, a, b);
        proof {
            assert(done.push(line) + lines(v@.skip(next as int)) =~= done + lines(
                v@.skip(pos as int),
            ));
            assert(done.push(line).drop_last() =~= done);
            done = done.push(line);
        }
        pos = next;
    }
    proof {
        assert(v@.skip(pos as int) =~= Seq::<char>::empty());
        assert(done =~= lines(v@));
    }
    sum
}

// ---------------------------------------------------------------------------
// Endpoints
// ---------------------------------------------------------------------------

/// `i` is the position of the last occurrence of `c` in `s`.
pub open spec fn is_last(s: Seq<char>, c: char, i: int) -> bool {
    &&& 0 <= i < s.len()
    &&& s[i] == c
    &&& forall|k: int| i < k < s.len() ==> s[k] != c
}

/// The part of `s` before its last `:` (`rsplit_once(':')`), if it has one.
pub open spec fn before_last_colon(s: Seq<char>) -> Option<Seq<char>> {
    if exists|i: int| is_last(s, ':', i) {
        Some(s.take(choose|i: int| is_last(s, ':', i)))
    } else {
        None
    }
}

/// Host portion of `host:port` or `[ipv6]:port` (the whole trimmed text when
/// there is no port).
pub open spec fn spec_host_from_endpoint(endpoint: Seq<char>) -> Seq<char> {
    let e = trim(endpoint);
    if starts_with(e, "["@) {
        let rest = e.drop_first();
        if exists|i: int| is_first(rest, ']', i) {
            rest.take(choose|i: int| is_first(rest, ']', i))
        } else {
            e
        }
    } else {
        match before_last_colon(e) {
            Some(h) => h,
            None => e,
        }
    }
}

proof fn lemma_trim_end_len(s: Seq<char>)
    ensures
        trim_end(s).len() <= s.len(),
    decreases s.len(),
{
    if s.len() > 0 && is_ws(s.last()) {
        lemma_trim_end_len(s.drop_last());
    }
}

/// A text that is its own trim starts with a non-whitespace character.
proof fn lemma_trimmed_first(h: Seq<char>)
    requires
        h == trim(h),
        h.len() > 0,
    ensures
        !is_ws(h[0]),
{
    if is_ws(h[0]) {
        lemma_trim_start_len(h.drop_first());
        lemma_trim_end_len(trim_start(h));
        assert(trim_start(h) == trim_start(h.drop_first()));
    }
}

/// A text that begins and ends with non-whitespace is its own trim.
proof fn lemma_trim_fixed(e: Seq<char>)
    requires
        e.len() > 0,
        !is_ws(e[0]),
        !is_ws(e.last()),
    ensures
        trim(e) == e,
{
}

/// An endpoint written as `host:port`, or `[host]:port`, gives its host back
/// (for a trimmed host without `:` that does not start with `[`, and a
/// bracketed host without `]`).
pub proof fn law_host_from_endpoint_roundtrip(h: Seq<char>, g: Seq<char>, p: u16)
    requires
        forall|i: int| 0 <= i < h.len() ==> h[i] != ':',
        h == trim(h),
        !starts_with(h, "["@),
        forall|i: int| 0 <= i < g.len() ==> g[i] != ']',
    ensures
        spec_host_from_endpoint(h + ":"@ + dec(p as nat)) == h,
        spec_host_from_endpoint("["@ + g + "]:"@ + dec(p as nat)) == g,
{
    reveal_strlit(":");
    reveal_strlit("[");
    reveal_strlit("]:");
    let d = dec(p as nat);
    lemma_dec_digits(p as nat);
    assert(crate::num::is_digit(d[d.len() - 1]));
    // host:port
    let e1 = h + ":"@ + d;
    if h.len() > 0 {
        lemma_trimmed_first(h);
        assert(e1[0] == h[0]);
        if starts_with(e1, "["@) {
            assert(h.take(1) =~= e1.take(1));
            assert(starts_with(h, "["@));
        }
    } else {
        assert(e1[0] == ':');
        if starts_with(e1, "["@) {
            assert(e1.take(1)[0] == e1[0]);
            assert("["@[0] == '[');
        }
    }
    assert(e1.last() == d[d.len() - 1]);
    lemma_trim_fixed(e1);
    assert(!starts_with(e1, "["@));
    let k = h.len() as int;
    assert forall|j: int| k < j < e1.len() implies e1[j] != ':' by {
        assert(e1[j] == d[j - k - 1]);
        assert(crate::num::is_digit(d[j - k - 1]));
    }
    assert(is_last(e1, ':', k));
    lemma_last_unique(e1, ':', k);
    assert(e1.take(k) =~= h);
    // [host]:port
    let e2 = "["@ + g + "]:"@ + d;
    assert(e2[0] == '[');
    assert(e2.last() == d[d.len() - 1]);
    lemma_trim_fixed(e2);
    assert(e2.take(1) =~= "["@);
    let rest = e2.drop_first();
    let m = g.len() as int;
    assert(rest[m] == ']');
    assert forall|j: int| 0 <= j < m implies rest[j] != ']' by {
        assert(rest[j] == g[j]);
    }
    assert(is_first(rest, ']', m));
    lemma_first_unique(rest, ']', m);
    assert(rest.take(m) =~= g);
}

proof fn lemma_last_unique(s: Seq<char>, c: char, i: int)
    requires
        is_last(s, c, i),
    ensures
        (choose|j: int| is_last(s, c, j)) == i,
{
    let j = choose|j: int| is_last(s, c, j);
    assert(is_last(s, c, j));
    if j < i {
        assert(s[i] != c);
    } else if i < j {
        assert(s[j] != c);
    }
}

/// Position of the last `c` in `v[a..b]`, if any.
fn find_last(v: &Vec<char>, a: usize, b: usize, c: char) -> (r: Option<usize>)
    requires
        a <= b <= v@.len(),
    ensures
        match r {
            Some(i) => a <= i < b && is_last(v@.subrange(a as int, b as int), c, i - a),
            None => !exists|i: int| is_last(v@.subrange(a as int, b as int), c, i),
        },
{
    let ghost s = v@.subrange(a as int, b as int);
    let mut i = b;
    while i > a
        invariant
            a <= i <= b <= v@.len(),
            s == v@.subrange(a as int, b as int),
            forall|k: int| i <= k < b ==> v@[k] != c,
        decreases i - a,
    {
        if v[i - 1] == c {
            assert(is_last(s, c, i - 1 - a));
            return Some(i - 1);
        }
        i -= 1;
    }
    assert forall|j: int| !is_last(s, c, j) by {
        if 0 <= j < s.len() {
            assert(s[j] == v@[a + j]);
        }
    }
    None
}

/// The bounds of `before_last_colon(v[a..b])` when it exists.
fn before_last_colon_range(v: &Vec<char>, a: usize, b: usize) -> (r: Option<usize>)
    requires
        a <= b <= v@.len(),
    ensures
        match before_last_colon(v@.subrange(a as int, b as int)) {
            Some(h) => r matches Some(e) && a <= e <= b && v@.subrange(a as int, e as int) == h,
            None => r is None,
        },
{
    match find_last(v, a, b, ':') {
        Some(i) => {
            proof {
                lemma_last_unique(v@.subrange(a as int, b as int), ':', (i - a) as int);
            }
            assert(v@.subrange(a as int, b as int).take(i - a) =~= v@.subrange(a as int, i as int));
            Some(i)
        },
        None => None,
    }
}

/// Host portion of `host:port` or `[ipv6]:port`.
pub fn host_from_endpoint(endpoint: &str) -> (r: String)
    ensures
        r@ == spec_host_from_endpoint(endpoint@),
{
    let v = chars_of(endpoint);
    let n = v.len();
    let (ea, eb) = trim_range(&v, 0, n);
    assert(v@.subrange(0, n as int) =~= v@);
    let ghost e = v@.subrange(ea as int, eb as int);
    if ea < eb && v[ea] == '[' {
        proof {
            reveal_strlit("[");
        }
        assert(e.take(1) =~= "["@);
        assert(starts_with(e, "["@));
        assert(e.drop_first() =~= v@.subrange(ea + 1, eb as int));
        match find_first(&v, ea + 1, eb, ']') {
            Some(i) => {
                proof {
                    lemma_first_unique(e.drop_first(), ']', (i - ea - 1) as int);
                }
                assert(e.drop_first().take(i - ea - 1) =~= v@.subrange(ea + 1, i as int));
                return string_of_range(&v, ea + 1, i);
            },
            None => {
                return string_of_range(&v, ea, eb);
            },
        }
    }
    proof {
        reveal_strlit("[");
        if ea < eb {
            assert(e.take(1)[0] != '[');
        }
    }
    match before_last_colon_range(&v, ea, eb) {
        Some(h) => string_of_range(&v, ea, h),
        None => string_of_range(&v, ea, eb),
    }
}

/// The IP shown for a WireGuard profile: its resolved IP, else the endpoint's
/// host (the text before the endpoint's last `:`), else empty.
pub open spec fn spec_wg_location_ip(resolved_ip: Option<Seq<char>>, endpoint: Option<Seq<char>>) -> Seq<
    char,
> {
    match resolved_ip {
        Some(ip) => ip,
        None => match endpoint {
            Some(e) => match before_last_colon(e) {
                Some(h) => h,
                None => Seq::empty(),
            },
            None => Seq::empty(),
        },
    }
}

pub open spec fn opt_str_view(o: Option<&str>) -> Option<Seq<char>> {
    match o {
        Some(s) => Some(s@),
        None => None,
    }
}

/// The IP of a WireGuard profile's location card.
pub fn wg_location_ip(resolved_ip: Option<&str>, endpoint: Option<&str>) -> (r: String)
    ensures
        r@ == spec_wg_location_ip(opt_str_view(resolved_ip), opt_str_view(endpoint)),
{
    match resolved_ip {
        Some(ip) => owned(ip),
        None => match endpoint {
            Some(e) => {
                let v = chars_of(e);
                let n = v.len();
                assert(v@.subrange(0, n as int) =~= v@);
                match before_last_colon_range(&v, 0, n) {
                    Some(h) => string_of_range(&v, 0, h),
                    None => string_of_range(&v, 0, 0),
                }
            },
            None => string_of_range(&Vec::new(), 0, 0),
        },
    }
}

// ---------------------------------------------------------------------------
// Public keys typed where a host was expected
// ---------------------------------------------------------------------------

/// `char::is_ascii_alphanumeric`, `/`, `+` or `=`: the base64 alphabet.
pub open spec fn is_key_char(c: char) -> bool {
    ('a' <= c && c <= 'z') || ('A' <= c && c <= 'Z') || ('0' <= c && c <= '9') || c == '/' || c
        == '+' || c == '='
}

/// `t` without one pair of enclosing square brackets.
pub open spec fn unbracket(t: Seq<char>) -> Seq<char> {
    if t.len() >= 2 && t[0] == '[' && t.last() == ']' {
        t.subrange(1, t.len() - 1)
    } else {
        t
    }
}

/// The text before the first `:` (all of it when there is none).
pub open spec fn before_colon(base: Seq<char>) -> Seq<char> {
    if exists|i: int| is_first(base, ':', i) {
        base.take(choose|i: int| is_first(base, ':', i))
    } else {
        base
    }
}

/// The candidate key inside a pasted value: brackets stripped, text before
/// the first `:`.
pub open spec fn key_candidate(value: Seq<char>) -> Seq<char> {
    before_colon(unbracket(trim(value)))
}

/// 42–60 base64 characters with a `/`, a `+` or a final `=`.
pub open spec fn key_shaped(c: Seq<char>) -> bool {
    &&& 42 <= c.len() <= 60
    &&& forall|i: int| 0 <= i < c.len() ==> is_key_char(#[trigger] c[i])
    &&& (exists|i: int| 0 <= i < c.len() && (#[trigger] c[i] == '/' || c[i] == '+')) || (c.len()
        > 0 && c.last() == '=')
}

/// A value whose candidate key is key-shaped: a WireGuard public key rather
/// than a host name.
pub open spec fn spec_looks_like_wg_key(value: Seq<char>) -> bool {
    key_shaped(key_candidate(value))
}

/// Every 42 to 60 character text over the base64 alphabet (`A`-`Z`, `a`-`z`,
/// `0`-`9`, `+`, `/`, `=`) that holds a `/` or a `+`, or ends with `=`, is
/// taken for a WireGuard public key, not a host.
pub proof fn law_base64_keys_are_recognised(s: Seq<char>)
    requires
        42 <= s.len() <= 60,
        forall|i: int|
            0 <= i < s.len() ==> ('a' <= #[trigger] s[i] && s[i] <= 'z') || ('A' <= s[i] && s[i] <= 'Z')
                || ('0' <= s[i] && s[i] <= '9') || s[i] == '+' || s[i] == '/' || s[i] == '=',
        (exists|i: int| 0 <= i < s.len() && (s[i] == '/' || s[i] == '+')) || s.last() == '=',
    ensures
        spec_looks_like_wg_key(s),
{
    assert(!is_ws(s[0]));
    assert(!is_ws(s[s.len() - 1]));
    lemma_trim_fixed(s);
    assert(unbracket(s) == s);
    assert(!exists|i: int| is_first(s, ':', i));
    assert(key_candidate(s) == s);
}

/// What is taken for a WireGuard public key is, before any `:` and without
/// brackets, 42 to 60 base64 characters holding a `/` or a `+`, or ending
/// with `=`.
pub proof fn law_recognised_keys_are_base64(value: Seq<char>)
    requires
        spec_looks_like_wg_key(value),
    ensures
        ({
            let c = key_candidate(value);
            &&& 42 <= c.len() <= 60
            &&& forall|i: int|
                0 <= i < c.len() ==> ('a' <= #[trigger] c[i] && c[i] <= 'z') || ('A' <= c[i] && c[i]
                    <= 'Z') || ('0' <= c[i] && c[i] <= '9') || c[i] == '+' || c[i] == '/' || c[i] == '='
            &&& (exists|i: int| 0 <= i < c.len() && (c[i] == '/' || c[i] == '+')) || c.last() == '='
        }),
{
}

/// Whether a value typed as a host looks like a WireGuard public key.
pub fn looks_like_wireguard_public_key(value: &str) -> (r: bool)
    ensures
        r == spec_looks_like_wg_key(value@),
{
    let v = chars_of(value);
    let n = v.len();
    let (ta, tb) = trim_range(&v, 0, n);
    assert(v@.subrange(0, n as int) =~= v@);
    let ghost t = v@.subrange(ta as int, tb as int);
    let (ba, bb) = if tb - ta >= 2 && v[ta] == '[' && v[tb - 1] == ']' {
        assert(t.subrange(1, t.len() - 1) =~= v@.subrange(ta + 1, tb - 1));
        (ta + 1, tb - 1)
    } else {
        (ta, tb)
    };
    let ghost base = v@.subrange(ba as int, bb as int);
    assert(t.len() >= 2 ==> t[0] == v@[ta as int] && t.last() == v@[tb - 1]);
    assert(base == unbracket(t));
    let ce = match find_first(&v, ba, bb, ':') {
        Some(i) => {
            proof {
                lemma_first_unique(base, ':', (i - ba) as int);
            }
            assert(base.take(i - ba) =~= v@.subrange(ba as int, i as int));
            i
        },
        None => bb,
    };
    let ghost c = v@.subrange(ba as int, ce as int);
    assert(c == before_colon(base));
    assert(c == key_candidate(value@));
    key_shaped_range(&v, ba, ce)
}

/// Whether `v[a..b]` is key-shaped.
fn key_shaped_range(v: &Vec<char>, a: usize, b: usize) -> (r: bool)
    requires
        a <= b <= v@.len(),
    ensures
        r == key_shaped(v@.subrange(a as int, b as int)),
{
    let ghost c = v@.subrange(a as int, b as int);
    let len = b - a;
    if len < 42 || len > 60 {
        return false;
    }
    let mut special = false;
    let mut i = a;
    while i < b
        invariant
            a <= i <= b <= v@.len(),
            c == v@.subrange(a as int, b as int),
            forall|k: int| 0 <= k < i - a ==> is_key_char(#[trigger] c[k]),
            special == exists|k: int| 0 <= k < i - a && (#[trigger] c[k] == '/' || c[k] == '+'),
        decreases b - i,
    {
        let ch = v[i];
        let ok = ('a' <= ch && ch <= 'z') || ('A' <= ch && ch <= 'Z') || ('0' <= ch && ch <= '9')
            || ch == '/' || ch == '+' || ch == '=';
        if !ok {
            assert(!is_key_char(c[i - a]));
            return false;
        }
        if ch == '/' || ch == '+' {
            special = true;
        }
        i += 1;
        proof {
            if !special {
                assert forall|k: int| 0 <= k < i - a implies !(#[trigger] c[k] == '/' || c[k] == '+') by {
                    if k < i - 1 - a {
                    } else {
                        assert(c[k] == ch);
                    }
                }
            } else {
                if ch == '/' || ch == '+' {
                    assert(c[i - 1 - a] == ch);
                }
            }
        }
    }
    special || v[b - 1] == '='
}

// ---------------------------------------------------------------------------
// Importing a profile
// ---------------------------------------------------------------------------

/// A line (trimmed) that sets the interface's `PrivateKey`.
pub open spec fn is_private_key_line(line: Seq<char>) -> bool {
    starts_with(trim(line), "PrivateKey"@) && contains(trim(line), "="@)
}

/// Whether some line of `content` sets a `PrivateKey`.
pub open spec fn has_private_key(content: Seq<char>) -> bool {
    exists|i: int| 0 <= i < lines(content).len() && is_private_key_line(#[trigger] lines(content)[i])
}

fn has_private_key_exec(v: &Vec<char>) -> (r: bool)
    ensures
        r == has_private_key(v@),
{
    let eq: Vec<char> = chars_of("=");
    let ghost mut done: Seq<Seq<char>> = Seq::empty();
    let mut pos: usize = 0;
    proof {
        assert(v@.skip(0) =~= v@);
    }
    while pos < v.len()
        invariant
            pos <= v@.len(),
            eq@ == "="@,
            done + lines(v@.skip(pos as int)) == lines(v@),
            forall|j: int| 0 <= j < done.len() ==> !is_private_key_line(#[trigger] done[j]),
        decreases v@.len() - pos,
    {
        let (a, b, next) = next_line(v, pos);
        let ghost line = v@.subrange(a as int, b as int);
        let (c, d) = trim_range(v, a, b);
        if range_starts_with(v, c, d, "PrivateKey") && range_contains(v, c, d, &eq) {
            proof {
                assert(lines(v@)[done.len() as int] == line);
                assert(is_private_key_line(lines(v@)[done.len() as int]));
            }
            return true;
        }
        proof {
            assert(done.push(line) + lines(v@.skip(next as int)) =~= done + lines(v@.skip(pos as int)));
            done = done.push(line);
        }
        pos = next;
    }
    proof {
        assert(v@.skip(pos as int) =~= Seq::<char>::empty());
        assert(done =~= lines(v@));
    }
    false
}

/// A WireGuard profile accepted for import: its name, its text (trimmed) and
/// what it says.
#[derive(Debug)]
pub struct WgImport {
    pub name: String,
    pub content: String,
    pub summary: WgSummary,
}

/// The notice when an empty WireGuard profile is imported.
pub open spec fn wg_empty_notice() -> Seq<char> {
    "WireGuard config is empty."@
}

/// The notice when an imported WireGuard profile lacks what a client needs.
pub open spec fn wg_incomplete_notice() -> Seq<char> {
    "Invalid WireGuard config: need [Interface] PrivateKey and [Peer] PublicKey + Endpoint."@
}

/// Importing a WireGuard profile: the text is trimmed; it must not be empty,
/// and must set a `PrivateKey` and name the peer's `PublicKey` and
/// `Endpoint`. The profile is named as asked (trimmed), else after its
/// endpoint.
pub open spec fn spec_wg_import(name: Seq<char>, content: Seq<char>) -> Result<
    (Seq<char>, Seq<char>, WgSummaryView),
    Seq<char>,
> {
    let c = trim(content);
    let sum = spec_parse_wg_summary(c);
    if c.len() == 0 {
        Err(wg_empty_notice())
    } else if !has_private_key(c) || sum.endpoint is None || sum.public_key is None {
        Err(wg_incomplete_notice())
    } else {
        Ok(
            (
                if trim(name).len() == 0 {
                    sum.endpoint->0
                } else {
                    trim(name)
                },
                c,
                sum,
            ),
        )
    }
}

/// Check a WireGuard profile for import and name it, or say why it is refused.
pub fn wg_import(name: &str, content: &str) -> (r: Result<WgImport, String>)
    ensures
        match spec_wg_import(name@, content@) {
            Ok((n, c, s)) => r matches Ok(w) && w.name@ == n && w.content@ == c && w.summary@ == s,
            Err(e) => r matches Err(m) && m@ == e,
        },
{
    let v = chars_of(content);
    let n = v.len();
    let (a, b) = trim_range(&v, 0, n);
    assert(v@.subrange(0, n as int) =~= v@);
    if a == b {
        return Err(owned("WireGuard config is empty."));
    }
    let text = string_of_range(&v, a, b);
    let cv = chars_of(text.as_str());
    let summary = parse_wg_summary(text.as_str());
    if !has_private_key_exec(&cv) || summary.endpoint.is_none() || summary.public_key.is_none() {
        return Err(owned(
            "Invalid WireGuard config: need [Interface] PrivateKey and [Peer] PublicKey + Endpoint.",
        ));
    }
    let nv = chars_of(name);
    let nn = nv.len();
    let (na, nb) = trim_range(&nv, 0, nn);
    assert(nv@.subrange(0, nn as int) =~= nv@);
    let label = if na == nb {
        match &summary.endpoint {
            Some(e) => owned(e.as_str()),
            None => owned("WireGuard"),
        }
    } else {
        string_of_range(&nv, na, nb)
    };
    Ok(WgImport { name: label, content: text, summary })
}

/// The notice after a WireGuard profile was imported.
pub fn wg_imported_notice(name: &str) -> (r: String)
    ensures
        r@ == "Imported WireGuard profile '"@ + name@ + "'. Looking up location…"@,
{
    let mut v: Vec<char> = Vec::new();
    push_str(&mut v, "Imported WireGuard profile '");
    push_str(&mut v, name);
    push_str(&mut v, "'. Looking up location…");
    string_from_chars(v.as_slice())
}

} // verus!
