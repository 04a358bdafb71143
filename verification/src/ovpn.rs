//! OpenVPN client profiles: parsing, runtime-profile rewriting, log inspection.
use vstd::prelude::*;
use crate::text::{
    chars_of, contains, first_word, is_first_ws, is_ws, lemma_trim_start_len, occurs_at, trim_end, trim_start, lines, lower, lower_range, next_line, next_word, owned,
    range_contains, range_eq, range_starts_with, starts_with, string_from_chars, string_of_range,
    trim, trim_range, word1, word2, lower_char, is_first,
};
use crate::num::{dec, dec_signed, parse_u16, parse_u16_range, push_dec, push_i64};
use crate::text::{contains as seq_contains, ends_with, push_range, push_str, replace_char};

verus! {

/// Parsed fields from a `.ovpn` client config (the subset the UI shows).
#[derive(Clone, Debug)]
pub struct ParsedOvpn {
    pub remote_host: String,
    pub remote_port: u16,
    pub proto: String,
    pub dev: String,
    pub cipher: String,
    pub auth: String,
    pub has_tls_auth: bool,
    pub has_inline_certs: bool,
    pub remotes: Vec<(String, u16)>,
}

/// The value of a [`ParsedOvpn`].
pub struct ParsedOvpnView {
    pub remote_host: Seq<char>,
    pub remote_port: u16,
    pub proto: Seq<char>,
    pub dev: Seq<char>,
    pub cipher: Seq<char>,
    pub auth: Seq<char>,
    pub has_tls_auth: bool,
    pub has_inline_certs: bool,
    pub remotes: Seq<(Seq<char>, u16)>,
}

pub open spec fn remote_view(p: (String, u16)) -> (Seq<char>, u16) {
    (p.0@, p.1)
}

impl View for ParsedOvpn {
    type V = ParsedOvpnView;

    open spec fn view(&self) -> ParsedOvpnView {
        ParsedOvpnView {
            remote_host: self.remote_host@,
            remote_port: self.remote_port,
            proto: self.proto@,
            dev: self.dev@,
            cipher: self.cipher@,
            auth: self.auth@,
            has_tls_auth: self.has_tls_auth,
            has_inline_certs: self.has_inline_certs,
            remotes: self.remotes@.map_values(|p: (String, u16)| remote_view(p)),
        }
    }
}

impl Default for ParsedOvpn {
    /// Nothing parsed: empty texts, port 0, no flags, no remotes.
    fn default() -> (r: Self)
        ensures
            r@.remote_host.len() == 0 && r@.proto.len() == 0 && r@.dev.len() == 0,
            r@.cipher.len() == 0 && r@.auth.len() == 0,
            r.remote_port == 0 && !r.has_tls_auth && !r.has_inline_certs,
            r@.remotes.len() == 0,
    {
        let r = ParsedOvpn {
            remote_host: String::new(),
            remote_port: 0,
            proto: String::new(),
            dev: String::new(),
            cipher: String::new(),
            auth: String::new(),
            has_tls_auth: false,
            has_inline_certs: false,
            remotes: Vec::new(),
        };
        r
    }
}

/// Default OpenVPN port when a `remote` names none.
pub open spec fn default_port() -> u16 {
    1194
}

/// What parsing starts from: port 1194, `udp`, `tun`, nothing else set.
pub open spec fn initial_ovpn() -> ParsedOvpnView {
    ParsedOvpnView {
        remote_host: Seq::empty(),
        remote_port: 1194,
        proto: "udp"@,
        dev: "tun"@,
        cipher: Seq::empty(),
        auth: Seq::empty(),
        has_tls_auth: false,
        has_inline_certs: false,
        remotes: Seq::empty(),
    }
}

/// Inline blocks that carry key material.
pub open spec fn is_inline_cert_tag(n: Seq<char>) -> bool {
    n == "ca"@ || n == "cert"@ || n == "key"@ || is_tls_tag(n)
}

/// Inline blocks (and directives) that set up a TLS control-channel key.
pub open spec fn is_tls_tag(n: Seq<char>) -> bool {
    n == "tls-auth"@ || n == "tls-crypt"@ || n == "tls-crypt-v2"@
}

/// A line that is skipped: empty, or a `#` / `;` comment.
pub open spec fn is_blank_or_comment(line: Seq<char>) -> bool {
    line.len() == 0 || line[0] == '#' || line[0] == ';'
}

/// The port of a `remote` directive: its second argument if it is a `u16`, else 1194.
pub open spec fn remote_port_of(rest: Seq<char>) -> u16 {
    match word2(rest) {
        Some(p) => match parse_u16(p) {
            Some(x) => x,
            None => default_port(),
        },
        None => default_port(),
    }
}

/// Effect of one directive line (outside inline blocks) on the parsed fields.
pub open spec fn ovpn_directive(out: ParsedOvpnView, line: Seq<char>) -> ParsedOvpnView {
    match first_word(line) {
        None => out,
        Some((k, rest)) => {
            let key = lower(k);
            if key == "remote"@ {
                match word1(rest) {
                    Some(host) => {
                        let port = remote_port_of(rest);
                        let first = if out.remote_host.len() == 0 {
                            ParsedOvpnView { remote_host: host, remote_port: port, ..out }
                        } else {
                            out
                        };
                        ParsedOvpnView { remotes: first.remotes.push((host, port)), ..first }
                    },
                    None => out,
                }
            } else if key == "proto"@ {
                match word1(rest) {
                    Some(p) => ParsedOvpnView { proto: lower(p), ..out },
                    None => out,
                }
            } else if key == "port"@ {
                match word1(rest) {
                    Some(p) => match parse_u16(p) {
                        Some(x) => ParsedOvpnView { remote_port: x, ..out },
                        None => out,
                    },
                    None => out,
                }
            } else if key == "dev"@ {
                match word1(rest) {
                    Some(d) => ParsedOvpnView { dev: d, ..out },
                    None => out,
                }
            } else if key == "cipher"@ {
                match word1(rest) {
                    Some(c) => ParsedOvpnView { cipher: c, ..out },
                    None => out,
                }
            } else if key == "auth"@ {
                match word1(rest) {
                    Some(a) => ParsedOvpnView { auth: a, ..out },
                    None => out,
                }
            } else if is_tls_tag(key) {
                ParsedOvpnView { has_tls_auth: true, ..out }
            } else {
                out
            }
        },
    }
}

/// Effect of one line; the `bool` is whether we are inside an inline `<tag>` block.
pub open spec fn ovpn_step(st: (ParsedOvpnView, bool), raw: Seq<char>) -> (ParsedOvpnView, bool) {
    let out = st.0;
    let in_tag = st.1;
    let line = trim(raw);
    if is_blank_or_comment(line) {
        st
    } else if line[0] == '<' {
        let tag = line.drop_first();
        if tag.len() > 0 && tag.last() == '>' {
            let name = tag.drop_last();
            if !(name.len() > 0 && name[0] == '/') {
                let l = lower(name);
                (
                    ParsedOvpnView {
                        has_inline_certs: out.has_inline_certs || is_inline_cert_tag(l),
                        has_tls_auth: out.has_tls_auth || is_tls_tag(l),
                        ..out
                    },
                    true,
                )
            } else {
                (out, false)
            }
        } else {
            st
        }
    } else if in_tag {
        st
    } else {
        (ovpn_directive(out, line), in_tag)
    }
}

/// The state after the given lines, in order.
pub open spec fn ovpn_fold(ls: Seq<Seq<char>>) -> (ParsedOvpnView, bool)
    decreases ls.len(),
{
    if ls.len() == 0 {
        (initial_ovpn(), false)
    } else {
        ovpn_step(ovpn_fold(ls.drop_last()), ls.last())
    }
}

/// What [`parse_ovpn`] returns for a profile text.
pub open spec fn spec_parse_ovpn(content: Seq<char>) -> ParsedOvpnView {
    ovpn_fold(lines(content)).0
}

/// A line that parsing skips: blank, or a `#` / `;` comment once trimmed.
pub open spec fn is_skipped_line(l: Seq<char>) -> bool {
    is_blank_or_comment(trim(l))
}

proof fn lemma_fold_insert_skipped(ls: Seq<Seq<char>>, i: int, l: Seq<char>)
    requires
        0 <= i <= ls.len(),
        is_skipped_line(l),
    ensures
        ovpn_fold(ls.insert(i, l)) == ovpn_fold(ls),
    decreases ls.len(),
{
    if i == ls.len() {
        assert(ls.insert(i, l).drop_last() =~= ls);
    } else {
        lemma_fold_insert_skipped(ls.drop_last(), i, l);
        assert(ls.insert(i, l).drop_last() =~= ls.drop_last().insert(i, l));
        assert(ls.insert(i, l).last() == ls.last());
    }
}

/// Blank and comment lines do not matter: a profile whose lines are those
/// of another with a blank or comment line inserted parses the same.
pub proof fn law_parse_ignores_comment_lines(c: Seq<char>, c2: Seq<char>, i: int, l: Seq<char>)
    requires
        0 <= i <= lines(c).len(),
        is_skipped_line(l),
        lines(c2) == lines(c).insert(i, l),
    ensures
        spec_parse_ovpn(c2) == spec_parse_ovpn(c),
{
    lemma_fold_insert_skipped(lines(c), i, l);
}

/// `l2` is the line `l` with the ASCII case of letters in its first word
/// changed: a directive's keyword (`REMOTE` for `remote`) or an inline tag
/// (`<CA>` for `<ca>`).
pub open spec fn keyword_case_variant(l: Seq<char>, l2: Seq<char>) -> bool {
    exists|k: Seq<char>, k2: Seq<char>, r: Seq<char>|
        #![trigger k + r, k2 + r]
        {
            &&& trim(l) == k + r
            &&& trim(l2) == k2 + r
            &&& k.len() > 0
            &&& forall|i: int| 0 <= i < k.len() ==> !is_ws(k[i])
            &&& (r.len() == 0 || is_ws(r[0]))
            &&& lower(k) == lower(k2)
        }
}

proof fn lemma_lower_char_keeps_non_letters(a: char, b: char)
    requires
        lower_char(a) == lower_char(b),
        !('A' <= a && a <= 'Z'),
        !('a' <= a && a <= 'z'),
    ensures
        a == b,
{
    if 'A' <= b && b <= 'Z' {
        assert(((b as u32) + 32) as char == lower_char(b));
        assert('a' <= lower_char(b) && lower_char(b) <= 'z');
    }
}

proof fn lemma_first_word_split(k: Seq<char>, r: Seq<char>)
    requires
        k.len() > 0,
        forall|i: int| 0 <= i < k.len() ==> !is_ws(k[i]),
        r.len() == 0 || is_ws(r[0]),
    ensures
        first_word(k + r) == Some((k, r)),
{
    let t = k + r;
    assert(!is_ws(t[0]));
    assert(trim_start(t) == t);
    if r.len() == 0 {
        assert(t =~= k);
        if exists|i: int| is_first_ws(t, i) {
            let i = choose|i: int| is_first_ws(t, i);
            assert(!is_ws(k[i]));
        }
    } else {
        let n = k.len() as int;
        assert(is_first_ws(t, n));
        crate::text::lemma_first_ws_unique(t, n);
        assert(t.take(n) =~= k);
        assert(t.skip(n) =~= r);
    }
}

proof fn lemma_step_keyword_case(st: (ParsedOvpnView, bool), l: Seq<char>, l2: Seq<char>)
    requires
        keyword_case_variant(l, l2),
    ensures
        ovpn_step(st, l) == ovpn_step(st, l2),
{
    let (k, k2, r) = choose|k: Seq<char>, k2: Seq<char>, r: Seq<char>|
        #![trigger k + r, k2 + r]
        {
            &&& trim(l) == k + r
            &&& trim(l2) == k2 + r
            &&& k.len() > 0
            &&& forall|i: int| 0 <= i < k.len() ==> !is_ws(k[i])
            &&& (r.len() == 0 || is_ws(r[0]))
            &&& lower(k) == lower(k2)
        };
    let t = trim(l);
    let t2 = trim(l2);
    assert(lower(k).len() == k.len());
    assert(lower(k2).len() == k2.len());
    assert forall|i: int| 0 <= i < k.len() implies lower_char(k[i]) == lower_char(k2[i]) by {
        assert(lower(k)[i] == lower_char(k[i]));
        assert(lower(k2)[i] == lower_char(k2[i]));
    }
    assert forall|i: int| 0 <= i < k2.len() implies !is_ws(k2[i]) by {
        if is_ws(k2[i]) {
            lemma_lower_char_keeps_non_letters(k2[i], k[i]);
        }
    }
    lemma_lower_append(k, r);
    lemma_lower_append(k2, r);
    assert(lower(t) == lower(t2));
    assert forall|i: int| 0 <= i < t.len() implies lower_char(t[i]) == lower_char(t2[i]) by {
        assert(lower(t)[i] == lower_char(t[i]));
        assert(lower(t2)[i] == lower_char(t2[i]));
    }
    assert forall|i: int| 0 <= i < t.len() implies {
        &&& (!('A' <= #[trigger] t[i] && t[i] <= 'Z') && !('a' <= t[i] && t[i] <= 'z')) ==> t[i] == t2[i]
        &&& (!('A' <= t2[i] && t2[i] <= 'Z') && !('a' <= t2[i] && t2[i] <= 'z')) ==> t[i] == t2[i]
    } by {
        if !('A' <= t[i] && t[i] <= 'Z') && !('a' <= t[i] && t[i] <= 'z') {
            lemma_lower_char_keeps_non_letters(t[i], t2[i]);
        }
        if !('A' <= t2[i] && t2[i] <= 'Z') && !('a' <= t2[i] && t2[i] <= 'z') {
            lemma_lower_char_keeps_non_letters(t2[i], t[i]);
        }
    }
    let n = t.len() as int;
    assert(t2.len() == n);
    if n >= 2 {
        let name = t.drop_first().drop_last();
        let name2 = t2.drop_first().drop_last();
        assert(name =~= t.subrange(1, n - 1));
        assert(name2 =~= t2.subrange(1, n - 1));
        lemma_lower_subrange(t, 1, n - 1);
        lemma_lower_subrange(t2, 1, n - 1);
        if name.len() > 0 {
            assert(name[0] == t[1]);
            assert(name2[0] == t2[1]);
        }
        assert(t.drop_first().last() == t[n - 1]);
        assert(t2.drop_first().last() == t2[n - 1]);
    }
    lemma_first_word_split(k, r);
    lemma_first_word_split(k2, r);
}

proof fn lemma_fold_keyword_case(ls: Seq<Seq<char>>, ls2: Seq<Seq<char>>)
    requires
        ls.len() == ls2.len(),
        forall|i: int| 0 <= i < ls.len() ==> ls[i] == ls2[i] || keyword_case_variant(ls[i], ls2[i]),
    ensures
        ovpn_fold(ls) == ovpn_fold(ls2),
    decreases ls.len(),
{
    if ls.len() > 0 {
        let m = ls.len() - 1;
        assert forall|i: int| 0 <= i < m implies ls.drop_last()[i] == ls2.drop_last()[i]
            || keyword_case_variant(ls.drop_last()[i], ls2.drop_last()[i]) by {
            assert(ls.drop_last()[i] == ls[i]);
            assert(ls2.drop_last()[i] == ls2[i]);
        }
        lemma_fold_keyword_case(ls.drop_last(), ls2.drop_last());
        if ls[m] != ls2[m] {
            lemma_step_keyword_case(ovpn_fold(ls.drop_last()), ls[m], ls2[m]);
        }
    }
}

/// The case of keywords does not matter: a profile whose lines are those of
/// another, each the same line or the line with the ASCII case of its first
/// word (a directive's keyword or an inline tag) changed, parses the same.
pub proof fn law_parse_ignores_keyword_case(c: Seq<char>, c2: Seq<char>)
    requires
        lines(c2).len() == lines(c).len(),
        forall|i: int|
            0 <= i < lines(c).len() ==> lines(c)[i] == lines(c2)[i] || keyword_case_variant(
                lines(c)[i],
                lines(c2)[i],
            ),
    ensures
        spec_parse_ovpn(c2) == spec_parse_ovpn(c),
{
    lemma_fold_keyword_case(lines(c), lines(c2));
}

/// The lines of `ls` that parsing reads: all but the blank and comment lines.
pub open spec fn kept_lines(ls: Seq<Seq<char>>) -> Seq<Seq<char>>
    decreases ls.len(),
{
    if ls.len() == 0 {
        ls
    } else if is_skipped_line(ls.last()) {
        kept_lines(ls.drop_last())
    } else {
        kept_lines(ls.drop_last()).push(ls.last())
    }
}

proof fn lemma_fold_kept(ls: Seq<Seq<char>>)
    ensures
        ovpn_fold(kept_lines(ls)) == ovpn_fold(ls),
    decreases ls.len(),
{
    if ls.len() > 0 {
        lemma_fold_kept(ls.drop_last());
        if !is_skipped_line(ls.last()) {
            let k = kept_lines(ls);
            assert(k.drop_last() =~= kept_lines(ls.drop_last()));
        }
    }
}

/// Blank lines, comment lines and keyword case do not matter, in any mix:
/// two profiles whose lines, once blank and comment lines are set aside,
/// pair up one for one as the same line or as the line with the ASCII case
/// of its first word changed, parse the same.
pub proof fn law_parse_ignores_comments_and_keyword_case(c: Seq<char>, c2: Seq<char>)
    requires
        kept_lines(lines(c2)).len() == kept_lines(lines(c)).len(),
        forall|i: int|
            0 <= i < kept_lines(lines(c)).len() ==> kept_lines(lines(c))[i] == kept_lines(lines(c2))[i]
                || keyword_case_variant(kept_lines(lines(c))[i], kept_lines(lines(c2))[i]),
    ensures
        spec_parse_ovpn(c2) == spec_parse_ovpn(c),
{
    lemma_fold_kept(lines(c));
    lemma_fold_kept(lines(c2));
    lemma_fold_keyword_case(kept_lines(lines(c)), kept_lines(lines(c2)));
}

/// Whether a profile is inside an inline block after the lines `ls`: the
/// last line that is a whole tag (trimmed, `<` first and `>` last) opens a
/// block unless it is a closing tag `</...>`; with no such line it is not.
pub open spec fn inside_inline_block(ls: Seq<Seq<char>>) -> bool
    decreases ls.len(),
{
    if ls.len() == 0 {
        false
    } else {
        let t = trim(ls.last());
        if t.len() >= 2 && t[0] == '<' && t.last() == '>' {
            !(t.len() >= 3 && t[1] == '/')
        } else {
            inside_inline_block(ls.drop_last())
        }
    }
}

/// A line that carries a TLS control-channel key: a whole `<tls-auth>`,
/// `<tls-crypt>` or `<tls-crypt-v2>` tag, or a `tls-auth`, `tls-crypt` or
/// `tls-crypt-v2` directive, in any ASCII case.
pub open spec fn tls_key_line(l: Seq<char>) -> bool {
    let t = trim(l);
    ||| lower(t) == "<tls-auth>"@
    ||| lower(t) == "<tls-crypt>"@
    ||| lower(t) == "<tls-crypt-v2>"@
    ||| (word1(t) matches Some(k) && (lower(k) == "tls-auth"@ || lower(k) == "tls-crypt"@ || lower(k)
        == "tls-crypt-v2"@))
}

proof fn lemma_fold_in_block(ls: Seq<Seq<char>>)
    ensures
        ovpn_fold(ls).1 == inside_inline_block(ls),
    decreases ls.len(),
{
    if ls.len() > 0 {
        lemma_fold_in_block(ls.drop_last());
        let t = trim(ls.last());
        if t.len() >= 2 {
            assert(t.drop_first().last() == t.last());
            assert(t.drop_first().len() > 0);
            if t.len() >= 3 {
                assert(t.drop_first().drop_last()[0] == t[1]);
            }
        }
    }
}

proof fn lemma_fold_keeps_tls(ls: Seq<Seq<char>>, j: int)
    requires
        0 <= j <= ls.len(),
        ovpn_fold(ls.take(j)).0.has_tls_auth,
    ensures
        ovpn_fold(ls).0.has_tls_auth,
    decreases ls.len() - j,
{
    if j < ls.len() {
        let k = j + 1;
        assert(ls.take(k).drop_last() =~= ls.take(j));
        assert(ls.take(k).last() == ls[j]);
        lemma_fold_keeps_tls(ls, k);
    } else {
        assert(ls.take(j) =~= ls);
    }
}

/// The first character of a non-empty trimmed text is not whitespace.
proof fn lemma_trim_first_not_ws(l: Seq<char>)
    requires
        trim(l).len() > 0,
    ensures
        !is_ws(trim(l)[0]),
{
    lemma_trim_start_len(l);
    lemma_trim_end_prefix(trim_start(l));
    assert(trim(l)[0] == trim_start(l)[0]);
}

proof fn lemma_tls_line_step(st: (ParsedOvpnView, bool), l: Seq<char>)
    requires
        !st.1,
        tls_key_line(l),
    ensures
        ovpn_step(st, l).0.has_tls_auth,
{
    reveal_strlit("<tls-auth>");
    reveal_strlit("<tls-crypt>");
    reveal_strlit("<tls-crypt-v2>");
    reveal_strlit("tls-auth");
    reveal_strlit("tls-crypt");
    reveal_strlit("tls-crypt-v2");
    reveal_strlit("remote");
    reveal_strlit("proto");
    reveal_strlit("port");
    reveal_strlit("dev");
    reveal_strlit("cipher");
    reveal_strlit("auth");
    let t = trim(l);
    let lt = lower(t);
    if lt == "<tls-auth>"@ || lt == "<tls-crypt>"@ || lt == "<tls-crypt-v2>"@ {
        let n = t.len() as int;
        assert(lt.len() == n);
        assert(lt[0] == lower_char(t[0]));
        assert(lt[n - 1] == lower_char(t[n - 1]));
        assert(t[0] == '<');
        assert(t.last() == '>');
        let name = t.drop_first().drop_last();
        assert(name =~= t.subrange(1, n - 1));
        lemma_lower_subrange(t, 1, n - 1);
        assert(name.len() > 0);
        assert(lower_char(name[0]) == lt[1]);
        assert(name[0] != '/');
        if lt == "<tls-auth>"@ {
            assert(lower(name) =~= "tls-auth"@);
        } else if lt == "<tls-crypt>"@ {
            assert(lower(name) =~= "tls-crypt"@);
        } else {
            assert(lower(name) =~= "tls-crypt-v2"@);
        }
    } else {
        let k = word1(t).unwrap();
        let (k0, rest) = first_word(t).unwrap();
        lemma_first_word_shape(t);
        assert(t.len() > 0) by {
            lemma_trim_start_len(t);
        }
        lemma_trim_first_not_ws(l);
        assert(trim_start(t) == t);
        lemma_trim_start_len(t);
        assert(k[0] == t[0]) by {
            if exists|i: int| is_first_ws(t, i) {
                let i = choose|i: int| is_first_ws(t, i);
                assert(i > 0);
                assert(t.take(i)[0] == t[0]);
            }
        }
        assert(lower(k)[0] == lower_char(k[0]));
        assert(lower(k)[0] == 't');
        assert(t[0] != '<' && t[0] != '#' && t[0] != ';');
        let key = lower(k);
        assert(key != "remote"@ && key != "proto"@ && key != "port"@ && key != "dev"@ && key
            != "cipher"@ && key != "auth"@);
    }
}

proof fn lemma_tls_flag_has_line(ls: Seq<Seq<char>>)
    requires
        ovpn_fold(ls).0.has_tls_auth,
    ensures
        exists|i: int| 0 <= i < ls.len() && tls_key_line(#[trigger] ls[i]),
    decreases ls.len(),
{
    reveal_strlit("<tls-auth>");
    reveal_strlit("<tls-crypt>");
    reveal_strlit("<tls-crypt-v2>");
    reveal_strlit("tls-auth");
    reveal_strlit("tls-crypt");
    reveal_strlit("tls-crypt-v2");
    let dl = ls.drop_last();
    if ovpn_fold(dl).0.has_tls_auth {
        lemma_tls_flag_has_line(dl);
        let i = choose|i: int| 0 <= i < dl.len() && tls_key_line(#[trigger] dl[i]);
        assert(ls[i] == dl[i]);
    } else {
        let l = ls.last();
        let t = trim(l);
        let n = t.len() as int;
        if n > 0 && t[0] == '<' && n >= 2 && t.last() == '>' {
            let name = t.drop_first().drop_last();
            assert(name =~= t.subrange(1, n - 1));
            lemma_lower_subrange(t, 1, n - 1);
            let ln = lower(name);
            assert(lower(t) =~= seq!['<'] + ln + seq!['>']) by {
                assert(lower(t)[0] == lower_char(t[0]));
                assert(lower(t)[n - 1] == lower_char(t[n - 1]));
            }
            if ln == "tls-auth"@ {
                assert(lower(t) =~= "<tls-auth>"@);
            } else if ln == "tls-crypt"@ {
                assert(lower(t) =~= "<tls-crypt>"@);
            } else {
                assert(lower(t) =~= "<tls-crypt-v2>"@);
            }
        }
        assert(tls_key_line(ls[ls.len() - 1]));
    }
}

/// A profile that carries a TLS control-channel key outside other inline
/// blocks is parsed as having one: if line `i` opens a `<tls-auth>`,
/// `<tls-crypt>` or `<tls-crypt-v2>` block, or is a `tls-auth`,
/// `tls-crypt` or `tls-crypt-v2` directive (any ASCII case), and the lines
/// before it leave no inline block open, `has_tls_auth` is set. And
/// `has_tls_auth` is set only by such a line.
pub proof fn law_tls_key_lines_are_seen(c: Seq<char>, i: int)
    ensures
        0 <= i < lines(c).len() && !inside_inline_block(lines(c).take(i)) && tls_key_line(lines(c)[i])
            ==> spec_parse_ovpn(c).has_tls_auth,
        spec_parse_ovpn(c).has_tls_auth ==> exists|j: int| 0 <= j < lines(c).len() && tls_key_line(#[trigger] lines(c)[j]),
{
    if spec_parse_ovpn(c).has_tls_auth {
        lemma_tls_flag_has_line(lines(c));
    }
    if 0 <= i < lines(c).len() && !inside_inline_block(lines(c).take(i)) && tls_key_line(lines(c)[i]) {
        let ls = lines(c);
        lemma_fold_in_block(ls.take(i));
        lemma_tls_line_step(ovpn_fold(ls.take(i)), ls[i]);
        assert(ls.take(i + 1).drop_last() =~= ls.take(i));
        assert(ls.take(i + 1).last() == ls[i]);
        lemma_fold_keeps_tls(ls, i + 1);
    }
}

/// A whole tag line that opens a block of key material: `<ca>`, `<cert>`,
/// `<key>`, `<tls-auth>`, `<tls-crypt>` or `<tls-crypt-v2>`, in any ASCII case.
pub open spec fn cert_block_line(l: Seq<char>) -> bool {
    let lt = lower(trim(l));
    ||| lt == "<ca>"@
    ||| lt == "<cert>"@
    ||| lt == "<key>"@
    ||| lt == "<tls-auth>"@
    ||| lt == "<tls-crypt>"@
    ||| lt == "<tls-crypt-v2>"@
}

proof fn lemma_fold_keeps_certs(ls: Seq<Seq<char>>, j: int)
    requires
        0 <= j <= ls.len(),
        ovpn_fold(ls.take(j)).0.has_inline_certs,
    ensures
        ovpn_fold(ls).0.has_inline_certs,
    decreases ls.len() - j,
{
    if j < ls.len() {
        assert(ls.take(j + 1).drop_last() =~= ls.take(j));
        assert(ls.take(j + 1).last() == ls[j]);
        lemma_fold_keeps_certs(ls, j + 1);
    } else {
        assert(ls.take(j) =~= ls);
    }
}

proof fn lemma_cert_line_step(st: (ParsedOvpnView, bool), l: Seq<char>)
    requires
        cert_block_line(l),
    ensures
        ovpn_step(st, l).0.has_inline_certs,
{
    reveal_strlit("<ca>");
    reveal_strlit("<cert>");
    reveal_strlit("<key>");
    reveal_strlit("<tls-auth>");
    reveal_strlit("<tls-crypt>");
    reveal_strlit("<tls-crypt-v2>");
    reveal_strlit("ca");
    reveal_strlit("cert");
    reveal_strlit("key");
    reveal_strlit("tls-auth");
    reveal_strlit("tls-crypt");
    reveal_strlit("tls-crypt-v2");
    let t = trim(l);
    let lt = lower(t);
    let n = t.len() as int;
    assert(lt.len() == n);
    assert(lt[0] == lower_char(t[0]));
    assert(lt[n - 1] == lower_char(t[n - 1]));
    assert(t[0] == '<');
    assert(t.last() == '>');
    let name = t.drop_first().drop_last();
    assert(name =~= t.subrange(1, n - 1));
    lemma_lower_subrange(t, 1, n - 1);
    assert(name.len() > 0);
    assert(lower_char(name[0]) == lt[1]);
    assert(name[0] != '/');
    assert(lower(name) =~= lt.subrange(1, n - 1));
    if lt == "<ca>"@ {
        assert(lower(name) =~= "ca"@);
    } else if lt == "<cert>"@ {
        assert(lower(name) =~= "cert"@);
    } else if lt == "<key>"@ {
        assert(lower(name) =~= "key"@);
    } else if lt == "<tls-auth>"@ {
        assert(lower(name) =~= "tls-auth"@);
    } else if lt == "<tls-crypt>"@ {
        assert(lower(name) =~= "tls-crypt"@);
    } else {
        assert(lower(name) =~= "tls-crypt-v2"@);
    }
}

proof fn lemma_certs_flag_has_line(ls: Seq<Seq<char>>)
    requires
        ovpn_fold(ls).0.has_inline_certs,
    ensures
        exists|i: int| 0 <= i < ls.len() && cert_block_line(#[trigger] ls[i]),
    decreases ls.len(),
{
    reveal_strlit("<ca>");
    reveal_strlit("<cert>");
    reveal_strlit("<key>");
    reveal_strlit("<tls-auth>");
    reveal_strlit("<tls-crypt>");
    reveal_strlit("<tls-crypt-v2>");
    reveal_strlit("ca");
    reveal_strlit("cert");
    reveal_strlit("key");
    reveal_strlit("tls-auth");
    reveal_strlit("tls-crypt");
    reveal_strlit("tls-crypt-v2");
    let dl = ls.drop_last();
    if ovpn_fold(dl).0.has_inline_certs {
        lemma_certs_flag_has_line(dl);
        let i = choose|i: int| 0 <= i < dl.len() && cert_block_line(#[trigger] dl[i]);
        assert(ls[i] == dl[i]);
    } else {
        let l = ls.last();
        let t = trim(l);
        let n = t.len() as int;
        assert(n > 0 && t[0] == '<' && n >= 2 && t.last() == '>');
        let name = t.drop_first().drop_last();
        assert(name =~= t.subrange(1, n - 1));
        lemma_lower_subrange(t, 1, n - 1);
        let ln = lower(name);
        assert(lower(t) =~= seq!['<'] + ln + seq!['>']) by {
            assert(lower(t)[0] == lower_char(t[0]));
            assert(lower(t)[n - 1] == lower_char(t[n - 1]));
        }
        if ln == "ca"@ {
            assert(lower(t) =~= "<ca>"@);
        } else if ln == "cert"@ {
            assert(lower(t) =~= "<cert>"@);
        } else if ln == "key"@ {
            assert(lower(t) =~= "<key>"@);
        } else if ln == "tls-auth"@ {
            assert(lower(t) =~= "<tls-auth>"@);
        } else if ln == "tls-crypt"@ {
            assert(lower(t) =~= "<tls-crypt>"@);
        } else {
            assert(lower(t) =~= "<tls-crypt-v2>"@);
        }
        assert(cert_block_line(ls[ls.len() - 1]));
    }
}

/// A profile has inline key material exactly when it has a `<ca>`,
/// `<cert>`, `<key>`, `<tls-auth>`, `<tls-crypt>` or `<tls-crypt-v2>` block
/// (any ASCII case): one such tag line sets `has_inline_certs`, and nothing
/// else does.
pub proof fn law_inline_cert_blocks_are_seen(c: Seq<char>, i: int)
    ensures
        0 <= i < lines(c).len() && cert_block_line(lines(c)[i]) ==> spec_parse_ovpn(c).has_inline_certs,
        spec_parse_ovpn(c).has_inline_certs ==> exists|j: int| 0 <= j < lines(c).len() && cert_block_line(#[trigger] lines(c)[j]),
{
    if spec_parse_ovpn(c).has_inline_certs {
        lemma_certs_flag_has_line(lines(c));
    }
    if 0 <= i < lines(c).len() && cert_block_line(lines(c)[i]) {
        let ls = lines(c);
        lemma_cert_line_step(ovpn_fold(ls.take(i)), ls[i]);
        assert(ls.take(i + 1).drop_last() =~= ls.take(i));
        assert(ls.take(i + 1).last() == ls[i]);
        lemma_fold_keeps_certs(ls, i + 1);
    }
}

fn is_tls_tag_exec(l: &Vec<char>) -> (r: bool)
    ensures
        r == is_tls_tag(l@),
{
    let n = l.len();
    assert(l@.subrange(0, n as int) =~= l@);
    range_eq(l, 0, n, "tls-auth") || range_eq(l, 0, n, "tls-crypt") || range_eq(
        l,
        0,
        n,
        "tls-crypt-v2",
    )
}

fn is_inline_cert_tag_exec(l: &Vec<char>) -> (r: bool)
    ensures
        r == is_inline_cert_tag(l@),
{
    let n = l.len();
    assert(l@.subrange(0, n as int) =~= l@);
    range_eq(l, 0, n, "ca") || range_eq(l, 0, n, "cert") || range_eq(l, 0, n, "key")
        || is_tls_tag_exec(l)
}

fn whole_eq(l: &Vec<char>, lit: &str) -> (r: bool)
    ensures
        r == (l@ == lit@),
{
    let n = l.len();
    assert(l@.subrange(0, n as int) =~= l@);
    range_eq(l, 0, n, lit)
}

/// Set `field` to `v[a..b]`.
fn set_from_range(field: &mut String, v: &Vec<char>, a: usize, b: usize)
    requires
        a <= b <= v@.len(),
    ensures
        final(field)@ == v@.subrange(a as int, b as int),
{
    *field = string_of_range(v, a, b);
}

/// Apply a directive line `v[a..b]` (already trimmed, non-blank).
fn apply_directive(out: &mut ParsedOvpn, v: &Vec<char>, a: usize, b: usize)
    requires
        a <= b <= v@.len(),
    ensures
        final(out)@ == ovpn_directive(old(out)@, v@.subrange(a as int, b as int)),
{
    let ghost line = v@.subrange(a as int, b as int);
    let (ka, kb) = match next_word(v, a, b) {
        None => {
            return;
        },
        Some(w) => w,
    };
    let ghost rest = v@.subrange(kb as int, b as int);
    let key = lower_range(v, ka, kb);
    let w1 = next_word(v, kb, b);
    if whole_eq(&key, "remote") {
        match w1 {
            Some((ha, hb)) => {
                let port = match next_word(v, hb, b) {
                    Some((pa, pb)) => match parse_u16_range(v, pa, pb) {
                        Some(x) => x,
                        None => 1194,
                    },
                    None => 1194,
                };
                assert(port == remote_port_of(rest));
                if out.remote_host.as_str().is_empty() {
                    set_from_range(&mut out.remote_host, v, ha, hb);
                    out.remote_port = port;
                }
                let ghost before = out@;
                let host = string_of_range(v, ha, hb);
                out.remotes.push((host, port));
                assert(out@.remotes =~= before.remotes.push((v@.subrange(ha as int, hb as int), port)));
                assert(out@ == ovpn_directive(old(out)@, line));
            },
            None => {},
        }
    } else if whole_eq(&key, "proto") {
        match w1 {
            Some((pa, pb)) => {
                let p = lower_range(v, pa, pb);
                out.proto = string_from_chars(p.as_slice());
            },
            None => {},
        }
    } else if whole_eq(&key, "port") {
        match w1 {
            Some((pa, pb)) => match parse_u16_range(v, pa, pb) {
                Some(x) => {
                    out.remote_port = x;
                },
                None => {},
            },
            None => {},
        }
    } else if whole_eq(&key, "dev") {
        match w1 {
            Some((pa, pb)) => set_from_range(&mut out.dev, v, pa, pb),
            None => {},
        }
    } else if whole_eq(&key, "cipher") {
        match w1 {
            Some((pa, pb)) => set_from_range(&mut out.cipher, v, pa, pb),
            None => {},
        }
    } else if whole_eq(&key, "auth") {
        match w1 {
            Some((pa, pb)) => set_from_range(&mut out.auth, v, pa, pb),
            None => {},
        }
    } else if is_tls_tag_exec(&key) {
        out.has_tls_auth = true;
    }
    assert(out@ == ovpn_directive(old(out)@, line));
}

/// Apply one profile line `v[a..b]`.
fn apply_ovpn_line(out: &mut ParsedOvpn, in_tag: &mut bool, v: &Vec<char>, a: usize, b: usize)
    requires
        a <= b <= v@.len(),
    ensures
        (final(out)@, *final(in_tag)) == ovpn_step(
            (old(out)@, *old(in_tag)),
            v@.subrange(a as int, b as int),
        ),
{
    let (ta, tb) = trim_range(v, a, b);
    let ghost line = v@.subrange(ta as int, tb as int);
    if ta == tb || v[ta] == '#' || v[ta] == ';' {
        return;
    }
    if v[ta] == '<' {
        assert(line.drop_first() =~= v@.subrange(ta + 1, tb as int));
        if tb - ta >= 2 && v[tb - 1] == '>' {
            assert(line.drop_first().drop_last() =~= v@.subrange(ta + 1, tb - 1));
            if !(tb - 1 > ta + 1 && v[ta + 1] == '/') {
                let l = lower_range(v, ta + 1, tb - 1);
                *in_tag = true;
                if is_inline_cert_tag_exec(&l) {
                    out.has_inline_certs = true;
                }
                if is_tls_tag_exec(&l) {
                    out.has_tls_auth = true;
                }
            } else {
                *in_tag = false;
            }
        }
        return;
    }
    if *in_tag {
        return;
    }
    apply_directive(out, v, ta, tb);
}

/// Parse a standard OpenVPN client configuration text.
///
/// Lines are trimmed; blank lines and `#`/`;` comments are skipped; inline
/// `<tag>` … `</tag>` blocks are skipped after noting whether they carry key
/// material; the first `remote` sets host and port, every `remote` with a
/// host is listed.
pub fn parse_ovpn(content: &str) -> (out: ParsedOvpn)
    ensures
        out@ == spec_parse_ovpn(content@),
{
    let v = chars_of(content);
    let mut out = ParsedOvpn {
        remote_host: owned(""),
        remote_port: 1194,
        proto: owned("udp"),
        dev: owned("tun"),
        cipher: owned(""),
        auth: owned(""),
        has_tls_auth: false,
        has_inline_certs: false,
        remotes: Vec::new(),
    };
    let mut in_tag = false;
    proof {
        assert(""@ =~= Seq::<char>::empty()) by {
            reveal_strlit("");
        }
        assert(out@.remotes =~= Seq::<(Seq<char>, u16)>::empty());
        assert(out@ == initial_ovpn());
        assert(v@.skip(0) =~= v@);
    }
    let ghost mut done: Seq<Seq<char>> = Seq::empty();
    let mut pos: usize = 0;
    while pos < v.len()
        invariant
            pos <= v@.len(),
            v@ == content@,
            done + lines(v@.skip(pos as int)) == lines(v@),
            (out@, in_tag) == ovpn_fold(done),
        decreases v@.len() - pos,
    {
        let (a, b, next) = next_line(&v, pos);
        let ghost line = v@.subrange(a as int, b as int);
        apply_ovpn_line(&mut out, &mut in_tag, &v, a, b);
        proof {
            assert(done.push(line) + lines(v@.skip(next as int)) =~= done + lines(
                v@.skip(pos as int),
            ));
            assert(done.push(line).drop_last() =~= done);
            done = done.push(line);
        }
        pos = next;
    }
    proof {
        assert(v@.skip(pos as int) =~= Seq::<char>::empty());
        assert(done =~= lines(v@));
    }
    out
}

// ---------------------------------------------------------------------------
// auth-user-pass detection
// ---------------------------------------------------------------------------

/// One line of the `auth-user-pass` scan; state is `(found, in_tag)`.
pub open spec fn auth_step(st: (bool, bool), raw: Seq<char>) -> (bool, bool) {
    let line = trim(raw);
    if st.0 || is_blank_or_comment(line) {
        st
    } else if line[0] == '<' {
        (false, !starts_with(line, "</"@))
    } else if st.1 {
        st
    } else {
        match word1(line) {
            Some(k) => (lower(k) == "auth-user-pass"@, st.1),
            None => st,
        }
    }
}

pub open spec fn auth_fold(ls: Seq<Seq<char>>) -> (bool, bool)
    decreases ls.len(),
{
    if ls.len() == 0 {
        (false, false)
    } else {
        auth_step(auth_fold(ls.drop_last()), ls.last())
    }
}

/// Whether a profile has an `auth-user-pass` directive outside inline blocks.
pub open spec fn spec_needs_auth_user_pass(content: Seq<char>) -> bool {
    auth_fold(lines(content)).0
}

proof fn lemma_auth_found_stays(ls: Seq<Seq<char>>, k: int)
    requires
        0 <= k <= ls.len(),
        auth_fold(ls.take(k)).0,
    ensures
        auth_fold(ls).0,
    decreases ls.len() - k,
{
    if k < ls.len() {
        assert(ls.take(k + 1).drop_last() =~= ls.take(k));
        lemma_auth_found_stays(ls, k + 1);
    } else {
        assert(ls.take(k) =~= ls);
    }
}

/// A directive line whose first word is `auth-user-pass` in any ASCII case.
pub open spec fn auth_user_pass_line(l: Seq<char>) -> bool {
    word1(trim(l)) matches Some(k) && lower(k) == "auth-user-pass"@
}

proof fn lemma_auth_found_has_line(ls: Seq<Seq<char>>)
    requires
        auth_fold(ls).0,
    ensures
        exists|i: int| 0 <= i < ls.len() && auth_user_pass_line(#[trigger] ls[i]),
    decreases ls.len(),
{
    let dl = ls.drop_last();
    if auth_fold(dl).0 {
        lemma_auth_found_has_line(dl);
        let i = choose|i: int| 0 <= i < dl.len() && auth_user_pass_line(#[trigger] dl[i]);
        assert(ls[i] == dl[i]);
    } else {
        assert(auth_user_pass_line(ls[ls.len() - 1]));
    }
}

proof fn lemma_auth_fold_block(ls: Seq<Seq<char>>)
    requires
        !auth_fold(ls).0,
    ensures
        auth_fold(ls).1 == !ends_outside_inline_block(ls),
    decreases ls.len(),
{
    if ls.len() > 0 {
        let dl = ls.drop_last();
        if auth_fold(dl).0 {
            assert(auth_fold(ls).0);
        }
        lemma_auth_fold_block(dl);
        let t = trim(ls.last());
        reveal_strlit("<");
        if t.len() > 0 && t[0] == '<' {
            assert(t.take(1) =~= "<"@);
        }
        if starts_with(t, "<"@) {
            assert(t.take(1)[0] == t[0]);
        }
    }
}

proof fn lemma_auth_fold_keeps(ls: Seq<Seq<char>>, j: int)
    requires
        0 <= j <= ls.len(),
        auth_fold(ls.take(j)).0,
    ensures
        auth_fold(ls).0,
    decreases ls.len() - j,
{
    if j < ls.len() {
        assert(ls.take(j + 1).drop_last() =~= ls.take(j));
        lemma_auth_fold_keeps(ls, j + 1);
    } else {
        assert(ls.take(j) =~= ls);
    }
}

/// A profile asks for credentials exactly when it has an `auth-user-pass`
/// directive: if it needs them, one of its lines is such a directive (other
/// directives such as `auth SHA256` or `auth-nocache` never count); and an
/// `auth-user-pass` line with no inline block open before it (the last
/// line starting with `<` before it, if any, starts with `</`) makes it need them.
pub proof fn law_credentials_only_for_auth_user_pass(c: Seq<char>, i: int)
    ensures
        spec_needs_auth_user_pass(c) ==> exists|j: int| 0 <= j < lines(c).len() && auth_user_pass_line(#[trigger] lines(c)[j]),
        0 <= i < lines(c).len() && ends_outside_inline_block(lines(c).take(i)) && auth_user_pass_line(
            lines(c)[i],
        ) ==> spec_needs_auth_user_pass(c),
{
    let ls = lines(c);
    if spec_needs_auth_user_pass(c) {
        lemma_auth_found_has_line(ls);
    }
    if 0 <= i < ls.len() && ends_outside_inline_block(ls.take(i)) && auth_user_pass_line(ls[i]) {
        let pre = ls.take(i);
        assert(ls.take(i + 1).drop_last() =~= pre);
        assert(ls.take(i + 1).last() == ls[i]);
        if !auth_fold(pre).0 {
            lemma_auth_fold_block(pre);
            let l = ls[i];
            let t = trim(l);
            let k = word1(t).unwrap();
            reveal_strlit("auth-user-pass");
            lemma_first_word_shape(t);
            assert(t.len() > 0) by {
                lemma_trim_start_len(t);
            }
            lemma_trim_first_not_ws(l);
            lemma_trim_start_len(t);
            assert(trim_start(t) == t);
            assert(k[0] == t[0]) by {
                if exists|x: int| is_first_ws(t, x) {
                    let x = choose|x: int| is_first_ws(t, x);
                    assert(x > 0);
                    assert(t.take(x)[0] == t[0]);
                }
            }
            assert(lower(k)[0] == lower_char(k[0]));
            assert(lower(k)[0] == 'a');
            assert(t[0] != '<' && t[0] != '#' && t[0] != ';');
            assert(auth_fold(ls.take(i + 1)).0);
        }
        assert(auth_fold(ls.take(i + 1)).0);
        lemma_auth_fold_keeps(ls, i + 1);
    }
}

/// True when the profile expects a username/password (`auth-user-pass`).
pub fn needs_auth_user_pass(content: &str) -> (r: bool)
    ensures
        r == spec_needs_auth_user_pass(content@),
{
    let v = chars_of(content);
    let mut in_tag = false;
    let ghost mut done: Seq<Seq<char>> = Seq::empty();
    let mut pos: usize = 0;
    proof {
        assert(v@.skip(0) =~= v@);
    }
    while pos < v.len()
        invariant
            pos <= v@.len(),
            v@ == content@,
            done + lines(v@.skip(pos as int)) == lines(v@),
            auth_fold(done) == (false, in_tag),
        decreases v@.len() - pos,
    {
        let (a, b, next) = next_line(&v, pos);
        let ghost raw = v@.subrange(a as int, b as int);
        proof {
            assert(done.push(raw) + lines(v@.skip(next as int)) =~= done + lines(
                v@.skip(pos as int),
            ));
            assert(done.push(raw).drop_last() =~= done);
        }
        let (ta, tb) = trim_range(&v, a, b);
        pos = next;
        if ta == tb || v[ta] == '#' || v[ta] == ';' {
            proof {
                done = done.push(raw);
            }
            continue;
        }
        if v[ta] == '<' {
            in_tag = !range_starts_with(&v, ta, tb, "</");
            proof {
                done = done.push(raw);
            }
            continue;
        }
        if in_tag {
            proof {
                done = done.push(raw);
            }
            continue;
        }
        match next_word(&v, ta, tb) {
            Some((ka, kb)) => {
                let k = lower_range(&v, ka, kb);
                if whole_eq(&k, "auth-user-pass") {
                    proof {
                        let all = lines(v@);
                        assert(done.push(raw) =~= all.take(done.len() as int + 1));
                        lemma_auth_found_stays(all, done.len() as int + 1);
                    }
                    return true;
                }
            },
            None => {},
        }
        proof {
            done = done.push(raw);
        }
    }
    proof {
        assert(v@.skip(pos as int) =~= Seq::<char>::empty());
        assert(done =~= lines(v@));
    }
    false
}

// ---------------------------------------------------------------------------
// Profile-side file names and paths
// ---------------------------------------------------------------------------

/// A directory joined with a relative file name, always with `/` as the
/// separator: no separator is added after an empty directory or one that
/// already ends with `/`. This is `Path::join` on Unix; on Windows
/// `Path::join` writes `\` instead, while this still writes `/` (which
/// Windows also accepts as a separator), and a directory ending in `\` gets
/// a `/` added after it.
pub open spec fn path_join(dir: Seq<char>, name: Seq<char>) -> Seq<char> {
    if dir.len() == 0 {
        name
    } else if dir.last() == '/' {
        dir + name
    } else {
        dir + seq!['/'] + name
    }
}

/// `ovpn_{id}{suffix}`.
pub open spec fn ovpn_file_name(id: i64, suffix: Seq<char>) -> Seq<char> {
    "ovpn_"@ + dec_signed(id as int) + suffix
}

proof fn lemma_join_injective(dir: Seq<char>, n1: Seq<char>, n2: Seq<char>)
    requires
        path_join(dir, n1) == path_join(dir, n2),
    ensures
        n1 == n2,
{
    let pre = if dir.len() == 0 {
        Seq::<char>::empty()
    } else if dir.last() == '/' {
        dir
    } else {
        dir + seq!['/']
    };
    assert(path_join(dir, n1) =~= pre + n1);
    assert(path_join(dir, n2) =~= pre + n2);
    assert((pre + n1).skip(pre.len() as int) =~= n1);
    assert((pre + n2).skip(pre.len() as int) =~= n2);
}

proof fn lemma_dec_signed_no_dot(x: i64)
    ensures
        dec_signed(x as int).len() >= 1,
        forall|i: int| 0 <= i < dec_signed(x as int).len() ==> #[trigger] dec_signed(x as int)[i] != '.',
{
    if x < 0 {
        let d = dec((-x) as nat);
        crate::num::lemma_dec_digits((-x) as nat);
        assert forall|i: int| 0 <= i < dec_signed(x as int).len() implies #[trigger] dec_signed(x as int)[i] != '.' by {
            if i > 0 {
                assert(dec_signed(x as int)[i] == d[i - 1]);
            }
        }
    } else {
        crate::num::lemma_dec_digits(x as nat);
    }
}

proof fn lemma_file_name_injective(a: i64, b: i64, s1: Seq<char>, s2: Seq<char>)
    requires
        s1.len() > 0 && s1[0] == '.',
        s2.len() > 0 && s2[0] == '.',
        ovpn_file_name(a, s1) == ovpn_file_name(b, s2),
    ensures
        a == b,
        s1 == s2,
{
    reveal_strlit("ovpn_");
    let da = dec_signed(a as int);
    let db = dec_signed(b as int);
    let n = ovpn_file_name(a, s1);
    lemma_dec_signed_no_dot(a);
    lemma_dec_signed_no_dot(b);
    assert(n == "ovpn_"@ + da + s1);
    assert(n == "ovpn_"@ + db + s2);
    let la = da.len() as int;
    let lb = db.len() as int;
    if la < lb {
        assert(n[5 + la] == s1[0]);
        assert(n[5 + la] == db[la]);
    } else if lb < la {
        assert(n[5 + lb] == s2[0]);
        assert(n[5 + lb] == da[lb]);
    }
    assert(la == lb);
    assert(da =~= n.subrange(5, 5 + la));
    assert(db =~= n.subrange(5, 5 + lb));
    assert(s1 =~= n.skip(5 + la));
    assert(s2 =~= n.skip(5 + lb));
    crate::num::lemma_parse_dec_signed(a as int, i64::MIN as int, i64::MAX as int);
    crate::num::lemma_parse_dec_signed(b as int, i64::MIN as int, i64::MAX as int);
}

/// The files of OpenVPN profiles never collide: in one directory, the
/// credentials, log and runtime-profile paths of profiles `a` and `b` are
/// equal only for the same kind of file of the same profile, and each path
/// ends with its file name `ovpn_<id><suffix>`.
pub proof fn law_profile_paths_distinct(dir: Seq<char>, a: i64, b: i64)
    ensures
        (path_join(dir, ovpn_file_name(a, ".runtime.ovpn"@)) == path_join(dir, ovpn_file_name(b, ".runtime.ovpn"@))) == (a == b),
        (path_join(dir, ovpn_file_name(a, ".auth"@)) == path_join(dir, ovpn_file_name(b, ".auth"@))) == (a == b),
        (path_join(dir, ovpn_file_name(a, ".log"@)) == path_join(dir, ovpn_file_name(b, ".log"@))) == (a == b),
        path_join(dir, ovpn_file_name(a, ".runtime.ovpn"@)) != path_join(dir, ovpn_file_name(b, ".auth"@)),
        path_join(dir, ovpn_file_name(a, ".runtime.ovpn"@)) != path_join(dir, ovpn_file_name(b, ".log"@)),
        path_join(dir, ovpn_file_name(a, ".auth"@)) != path_join(dir, ovpn_file_name(b, ".log"@)),
        ends_with(path_join(dir, ovpn_file_name(a, ".runtime.ovpn"@)), ovpn_file_name(a, ".runtime.ovpn"@)),
{
    reveal_strlit(".runtime.ovpn");
    reveal_strlit(".auth");
    reveal_strlit(".log");
    let rt = ".runtime.ovpn"@;
    let au = ".auth"@;
    let lg = ".log"@;
    assert(rt != au && rt != lg && au != lg) by {
        assert(rt.len() != au.len() && rt.len() != lg.len());
        assert(au[1] != lg[1]);
    }
    let sfx = seq![rt, au, lg];
    assert forall|i: int, j: int|
        0 <= i < 3 && 0 <= j < 3 && path_join(dir, ovpn_file_name(a, #[trigger] sfx[i])) == path_join(
            dir,
            ovpn_file_name(b, #[trigger] sfx[j]),
        ) implies a == b && i == j by {
        lemma_join_injective(dir, ovpn_file_name(a, sfx[i]), ovpn_file_name(b, sfx[j]));
        lemma_file_name_injective(a, b, sfx[i], sfx[j]);
    }
    assert(sfx[0] == rt && sfx[1] == au && sfx[2] == lg);
    let name = ovpn_file_name(a, rt);
    let p = path_join(dir, name);
    assert(p.skip(p.len() - name.len()) =~= name);
}

fn join_file(dir: &str, id: i64, suffix: &str) -> (r: String)
    ensures
        r@ == path_join(dir@, ovpn_file_name(id, suffix@)),
{
    let d = chars_of(dir);
    let mut out: Vec<char> = Vec::new();
    let n = d.len();
    push_range(&mut out, &d, 0, n);
    assert(d@.subrange(0, n as int) =~= d@);
    if n > 0 && d[n - 1] != '/' {
        out.push('/');
    }
    push_str(&mut out, "ovpn_");
    push_i64(&mut out, id);
    push_str(&mut out, suffix);
    assert(out@ =~= path_join(dir@, ovpn_file_name(id, suffix@)));
    string_from_chars(out.as_slice())
}

/// `<profiles_dir>/ovpn_<id>.auth`: the credentials file of a profile.
pub fn auth_file_path(profiles_dir: &str, id: i64) -> (r: String)
    ensures
        r@ == path_join(profiles_dir@, ovpn_file_name(id, ".auth"@)),
{
    join_file(profiles_dir, id, ".auth")
}

/// `<profiles_dir>/ovpn_<id>.log`: the OpenVPN log of a profile.
pub fn log_file_path(profiles_dir: &str, id: i64) -> (r: String)
    ensures
        r@ == path_join(profiles_dir@, ovpn_file_name(id, ".log"@)),
{
    join_file(profiles_dir, id, ".log")
}

/// `<profiles_dir>/ovpn_<id>.runtime.ovpn`: the rewritten profile OpenVPN runs.
pub fn runtime_profile_path(profiles_dir: &str, id: i64) -> (r: String)
    ensures
        r@ == path_join(profiles_dir@, ovpn_file_name(id, ".runtime.ovpn"@)),
{
    join_file(profiles_dir, id, ".runtime.ovpn")
}

/// A path as OpenVPN reads it in a config value: every `\` becomes `/`
/// (OpenVPN treats `\` as an escape).
pub open spec fn spec_config_path(path: Seq<char>) -> Seq<char> {
    replace_char(path, '\\', '/')
}

fn push_config_path(out: &mut Vec<char>, v: &Vec<char>, a: usize, b: usize)
    requires
        a <= b <= v@.len(),
    ensures
        final(out)@ == old(out)@ + spec_config_path(v@.subrange(a as int, b as int)),
{
    let mut i = a;
    while i < b
        invariant
            a <= i <= b <= v@.len(),
            out@ == old(out)@ + spec_config_path(v@.subrange(a as int, i as int)),
        decreases b - i,
    {
        let c = v[i];
        out.push(if c == '\\' { '/' } else { c });
        i += 1;
        assert(out@ =~= old(out)@ + spec_config_path(v@.subrange(a as int, i as int)));
    }
}

/// `path` with `\` replaced by `/`, for use inside an OpenVPN config.
pub fn openvpn_config_path(path: &str) -> (r: String)
    ensures
        r@ == spec_config_path(path@),
{
    let v = chars_of(path);
    let mut out: Vec<char> = Vec::new();
    push_config_path(&mut out, &v, 0, v.len());
    assert(v@.subrange(0, v@.len() as int) =~= v@);
    assert(out@ =~= spec_config_path(path@));
    string_from_chars(out.as_slice())
}

/// The contents of an `auth-user-pass` file: the user name, then the password,
/// each on its own line.
pub open spec fn spec_auth_file_contents(username: Seq<char>, password: Seq<char>) -> Seq<char> {
    username.push('\n') + password.push('\n')
}

/// What `write_auth_file` writes.
pub fn auth_file_contents(username: &str, password: &str) -> (r: String)
    ensures
        r@ == spec_auth_file_contents(username@, password@),
{
    let mut out: Vec<char> = Vec::new();
    push_str(&mut out, username);
    out.push('\n');
    push_str(&mut out, password);
    out.push('\n');
    assert(out@ =~= spec_auth_file_contents(username@, password@));
    string_from_chars(out.as_slice())
}

// ---------------------------------------------------------------------------
// Runtime profile
// ---------------------------------------------------------------------------

/// The Windows driver to request: Wintun only when its DLL sits next to
/// `openvpn.exe`; otherwise none, so OpenVPN picks DCO or TAP itself.
pub fn preferred_windows_driver(wintun_dll_beside_exe: bool) -> (r: Option<String>)
    ensures
        wintun_dll_beside_exe ==> (r matches Some(d) && d@ == "wintun"@),
        !wintun_dll_beside_exe ==> r is None,
{
    if wintun_dll_beside_exe {
        Some(owned("wintun"))
    } else {
        None
    }
}

/// State of the runtime-profile rewrite.
pub struct RtState {
    pub out: Seq<char>,
    pub in_tag: bool,
    pub saw_auth: bool,
    pub saw_redirect: bool,
    pub saw_driver: bool,
    pub saw_dev: bool,
}

pub open spec fn rt_initial() -> RtState {
    RtState {
        out: Seq::empty(),
        in_tag: false,
        saw_auth: false,
        saw_redirect: false,
        saw_driver: false,
        saw_dev: false,
    }
}

/// The `auth-user-pass` line written for a profile line `t`.
pub open spec fn rt_auth_line(raw: Seq<char>, t: Seq<char>, auth: Option<Seq<char>>) -> Seq<char> {
    match auth {
        Some(p) => "auth-user-pass "@ + spec_config_path(p) + "\n"@,
        None => match word2(t) {
            Some(e) => "auth-user-pass "@ + spec_config_path(e) + "\n"@,
            None => raw.push('\n'),
        },
    }
}

/// Effect of one line of the source profile on the rewritten one.
pub open spec fn rt_step(st: RtState, raw: Seq<char>, auth: Option<Seq<char>>) -> RtState {
    let t = trim(raw);
    let keep = st.out + raw.push('\n');
    if starts_with(t, "<"@) {
        RtState { out: keep, in_tag: !starts_with(t, "</"@), ..st }
    } else if st.in_tag || is_blank_or_comment(t) {
        RtState { out: keep, ..st }
    } else {
        match word1(t) {
            None => RtState { out: keep, ..st },
            Some(k) => rt_directive(st, raw, t, lower(k), auth),
        }
    }
}

/// Effect of a directive line whose lower-cased first word is `key`.
pub open spec fn rt_directive(
    st: RtState,
    raw: Seq<char>,
    t: Seq<char>,
    key: Seq<char>,
    auth: Option<Seq<char>>,
) -> RtState {
    let keep = st.out + raw.push('\n');
    {
        if key == "auth-user-pass"@ {
            RtState { out: st.out + rt_auth_line(raw, t, auth), saw_auth: true, ..st }
        } else if key == "dev"@ {
            RtState { out: st.out + "dev tun\n"@, saw_dev: true, ..st }
        } else if key == "windows-driver"@ {
            RtState { out: keep, saw_driver: true, ..st }
        } else if key == "redirect-gateway"@ {
            RtState {
                out: if seq_contains(lower(t), "def1"@) {
                    keep
                } else {
                    st.out + "redirect-gateway def1 bypass-dhcp\n"@
                },
                saw_redirect: true,
                ..st
            }
        } else {
            RtState { out: keep, ..st }
        }
    }
}

pub open spec fn rt_fold(ls: Seq<Seq<char>>, auth: Option<Seq<char>>) -> RtState
    decreases ls.len(),
{
    if ls.len() == 0 {
        rt_initial()
    } else {
        rt_step(rt_fold(ls.drop_last(), auth), ls.last(), auth)
    }
}

/// Lines appended after the rewrite: `dev tun`, the Windows driver,
/// `redirect-gateway def1`, the `auth-user-pass` file (each when missing), then
/// `auth-nocache` and `script-security 2` unless already mentioned.
pub open spec fn rt_finish(st: RtState, auth: Option<Seq<char>>, driver: Option<Seq<char>>) -> Seq<
    char,
> {
    let o1 = if !st.saw_dev {
        st.out + "dev tun\n"@
    } else {
        st.out
    };
    let o2 = if st.saw_driver {
        o1
    } else {
        match driver {
            Some(d) => o1 + "windows-driver "@ + d + "\n"@,
            None => o1,
        }
    };
    let o3 = if !st.saw_redirect {
        o2 + "redirect-gateway def1 bypass-dhcp\n"@
    } else {
        o2
    };
    let o4 = if st.saw_auth {
        o3
    } else {
        match auth {
            Some(p) => o3 + "auth-user-pass "@ + spec_config_path(p) + "\n"@,
            None => o3,
        }
    };
    let o5 = if !seq_contains(lower(o4), "auth-nocache"@) {
        o4 + "auth-nocache\n"@
    } else {
        o4
    };
    if !seq_contains(lower(o5), "script-security"@) {
        o5 + "script-security 2\n"@
    } else {
        o5
    }
}

/// The text of the runtime profile built from `content`.
pub open spec fn spec_runtime_profile(
    content: Seq<char>,
    auth: Option<Seq<char>>,
    driver: Option<Seq<char>>,
) -> Seq<char> {
    rt_finish(rt_fold(lines(content), auth), auth, driver)
}

proof fn lemma_contains_extended(a: Seq<char>, x: Seq<char>, n: Seq<char>)
    requires
        seq_contains(a, n),
    ensures
        seq_contains(a + x, n),
{
    let i = choose|i: int| occurs_at(a, n, i);
    assert((a + x).subrange(i, i + n.len()) =~= a.subrange(i, i + n.len()));
    assert(occurs_at(a + x, n, i));
}

proof fn lemma_contains_tail(a: Seq<char>, n: Seq<char>)
    ensures
        seq_contains(a + n, n),
{
    assert((a + n).subrange(a.len() as int, (a.len() + n.len()) as int) =~= n);
    assert(occurs_at(a + n, n, a.len() as int));
}

proof fn lemma_lower_append(a: Seq<char>, b: Seq<char>)
    ensures
        lower(a + b) == lower(a) + lower(b),
{
    assert(lower(a + b) =~= lower(a) + lower(b));
}

/// A rewrite step only appends to the text, and never forgets a directive
/// it has seen.
proof fn lemma_rt_step_keeps(st: RtState, raw: Seq<char>, auth: Option<Seq<char>>, n: Seq<char>)
    requires
        seq_contains(st.out, n),
    ensures
        seq_contains(rt_step(st, raw, auth).out, n),
        st.saw_auth ==> rt_step(st, raw, auth).saw_auth,
        st.saw_dev ==> rt_step(st, raw, auth).saw_dev,
{
    let t = trim(raw);
    lemma_contains_extended(st.out, raw.push('\n'), n);
    lemma_contains_extended(st.out, rt_auth_line(raw, t, auth), n);
    lemma_contains_extended(st.out, "dev tun\n"@, n);
    lemma_contains_extended(st.out, "redirect-gateway def1 bypass-dhcp\n"@, n);
}

/// The `auth-user-pass` line that points at the credentials file `p`.
pub open spec fn auth_file_line(p: Seq<char>) -> Seq<char> {
    "auth-user-pass "@ + spec_config_path(p) + "\n"@
}

proof fn lemma_rt_fold_marks(ls: Seq<Seq<char>>, auth: Option<Seq<char>>)
    ensures
        rt_fold(ls, auth).saw_dev ==> seq_contains(rt_fold(ls, auth).out, "dev tun\n"@),
        rt_fold(ls, auth).saw_auth && auth is Some ==> seq_contains(
            rt_fold(ls, auth).out,
            auth_file_line(auth->0),
        ),
    decreases ls.len(),
{
    if ls.len() > 0 {
        lemma_rt_fold_marks(ls.drop_last(), auth);
        let st = rt_fold(ls.drop_last(), auth);
        let raw = ls.last();
        if st.saw_dev {
            lemma_rt_step_keeps(st, raw, auth, "dev tun\n"@);
        } else {
            lemma_contains_tail(st.out, "dev tun\n"@);
        }
        match auth {
            Some(p) => {
                if st.saw_auth {
                    lemma_rt_step_keeps(st, raw, auth, auth_file_line(p));
                } else {
                    lemma_contains_tail(st.out, auth_file_line(p));
                    assert(rt_auth_line(raw, trim(raw), auth) == auth_file_line(p));
                }
            },
            None => {},
        }
    }
}

/// What `rt_finish` appends after the rewritten lines.
proof fn lemma_rt_finish_extends(st: RtState, auth: Option<Seq<char>>, driver: Option<Seq<char>>, n: Seq<char>)
    requires
        seq_contains(st.out, n),
    ensures
        seq_contains(rt_finish(st, auth, driver), n),
{
    let o1 = if !st.saw_dev { st.out + "dev tun\n"@ } else { st.out };
    lemma_contains_extended(st.out, "dev tun\n"@, n);
    let o2 = if st.saw_driver {
        o1
    } else {
        match driver {
            Some(d) => o1 + "windows-driver "@ + d + "\n"@,
            None => o1,
        }
    };
    match driver {
        Some(d) => {
            lemma_contains_extended(o1, "windows-driver "@ + d + "\n"@, n);
            assert(o1 + "windows-driver "@ + d + "\n"@ =~= o1 + ("windows-driver "@ + d + "\n"@));
        },
        None => {},
    }
    let o3 = if !st.saw_redirect { o2 + "redirect-gateway def1 bypass-dhcp\n"@ } else { o2 };
    lemma_contains_extended(o2, "redirect-gateway def1 bypass-dhcp\n"@, n);
    let o4 = if st.saw_auth {
        o3
    } else {
        match auth {
            Some(p) => o3 + "auth-user-pass "@ + spec_config_path(p) + "\n"@,
            None => o3,
        }
    };
    match auth {
        Some(p) => {
            lemma_contains_extended(o3, auth_file_line(p), n);
            assert(o3 + "auth-user-pass "@ + spec_config_path(p) + "\n"@ =~= o3 + auth_file_line(p));
        },
        None => {},
    }
    let o5 = if !seq_contains(lower(o4), "auth-nocache"@) { o4 + "auth-nocache\n"@ } else { o4 };
    lemma_contains_extended(o4, "auth-nocache\n"@, n);
    lemma_contains_extended(o5, "script-security 2\n"@, n);
}

/// A runtime profile never leaves OpenVPN waiting on a prompt: its text
/// always mentions `auth-nocache` and `script-security` (in any case),
/// whatever the source profile held.
pub proof fn law_runtime_profile_never_prompts(
    content: Seq<char>,
    auth: Option<Seq<char>>,
    driver: Option<Seq<char>>,
)
    ensures
        seq_contains(lower(spec_runtime_profile(content, auth, driver)), "auth-nocache"@),
        seq_contains(lower(spec_runtime_profile(content, auth, driver)), "script-security"@),
{
    reveal_strlit("auth-nocache\n");
    reveal_strlit("auth-nocache");
    reveal_strlit("script-security 2\n");
    reveal_strlit("script-security");
    reveal_strlit("\n");
    reveal_strlit(" 2\n");
    let st = rt_fold(lines(content), auth);
    let o4 = spec_runtime_profile_before_checks(st, auth, driver);
    assert(lower("auth-nocache\n"@) =~= "auth-nocache\n"@);
    assert(lower("script-security 2\n"@) =~= "script-security 2\n"@);
    let a = "auth-nocache"@;
    let sc = "script-security"@;
    let o5 = if !seq_contains(lower(o4), a) { o4 + "auth-nocache\n"@ } else { o4 };
    if !seq_contains(lower(o4), a) {
        lemma_lower_append(o4, "auth-nocache\n"@);
        assert(lower(o4) + "auth-nocache\n"@ =~= lower(o4) + a + "\n"@);
        lemma_contains_tail(lower(o4), a);
        lemma_contains_extended(lower(o4) + a, "\n"@, a);
    }
    assert(seq_contains(lower(o5), a));
    if !seq_contains(lower(o5), sc) {
        lemma_lower_append(o5, "script-security 2\n"@);
        assert(lower(o5) + "script-security 2\n"@ =~= lower(o5) + sc + " 2\n"@);
        lemma_contains_tail(lower(o5), sc);
        lemma_contains_extended(lower(o5) + sc, " 2\n"@, sc);
        lemma_contains_extended(lower(o5), "script-security 2\n"@, a);
    }
    assert(rt_finish(st, auth, driver) == (if !seq_contains(lower(o5), sc) {
        o5 + "script-security 2\n"@
    } else {
        o5
    }));
}

/// The rewritten text before the `auth-nocache` / `script-security` checks.
pub open spec fn spec_runtime_profile_before_checks(
    st: RtState,
    auth: Option<Seq<char>>,
    driver: Option<Seq<char>>,
) -> Seq<char> {
    let o1 = if !st.saw_dev {
        st.out + "dev tun\n"@
    } else {
        st.out
    };
    let o2 = if st.saw_driver {
        o1
    } else {
        match driver {
            Some(d) => o1 + "windows-driver "@ + d + "\n"@,
            None => o1,
        }
    };
    let o3 = if !st.saw_redirect {
        o2 + "redirect-gateway def1 bypass-dhcp\n"@
    } else {
        o2
    };
    if st.saw_auth {
        o3
    } else {
        match auth {
            Some(p) => o3 + "auth-user-pass "@ + spec_config_path(p) + "\n"@,
            None => o3,
        }
    }
}

/// Given credentials, the runtime profile reads them from their file: it
/// holds the `auth-user-pass` line naming that file (with `/` separators).
pub proof fn law_runtime_profile_uses_credentials_file(
    content: Seq<char>,
    p: Seq<char>,
    driver: Option<Seq<char>>,
)
    ensures
        seq_contains(spec_runtime_profile(content, Some(p), driver), auth_file_line(p)),
{
    let st = rt_fold(lines(content), Some(p));
    lemma_rt_fold_marks(lines(content), Some(p));
    if st.saw_auth {
        lemma_rt_finish_extends(st, Some(p), driver, auth_file_line(p));
    } else {
        let o1 = if !st.saw_dev { st.out + "dev tun\n"@ } else { st.out };
        let o2 = if st.saw_driver {
            o1
        } else {
            match driver {
                Some(d) => o1 + "windows-driver "@ + d + "\n"@,
                None => o1,
            }
        };
        let o3 = if !st.saw_redirect { o2 + "redirect-gateway def1 bypass-dhcp\n"@ } else { o2 };
        let o4 = o3 + "auth-user-pass "@ + spec_config_path(p) + "\n"@;
        assert(o4 =~= o3 + auth_file_line(p));
        lemma_contains_tail(o3, auth_file_line(p));
        lemma_contains_extended(o4, "auth-nocache\n"@, auth_file_line(p));
        let o5 = if !seq_contains(lower(o4), "auth-nocache"@) { o4 + "auth-nocache\n"@ } else { o4 };
        lemma_contains_extended(o5, "script-security 2\n"@, auth_file_line(p));
    }
}

/// Every runtime profile has a `dev tun` line (a named device is rewritten
/// to plain `tun`, a missing one added).
pub proof fn law_runtime_profile_has_dev_tun(
    content: Seq<char>,
    auth: Option<Seq<char>>,
    driver: Option<Seq<char>>,
)
    ensures
        seq_contains(spec_runtime_profile(content, auth, driver), "dev tun\n"@),
{
    let st = rt_fold(lines(content), auth);
    lemma_rt_fold_marks(lines(content), auth);
    if st.saw_dev {
        lemma_rt_finish_extends(st, auth, driver, "dev tun\n"@);
    } else {
        let st2 = RtState { out: st.out + "dev tun\n"@, saw_dev: true, ..st };
        lemma_contains_tail(st.out, "dev tun\n"@);
        lemma_rt_finish_extends(st2, auth, driver, "dev tun\n"@);
        assert(rt_finish(st2, auth, driver) == rt_finish(st, auth, driver));
    }
}

proof fn lemma_trim_end_prefix(s: Seq<char>)
    ensures
        trim_end(s).len() <= s.len(),
        trim_end(s) == s.take(trim_end(s).len() as int),
    decreases s.len(),
{
    if s.len() > 0 && is_ws(s.last()) {
        lemma_trim_end_prefix(s.drop_last());
        assert(s.drop_last().take(trim_end(s).len() as int) =~= s.take(trim_end(s).len() as int));
    } else {
        assert(s.take(s.len() as int) =~= s);
    }
}

/// `trim(s)` is the piece of `s` starting after its leading whitespace.
proof fn lemma_trim_subrange(s: Seq<char>)
    ensures
        trim_start(s).len() <= s.len(),
        s.len() - trim_start(s).len() + trim(s).len() <= s.len(),
        trim(s) == s.subrange(
            s.len() - trim_start(s).len(),
            s.len() - trim_start(s).len() + trim(s).len(),
        ),
{
    lemma_trim_start_len(s);
    lemma_trim_end_prefix(trim_start(s));
    let k = s.len() - trim_start(s).len();
    assert(trim(s) =~= s.subrange(k, k + trim(s).len()));
}

/// A needle found in a piece of `s` is found in `s`.
proof fn lemma_contains_in_subrange(s: Seq<char>, a: int, b: int, n: Seq<char>)
    requires
        0 <= a <= b <= s.len(),
        seq_contains(s.subrange(a, b), n),
    ensures
        seq_contains(s, n),
{
    let i = choose|i: int| occurs_at(s.subrange(a, b), n, i);
    assert(s.subrange(a + i, a + i + n.len()) =~= s.subrange(a, b).subrange(i, i + n.len()));
    assert(occurs_at(s, n, a + i));
}

proof fn lemma_lower_subrange(s: Seq<char>, a: int, b: int)
    requires
        0 <= a <= b <= s.len(),
    ensures
        lower(s.subrange(a, b)) == lower(s).subrange(a, b),
{
    assert(lower(s.subrange(a, b)) =~= lower(s).subrange(a, b));
}

/// The first word of a line is a piece of the line.
proof fn lemma_word1_in(s: Seq<char>)
    requires
        word1(s) is Some,
    ensures
        exists|a: int| 0 <= a && a + word1(s)->0.len() <= s.len() && #[trigger] s.subrange(a, a + word1(s)->0.len()) == word1(s)->0,
{
    lemma_trim_start_len(s);
    let t = trim_start(s);
    let k = s.len() - t.len();
    let w = word1(s)->0;
    if exists|i: int| is_first_ws(t, i) {
        let i = choose|i: int| is_first_ws(t, i);
        assert(w == t.take(i));
    }
    assert(s.subrange(k, k + w.len()) =~= w);
}

/// The kept redirect line mentions what it was kept for.
proof fn lemma_redirect_line(raw: Seq<char>)
    requires
        word1(trim(raw)) is Some,
        lower(word1(trim(raw))->0) == "redirect-gateway"@,
        seq_contains(lower(trim(raw)), "def1"@),
    ensures
        seq_contains(lower(raw.push('\n')), "redirect-gateway"@),
        seq_contains(lower(raw.push('\n')), "def1"@),
{
    let t = trim(raw);
    let w = word1(t)->0;
    lemma_trim_subrange(raw);
    let k = raw.len() - trim_start(raw).len();
    lemma_word1_in(t);
    let a = choose|a: int| 0 <= a && a + w.len() <= t.len() && #[trigger] t.subrange(a, a + w.len()) == w;
    let r = raw.push('\n');
    assert(r.subrange(k, k + t.len()) =~= raw.subrange(k, k + t.len()));
    assert(w =~= r.subrange(k + a, k + a + w.len()));
    lemma_lower_subrange(r, k + a, k + a + w.len());
    assert(lower(r).subrange(k + a, k + a + w.len()) == "redirect-gateway"@);
    assert(occurs_at(lower(r), "redirect-gateway"@, k + a));
    lemma_lower_subrange(r, k, k + t.len());
    lemma_contains_in_subrange(lower(r), k, k + t.len(), "def1"@);
}

proof fn lemma_lower_contains_prepended(a: Seq<char>, x: Seq<char>, n: Seq<char>)
    requires
        seq_contains(lower(x), n),
    ensures
        seq_contains(lower(a + x), n),
{
    lemma_lower_append(a, x);
    let b = lower(a) + lower(x);
    assert(b.subrange(a.len() as int, b.len() as int) =~= lower(x));
    lemma_contains_in_subrange(b, a.len() as int, b.len() as int, n);
}

proof fn lemma_lower_contains_extended(a: Seq<char>, x: Seq<char>, n: Seq<char>)
    requires
        seq_contains(lower(a), n),
    ensures
        seq_contains(lower(a + x), n),
{
    lemma_lower_append(a, x);
    lemma_contains_extended(lower(a), lower(x), n);
}

/// The line added when a profile has no usable `redirect-gateway`.
pub open spec fn redirect_def1_line() -> Seq<char> {
    "redirect-gateway def1 bypass-dhcp\n"@
}

proof fn lemma_redirect_def1_line(a: Seq<char>)
    ensures
        seq_contains(lower(a + redirect_def1_line()), "redirect-gateway"@),
        seq_contains(lower(a + redirect_def1_line()), "def1"@),
{
    reveal_strlit("redirect-gateway def1 bypass-dhcp\n");
    reveal_strlit("redirect-gateway");
    reveal_strlit("def1");
    let l = redirect_def1_line();
    assert(lower(l) =~= l);
    lemma_lower_append(a, l);
    let b = lower(a);
    let n = b.len() as int;
    assert((b + l).subrange(n, n + 16) =~= "redirect-gateway"@);
    assert(occurs_at(b + l, "redirect-gateway"@, n));
    assert((b + l).subrange(n + 17, n + 21) =~= "def1"@);
    assert(occurs_at(b + l, "def1"@, n + 17));
}

/// A profile routes everything through the tunnel: once the rewrite has met
/// a `redirect-gateway` directive, the text (lower-cased) names
/// `redirect-gateway` and `def1`.
proof fn lemma_rt_fold_redirect(ls: Seq<Seq<char>>, auth: Option<Seq<char>>)
    ensures
        rt_fold(ls, auth).saw_redirect ==> seq_contains(lower(rt_fold(ls, auth).out), "redirect-gateway"@)
            && seq_contains(lower(rt_fold(ls, auth).out), "def1"@),
    decreases ls.len(),
{
    if ls.len() > 0 {
        lemma_rt_fold_redirect(ls.drop_last(), auth);
        let st = rt_fold(ls.drop_last(), auth);
        let raw = ls.last();
        let t = trim(raw);
        if st.saw_redirect {
            lemma_lower_contains_extended(st.out, raw.push('\n'), "redirect-gateway"@);
            lemma_lower_contains_extended(st.out, raw.push('\n'), "def1"@);
            lemma_lower_contains_extended(st.out, rt_auth_line(raw, t, auth), "redirect-gateway"@);
            lemma_lower_contains_extended(st.out, rt_auth_line(raw, t, auth), "def1"@);
            lemma_lower_contains_extended(st.out, "dev tun\n"@, "redirect-gateway"@);
            lemma_lower_contains_extended(st.out, "dev tun\n"@, "def1"@);
            lemma_redirect_def1_line(st.out);
        } else {
            lemma_redirect_def1_line(st.out);
            if !starts_with(t, "<"@) && !st.in_tag && !is_blank_or_comment(t) && word1(t) is Some
                && lower(word1(t)->0) == "redirect-gateway"@ && seq_contains(lower(t), "def1"@) {
                lemma_redirect_line(raw);
                lemma_lower_contains_prepended(st.out, raw.push('\n'), "redirect-gateway"@);
                lemma_lower_contains_prepended(st.out, raw.push('\n'), "def1"@);
            }
        }
    }
}

/// Everything `rt_finish` adds comes after what is already there, so a
/// (lower-cased) mention survives it; and when no `redirect-gateway` was
/// met, the one it adds is mentioned.
proof fn lemma_rt_finish_redirect(st: RtState, auth: Option<Seq<char>>, driver: Option<Seq<char>>)
    requires
        st.saw_redirect ==> seq_contains(lower(st.out), "redirect-gateway"@) && seq_contains(
            lower(st.out),
            "def1"@,
        ),
    ensures
        seq_contains(lower(rt_finish(st, auth, driver)), "redirect-gateway"@),
        seq_contains(lower(rt_finish(st, auth, driver)), "def1"@),
{
    let g = "redirect-gateway"@;
    let d1 = "def1"@;
    let o1 = if !st.saw_dev { st.out + "dev tun\n"@ } else { st.out };
    let o2 = if st.saw_driver {
        o1
    } else {
        match driver {
            Some(d) => o1 + "windows-driver "@ + d + "\n"@,
            None => o1,
        }
    };
    let o3 = if !st.saw_redirect { o2 + redirect_def1_line() } else { o2 };
    if st.saw_redirect {
        lemma_lower_contains_extended(st.out, "dev tun\n"@, g);
        lemma_lower_contains_extended(st.out, "dev tun\n"@, d1);
        match driver {
            Some(d) => {
                assert(o1 + "windows-driver "@ + d + "\n"@ =~= o1 + ("windows-driver "@ + d + "\n"@));
                lemma_lower_contains_extended(o1, "windows-driver "@ + d + "\n"@, g);
                lemma_lower_contains_extended(o1, "windows-driver "@ + d + "\n"@, d1);
            },
            None => {},
        }
    } else {
        lemma_redirect_def1_line(o2);
    }
    assert(seq_contains(lower(o3), g) && seq_contains(lower(o3), d1));
    let o4 = if st.saw_auth {
        o3
    } else {
        match auth {
            Some(p) => o3 + "auth-user-pass "@ + spec_config_path(p) + "\n"@,
            None => o3,
        }
    };
    match auth {
        Some(p) => {
            assert(o3 + "auth-user-pass "@ + spec_config_path(p) + "\n"@ =~= o3 + auth_file_line(p));
            lemma_lower_contains_extended(o3, auth_file_line(p), g);
            lemma_lower_contains_extended(o3, auth_file_line(p), d1);
        },
        None => {},
    }
    let o5 = if !seq_contains(lower(o4), "auth-nocache"@) { o4 + "auth-nocache\n"@ } else { o4 };
    lemma_lower_contains_extended(o4, "auth-nocache\n"@, g);
    lemma_lower_contains_extended(o4, "auth-nocache\n"@, d1);
    lemma_lower_contains_extended(o5, "script-security 2\n"@, g);
    lemma_lower_contains_extended(o5, "script-security 2\n"@, d1);
}

/// Every runtime profile sends all traffic through the tunnel: it has a
/// `redirect-gateway` directive with `def1` (kept when the source had one
/// with `def1`, else written as `redirect-gateway def1 bypass-dhcp`).
pub proof fn law_runtime_profile_redirects_with_def1(
    content: Seq<char>,
    auth: Option<Seq<char>>,
    driver: Option<Seq<char>>,
)
    ensures
        seq_contains(lower(spec_runtime_profile(content, auth, driver)), "redirect-gateway"@),
        seq_contains(lower(spec_runtime_profile(content, auth, driver)), "def1"@),
{
    lemma_rt_fold_redirect(lines(content), auth);
    lemma_rt_finish_redirect(rt_fold(lines(content), auth), auth, driver);
}

/// A runtime profile to be written: where, and what.
#[derive(Debug)]
pub struct RuntimeProfile {
    pub path: String,
    pub contents: String,
}

// ---------------------------------------------------------------------------
// Rewriting a rewritten profile
// ---------------------------------------------------------------------------

/// Lines written one after another, each followed by a newline.
pub open spec fn text_of_lines(ms: Seq<Seq<char>>) -> Seq<char>
    decreases ms.len(),
{
    if ms.len() == 0 {
        Seq::empty()
    } else {
        ms[0] + "\n"@ + text_of_lines(ms.drop_first())
    }
}

/// A line that splitting text into lines gives back as it is: no newline
/// in it, and no carriage return at its end.
pub open spec fn plain_line(m: Seq<char>) -> bool {
    &&& forall|i: int| 0 <= i < m.len() ==> m[i] != '\n'
    &&& (m.len() == 0 || m.last() != '\r')
}

proof fn lemma_join_append(a: Seq<Seq<char>>, b: Seq<Seq<char>>)
    ensures
        text_of_lines(a + b) == text_of_lines(a) + text_of_lines(b),
    decreases a.len(),
{
    if a.len() == 0 {
        assert(a + b =~= b);
        assert(text_of_lines(a) + text_of_lines(b) =~= text_of_lines(b));
    } else {
        assert((a + b).drop_first() =~= a.drop_first() + b);
        lemma_join_append(a.drop_first(), b);
        assert(text_of_lines(a + b) =~= text_of_lines(a) + text_of_lines(b));
    }
}

proof fn lemma_join_one(m: Seq<char>)
    ensures
        text_of_lines(seq![m]) == m + "\n"@,
{
    assert(seq![m].drop_first() =~= Seq::<Seq<char>>::empty());
    assert(seq![m][0] == m);
    assert(text_of_lines(Seq::<Seq<char>>::empty()) == Seq::<char>::empty());
    assert(text_of_lines(seq![m]) =~= m + "\n"@);
}

proof fn lemma_join_push(ms: Seq<Seq<char>>, m: Seq<char>)
    ensures
        text_of_lines(ms.push(m)) == text_of_lines(ms) + m + "\n"@,
{
    assert(ms.push(m) =~= ms + seq![m]);
    lemma_join_append(ms, seq![m]);
    lemma_join_one(m);
    assert(text_of_lines(ms) + (m + "\n"@) =~= text_of_lines(ms) + m + "\n"@);
}

/// Splitting joined plain lines gives the lines back.
proof fn lemma_lines_of_join(ms: Seq<Seq<char>>)
    requires
        forall|i: int| 0 <= i < ms.len() ==> plain_line(#[trigger] ms[i]),
    ensures
        lines(text_of_lines(ms)) == ms,
    decreases ms.len(),
{
    reveal_strlit("\n");
    if ms.len() > 0 {
        let m = ms[0];
        let rest = ms.drop_first();
        let s = text_of_lines(ms);
        assert(plain_line(m));
        assert(s == m + "\n"@ + text_of_lines(rest));
        assert(is_first(s, '\n', m.len() as int));
        crate::text::lemma_first_unique(s, '\n', m.len() as int);
        assert(s.take(m.len() as int) =~= m);
        assert(s.skip(m.len() as int + 1) =~= text_of_lines(rest));
        assert forall|i: int| 0 <= i < rest.len() implies plain_line(#[trigger] rest[i]) by {
            assert(rest[i] == ms[i + 1]);
        }
        lemma_lines_of_join(rest);
        assert(crate::text::strip_cr(m) == m);
        assert(lines(s) =~= seq![m] + rest);
        assert(seq![m] + rest =~= ms);
    } else {
        assert(text_of_lines(ms) =~= Seq::<char>::empty());
    }
}

/// The line the rewrite writes for the profile line `raw` in state `st`
/// (without its newline).
pub open spec fn rt_emitted(st: RtState, raw: Seq<char>, auth: Option<Seq<char>>) -> Seq<char> {
    let t = trim(raw);
    if starts_with(t, "<"@) || st.in_tag || is_blank_or_comment(t) {
        raw
    } else {
        match word1(t) {
            None => raw,
            Some(k) => {
                let key = lower(k);
                if key == "auth-user-pass"@ {
                    match auth {
                        Some(p) => "auth-user-pass "@ + spec_config_path(p),
                        None => match word2(t) {
                            Some(e) => "auth-user-pass "@ + spec_config_path(e),
                            None => raw,
                        },
                    }
                } else if key == "dev"@ {
                    "dev tun"@
                } else if key == "redirect-gateway"@ && !seq_contains(lower(t), "def1"@) {
                    "redirect-gateway def1 bypass-dhcp"@
                } else {
                    raw
                }
            },
        }
    }
}

/// The lines the rewrite writes for the profile lines `ls`.
pub open spec fn rt_emitted_lines(ls: Seq<Seq<char>>, auth: Option<Seq<char>>) -> Seq<Seq<char>>
    decreases ls.len(),
{
    if ls.len() == 0 {
        Seq::empty()
    } else {
        rt_emitted_lines(ls.drop_last(), auth).push(
            rt_emitted(rt_fold(ls.drop_last(), auth), ls.last(), auth),
        )
    }
}

proof fn lemma_step_emits(st: RtState, raw: Seq<char>, auth: Option<Seq<char>>)
    ensures
        rt_step(st, raw, auth).out == st.out + rt_emitted(st, raw, auth) + "\n"@,
{
    reveal_strlit("\n");
    reveal_strlit("dev tun");
    reveal_strlit("dev tun\n");
    reveal_strlit("redirect-gateway def1 bypass-dhcp");
    reveal_strlit("redirect-gateway def1 bypass-dhcp\n");
    reveal_strlit("windows-driver");
    reveal_strlit("redirect-gateway");
    reveal_strlit("auth-user-pass");
    reveal_strlit("dev");
    assert(raw.push('\n') =~= raw + "\n"@);
    assert("dev tun\n"@ =~= "dev tun"@ + "\n"@);
    assert("redirect-gateway def1 bypass-dhcp\n"@ =~= "redirect-gateway def1 bypass-dhcp"@ + "\n"@);
    let t = trim(raw);
    let r = rt_step(st, raw, auth);
    let e = rt_emitted(st, raw, auth);
    if !(starts_with(t, "<"@) || st.in_tag || is_blank_or_comment(t)) {
        if let Some(k) = word1(t) {
            if lower(k) == "auth-user-pass"@ {
                match auth {
                    Some(p) => {
                        assert(r.out =~= st.out + e + "\n"@);
                    },
                    None => match word2(t) {
                        Some(x) => {
                            assert(r.out =~= st.out + e + "\n"@);
                        },
                        None => {
                            assert(r.out =~= st.out + e + "\n"@);
                        },
                    },
                }
            } else if lower(k) == "dev"@ {
                assert(r.out == st.out + "dev tun\n"@);
                assert(e == "dev tun"@);
                assert(r.out =~= st.out + e + "\n"@);
            } else if lower(k) == "redirect-gateway"@ {
                if seq_contains(lower(t), "def1"@) {
                    assert(e == raw);
                    assert(r.out =~= st.out + e + "\n"@);
                } else {
                    assert("redirect-gateway"@.len() == 16);
                    assert("windows-driver"@.len() == 14);
                    assert(lower(k) != "windows-driver"@);
                    assert(lower(k) != "auth-user-pass"@);
                    assert(lower(k) != "dev"@);
                    assert(r == rt_directive(st, raw, t, lower(k), auth));
                    assert(e == "redirect-gateway def1 bypass-dhcp"@);
                    assert(r.out == st.out + "redirect-gateway def1 bypass-dhcp\n"@);
                    assert(r.out =~= st.out + e + "\n"@);
                }
            } else {
                assert(e == raw);
                assert(r.out =~= st.out + e + "\n"@);
            }
        } else {
            assert(r.out =~= st.out + e + "\n"@);
        }
    } else {
        assert(r.out =~= st.out + e + "\n"@);
    }
}

proof fn lemma_fold_out(ls: Seq<Seq<char>>, auth: Option<Seq<char>>)
    ensures
        rt_fold(ls, auth).out == text_of_lines(rt_emitted_lines(ls, auth)),
    decreases ls.len(),
{
    if ls.len() == 0 {
        assert(text_of_lines(Seq::<Seq<char>>::empty()) == Seq::<char>::empty());
    } else {
        let dl = ls.drop_last();
        lemma_fold_out(dl, auth);
        lemma_step_emits(rt_fold(dl, auth), ls.last(), auth);
        lemma_join_push(rt_emitted_lines(dl, auth), rt_emitted(rt_fold(dl, auth), ls.last(), auth));
    }
}

proof fn lemma_trim_end_keeps(s: Seq<char>, i: int)
    requires
        0 <= i < s.len(),
        !is_ws(s[i]),
    ensures
        i < trim_end(s).len(),
    decreases s.len(),
{
    if s.len() > 0 && is_ws(s.last()) {
        assert(i < s.len() - 1);
        assert(s.drop_last()[i] == s[i]);
        lemma_trim_end_keeps(s.drop_last(), i);
    }
}

proof fn lemma_first_ws_exists(s: Seq<char>, j: int)
    requires
        0 <= j < s.len(),
        is_ws(s[j]),
    ensures
        exists|i: int| is_first_ws(s, i),
    decreases j,
{
    if exists|k: int| 0 <= k < j && is_ws(s[k]) {
        let k = choose|k: int| 0 <= k < j && is_ws(s[k]);
        lemma_first_ws_exists(s, k);
    } else {
        assert(is_first_ws(s, j));
    }
}

/// A word is not empty, holds no whitespace, and what follows it is empty
/// or starts with whitespace.
proof fn lemma_first_word_shape(s: Seq<char>)
    requires
        first_word(s) is Some,
    ensures
        ({
            let (w, r) = first_word(s).unwrap();
            &&& w.len() > 0
            &&& forall|i: int| 0 <= i < w.len() ==> !is_ws(w[i])
            &&& (r.len() == 0 || is_ws(r[0]))
        }),
{
    let t = trim_start(s);
    lemma_trim_start_len(s);
    if exists|i: int| is_first_ws(t, i) {
        let i = choose|i: int| is_first_ws(t, i);
        assert(i > 0);
    } else {
        assert forall|i: int| 0 <= i < t.len() implies !is_ws(t[i]) by {
            if is_ws(t[i]) {
                lemma_first_ws_exists(t, i);
            }
        }
    }
}

/// The first word of the trimmed `a + x` is `a`, when `a` is a word and `x`
/// is empty or starts with whitespace.
proof fn lemma_word1_of_trimmed(a: Seq<char>, x: Seq<char>)
    requires
        a.len() > 0,
        forall|i: int| 0 <= i < a.len() ==> !is_ws(a[i]),
        x.len() == 0 || is_ws(x[0]),
    ensures
        word1(trim(a + x)) == Some(a),
        trim(a + x).len() > 0,
        trim(a + x)[0] == a[0],
{
    let t = a + x;
    assert(!is_ws(t[0]));
    assert(trim_start(t) == t);
    lemma_trim_end_prefix(t);
    assert(t[a.len() - 1] == a[a.len() - 1]);
    lemma_trim_end_keeps(t, a.len() - 1);
    let j = trim_end(t).len() as int;
    let x2 = x.take(j - a.len());
    assert(trim(t) =~= a + x2);
    lemma_first_word_split(a, x2);
}

proof fn lemma_config_path_shape(e: Seq<char>)
    ensures
        spec_config_path(e).len() == e.len(),
        forall|i: int| 0 <= i < e.len() ==> (is_ws(#[trigger] spec_config_path(e)[i]) <==> is_ws(e[i])),
        forall|i: int| 0 <= i < e.len() ==> (#[trigger] spec_config_path(e)[i] == '\n' <==> e[i] == '\n'),
        forall|i: int| 0 <= i < e.len() ==> (#[trigger] spec_config_path(e)[i] == '\r' <==> e[i] == '\r'),
        spec_config_path(spec_config_path(e)) == spec_config_path(e),
{
    assert(spec_config_path(spec_config_path(e)) =~= spec_config_path(e));
}

proof fn lemma_lower_literals()
    ensures
        lower("dev"@) == "dev"@,
        lower("auth-user-pass"@) == "auth-user-pass"@,
        lower("redirect-gateway"@) == "redirect-gateway"@,
{
    reveal_strlit("dev");
    reveal_strlit("auth-user-pass");
    reveal_strlit("redirect-gateway");
    assert(lower("dev"@) =~= "dev"@);
    assert(lower("auth-user-pass"@) =~= "auth-user-pass"@);
    assert(lower("redirect-gateway"@) =~= "redirect-gateway"@);
}

/// Rewriting the line the rewrite wrote has the same effect as rewriting the
/// line it came from.
proof fn lemma_reemit(st: RtState, raw: Seq<char>, auth: Option<Seq<char>>)
    ensures
        rt_step(st, rt_emitted(st, raw, auth), auth) == rt_step(st, raw, auth),
{
    reveal_strlit("<");
    reveal_strlit("dev");
    reveal_strlit("dev tun");
    reveal_strlit(" tun");
    reveal_strlit("auth-user-pass");
    reveal_strlit("auth-user-pass ");
    reveal_strlit(" ");
    reveal_strlit("redirect-gateway");
    reveal_strlit("redirect-gateway def1 bypass-dhcp");
    reveal_strlit(" def1 bypass-dhcp");
    reveal_strlit("def1");
    reveal_strlit("windows-driver");
    lemma_lower_literals();
    let t = trim(raw);
    let m = rt_emitted(st, raw, auth);
    if m != raw {
        assert(!(starts_with(t, "<"@) || st.in_tag || is_blank_or_comment(t)));
        let k = word1(t).unwrap();
        let key = lower(k);
        let au = "auth-user-pass"@;
        if key == au {
            let x = if auth is Some {
                " "@ + spec_config_path(auth.unwrap())
            } else {
                " "@ + spec_config_path(word2(t).unwrap())
            };
            assert(m =~= au + x);
            lemma_word1_of_trimmed(au, x);
            let tm = trim(m);
            assert(tm[0] == 'a');
            assert(tm.take(1)[0] == tm[0]);
            assert(!starts_with(tm, "<"@));
            assert(rt_step(st, m, auth) == rt_directive(st, m, tm, au, auth));
            if auth is None {
                let (w0, r0) = first_word(t).unwrap();
                lemma_first_word_shape(t);
                lemma_first_word_shape(r0);
                let e = word2(t).unwrap();
                let ce = spec_config_path(e);
                lemma_config_path_shape(e);
                assert(ce.len() > 0);
                assert(!is_ws(ce[0]));
                assert(!is_ws(m.last())) by {
                    assert(m.last() == ce[ce.len() - 1]);
                }
                assert(tm == m);
                let y = " "@ + ce;
                assert(forall|i: int| 0 <= i < ce.len() ==> !is_ws(#[trigger] ce[i]));
                lemma_first_word_split(au, y);
                assert(trim_start(y) == trim_start(ce)) by {
                    assert(y.drop_first() =~= ce);
                }
                assert(trim_start(ce) == ce);
                lemma_first_word_split(ce, Seq::<char>::empty());
                assert(ce + Seq::<char>::empty() =~= ce);
                assert(first_word(y) == first_word(ce));
                assert(word2(tm) == Some(ce));
                assert(spec_config_path(ce) == ce);
            }
        } else if key == "dev"@ {
            assert(m == "dev tun"@);
            assert(m =~= "dev"@ + " tun"@);
            lemma_word1_of_trimmed("dev"@, " tun"@);
            let tm = trim(m);
            assert(tm[0] == 'd');
            assert(tm.take(1)[0] == tm[0]);
            assert(!starts_with(tm, "<"@));
            assert(rt_step(st, m, auth) == rt_directive(st, m, tm, "dev"@, auth));
        } else {
            let rg = "redirect-gateway"@;
            assert(key == rg);
            assert(!seq_contains(lower(t), "def1"@));
            assert(m == "redirect-gateway def1 bypass-dhcp"@);
            assert(m =~= rg + " def1 bypass-dhcp"@);
            lemma_word1_of_trimmed(rg, " def1 bypass-dhcp"@);
            let tm = trim(m);
            assert(tm == m);
            assert(tm[0] == 'r');
            assert(tm.take(1)[0] == tm[0]);
            assert(!starts_with(tm, "<"@));
            assert(lower(m) =~= m);
            assert(occurs_at(lower(tm), "def1"@, 17)) by {
                assert(lower(tm).subrange(17, 21) =~= "def1"@);
            }
            assert(rt_step(st, m, auth) == rt_directive(st, m, tm, rg, auth));
            assert(m.push('\n') =~= "redirect-gateway def1 bypass-dhcp\n"@) by {
                reveal_strlit("redirect-gateway def1 bypass-dhcp\n");
            }
        }
    }
}

proof fn lemma_fold_emitted(ls: Seq<Seq<char>>, auth: Option<Seq<char>>)
    ensures
        rt_fold(rt_emitted_lines(ls, auth), auth) == rt_fold(ls, auth),
    decreases ls.len(),
{
    if ls.len() > 0 {
        let dl = ls.drop_last();
        let em = rt_emitted_lines(ls, auth);
        assert(em.drop_last() =~= rt_emitted_lines(dl, auth));
        lemma_fold_emitted(dl, auth);
        lemma_reemit(rt_fold(dl, auth), ls.last(), auth);
    }
}

/// No line of a text holds a newline.
proof fn lemma_lines_no_newline(s: Seq<char>)
    ensures
        forall|i: int, j: int|
            0 <= i < lines(s).len() && 0 <= j < lines(s)[i].len() ==> #[trigger] lines(s)[i][j] != '\n',
    decreases s.len(),
{
    if s.len() > 0 {
        if exists|i: int| is_first(s, '\n', i) {
            let i = choose|i: int| is_first(s, '\n', i);
            lemma_lines_no_newline(s.skip(i + 1));
            let l0 = crate::text::strip_cr(s.take(i));
            assert(forall|j: int| 0 <= j < l0.len() ==> l0[j] == s[j]);
            assert forall|a: int, j: int|
                0 <= a < lines(s).len() && 0 <= j < lines(s)[a].len() implies #[trigger] lines(s)[a][j] != '\n' by {
                if a > 0 {
                    assert(lines(s)[a] == lines(s.skip(i + 1))[a - 1]);
                }
            }
        } else {
            assert forall|a: int, j: int|
                0 <= a < lines(s).len() && 0 <= j < lines(s)[a].len() implies #[trigger] lines(s)[a][j] != '\n' by {
                if s[j] == '\n' {
                    if exists|k: int| 0 <= k < j && s[k] == '\n' {
                        let k0 = choose|k: int| 0 <= k < j && s[k] == '\n';
                        lemma_first_newline_exists(s, k0);
                    } else {
                        assert(is_first(s, '\n', j));
                    }
                }
            }
        }
    }
}

proof fn lemma_first_newline_exists(s: Seq<char>, j: int)
    requires
        0 <= j < s.len(),
        s[j] == '\n',
    ensures
        exists|i: int| is_first(s, '\n', i),
    decreases j,
{
    if exists|k: int| 0 <= k < j && s[k] == '\n' {
        let k = choose|k: int| 0 <= k < j && s[k] == '\n';
        lemma_first_newline_exists(s, k);
    } else {
        assert(is_first(s, '\n', j));
    }
}

/// The last line of `ls` that opens or closes an inline block (its trimmed
/// form starts with `<`) closes one (starts with `</`), or there is none.
pub open spec fn ends_outside_inline_block(ls: Seq<Seq<char>>) -> bool
    decreases ls.len(),
{
    if ls.len() == 0 {
        true
    } else if starts_with(trim(ls.last()), "<"@) {
        starts_with(trim(ls.last()), "</"@)
    } else {
        ends_outside_inline_block(ls.drop_last())
    }
}

proof fn lemma_fold_in_tag(ls: Seq<Seq<char>>, auth: Option<Seq<char>>)
    ensures
        rt_fold(ls, auth).in_tag == !ends_outside_inline_block(ls),
    decreases ls.len(),
{
    if ls.len() > 0 {
        lemma_fold_in_tag(ls.drop_last(), auth);
    }
}

proof fn lemma_prefixed_plain(a: Seq<char>, x: Seq<char>)
    requires
        a.len() > 0,
        plain_line(a),
        a.last() != '\r',
        plain_line(x),
    ensures
        plain_line(a + x),
{
    assert forall|i: int| 0 <= i < (a + x).len() implies (a + x)[i] != '\n' by {
        if i >= a.len() {
            assert((a + x)[i] == x[i - a.len()]);
        }
    }
    if x.len() > 0 {
        assert((a + x).last() == x.last());
    }
}

proof fn lemma_config_path_plain(p: Seq<char>)
    requires
        plain_line(p),
    ensures
        plain_line(spec_config_path(p)),
{
    lemma_config_path_shape(p);
    let c = spec_config_path(p);
    assert forall|i: int| 0 <= i < c.len() implies c[i] != '\n' by {
        assert(p[i] != '\n');
    }
    if c.len() > 0 {
        assert(c.last() == c[c.len() - 1]);
        assert(p.last() == p[p.len() - 1]);
    }
}

proof fn lemma_emitted_plain(st: RtState, raw: Seq<char>, auth: Option<Seq<char>>)
    requires
        plain_line(raw),
        auth matches Some(p) ==> plain_line(p),
    ensures
        plain_line(rt_emitted(st, raw, auth)),
{
    reveal_strlit("auth-user-pass ");
    reveal_strlit("dev tun");
    reveal_strlit("redirect-gateway def1 bypass-dhcp");
    let t = trim(raw);
    let m = rt_emitted(st, raw, auth);
    if m != raw {
        let au = "auth-user-pass "@;
        assert(plain_line(au));
        assert(plain_line("dev tun"@));
        assert(plain_line("redirect-gateway def1 bypass-dhcp"@));
        if let Some(k) = word1(t) {
            if lower(k) == "auth-user-pass"@ {
                match auth {
                    Some(p) => {
                        lemma_config_path_plain(p);
                        lemma_prefixed_plain(au, spec_config_path(p));
                    },
                    None => {
                        let (w0, r0) = first_word(t).unwrap();
                        lemma_first_word_shape(t);
                        lemma_first_word_shape(r0);
                        let e = word2(t).unwrap();
                        assert(plain_line(e)) by {
                            assert(is_ws('\n'));
                            assert(is_ws('\r'));
                            if e.len() > 0 {
                                assert(e.last() == e[e.len() - 1]);
                            }
                        }
                        lemma_config_path_plain(e);
                        lemma_prefixed_plain(au, spec_config_path(e));
                    },
                }
            }
        }
    }
}

proof fn lemma_emitted_lines_plain(ls: Seq<Seq<char>>, auth: Option<Seq<char>>)
    requires
        forall|i: int| 0 <= i < ls.len() ==> plain_line(#[trigger] ls[i]),
        auth matches Some(p) ==> plain_line(p),
    ensures
        rt_emitted_lines(ls, auth).len() == ls.len(),
        forall|i: int| 0 <= i < ls.len() ==> plain_line(#[trigger] rt_emitted_lines(ls, auth)[i]),
    decreases ls.len(),
{
    if ls.len() > 0 {
        let dl = ls.drop_last();
        assert forall|i: int| 0 <= i < dl.len() implies plain_line(#[trigger] dl[i]) by {
            assert(dl[i] == ls[i]);
        }
        lemma_emitted_lines_plain(dl, auth);
        assert(plain_line(ls[ls.len() - 1]));
        lemma_emitted_plain(rt_fold(dl, auth), ls.last(), auth);
        let em = rt_emitted_lines(ls, auth);
        assert forall|i: int| 0 <= i < ls.len() implies plain_line(#[trigger] em[i]) by {
            if i < dl.len() {
                assert(em[i] == rt_emitted_lines(dl, auth)[i]);
            }
        }
    }
}

/// The line `m` when `b` holds, else no line.
pub open spec fn opt_line(b: bool, m: Seq<char>) -> Seq<Seq<char>> {
    if b {
        seq![m]
    } else {
        Seq::empty()
    }
}

/// The lines the rewrite appends after the profile's own (see `rt_finish`).
pub open spec fn rt_added(st: RtState, auth: Option<Seq<char>>, driver: Option<Seq<char>>) -> Seq<
    Seq<char>,
> {
    let a1 = opt_line(!st.saw_dev, "dev tun"@);
    let a2 = match driver {
        Some(d) => opt_line(!st.saw_driver, "windows-driver "@ + d),
        None => Seq::empty(),
    };
    let a3 = opt_line(!st.saw_redirect, "redirect-gateway def1 bypass-dhcp"@);
    let a4 = match auth {
        Some(p) => opt_line(!st.saw_auth, "auth-user-pass "@ + spec_config_path(p)),
        None => Seq::empty(),
    };
    let a14 = a1 + a2 + a3 + a4;
    let o4 = st.out + text_of_lines(a14);
    let a5 = opt_line(!seq_contains(lower(o4), "auth-nocache"@), "auth-nocache"@);
    let o5 = o4 + text_of_lines(a5);
    let a6 = opt_line(!seq_contains(lower(o5), "script-security"@), "script-security 2"@);
    a14 + a5 + a6
}

proof fn lemma_text_opt_line(b: bool, m: Seq<char>)
    ensures
        text_of_lines(opt_line(b, m)) == if b {
            m + "\n"@
        } else {
            Seq::<char>::empty()
        },
{
    if b {
        lemma_join_one(m);
    } else {
        assert(text_of_lines(Seq::<Seq<char>>::empty()) == Seq::<char>::empty());
    }
}

proof fn lemma_newline_literals()
    ensures
        "dev tun\n"@ == "dev tun"@ + "\n"@,
        "redirect-gateway def1 bypass-dhcp\n"@ == "redirect-gateway def1 bypass-dhcp"@ + "\n"@,
        "auth-nocache\n"@ == "auth-nocache"@ + "\n"@,
        "script-security 2\n"@ == "script-security 2"@ + "\n"@,
{
    reveal_strlit("\n");
    assert("dev tun\n"@ =~= "dev tun"@ + "\n"@) by {
        reveal_strlit("dev tun");
        reveal_strlit("dev tun\n");
    }
    assert("redirect-gateway def1 bypass-dhcp\n"@ =~= "redirect-gateway def1 bypass-dhcp"@ + "\n"@) by {
        reveal_strlit("redirect-gateway def1 bypass-dhcp");
        reveal_strlit("redirect-gateway def1 bypass-dhcp\n");
    }
    assert("auth-nocache\n"@ =~= "auth-nocache"@ + "\n"@) by {
        reveal_strlit("auth-nocache");
        reveal_strlit("auth-nocache\n");
    }
    assert("script-security 2\n"@ =~= "script-security 2"@ + "\n"@) by {
        reveal_strlit("script-security 2");
        reveal_strlit("script-security 2\n");
    }
}

/// `x` with the line `m` appended when `b` holds.
proof fn lemma_append_opt(x: Seq<char>, b: bool, m: Seq<char>, y: Seq<char>)
    requires
        y == (if b { x + (m + "\n"@) } else { x }),
    ensures
        y == x + text_of_lines(opt_line(b, m)),
{
    lemma_text_opt_line(b, m);
    if !b {
        assert(x + Seq::<char>::empty() =~= x);
    }
}

proof fn lemma_chain(x0: Seq<char>, t: Seq<Seq<char>>, extra: Seq<Seq<char>>, x: Seq<char>, y: Seq<char>)
    requires
        x == x0 + text_of_lines(t),
        y == x + text_of_lines(extra),
    ensures
        y == x0 + text_of_lines(t + extra),
{
    lemma_join_append(t, extra);
    assert(x0 + text_of_lines(t) + text_of_lines(extra) =~= x0 + (text_of_lines(t) + text_of_lines(extra)));
}

proof fn lemma_empty_lines_text(x: Seq<char>)
    ensures
        x == x + text_of_lines(Seq::<Seq<char>>::empty()),
{
    assert(text_of_lines(Seq::<Seq<char>>::empty()) == Seq::<char>::empty());
    assert(x + Seq::<char>::empty() =~= x);
}

proof fn lemma_finish_appends(st: RtState, auth: Option<Seq<char>>, driver: Option<Seq<char>>)
    ensures
        rt_finish(st, auth, driver) == st.out + text_of_lines(rt_added(st, auth, driver)),
{
    lemma_newline_literals();
    let e: Seq<Seq<char>> = Seq::empty();
    let a1 = opt_line(!st.saw_dev, "dev tun"@);
    let a2: Seq<Seq<char>> = match driver {
        Some(d) => opt_line(!st.saw_driver, "windows-driver "@ + d),
        None => Seq::empty(),
    };
    let a3 = opt_line(!st.saw_redirect, "redirect-gateway def1 bypass-dhcp"@);
    let a4: Seq<Seq<char>> = match auth {
        Some(p) => opt_line(!st.saw_auth, "auth-user-pass "@ + spec_config_path(p)),
        None => Seq::empty(),
    };
    lemma_empty_lines_text(st.out);
    let o1 = if !st.saw_dev { st.out + "dev tun\n"@ } else { st.out };
    lemma_append_opt(st.out, !st.saw_dev, "dev tun"@, o1);
    assert(e + a1 =~= a1);
    lemma_chain(st.out, e, a1, st.out, o1);
    let o2 = if st.saw_driver {
        o1
    } else {
        match driver {
            Some(d) => o1 + "windows-driver "@ + d + "\n"@,
            None => o1,
        }
    };
    match driver {
        Some(d) => {
            assert(o1 + "windows-driver "@ + d + "\n"@ =~= o1 + (("windows-driver "@ + d) + "\n"@));
            lemma_append_opt(o1, !st.saw_driver, "windows-driver "@ + d, o2);
        },
        None => {
            lemma_empty_lines_text(o1);
        },
    }
    lemma_chain(st.out, a1, a2, o1, o2);
    let o3 = if !st.saw_redirect { o2 + "redirect-gateway def1 bypass-dhcp\n"@ } else { o2 };
    lemma_append_opt(o2, !st.saw_redirect, "redirect-gateway def1 bypass-dhcp"@, o3);
    lemma_chain(st.out, a1 + a2, a3, o2, o3);
    let o4 = if st.saw_auth {
        o3
    } else {
        match auth {
            Some(p) => o3 + "auth-user-pass "@ + spec_config_path(p) + "\n"@,
            None => o3,
        }
    };
    match auth {
        Some(p) => {
            let l = "auth-user-pass "@ + spec_config_path(p);
            assert(o3 + "auth-user-pass "@ + spec_config_path(p) + "\n"@ =~= o3 + (l + "\n"@));
            lemma_append_opt(o3, !st.saw_auth, l, o4);
        },
        None => {
            lemma_empty_lines_text(o3);
        },
    }
    lemma_chain(st.out, a1 + a2 + a3, a4, o3, o4);
    let a14 = a1 + a2 + a3 + a4;
    let b5 = !seq_contains(lower(o4), "auth-nocache"@);
    let a5 = opt_line(b5, "auth-nocache"@);
    let o5 = if b5 { o4 + "auth-nocache\n"@ } else { o4 };
    lemma_append_opt(o4, b5, "auth-nocache"@, o5);
    lemma_chain(st.out, a14, a5, o4, o5);
    let b6 = !seq_contains(lower(o5), "script-security"@);
    let a6 = opt_line(b6, "script-security 2"@);
    let o6 = if b6 { o5 + "script-security 2\n"@ } else { o5 };
    lemma_append_opt(o5, b6, "script-security 2"@, o6);
    lemma_chain(st.out, a14 + a5, a6, o5, o6);
    assert(rt_finish(st, auth, driver) == o6);
}

/// The state after the lines `ls`, starting from `st`.
pub open spec fn rt_run(st: RtState, ls: Seq<Seq<char>>, auth: Option<Seq<char>>) -> RtState
    decreases ls.len(),
{
    if ls.len() == 0 {
        st
    } else {
        rt_step(rt_run(st, ls.drop_last(), auth), ls.last(), auth)
    }
}

proof fn lemma_fold_is_run(ls: Seq<Seq<char>>, auth: Option<Seq<char>>)
    ensures
        rt_fold(ls, auth) == rt_run(rt_initial(), ls, auth),
    decreases ls.len(),
{
    if ls.len() > 0 {
        lemma_fold_is_run(ls.drop_last(), auth);
    }
}

proof fn lemma_run_append(st: RtState, a: Seq<Seq<char>>, b: Seq<Seq<char>>, auth: Option<Seq<char>>)
    ensures
        rt_run(st, a + b, auth) == rt_run(rt_run(st, a, auth), b, auth),
    decreases b.len(),
{
    if b.len() == 0 {
        assert(a + b =~= a);
    } else {
        assert((a + b).drop_last() =~= a + b.drop_last());
        assert((a + b).last() == b.last());
        lemma_run_append(st, a, b.drop_last(), auth);
    }
}

proof fn lemma_run_opt_line(st: RtState, b: bool, m: Seq<char>, auth: Option<Seq<char>>)
    ensures
        rt_run(st, opt_line(b, m), auth) == if b {
            rt_step(st, m, auth)
        } else {
            st
        },
{
    assert(rt_run(st, Seq::<Seq<char>>::empty(), auth) == st);
    if b {
        assert(seq![m].drop_last() =~= Seq::<Seq<char>>::empty());
        assert(seq![m].last() == m);
        assert(rt_run(st, seq![m].drop_last(), auth) == st);
    }
}

/// A directive line whose keyword is the word `a`, outside inline blocks.
proof fn lemma_step_keyword(st: RtState, a: Seq<char>, x: Seq<char>, auth: Option<Seq<char>>)
    requires
        !st.in_tag,
        a.len() > 0,
        forall|i: int| 0 <= i < a.len() ==> !is_ws(a[i]),
        a[0] != '<' && a[0] != '#' && a[0] != ';',
        x.len() == 0 || is_ws(x[0]),
    ensures
        rt_step(st, a + x, auth) == rt_directive(st, a + x, trim(a + x), lower(a), auth),
{
    reveal_strlit("<");
    lemma_word1_of_trimmed(a, x);
    let t = trim(a + x);
    assert(t.take(1)[0] == t[0]);
    assert(!starts_with(t, "<"@));
}

proof fn lemma_keyword_literals()
    ensures
        lower("windows-driver"@) == "windows-driver"@,
        lower("auth-nocache"@) == "auth-nocache"@,
        lower("script-security"@) == "script-security"@,
        "auth-nocache"@ != "auth-user-pass"@,
        "auth-nocache"@ != "dev"@,
        "auth-nocache"@ != "windows-driver"@,
        "auth-nocache"@ != "redirect-gateway"@,
        "script-security"@ != "auth-user-pass"@,
        "script-security"@ != "dev"@,
        "script-security"@ != "windows-driver"@,
        "script-security"@ != "redirect-gateway"@,
        "windows-driver"@ != "auth-user-pass"@,
        "windows-driver"@ != "dev"@,
        "redirect-gateway"@ != "auth-user-pass"@,
        "redirect-gateway"@ != "dev"@,
        "redirect-gateway"@ != "windows-driver"@,
        "dev"@ != "auth-user-pass"@,
        "windows-driver "@ == "windows-driver"@ + " "@,
        "auth-user-pass "@ == "auth-user-pass"@ + " "@,
        "dev tun"@ == "dev"@ + " tun"@,
        "redirect-gateway def1 bypass-dhcp"@ == "redirect-gateway"@ + " def1 bypass-dhcp"@,
        "script-security 2"@ == "script-security"@ + " 2"@,
        " "@.len() == 1 && " "@[0] == ' ',
        " tun"@[0] == ' ',
        " def1 bypass-dhcp"@[0] == ' ',
        " 2"@[0] == ' ',
{
    reveal_strlit("windows-driver");
    reveal_strlit("windows-driver ");
    reveal_strlit("auth-nocache");
    reveal_strlit("script-security");
    reveal_strlit("script-security 2");
    reveal_strlit("auth-user-pass");
    reveal_strlit("auth-user-pass ");
    reveal_strlit("dev");
    reveal_strlit("dev tun");
    reveal_strlit(" tun");
    reveal_strlit("redirect-gateway");
    reveal_strlit("redirect-gateway def1 bypass-dhcp");
    reveal_strlit(" def1 bypass-dhcp");
    reveal_strlit(" 2");
    reveal_strlit(" ");
    assert(lower("windows-driver"@) =~= "windows-driver"@);
    assert(lower("auth-nocache"@) =~= "auth-nocache"@);
    assert(lower("script-security"@) =~= "script-security"@);
    assert("windows-driver "@ =~= "windows-driver"@ + " "@);
    assert("auth-user-pass "@ =~= "auth-user-pass"@ + " "@);
    assert("dev tun"@ =~= "dev"@ + " tun"@);
    assert("redirect-gateway def1 bypass-dhcp"@ =~= "redirect-gateway"@ + " def1 bypass-dhcp"@);
    assert("script-security 2"@ =~= "script-security"@ + " 2"@);
    assert("auth-nocache"@[5] != "auth-user-pass"@[5]);
}

/// `a` can open a directive line: a non-empty word that does not start an
/// inline block or a comment.
pub open spec fn directive_word(a: Seq<char>) -> bool {
    &&& a.len() > 0
    &&& forall|i: int| 0 <= i < a.len() ==> !is_ws(a[i])
    &&& a[0] != '<' && a[0] != '#' && a[0] != ';'
}

proof fn lemma_keywords_are_words()
    ensures
        directive_word("dev"@),
        directive_word("windows-driver"@),
        directive_word("redirect-gateway"@),
        directive_word("auth-user-pass"@),
        directive_word("auth-nocache"@),
        directive_word("script-security"@),
{
    reveal_strlit("dev");
    reveal_strlit("windows-driver");
    reveal_strlit("redirect-gateway");
    reveal_strlit("auth-user-pass");
    reveal_strlit("auth-nocache");
    reveal_strlit("script-security");
}

/// Each line the rewrite appends is written back as it is, and sets the
/// flag of its directive.
proof fn lemma_step_added_lines(st: RtState, d: Seq<char>, p: Seq<char>, auth: Option<Seq<char>>)
    requires
        !st.in_tag,
    ensures
        rt_step(st, "dev tun"@, auth) == (RtState { out: st.out + ("dev tun"@ + "\n"@), saw_dev: true, ..st }),
        rt_step(st, "windows-driver "@ + d, auth) == (RtState {
            out: st.out + (("windows-driver "@ + d) + "\n"@),
            saw_driver: true,
            ..st
        }),
        rt_step(st, "redirect-gateway def1 bypass-dhcp"@, auth) == (RtState {
            out: st.out + ("redirect-gateway def1 bypass-dhcp"@ + "\n"@),
            saw_redirect: true,
            ..st
        }),
        rt_step(st, "auth-user-pass "@ + spec_config_path(p), Some(p)) == (RtState {
            out: st.out + (("auth-user-pass "@ + spec_config_path(p)) + "\n"@),
            saw_auth: true,
            ..st
        }),
        rt_step(st, "auth-nocache"@, auth) == (RtState { out: st.out + ("auth-nocache"@ + "\n"@), ..st }),
        rt_step(st, "script-security 2"@, auth) == (RtState {
            out: st.out + ("script-security 2"@ + "\n"@),
            ..st
        }),
{
    reveal_strlit("\n");
    lemma_keywords_are_words();
    lemma_keyword_literals();
    lemma_lower_literals();
    lemma_newline_literals();
    // dev tun
    lemma_step_keyword(st, "dev"@, " tun"@, auth);
    // windows-driver
    let wd = "windows-driver"@;
    let xd = " "@ + d;
    assert("windows-driver "@ + d =~= wd + xd);
    lemma_step_keyword(st, wd, xd, auth);
    assert(("windows-driver "@ + d).push('\n') =~= ("windows-driver "@ + d) + "\n"@);
    // redirect-gateway
    let rg = "redirect-gateway"@;
    let m = "redirect-gateway def1 bypass-dhcp"@;
    lemma_step_keyword(st, rg, " def1 bypass-dhcp"@, auth);
    assert(trim(m) == m && seq_contains(lower(m), "def1"@)) by {
        reveal_strlit("redirect-gateway def1 bypass-dhcp");
        reveal_strlit("def1");
        assert(lower(m) =~= m);
        assert(lower(m).subrange(17, 21) =~= "def1"@);
        assert(occurs_at(lower(m), "def1"@, 17));
    }
    assert(m.push('\n') =~= m + "\n"@);
    // auth-user-pass
    let au = "auth-user-pass"@;
    let xa = " "@ + spec_config_path(p);
    assert("auth-user-pass "@ + spec_config_path(p) =~= au + xa);
    lemma_step_keyword(st, au, xa, Some(p));
    // auth-nocache
    assert("auth-nocache"@ + Seq::<char>::empty() =~= "auth-nocache"@);
    lemma_step_keyword(st, "auth-nocache"@, Seq::<char>::empty(), auth);
    assert("auth-nocache"@.push('\n') =~= "auth-nocache"@ + "\n"@);
    // script-security
    lemma_step_keyword(st, "script-security"@, " 2"@, auth);
    assert("script-security 2"@.push('\n') =~= "script-security 2"@ + "\n"@);
}

/// Running the appended lines through the rewrite writes them back and
/// records every directive they hold.
proof fn lemma_run_added(st: RtState, auth: Option<Seq<char>>, driver: Option<Seq<char>>)
    requires
        !st.in_tag,
    ensures
        rt_run(st, rt_added(st, auth, driver), auth) == (RtState {
            out: st.out + text_of_lines(rt_added(st, auth, driver)),
            in_tag: false,
            saw_auth: st.saw_auth || auth is Some,
            saw_redirect: true,
            saw_driver: st.saw_driver || driver is Some,
            saw_dev: true,
        }),
{
    let e: Seq<Seq<char>> = Seq::empty();
    let d = match driver {
        Some(d) => d,
        None => Seq::empty(),
    };
    let p = match auth {
        Some(p) => p,
        None => Seq::empty(),
    };
    let a1 = opt_line(!st.saw_dev, "dev tun"@);
    let a2: Seq<Seq<char>> = match driver {
        Some(d) => opt_line(!st.saw_driver, "windows-driver "@ + d),
        None => Seq::empty(),
    };
    let a3 = opt_line(!st.saw_redirect, "redirect-gateway def1 bypass-dhcp"@);
    let a4: Seq<Seq<char>> = match auth {
        Some(p) => opt_line(!st.saw_auth, "auth-user-pass "@ + spec_config_path(p)),
        None => Seq::empty(),
    };
    let a14 = a1 + a2 + a3 + a4;
    let o4 = st.out + text_of_lines(a14);
    let b5 = !seq_contains(lower(o4), "auth-nocache"@);
    let a5 = opt_line(b5, "auth-nocache"@);
    let o5 = o4 + text_of_lines(a5);
    let b6 = !seq_contains(lower(o5), "script-security"@);
    let a6 = opt_line(b6, "script-security 2"@);
    assert(rt_added(st, auth, driver) == a14 + a5 + a6);
    // dev tun
    let s1 = rt_run(st, a1, auth);
    lemma_run_opt_line(st, !st.saw_dev, "dev tun"@, auth);
    lemma_step_added_lines(st, d, p, auth);
    lemma_append_opt(st.out, !st.saw_dev, "dev tun"@, s1.out);
    lemma_empty_lines_text(st.out);
    assert(e + a1 =~= a1);
    lemma_chain(st.out, e, a1, st.out, s1.out);
    // windows-driver
    let s2 = rt_run(s1, a2, auth);
    lemma_step_added_lines(s1, d, p, auth);
    match driver {
        Some(dd) => {
            lemma_run_opt_line(s1, !st.saw_driver, "windows-driver "@ + dd, auth);
            lemma_append_opt(s1.out, !st.saw_driver, "windows-driver "@ + dd, s2.out);
        },
        None => {
            assert(rt_run(s1, Seq::<Seq<char>>::empty(), auth) == s1);
            lemma_empty_lines_text(s1.out);
        },
    }
    lemma_chain(st.out, a1, a2, s1.out, s2.out);
    lemma_run_append(st, a1, a2, auth);
    // redirect-gateway
    let s3 = rt_run(s2, a3, auth);
    lemma_step_added_lines(s2, d, p, auth);
    lemma_run_opt_line(s2, !st.saw_redirect, "redirect-gateway def1 bypass-dhcp"@, auth);
    lemma_append_opt(s2.out, !st.saw_redirect, "redirect-gateway def1 bypass-dhcp"@, s3.out);
    lemma_chain(st.out, a1 + a2, a3, s2.out, s3.out);
    lemma_run_append(st, a1 + a2, a3, auth);
    // auth-user-pass
    let s4 = rt_run(s3, a4, auth);
    lemma_step_added_lines(s3, d, p, auth);
    match auth {
        Some(pp) => {
            lemma_run_opt_line(s3, !st.saw_auth, "auth-user-pass "@ + spec_config_path(pp), auth);
            lemma_append_opt(s3.out, !st.saw_auth, "auth-user-pass "@ + spec_config_path(pp), s4.out);
        },
        None => {
            assert(rt_run(s3, Seq::<Seq<char>>::empty(), auth) == s3);
            lemma_empty_lines_text(s3.out);
        },
    }
    lemma_chain(st.out, a1 + a2 + a3, a4, s3.out, s4.out);
    lemma_run_append(st, a1 + a2 + a3, a4, auth);
    assert(s4.out == o4);
    // auth-nocache
    let s5 = rt_run(s4, a5, auth);
    lemma_step_added_lines(s4, d, p, auth);
    lemma_run_opt_line(s4, b5, "auth-nocache"@, auth);
    lemma_append_opt(s4.out, b5, "auth-nocache"@, s5.out);
    lemma_run_append(st, a14, a5, auth);
    // script-security
    let s6 = rt_run(s5, a6, auth);
    lemma_step_added_lines(s5, d, p, auth);
    lemma_run_opt_line(s5, b6, "script-security 2"@, auth);
    lemma_append_opt(s5.out, b6, "script-security 2"@, s6.out);
    lemma_chain(st.out, a14, a5, s4.out, s5.out);
    lemma_chain(st.out, a14 + a5, a6, s5.out, s6.out);
    lemma_run_append(st, a14 + a5, a6, auth);
}

proof fn lemma_mention_literals()
    ensures
        seq_contains(lower("auth-nocache\n"@), "auth-nocache"@),
        seq_contains(lower("script-security 2\n"@), "script-security"@),
{
    assert(seq_contains(lower("auth-nocache\n"@), "auth-nocache"@)) by {
        reveal_strlit("auth-nocache\n");
        reveal_strlit("auth-nocache");
        assert(lower("auth-nocache\n"@).subrange(0, 12) =~= "auth-nocache"@);
        assert(occurs_at(lower("auth-nocache\n"@), "auth-nocache"@, 0));
    }
    assert(seq_contains(lower("script-security 2\n"@), "script-security"@)) by {
        reveal_strlit("script-security 2\n");
        reveal_strlit("script-security");
        assert(lower("script-security 2\n"@).subrange(0, 15) =~= "script-security"@);
        assert(occurs_at(lower("script-security 2\n"@), "script-security"@, 0));
    }
}

/// The rewritten profile always mentions `auth-nocache` and `script-security`.
proof fn lemma_finish_mentions(st: RtState, auth: Option<Seq<char>>, driver: Option<Seq<char>>)
    ensures
        seq_contains(lower(rt_finish(st, auth, driver)), "auth-nocache"@),
        seq_contains(lower(rt_finish(st, auth, driver)), "script-security"@),
{
    lemma_mention_literals();
    let o1 = if !st.saw_dev { st.out + "dev tun\n"@ } else { st.out };
    let o2 = if st.saw_driver {
        o1
    } else {
        match driver {
            Some(d) => o1 + "windows-driver "@ + d + "\n"@,
            None => o1,
        }
    };
    let o3 = if !st.saw_redirect { o2 + "redirect-gateway def1 bypass-dhcp\n"@ } else { o2 };
    let o4 = if st.saw_auth {
        o3
    } else {
        match auth {
            Some(p) => o3 + "auth-user-pass "@ + spec_config_path(p) + "\n"@,
            None => o3,
        }
    };
    let o5 = if !seq_contains(lower(o4), "auth-nocache"@) { o4 + "auth-nocache\n"@ } else { o4 };
    if !seq_contains(lower(o4), "auth-nocache"@) {
        lemma_lower_contains_prepended(o4, "auth-nocache\n"@, "auth-nocache"@);
    }
    assert(seq_contains(lower(o5), "auth-nocache"@));
    if !seq_contains(lower(o5), "script-security"@) {
        lemma_lower_contains_prepended(o5, "script-security 2\n"@, "script-security"@);
        lemma_lower_contains_extended(o5, "script-security 2\n"@, "auth-nocache"@);
    }
    assert(rt_finish(st, auth, driver) == if !seq_contains(lower(o5), "script-security"@) {
        o5 + "script-security 2\n"@
    } else {
        o5
    });
}

proof fn lemma_concat_plain(a: Seq<Seq<char>>, b: Seq<Seq<char>>)
    requires
        forall|i: int| 0 <= i < a.len() ==> plain_line(#[trigger] a[i]),
        forall|i: int| 0 <= i < b.len() ==> plain_line(#[trigger] b[i]),
    ensures
        forall|i: int| 0 <= i < (a + b).len() ==> plain_line(#[trigger] (a + b)[i]),
{
    assert forall|i: int| 0 <= i < (a + b).len() implies plain_line(#[trigger] (a + b)[i]) by {
        if i < a.len() {
            assert((a + b)[i] == a[i]);
        } else {
            assert((a + b)[i] == b[i - a.len()]);
        }
    }
}

proof fn lemma_opt_line_plain(b: bool, m: Seq<char>)
    requires
        plain_line(m),
    ensures
        forall|i: int| 0 <= i < opt_line(b, m).len() ==> plain_line(#[trigger] opt_line(b, m)[i]),
{
    if b {
        assert forall|i: int| 0 <= i < opt_line(b, m).len() implies plain_line(#[trigger] opt_line(b, m)[i]) by {
            assert(i == 0);
            assert(seq![m][0] == m);
        }
    }
}

proof fn lemma_added_plain(st: RtState, auth: Option<Seq<char>>, driver: Option<Seq<char>>)
    requires
        auth matches Some(p) ==> plain_line(p),
        driver matches Some(d) ==> plain_line(d),
    ensures
        forall|i: int| 0 <= i < rt_added(st, auth, driver).len() ==> plain_line(#[trigger] rt_added(st, auth, driver)[i]),
{
    let e: Seq<Seq<char>> = Seq::empty();
    assert(plain_line("dev tun"@) && plain_line("windows-driver "@) && plain_line(
        "redirect-gateway def1 bypass-dhcp"@,
    ) && plain_line("auth-user-pass "@) && plain_line("auth-nocache"@) && plain_line(
        "script-security 2"@,
    ) && "windows-driver "@.len() > 0 && "windows-driver "@.last() != '\r'
        && "auth-user-pass "@.len() > 0 && "auth-user-pass "@.last() != '\r') by {
        reveal_strlit("dev tun");
        reveal_strlit("windows-driver ");
        reveal_strlit("redirect-gateway def1 bypass-dhcp");
        reveal_strlit("auth-user-pass ");
        reveal_strlit("auth-nocache");
        reveal_strlit("script-security 2");
    }
    let a1 = opt_line(!st.saw_dev, "dev tun"@);
    let a2: Seq<Seq<char>> = match driver {
        Some(d) => opt_line(!st.saw_driver, "windows-driver "@ + d),
        None => Seq::empty(),
    };
    let a3 = opt_line(!st.saw_redirect, "redirect-gateway def1 bypass-dhcp"@);
    let a4: Seq<Seq<char>> = match auth {
        Some(p) => opt_line(!st.saw_auth, "auth-user-pass "@ + spec_config_path(p)),
        None => Seq::empty(),
    };
    let a14 = a1 + a2 + a3 + a4;
    let o4 = st.out + text_of_lines(a14);
    let b5 = !seq_contains(lower(o4), "auth-nocache"@);
    let a5 = opt_line(b5, "auth-nocache"@);
    let o5 = o4 + text_of_lines(a5);
    let b6 = !seq_contains(lower(o5), "script-security"@);
    let a6 = opt_line(b6, "script-security 2"@);
    lemma_opt_line_plain(!st.saw_dev, "dev tun"@);
    match driver {
        Some(d) => {
            lemma_prefixed_plain("windows-driver "@, d);
            lemma_opt_line_plain(!st.saw_driver, "windows-driver "@ + d);
        },
        None => {},
    }
    lemma_opt_line_plain(!st.saw_redirect, "redirect-gateway def1 bypass-dhcp"@);
    match auth {
        Some(p) => {
            lemma_config_path_plain(p);
            lemma_prefixed_plain("auth-user-pass "@, spec_config_path(p));
            lemma_opt_line_plain(!st.saw_auth, "auth-user-pass "@ + spec_config_path(p));
        },
        None => {},
    }
    lemma_opt_line_plain(b5, "auth-nocache"@);
    lemma_opt_line_plain(b6, "script-security 2"@);
    lemma_concat_plain(a1, a2);
    lemma_concat_plain(a1 + a2, a3);
    lemma_concat_plain(a1 + a2 + a3, a4);
    lemma_concat_plain(a14, a5);
    lemma_concat_plain(a14 + a5, a6);
    assert(rt_added(st, auth, driver) == a14 + a5 + a6);
}

/// Rewriting a runtime profile is stable: rewriting the rewritten text
/// again gives it back unchanged, for a profile that does not end inside an
/// inline block and none of whose lines ends with a carriage return, with
/// an `auth-user-pass` path and a Windows driver that hold no line break.
pub proof fn law_runtime_profile_rewrite_is_stable(
    content: Seq<char>,
    auth: Option<Seq<char>>,
    driver: Option<Seq<char>>,
)
    requires
        ends_outside_inline_block(lines(content)),
        forall|i: int|
            0 <= i < lines(content).len() ==> (#[trigger] lines(content)[i]).len() == 0
                || lines(content)[i].last() != '\r',
        auth matches Some(p) ==> plain_line(p),
        driver matches Some(d) ==> plain_line(d),
    ensures
        spec_runtime_profile(spec_runtime_profile(content, auth, driver), auth, driver)
            == spec_runtime_profile(content, auth, driver),
{
    let ls = lines(content);
    lemma_lines_no_newline(content);
    assert forall|i: int| 0 <= i < ls.len() implies plain_line(#[trigger] ls[i]) by {
        assert forall|j: int| 0 <= j < ls[i].len() implies ls[i][j] != '\n' by {
            assert(lines(content)[i][j] != '\n');
        }
    }
    let s1 = rt_fold(ls, auth);
    let m = rt_emitted_lines(ls, auth);
    lemma_emitted_lines_plain(ls, auth);
    lemma_fold_out(ls, auth);
    lemma_fold_in_tag(ls, auth);
    let a = rt_added(s1, auth, driver);
    lemma_added_plain(s1, auth, driver);
    lemma_finish_appends(s1, auth, driver);
    let w1 = spec_runtime_profile(content, auth, driver);
    lemma_join_append(m, a);
    assert(w1 == text_of_lines(m + a));
    lemma_concat_plain(m, a);
    lemma_lines_of_join(m + a);
    lemma_fold_is_run(m + a, auth);
    lemma_run_append(rt_initial(), m, a, auth);
    lemma_fold_is_run(m, auth);
    lemma_fold_emitted(ls, auth);
    lemma_run_added(s1, auth, driver);
    lemma_finish_mentions(s1, auth, driver);
    let s2 = rt_fold(lines(w1), auth);
    assert(s2.out == w1);
    assert(rt_finish(s2, auth, driver) == w1);
}

pub open spec fn opt_view(o: Option<&str>) -> Option<Seq<char>> {
    match o {
        Some(s) => Some(s@),
        None => None,
    }
}

/// Append `v[a..b]` and a newline.
fn push_line(out: &mut Vec<char>, v: &Vec<char>, a: usize, b: usize)
    requires
        a <= b <= v@.len(),
    ensures
        final(out)@ == old(out)@ + v@.subrange(a as int, b as int).push('\n'),
{
    push_range(out, v, a, b);
    out.push('\n');
    assert(out@ =~= old(out)@ + v@.subrange(a as int, b as int).push('\n'));
}

fn push_lit_if_absent(out: &mut Vec<char>, needle: &str, line: &str)
    ensures
        seq_contains(lower(old(out)@), needle@) ==> final(out)@ == old(out)@,
        !seq_contains(lower(old(out)@), needle@) ==> final(out)@ == old(out)@ + line@,
{
    let n = out.len();
    let low = lower_range(out, 0, n);
    assert(out@.subrange(0, n as int) =~= out@);
    let nv = chars_of(needle);
    let ln = low.len();
    let found = range_contains(&low, 0, ln, &nv);
    assert(low@.subrange(0, ln as int) =~= low@);
    if !found {
        push_str(out, line);
    }
}

/// Apply one line `v[a..b]` to the runtime-profile state.
fn rt_apply_line(
    out: &mut Vec<char>,
    st: &mut (bool, bool, bool, bool, bool),
    v: &Vec<char>,
    a: usize,
    b: usize,
    auth: Option<&Vec<char>>,
)
    requires
        a <= b <= v@.len(),
    ensures
        ({
            let s0 = RtState {
                out: old(out)@,
                in_tag: old(st).0,
                saw_auth: old(st).1,
                saw_redirect: old(st).2,
                saw_driver: old(st).3,
                saw_dev: old(st).4,
            };
            let s1 = rt_step(
                s0,
                v@.subrange(a as int, b as int),
                match auth {
                    Some(p) => Some(p@),
                    None => None,
                },
            );
            s1 == RtState {
                out: final(out)@,
                in_tag: final(st).0,
                saw_auth: final(st).1,
                saw_redirect: final(st).2,
                saw_driver: final(st).3,
                saw_dev: final(st).4,
            }
        }),
{
    let ghost raw = v@.subrange(a as int, b as int);
    let (ta, tb) = trim_range(v, a, b);
    let ghost t = v@.subrange(ta as int, tb as int);
    if range_starts_with(v, ta, tb, "<") {
        st.0 = !range_starts_with(v, ta, tb, "</");
        push_line(out, v, a, b);
        return;
    }
    if st.0 || ta == tb || v[ta] == '#' || v[ta] == ';' {
        push_line(out, v, a, b);
        return;
    }
    let (ka, kb) = match next_word(v, ta, tb) {
        Some(w) => w,
        None => {
            push_line(out, v, a, b);
            return;
        },
    };
    let key = lower_range(v, ka, kb);
    let ghost authv = match auth {
        Some(p) => Some(p@),
        None => None,
    };
    let ghost o0 = out@;
    if whole_eq(&key, "auth-user-pass") {
        st.1 = true;
        match auth {
            Some(p) => {
                push_str(out, "auth-user-pass ");
                push_config_path(out, p, 0, p.len());
                assert(p@.subrange(0, p@.len() as int) =~= p@);
                push_str(out, "\n");
                assert(out@ =~= o0 + rt_auth_line(raw, t, authv));
            },
            None => match next_word(v, kb, tb) {
                Some((ea, eb)) => {
                    push_str(out, "auth-user-pass ");
                    push_config_path(out, v, ea, eb);
                    push_str(out, "\n");
                    assert(out@ =~= o0 + rt_auth_line(raw, t, authv));
                },
                None => {
                    push_line(out, v, a, b);
                },
            },
        }
    } else if whole_eq(&key, "dev") {
        st.4 = true;
        push_str(out, "dev tun\n");
    } else if whole_eq(&key, "windows-driver") {
        st.3 = true;
        push_line(out, v, a, b);
    } else if whole_eq(&key, "redirect-gateway") {
        st.2 = true;
        let low = lower_range(v, ta, tb);
        let def1 = chars_of("def1");
        let ln = low.len();
        assert(low@.subrange(0, ln as int) =~= low@);
        if range_contains(&low, 0, ln, &def1) {
            push_line(out, v, a, b);
        } else {
            push_str(out, "redirect-gateway def1 bypass-dhcp\n");
        }
    } else {
        push_line(out, v, a, b);
    }
}

/// The runtime profile for `content`, with the Windows driver to request (if any).
///
/// `auth-user-pass` is pointed at `auth_path` (or its existing file path is
/// rewritten with `/` separators), `dev` becomes `dev tun`, `redirect-gateway`
/// gets `def1`, missing directives are appended, and inline blocks, comments
/// and every other line are kept as they are.
pub fn prepare_runtime_profile_with_driver(
    content: &str,
    profiles_dir: &str,
    id: i64,
    auth_path: Option<&str>,
    windows_driver: Option<&str>,
) -> (r: RuntimeProfile)
    ensures
        r.path@ == path_join(profiles_dir@, ovpn_file_name(id, ".runtime.ovpn"@)),
        r.contents@ == spec_runtime_profile(content@, opt_view(auth_path), opt_view(windows_driver)),
{
    let v = chars_of(content);
    let auth_chars: Option<Vec<char>> = match auth_path {
        Some(p) => Some(chars_of(p)),
        None => None,
    };
    let ghost auth = opt_view(auth_path);
    let mut out: Vec<char> = Vec::new();
    let mut st: (bool, bool, bool, bool, bool) = (false, false, false, false, false);
    let ghost mut done: Seq<Seq<char>> = Seq::empty();
    let mut pos: usize = 0;
    proof {
        assert(v@.skip(0) =~= v@);
    }
    while pos < v.len()
        invariant
            pos <= v@.len(),
            v@ == content@,
            auth == opt_view(auth_path),
            match auth_chars {
                Some(c) => auth == Some(c@),
                None => auth is None,
            },
            done + lines(v@.skip(pos as int)) == lines(v@),
            rt_fold(done, auth) == (RtState {
                out: out@,
                in_tag: st.0,
                saw_auth: st.1,
                saw_redirect: st.2,
                saw_driver: st.3,
                saw_dev: st.4,
            }),
        decreases v@.len() - pos,
    {
        let (a, b, next) = next_line(&v, pos);
        let ghost line = v@.subrange(a as int, b as int);
        let ac: Option<&Vec<char>> = match &auth_chars {
            Some(c) => Some(c),
            None => None,
        };
        rt_apply_line(&mut out, &mut st, &v, a, b, ac);
        proof {
            assert(done.push(line) + lines(v@.skip(next as int)) =~= done + lines(
                v@.skip(pos as int),
            ));
            assert(done.push(line).drop_last() =~= done);
            done = done.push(line);
        }
        pos = next;
    }
    proof {
        assert(v@.skip(pos as int) =~= Seq::<char>::empty());
        assert(done =~= lines(v@));
    }
    if !st.4 {
        push_str(&mut out, "dev tun\n");
    }
    if !st.3 {
        match windows_driver {
            Some(d) => {
                push_str(&mut out, "windows-driver ");
                push_str(&mut out, d);
                push_str(&mut out, "\n");
            },
            None => {},
        }
    }
    if !st.2 {
        push_str(&mut out, "redirect-gateway def1 bypass-dhcp\n");
    }
    match &auth_chars {
        Some(p) => {
            if !st.1 {
                push_str(&mut out, "auth-user-pass ");
                push_config_path(&mut out, p, 0, p.len());
                assert(p@.subrange(0, p@.len() as int) =~= p@);
                push_str(&mut out, "\n");
            }
        },
        None => {},
    }
    push_lit_if_absent(&mut out, "auth-nocache", "auth-nocache\n");
    push_lit_if_absent(&mut out, "script-security", "script-security 2\n");
    let contents = string_from_chars(out.as_slice());
    RuntimeProfile { path: runtime_profile_path(profiles_dir, id), contents }
}

/// [`prepare_runtime_profile_with_driver`] without a Windows driver.
pub fn prepare_runtime_profile(
    content: &str,
    profiles_dir: &str,
    id: i64,
    auth_path: Option<&str>,
) -> (r: RuntimeProfile)
    ensures
        r.path@ == path_join(profiles_dir@, ovpn_file_name(id, ".runtime.ovpn"@)),
        r.contents@ == spec_runtime_profile(content@, opt_view(auth_path), None),
{
    prepare_runtime_profile_with_driver(content, profiles_dir, id, auth_path, None)
}

// ---------------------------------------------------------------------------
// Log inspection
// ---------------------------------------------------------------------------

/// Where an OpenVPN tunnel stands, as read from its log.
#[derive(Clone, Debug)]
pub enum OvpnTunnelState {
    Connecting,
    Up,
    AuthFailed,
    Fatal(String),
    Exited,
}

/// The value of an [`OvpnTunnelState`].
pub enum TunnelStateView {
    Connecting,
    Up,
    AuthFailed,
    Fatal(Seq<char>),
    Exited,
}

impl View for OvpnTunnelState {
    type V = TunnelStateView;

    open spec fn view(&self) -> TunnelStateView {
        match self {
            OvpnTunnelState::Connecting => TunnelStateView::Connecting,
            OvpnTunnelState::Up => TunnelStateView::Up,
            OvpnTunnelState::AuthFailed => TunnelStateView::AuthFailed,
            OvpnTunnelState::Fatal(d) => TunnelStateView::Fatal(d@),
            OvpnTunnelState::Exited => TunnelStateView::Exited,
        }
    }
}

/// Log fragments (lower case) that mean the tunnel cannot come up, in the
/// order they are tried.
pub open spec fn fatal_needles() -> Seq<Seq<char>> {
    seq![
        "there are no tap-windows adapters"@,
        "cannot open tun/tap"@,
        "all tap-windows adapters"@,
        "failed to open tun"@,
        "createfile failed on"@,
        "exiting due to fatal error"@,
        "options error:"@,
        "bad backslash"@,
        "error: windows route add"@,
        "route: waiting for tun/tap"@,
        "use --help for more information"@,
    ]
}

fn fatal_needle(i: usize) -> (r: &'static str)
    requires
        i < 11,
    ensures
        r@ == fatal_needles()[i as int],
{
    match i {
        0 => "there are no tap-windows adapters",
        1 => "cannot open tun/tap",
        2 => "all tap-windows adapters",
        3 => "failed to open tun",
        4 => "createfile failed on",
        5 => "exiting due to fatal error",
        6 => "options error:",
        7 => "bad backslash",
        8 => "error: windows route add",
        9 => "route: waiting for tun/tap",
        _ => "use --help for more information",
    }
}

/// The last line whose lower-cased text contains `needle`.
pub open spec fn last_matching(ls: Seq<Seq<char>>, needle: Seq<char>) -> Option<Seq<char>>
    decreases ls.len(),
{
    if ls.len() == 0 {
        None
    } else if seq_contains(lower(ls.last()), needle) {
        Some(ls.last())
    } else {
        last_matching(ls.drop_last(), needle)
    }
}

/// The first fatal fragment found in `lo` (the lower-cased log), reported
/// with the last log line that shows it.
pub open spec fn first_fatal(log: Seq<char>, lo: Seq<char>, needles: Seq<Seq<char>>) -> Option<
    Seq<char>,
>
    decreases needles.len(),
{
    if needles.len() == 0 {
        None
    } else if seq_contains(lo, needles[0]) {
        Some(
            match last_matching(lines(log), needles[0]) {
                Some(l) => l,
                None => needles[0],
            },
        )
    } else {
        first_fatal(log, lo, needles.drop_first())
    }
}

/// What [`inspect_openvpn_log`] reports for a log text.
pub open spec fn spec_inspect_log(log: Seq<char>) -> TunnelStateView {
    let lo = lower(log);
    if seq_contains(lo, "initialization sequence completed"@) {
        TunnelStateView::Up
    } else if seq_contains(lo, "auth_failed"@) || seq_contains(lo, "auth failed"@) || seq_contains(
        lo,
        "received control message: auth_failed"@,
    ) {
        TunnelStateView::AuthFailed
    } else {
        match first_fatal(log, lo, fatal_needles()) {
            Some(d) => TunnelStateView::Fatal(d),
            None => if seq_contains(lo, "process exiting"@) || seq_contains(lo, "sigterm"@) {
                TunnelStateView::Exited
            } else {
                TunnelStateView::Connecting
            },
        }
    }
}

fn lit_in(low: &Vec<char>, lit: &str) -> (r: bool)
    ensures
        r == seq_contains(low@, lit@),
{
    let n = low.len();
    let nv = chars_of(lit);
    assert(low@.subrange(0, n as int) =~= low@);
    range_contains(low, 0, n, &nv)
}

/// The bounds of the last line of `v` whose lower-cased text contains `needle`.
fn last_matching_line(v: &Vec<char>, needle: &Vec<char>) -> (r: Option<(usize, usize)>)
    ensures
        match last_matching(lines(v@), needle@) {
            Some(l) => r matches Some((a, b)) && a <= b <= v@.len() && v@.subrange(
                a as int,
                b as int,
            ) == l,
            None => r is None,
        },
{
    let mut found: Option<(usize, usize)> = None;
    let ghost mut done: Seq<Seq<char>> = Seq::empty();
    let mut pos: usize = 0;
    proof {
        assert(v@.skip(0) =~= v@);
    }
    while pos < v.len()
        invariant
            pos <= v@.len(),
            done + lines(v@.skip(pos as int)) == lines(v@),
            match last_matching(done, needle@) {
                Some(l) => found matches Some((a, b)) && a <= b <= v@.len() && v@.subrange(
                    a as int,
                    b as int,
                ) == l,
                None => found is None,
            },
        decreases v@.len() - pos,
    {
        let (a, b, next) = next_line(v, pos);
        let ghost line = v@.subrange(a as int, b as int);
        let low = lower_range(v, a, b);
        let ln = low.len();
        assert(low@.subrange(0, ln as int) =~= low@);
        if range_contains(&low, 0, ln, needle) {
            found = Some((a, b));
        }
        proof {
            assert(done.push(line) + lines(v@.skip(next as int)) =~= done + lines(
                v@.skip(pos as int),
            ));
            assert(done.push(line).drop_last() =~= done);
            done = done.push(line);
        }
        pos = next;
    }
    proof {
        assert(v@.skip(pos as int) =~= Seq::<char>::empty());
        assert(done =~= lines(v@));
    }
    found
}

/// The fragments of an OpenVPN log (lower-cased) that mean the tunnel
/// failed for good: missing or unusable TAP/TUN adapters, a fatal exit, an
/// option error, a bad backslash, a failed route.
pub open spec fn openvpn_fatal_fragment(n: Seq<char>) -> bool {
    ||| n == "there are no tap-windows adapters"@
    ||| n == "cannot open tun/tap"@
    ||| n == "all tap-windows adapters"@
    ||| n == "failed to open tun"@
    ||| n == "createfile failed on"@
    ||| n == "exiting due to fatal error"@
    ||| n == "options error:"@
    ||| n == "bad backslash"@
    ||| n == "error: windows route add"@
    ||| n == "route: waiting for tun/tap"@
    ||| n == "use --help for more information"@
}

/// A one-line fragment: not empty, and without line breaks.
pub open spec fn one_line_fragment(n: Seq<char>) -> bool {
    &&& n.len() > 0
    &&& forall|j: int| 0 <= j < n.len() ==> n[j] != '\n' && n[j] != '\r'
}

proof fn lemma_fatal_fragments_one_line(n: Seq<char>)
    requires
        openvpn_fatal_fragment(n),
    ensures
        one_line_fragment(n),
{
    reveal_strlit("there are no tap-windows adapters");
    reveal_strlit("cannot open tun/tap");
    reveal_strlit("all tap-windows adapters");
    reveal_strlit("failed to open tun");
    reveal_strlit("createfile failed on");
    reveal_strlit("exiting due to fatal error");
    reveal_strlit("options error:");
    reveal_strlit("bad backslash");
    reveal_strlit("error: windows route add");
    reveal_strlit("route: waiting for tun/tap");
    reveal_strlit("use --help for more information");
}

/// A one-line fragment found in the lower-cased text is found in the
/// lower-cased text of one of its lines.
proof fn lemma_fragment_in_a_line(s: Seq<char>, n: Seq<char>)
    requires
        one_line_fragment(n),
        seq_contains(lower(s), n),
    ensures
        exists|k: int| 0 <= k < lines(s).len() && seq_contains(lower(#[trigger] lines(s)[k]), n),
    decreases s.len(),
{
    let i = choose|i: int| occurs_at(lower(s), n, i);
    let m = n.len() as int;
    assert(lower(s).len() == s.len());
    if s.len() == 0 {
        assert(false);
    } else if exists|p: int| is_first(s, '\n', p) {
        let p = choose|p: int| is_first(s, '\n', p);
        let first = s.take(p);
        let line = crate::text::strip_cr(first);
        let rest = s.skip(p + 1);
        assert(lines(s) == seq![line] + lines(rest));
        if i + m <= p {
            if first.len() > 0 && first.last() == '\r' && i + m == p {
                assert(lower(s).subrange(i, i + m)[m - 1] == lower(s)[p - 1]);
                assert(lower(s)[p - 1] == lower_char(s[p - 1]));
                assert(n[m - 1] == '\r');
            }
            let e = line.len() as int;
            assert(i + m <= e);
            assert(line =~= s.subrange(0, e));
            lemma_lower_subrange(s, 0, e);
            assert(lower(line).subrange(i, i + m) =~= lower(s).subrange(i, i + m));
            assert(occurs_at(lower(line), n, i));
            assert(lines(s)[0] == line);
        } else if i > p {
            assert(rest =~= s.subrange(p + 1, s.len() as int));
            lemma_lower_subrange(s, p + 1, s.len() as int);
            assert(lower(rest).subrange(i - p - 1, i - p - 1 + m) =~= lower(s).subrange(i, i + m));
            assert(occurs_at(lower(rest), n, i - p - 1));
            lemma_fragment_in_a_line(rest, n);
            let k = choose|k: int| 0 <= k < lines(rest).len() && seq_contains(lower(#[trigger] lines(rest)[k]), n);
            assert(lines(s)[k + 1] == lines(rest)[k]);
        } else {
            assert(lower(s).subrange(i, i + m)[p - i] == lower(s)[p]);
            assert(lower(s)[p] == lower_char(s[p]));
            assert(n[p - i] == '\n');
        }
    } else {
        assert(lines(s) == seq![s]);
        assert(lines(s)[0] == s);
    }
}

proof fn lemma_last_matching_found(ls: Seq<Seq<char>>, n: Seq<char>)
    requires
        exists|k: int| 0 <= k < ls.len() && seq_contains(lower(#[trigger] ls[k]), n),
    ensures
        last_matching(ls, n) matches Some(l) && ls.contains(l) && seq_contains(lower(l), n),
    decreases ls.len(),
{
    let k = choose|k: int| 0 <= k < ls.len() && seq_contains(lower(#[trigger] ls[k]), n);
    if !seq_contains(lower(ls.last()), n) {
        let dl = ls.drop_last();
        assert(k < ls.len() - 1);
        assert(dl[k] == ls[k]);
        lemma_last_matching_found(dl, n);
        let l = last_matching(dl, n).unwrap();
        let x = choose|x: int| 0 <= x < dl.len() && dl[x] == l;
        assert(ls[x] == l);
    } else {
        assert(ls[ls.len() - 1] == ls.last());
    }
}

proof fn lemma_first_fatal_found(log: Seq<char>, lo: Seq<char>, needles: Seq<Seq<char>>, k: int)
    requires
        0 <= k < needles.len(),
        seq_contains(lo, needles[k]),
    ensures
        first_fatal(log, lo, needles) matches Some(d) && exists|x: int|
            0 <= x < needles.len() && seq_contains(lo, #[trigger] needles[x]) && d == match last_matching(
                lines(log),
                needles[x],
            ) {
                Some(l) => l,
                None => needles[x],
            },
    decreases needles.len(),
{
    if !seq_contains(lo, needles[0]) {
        let t = needles.drop_first();
        assert(t[k - 1] == needles[k]);
        lemma_first_fatal_found(log, lo, t, k - 1);
        let d = first_fatal(log, lo, t).unwrap();
        let x = choose|x: int|
            0 <= x < t.len() && seq_contains(lo, #[trigger] t[x]) && d == match last_matching(
                lines(log),
                t[x],
            ) {
                Some(l) => l,
                None => t[x],
            };
        assert(needles[x + 1] == t[x]);
    } else {
        assert(needles[0] == needles[0]);
    }
}

/// A log that shows a fatal OpenVPN failure, with neither the tunnel up nor
/// an authentication failure, is reported as fatal, with a line of the log
/// that shows a fatal fragment.
pub proof fn law_fatal_log_is_reported(log: Seq<char>, n: Seq<char>)
    requires
        openvpn_fatal_fragment(n),
        seq_contains(lower(log), n),
        !seq_contains(lower(log), "initialization sequence completed"@),
        !seq_contains(lower(log), "auth_failed"@),
        !seq_contains(lower(log), "auth failed"@),
        !seq_contains(lower(log), "received control message: auth_failed"@),
    ensures
        spec_inspect_log(log) matches TunnelStateView::Fatal(d) && lines(log).contains(d) && exists|m: Seq<char>|
            openvpn_fatal_fragment(m) && seq_contains(lower(d), m),
{
    let lo = lower(log);
    let ns = fatal_needles();
    assert forall|x: int| 0 <= x < ns.len() implies openvpn_fatal_fragment(#[trigger] ns[x]) by {}
    assert(exists|x: int| 0 <= x < ns.len() && ns[x] == n);
    let k = choose|x: int| 0 <= x < ns.len() && ns[x] == n;
    lemma_first_fatal_found(log, lo, ns, k);
    let d = first_fatal(log, lo, ns).unwrap();
    let x = choose|x: int|
        0 <= x < ns.len() && seq_contains(lo, #[trigger] ns[x]) && d == match last_matching(
            lines(log),
            ns[x],
        ) {
            Some(l) => l,
            None => ns[x],
        };
    let m = ns[x];
    lemma_fatal_fragments_one_line(m);
    lemma_fragment_in_a_line(log, m);
    lemma_last_matching_found(lines(log), m);
}

proof fn lemma_first_fatal_none(log: Seq<char>, lo: Seq<char>, needles: Seq<Seq<char>>)
    requires
        forall|k: int| 0 <= k < needles.len() ==> !seq_contains(lo, #[trigger] needles[k]),
    ensures
        first_fatal(log, lo, needles) is None,
    decreases needles.len(),
{
    if needles.len() > 0 {
        let t = needles.drop_first();
        assert forall|k: int| 0 <= k < t.len() implies !seq_contains(lo, #[trigger] t[k]) by {
            assert(t[k] == needles[k + 1]);
        }
        assert(!seq_contains(lo, needles[0]));
        lemma_first_fatal_none(log, lo, t);
    }
}

/// How a log is read, in order: a completed initialization means the tunnel
/// is up; else an authentication failure; else (with no fatal fragment in
/// the log) a process exit or `SIGTERM` means it exited; and a log with
/// none of these is still connecting. Matching ignores ASCII case.
pub proof fn law_log_states(log: Seq<char>)
    ensures
        seq_contains(lower(log), "initialization sequence completed"@) ==> spec_inspect_log(log)
            == TunnelStateView::Up,
        !seq_contains(lower(log), "initialization sequence completed"@) && (seq_contains(
            lower(log),
            "auth_failed"@,
        ) || seq_contains(lower(log), "auth failed"@)) ==> spec_inspect_log(log)
            == TunnelStateView::AuthFailed,
        ({
            let lo = lower(log);
            &&& !seq_contains(lo, "initialization sequence completed"@)
            &&& !seq_contains(lo, "auth_failed"@)
            &&& !seq_contains(lo, "auth failed"@)
            &&& !seq_contains(lo, "received control message: auth_failed"@)
            &&& forall|m: Seq<char>| openvpn_fatal_fragment(m) ==> !seq_contains(lo, m)
        }) ==> spec_inspect_log(log) == if seq_contains(lower(log), "process exiting"@)
            || seq_contains(lower(log), "sigterm"@) {
            TunnelStateView::Exited
        } else {
            TunnelStateView::Connecting
        },
{
    let lo = lower(log);
    let ns = fatal_needles();
    if forall|m: Seq<char>| openvpn_fatal_fragment(m) ==> !seq_contains(lo, m) {
        assert forall|k: int| 0 <= k < ns.len() implies !seq_contains(lo, #[trigger] ns[k]) by {
            assert(openvpn_fatal_fragment(ns[k]));
        }
        lemma_first_fatal_none(log, lo, ns);
    }
}

/// Scan an OpenVPN log for success or hard-failure markers (case-insensitive):
/// "Initialization Sequence Completed" means up; an auth failure, a driver or
/// option error (reported with the last log line that shows it), or the
/// process exiting come next, in that order; otherwise still connecting.
pub fn inspect_openvpn_log(log: &str) -> (r: OvpnTunnelState)
    ensures
        r@ == spec_inspect_log(log@),
{
    let v = chars_of(log);
    let n = v.len();
    let low = lower_range(&v, 0, n);
    assert(v@.subrange(0, n as int) =~= v@);
    if lit_in(&low, "initialization sequence completed") {
        return OvpnTunnelState::Up;
    }
    if lit_in(&low, "auth_failed") || lit_in(&low, "auth failed") || lit_in(
        &low,
        "received control message: auth_failed",
    ) {
        return OvpnTunnelState::AuthFailed;
    }
    let ghost needles = fatal_needles();
    assert(needles.skip(0) =~= needles);
    let mut i: usize = 0;
    while i < 11
        invariant
            0 <= i <= 11,
            needles == fatal_needles(),
            needles.len() == 11,
            v@ == log@,
            low@ == lower(log@),
            !seq_contains(low@, "initialization sequence completed"@),
            !(seq_contains(low@, "auth_failed"@) || seq_contains(low@, "auth failed"@)
                || seq_contains(low@, "received control message: auth_failed"@)),
            first_fatal(log@, low@, needles) == first_fatal(log@, low@, needles.skip(i as int)),
        decreases 11 - i,
    {
        let needle = fatal_needle(i);
        assert(needles.skip(i as int).len() > 0);
        assert(needles.skip(i as int)[0] == needle@);
        assert(needles.skip(i as int).drop_first() =~= needles.skip(i + 1));
        if lit_in(&low, needle) {
            let nv = chars_of(needle);
            let detail = match last_matching_line(&v, &nv) {
                Some((a, b)) => string_of_range(&v, a, b),
                None => owned(needle),
            };
            assert(first_fatal(log@, low@, needles.skip(i as int)) == Some(detail@));
            return OvpnTunnelState::Fatal(detail);
        }
        i += 1;
    }
    assert(needles.skip(11) =~= Seq::<Seq<char>>::empty());
    if lit_in(&low, "process exiting") || lit_in(&low, "sigterm") {
        return OvpnTunnelState::Exited;
    }
    OvpnTunnelState::Connecting
}

// ---------------------------------------------------------------------------
// Waiting for the tunnel
// ---------------------------------------------------------------------------

/// Lines joined with `\n` between them.
pub open spec fn join_lines(ls: Seq<Seq<char>>) -> Seq<char>
    decreases ls.len(),
{
    if ls.len() == 0 {
        Seq::empty()
    } else if ls.len() == 1 {
        ls[0]
    } else {
        join_lines(ls.drop_last()) + seq!['\n'] + ls.last()
    }
}

/// The last `n` lines of `log` (fewer if it has fewer), joined with `\n`.
pub open spec fn log_tail(log: Seq<char>, n: nat) -> Seq<char> {
    let ls = lines(log);
    let k = if ls.len() < n {
        ls.len()
    } else {
        n
    };
    join_lines(ls.skip(ls.len() - k))
}

/// The main log followed by the early-stderr log (when that is non-empty),
/// separated by a newline when both have text.
pub open spec fn spec_merge_logs(main: Option<Seq<char>>, stderr: Option<Seq<char>>) -> Seq<char> {
    let m = match main {
        Some(t) => t,
        None => Seq::empty(),
    };
    match stderr {
        Some(t) => if t.len() == 0 {
            m
        } else if m.len() == 0 {
            t
        } else {
            m + seq!['\n'] + t
        },
        None => m,
    }
}

/// Combine what could be read of the OpenVPN log and of its stderr file.
pub fn merge_logs(main: Option<&str>, stderr: Option<&str>) -> (r: String)
    ensures
        r@ == spec_merge_logs(opt_view(main), opt_view(stderr)),
{
    let mut out: Vec<char> = Vec::new();
    match main {
        Some(t) => push_str(&mut out, t),
        None => {},
    }
    match stderr {
        Some(t) => {
            if !t.is_empty() {
                if out.len() > 0 {
                    out.push('\n');
                }
                push_str(&mut out, t);
            }
        },
        None => {},
    }
    assert(out@ =~= spec_merge_logs(opt_view(main), opt_view(stderr)));
    string_from_chars(out.as_slice())
}

/// The last `n` lines of `log`, joined with `\n`.
pub fn tail_lines(log: &str, n: usize) -> (r: String)
    ensures
        r@ == log_tail(log@, n as nat),
{
    let v = chars_of(log);
    let mut bounds: Vec<(usize, usize)> = Vec::new();
    let ghost mut done: Seq<Seq<char>> = Seq::empty();
    let mut pos: usize = 0;
    proof {
        assert(v@.skip(0) =~= v@);
    }
    while pos < v.len()
        invariant
            pos <= v@.len(),
            done + lines(v@.skip(pos as int)) == lines(v@),
            bounds@.len() == done.len(),
            forall|j: int|
                0 <= j < done.len() ==> {
                    &&& (#[trigger] bounds@[j]).0 <= bounds@[j].1 <= v@.len()
                    &&& v@.subrange(bounds@[j].0 as int, bounds@[j].1 as int) == done[j]
                },
        decreases v@.len() - pos,
    {
        let (a, b, next) = next_line(&v, pos);
        let ghost line = v@.subrange(a as int, b as int);
        bounds.push((a, b));
        proof {
            assert(done.push(line) + lines(v@.skip(next as int)) =~= done + lines(
                v@.skip(pos as int),
            ));
            done = done.push(line);
        }
        pos = next;
    }
    proof {
        assert(v@.skip(pos as int) =~= Seq::<char>::empty());
        assert(done =~= lines(v@));
    }
    let total = bounds.len();
    let k = if total < n {
        total
    } else {
        n
    };
    let ghost sel = done.skip(total - k);
    let mut out: Vec<char> = Vec::new();
    let mut i = total - k;
    while i < total
        invariant
            total == bounds@.len() == done.len(),
            k <= total,
            total - k <= i <= total,
            sel == done.skip(total - k),
            forall|j: int|
                0 <= j < done.len() ==> {
                    &&& (#[trigger] bounds@[j]).0 <= bounds@[j].1 <= v@.len()
                    &&& v@.subrange(bounds@[j].0 as int, bounds@[j].1 as int) == done[j]
                },
            out@ == join_lines(sel.take(i - (total - k))),
        decreases total - i,
    {
        let (a, b) = bounds[i];
        let ghost j = i - (total - k);
        assert(sel.take(j + 1).drop_last() =~= sel.take(j));
        assert(sel.take(j + 1).last() == done[i as int]);
        if i > total - k {
            out.push('\n');
        } else {
            assert(sel.take(j) =~= Seq::<Seq<char>>::empty());
        }
        push_range(&mut out, &v, a, b);
        i += 1;
        assert(out@ =~= join_lines(sel.take(i - (total - k))));
    }
    assert(sel.take(k as int) =~= sel);
    string_from_chars(out.as_slice())
}

/// Why waiting for the tunnel failed.
#[derive(Debug)]
pub enum WaitFailure {
    /// The process died early without writing any log.
    ExitedWithoutLog,
    /// Time ran out before anything was logged.
    TimedOutWithoutLog,
    /// Time ran out; the last log lines.
    TimedOut(String),
}

/// What to do after one poll of the OpenVPN log.
#[derive(Debug)]
pub enum WaitOutcome {
    KeepWaiting,
    Finished(OvpnTunnelState),
    Failed(WaitFailure),
}

pub enum WaitOutcomeView {
    KeepWaiting,
    Finished(TunnelStateView),
    ExitedWithoutLog,
    TimedOutWithoutLog,
    TimedOut(Seq<char>),
}

impl View for WaitOutcome {
    type V = WaitOutcomeView;

    open spec fn view(&self) -> WaitOutcomeView {
        match self {
            WaitOutcome::KeepWaiting => WaitOutcomeView::KeepWaiting,
            WaitOutcome::Finished(s) => WaitOutcomeView::Finished(s@),
            WaitOutcome::Failed(WaitFailure::ExitedWithoutLog) => WaitOutcomeView::ExitedWithoutLog,
            WaitOutcome::Failed(WaitFailure::TimedOutWithoutLog) => WaitOutcomeView::TimedOutWithoutLog,
            WaitOutcome::Failed(WaitFailure::TimedOut(t)) => WaitOutcomeView::TimedOut(t@),
        }
    }
}

/// How long OpenVPN may take to die before a missing process counts as failure.
pub open spec fn probe_after_nanos() -> u128 {
    4_000_000_000
}

/// Whether the process should be probed at this point of the wait.
pub fn process_probe_due(elapsed_nanos: u128) -> (r: bool)
    ensures
        r == (elapsed_nanos > probe_after_nanos()),
{
    elapsed_nanos > 4_000_000_000
}

/// One poll: the log text to remember and what to do next.
///
/// `combined` is what the logs hold now, `last` what was seen before,
/// `running` whether the process was found when probed (only probed once
/// [`process_probe_due`]).
pub open spec fn spec_wait_step(
    last: Seq<char>,
    combined: Seq<char>,
    elapsed_nanos: u128,
    timeout_nanos: u128,
    running: Option<bool>,
) -> (Seq<char>, WaitOutcomeView) {
    let seen = if combined.len() > 0 {
        combined
    } else {
        last
    };
    let st = spec_inspect_log(seen);
    if combined.len() > 0 && !(st is Connecting) {
        (seen, WaitOutcomeView::Finished(st))
    } else if elapsed_nanos > probe_after_nanos() && running == Some(false) {
        (
            seen,
            if seen.len() == 0 {
                WaitOutcomeView::ExitedWithoutLog
            } else {
                WaitOutcomeView::Finished(TunnelStateView::Exited)
            },
        )
    } else if elapsed_nanos >= timeout_nanos {
        let tail = log_tail(seen, 12);
        (
            seen,
            if tail.len() == 0 {
                WaitOutcomeView::TimedOutWithoutLog
            } else {
                WaitOutcomeView::TimedOut(tail)
            },
        )
    } else {
        (seen, WaitOutcomeView::KeepWaiting)
    }
}

/// Decide after one poll of the OpenVPN log while waiting for the tunnel.
pub fn wait_for_openvpn_step(
    last: &str,
    combined: &str,
    elapsed_nanos: u128,
    timeout_nanos: u128,
    running: Option<bool>,
) -> (r: (String, WaitOutcome))
    ensures
        (r.0@, r.1@) == spec_wait_step(last@, combined@, elapsed_nanos, timeout_nanos, running),
{
    let seen = if !combined.is_empty() {
        owned(combined)
    } else {
        owned(last)
    };
    if !combined.is_empty() {
        let st = inspect_openvpn_log(seen.as_str());
        match st {
            OvpnTunnelState::Connecting => {},
            _ => {
                return (seen, WaitOutcome::Finished(st));
            },
        }
    }
    if elapsed_nanos > 4_000_000_000 && running == Some(false) {
        if seen.as_str().is_empty() {
            return (seen, WaitOutcome::Failed(WaitFailure::ExitedWithoutLog));
        }
        return (seen, WaitOutcome::Finished(OvpnTunnelState::Exited));
    }
    if elapsed_nanos >= timeout_nanos {
        let tail = tail_lines(seen.as_str(), 12);
        if tail.as_str().is_empty() {
            return (seen, WaitOutcome::Failed(WaitFailure::TimedOutWithoutLog));
        }
        return (seen, WaitOutcome::Failed(WaitFailure::TimedOut(tail)));
    }
    (seen, WaitOutcome::KeepWaiting)
}

/// The error text for a failed wait.
pub open spec fn spec_wait_failure_message(
    f: WaitOutcomeView,
    stderr_path: Seq<char>,
    timeout_secs: u64,
) -> Seq<char> {
    match f {
        WaitOutcomeView::ExitedWithoutLog =>
            "openvpn.exe exited within seconds with no log. Run ZeroNode elevated (UAC), confirm OpenVPN DCO/TAP is installed, and check "@
                + stderr_path,
        WaitOutcomeView::TimedOutWithoutLog => "OpenVPN did not report success within "@ + dec(
            timeout_secs as nat,
        )
            + "s (no log output). Usually means missing Admin rights, missing TAP/DCO, or blocked remote. stderr: "@
            + stderr_path,
        WaitOutcomeView::TimedOut(tail) => "OpenVPN did not finish within "@ + dec(
            timeout_secs as nat,
        ) + "s. Last log:\n"@ + tail,
        _ => Seq::empty(),
    }
}

/// The error text for a failed wait, naming the stderr file and the timeout.
pub fn wait_failure_message(f: &WaitFailure, stderr_path: &str, timeout_secs: u64) -> (r: String)
    ensures
        r@ == spec_wait_failure_message(WaitOutcome::Failed(*f)@, stderr_path@, timeout_secs),
{
    let mut out: Vec<char> = Vec::new();
    match f {
        WaitFailure::ExitedWithoutLog => {
            push_str(
                &mut out,
                "openvpn.exe exited within seconds with no log. Run ZeroNode elevated (UAC), confirm OpenVPN DCO/TAP is installed, and check ",
            );
            push_str(&mut out, stderr_path);
        },
        WaitFailure::TimedOutWithoutLog => {
            push_str(&mut out, "OpenVPN did not report success within ");
            push_dec(&mut out, timeout_secs);
            push_str(
                &mut out,
                "s (no log output). Usually means missing Admin rights, missing TAP/DCO, or blocked remote. stderr: ",
            );
            push_str(&mut out, stderr_path);
        },
        WaitFailure::TimedOut(tail) => {
            push_str(&mut out, "OpenVPN did not finish within ");
            push_dec(&mut out, timeout_secs);
            push_str(&mut out, "s. Last log:\n");
            push_str(&mut out, tail.as_str());
        },
    }
    assert(out@ =~= spec_wait_failure_message(WaitOutcome::Failed(*f)@, stderr_path@, timeout_secs));
    string_from_chars(out.as_slice())
}

// ---------------------------------------------------------------------------
// GeoIP details
// ---------------------------------------------------------------------------

/// The "AS…" label from an ipwho.is record: empty without an ASN, otherwise
/// the ASN (prefixed with `AS` unless it has it) and the organisation, trimmed.
pub open spec fn spec_as_name(asn: Seq<char>, org: Seq<char>) -> Seq<char> {
    if asn.len() == 0 {
        Seq::empty()
    } else if starts_with(asn, "AS"@) {
        trim(asn + seq![' '] + org)
    } else {
        trim("AS"@ + asn + seq![' '] + org)
    }
}

/// The "AS…" label shown for a server from its ASN and organisation.
pub fn ipwho_as_name(asn: &str, org: &str) -> (r: String)
    ensures
        r@ == spec_as_name(asn@, org@),
{
    if asn.is_empty() {
        proof {
            reveal_strlit("");
        }
        let e = owned("");
        assert(e@ =~= Seq::<char>::empty());
        return e;
    }
    let a = chars_of(asn);
    let mut buf: Vec<char> = Vec::new();
    let an = a.len();
    assert(a@.subrange(0, an as int) =~= a@);
    if !range_starts_with(&a, 0, an, "AS") {
        push_str(&mut buf, "AS");
    }
    push_str(&mut buf, asn);
    buf.push(' ');
    push_str(&mut buf, org);
    assert(buf@ =~= (if starts_with(asn@, "AS"@) {
        asn@ + seq![' '] + org@
    } else {
        "AS"@ + asn@ + seq![' '] + org@
    }));
    let n = buf.len();
    let (lo, hi) = trim_range(&buf, 0, n);
    assert(buf@.subrange(0, n as int) =~= buf@);
    string_of_range(&buf, lo, hi)
}

// ---------------------------------------------------------------------------
// Importing a profile
// ---------------------------------------------------------------------------

/// What is stored with an imported OpenVPN profile besides its text: the
/// first remote (when there is one), its port, the protocol, and the cipher
/// and digest when the profile names them.
#[derive(Debug)]
pub struct OvpnImportFields {
    pub remote_host: Option<String>,
    pub remote_port: u16,
    pub proto: String,
    pub cipher: Option<String>,
    pub auth: Option<String>,
}

/// A text, or nothing when it is empty.
pub open spec fn non_empty_text(s: Seq<char>) -> Option<Seq<char>> {
    if s.len() == 0 {
        None
    } else {
        Some(s)
    }
}

fn non_empty_string(s: String) -> (r: Option<String>)
    ensures
        match r {
            Some(t) => non_empty_text(s@) == Some(t@),
            None => non_empty_text(s@) is None,
        },
{
    if s.as_str().is_empty() {
        None
    } else {
        Some(s)
    }
}

/// The fields stored with an imported profile.
pub fn ovpn_import_fields(content: &str) -> (r: OvpnImportFields)
    ensures
        opt_view_string(r.remote_host) == non_empty_text(spec_parse_ovpn(content@).remote_host),
        r.remote_port == spec_parse_ovpn(content@).remote_port,
        r.proto@ == spec_parse_ovpn(content@).proto,
        opt_view_string(r.cipher) == non_empty_text(spec_parse_ovpn(content@).cipher),
        opt_view_string(r.auth) == non_empty_text(spec_parse_ovpn(content@).auth),
{
    let p = parse_ovpn(content);
    OvpnImportFields {
        remote_host: non_empty_string(p.remote_host),
        remote_port: p.remote_port,
        proto: p.proto,
        cipher: non_empty_string(p.cipher),
        auth: non_empty_string(p.auth),
    }
}

pub open spec fn opt_view_string(o: Option<String>) -> Option<Seq<char>> {
    match o {
        Some(s) => Some(s@),
        None => None,
    }
}

/// The notice after an OpenVPN profile was imported.
pub fn ovpn_imported_notice(name: &str) -> (r: String)
    ensures
        r@ == "Imported OpenVPN server '"@ + name@ + "'. Looking up location…"@,
{
    let mut out: Vec<char> = Vec::new();
    push_str(&mut out, "Imported OpenVPN server '");
    push_str(&mut out, name);
    push_str(&mut out, "'. Looking up location…");
    string_from_chars(out.as_slice())
}


// ---------------------------------------------------------------------------
// The remote's address
// ---------------------------------------------------------------------------

/// Whether `host` parses as an IPv4 or IPv6 address (std's `FromStr` for
/// `IpAddr`); the answer depends on the text alone.
pub uninterp spec fn ip_literal(host: Seq<char>) -> bool;

/// std's `str::parse::<IpAddr>`, asked only whether it succeeds. Its result is
/// named by `ip_literal`: which texts std accepts as addresses is not written
/// out here.
#[verifier::external_body]
fn parses_as_ip(host: &str) -> (r: bool)
    ensures
        r == ip_literal(host@),
{
    host.parse::<core::net::IpAddr>().is_ok()
}

/// How the address of a profile's remote is found.
#[derive(Debug, PartialEq, Eq)]
pub enum RemoteIp {
    /// The profile names no remote host.
    Missing,
    /// The host is an address already.
    Literal(String),
    /// The host is a name that DNS must resolve.
    NeedsLookup,
}

/// The address step for `host`, given whether it is an IP address.
pub fn remote_ip_from(host: &str, is_ip: bool) -> (r: RemoteIp)
    ensures
        host@.len() == 0 ==> r == RemoteIp::Missing,
        host@.len() > 0 && is_ip ==> (r matches RemoteIp::Literal(s) && s@ == host@),
        host@.len() > 0 && !is_ip ==> r == RemoteIp::NeedsLookup,
{
    if host.unicode_len() == 0 {
        RemoteIp::Missing
    } else if is_ip {
        RemoteIp::Literal(owned(host))
    } else {
        RemoteIp::NeedsLookup
    }
}

/// How the remote `host` of a profile is turned into an address: nothing for
/// an empty host, the host itself when it is an IP address, else a DNS lookup.
pub fn remote_ip_step(host: &str) -> (r: RemoteIp)
    ensures
        host@.len() == 0 ==> r == RemoteIp::Missing,
        host@.len() > 0 && ip_literal(host@) ==> (r matches RemoteIp::Literal(s) && s@ == host@),
        host@.len() > 0 && !ip_literal(host@) ==> r == RemoteIp::NeedsLookup,
{
    if host.unicode_len() == 0 {
        return RemoteIp::Missing;
    }
    let is_ip = parses_as_ip(host);
    remote_ip_from(host, is_ip)
}

} // verus!
