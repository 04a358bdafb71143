//! Text the desktop client shows: durations, flags, endpoints, command output.
use vstd::prelude::*;
use crate::num::{dec, dec_signed, push_dec, push_dec_padded, push_i64, zero_pad};
use crate::text::{chars_of, owned, push_range, push_str, string_from_chars, trim, trim_range};

verus! {

/// `HH:MM:SS` of a duration in seconds (hours may exceed two digits).
pub open spec fn spec_format_elapsed(seconds: u64) -> Seq<char> {
    zero_pad(dec((seconds / 3600) as nat), 2) + seq![':'] + zero_pad(
        dec(((seconds % 3600) / 60) as nat),
        2,
    ) + seq![':'] + zero_pad(dec((seconds % 60) as nat), 2)
}

/// How long a session has been up, as `HH:MM:SS`.
pub fn format_elapsed(seconds: u64) -> (r: String)
    ensures
        r@ == spec_format_elapsed(seconds),
{
    let mut v: Vec<char> = Vec::new();
    push_dec_padded(&mut v, seconds / 3600, 2);
    v.push(':');
    push_dec_padded(&mut v, (seconds % 3600) / 60, 2);
    v.push(':');
    push_dec_padded(&mut v, seconds % 60, 2);
    assert(v@ =~= spec_format_elapsed(seconds));
    string_from_chars(v.as_slice())
}

/// A remaining time: `Nd HHh` with days, else `Nh MMm` with hours, else `Nm`.
pub open spec fn spec_format_remaining(seconds: u64) -> Seq<char> {
    let days = seconds / 86_400;
    let hours = (seconds % 86_400) / 3600;
    let minutes = (seconds % 3600) / 60;
    if days > 0 {
        dec(days as nat) + "d "@ + zero_pad(dec(hours as nat), 2) + "h"@
    } else if hours > 0 {
        dec(hours as nat) + "h "@ + zero_pad(dec(minutes as nat), 2) + "m"@
    } else {
        dec(minutes as nat) + "m"@
    }
}

/// How long until a cooldown ends.
pub fn format_remaining(seconds: u64) -> (r: String)
    ensures
        r@ == spec_format_remaining(seconds),
{
    let days = seconds / 86_400;
    let hours = (seconds % 86_400) / 3600;
    let minutes = (seconds % 3600) / 60;
    let mut v: Vec<char> = Vec::new();
    if days > 0 {
        push_dec(&mut v, days);
        push_str(&mut v, "d ");
        push_dec_padded(&mut v, hours, 2);
        push_str(&mut v, "h");
    } else if hours > 0 {
        push_dec(&mut v, hours);
        push_str(&mut v, "h ");
        push_dec_padded(&mut v, minutes, 2);
        push_str(&mut v, "m");
    } else {
        push_dec(&mut v, minutes);
        push_str(&mut v, "m");
    }
    assert(v@ =~= spec_format_remaining(seconds));
    string_from_chars(v.as_slice())
}

/// What the endpoint list of the local server shows: each selected IPv4 as
/// `ip:port`, then each selected IPv6 as `[ip]:port`; port 0 means 51820.
pub open spec fn spec_local_server_endpoints(port: u16, ipv4: Seq<Seq<char>>, ipv6: Seq<Seq<char>>) -> Seq<
    Seq<char>,
> {
    let p = if port == 0 {
        51820nat
    } else {
        port as nat
    };
    ipv4.map_values(|ip: Seq<char>| ip + seq![':'] + dec(p)) + ipv6.map_values(
        |ip: Seq<char>| seq!['['] + ip + "]:"@ + dec(p),
    )
}

pub open spec fn strings_view(v: Seq<String>) -> Seq<Seq<char>> {
    v.map_values(|s: String| s@)
}

/// The endpoints a client can use to reach this machine's server.
pub fn local_server_endpoints(port: u16, ipv4: &Vec<String>, ipv6: &Vec<String>) -> (r: Vec<String>)
    ensures
        strings_view(r@) == spec_local_server_endpoints(port, strings_view(ipv4@), strings_view(
            ipv6@,
        )),
{
    let p: u64 = if port == 0 {
        51820
    } else {
        port as u64
    };
    let ghost want = spec_local_server_endpoints(port, strings_view(ipv4@), strings_view(ipv6@));
    let mut out: Vec<String> = Vec::new();
    let mut i: usize = 0;
    while i < ipv4.len()
        invariant
            i <= ipv4@.len(),
            p == (if port == 0 { 51820 } else { port as u64 }),
            strings_view(out@) =~= strings_view(ipv4@).take(i as int).map_values(
                |ip: Seq<char>| ip + seq![':'] + dec(p as nat),
            ),
        decreases ipv4@.len() - i,
    {
        let mut v: Vec<char> = Vec::new();
        push_str(&mut v, ipv4[i].as_str());
        v.push(':');
        push_dec(&mut v, p);
        let ghost prev = strings_view(out@);
        let item = string_from_chars(v.as_slice());
        assert(item@ == ipv4@[i as int]@ + seq![':'] + dec(p as nat));
        out.push(item);
        assert(strings_view(out@) =~= prev.push(item@));
        assert(strings_view(ipv4@).take(i + 1) =~= strings_view(ipv4@).take(i as int).push(
            ipv4@[i as int]@,
        ));
        i += 1;
        assert(strings_view(out@) =~= strings_view(ipv4@).take(i as int).map_values(
            |ip: Seq<char>| ip + seq![':'] + dec(p as nat),
        ));
    }
    let ghost first = strings_view(out@);
    assert(strings_view(ipv4@).take(i as int) =~= strings_view(ipv4@));
    let mut j: usize = 0;
    while j < ipv6.len()
        invariant
            j <= ipv6@.len(),
            p == (if port == 0 { 51820 } else { port as u64 }),
            strings_view(out@) =~= first + strings_view(ipv6@).take(j as int).map_values(
                |ip: Seq<char>| seq!['['] + ip + "]:"@ + dec(p as nat),
            ),
        decreases ipv6@.len() - j,
    {
        let mut v: Vec<char> = Vec::new();
        v.push('[');
        push_str(&mut v, ipv6[j].as_str());
        push_str(&mut v, "]:");
        push_dec(&mut v, p);
        let ghost prev = strings_view(out@);
        let item = string_from_chars(v.as_slice());
        assert(item@ =~= seq!['['] + ipv6@[j as int]@ + "]:"@ + dec(p as nat));
        out.push(item);
        assert(strings_view(out@) =~= prev.push(item@));
        assert(strings_view(ipv6@).take(j + 1) =~= strings_view(ipv6@).take(j as int).push(
            ipv6@[j as int]@,
        ));
        j += 1;
        assert(strings_view(out@) =~= first + strings_view(ipv6@).take(j as int).map_values(
            |ip: Seq<char>| seq!['['] + ip + "]:"@ + dec(p as nat),
        ));
    }
    assert(strings_view(ipv6@).take(j as int) =~= strings_view(ipv6@));
    assert(strings_view(out@) =~= want);
    out
}

/// Debug text of an exit code: `Some(n)` or `None`.
pub open spec fn spec_exit_code_debug(code: Option<i32>) -> Seq<char> {
    match code {
        Some(c) => "Some("@ + dec_signed(c as int) + ")"@,
        None => "None"@,
    }
}

/// What a finished command reports: its trimmed stderr, else its trimmed
/// stdout, else its exit code.
pub open spec fn spec_command_output_detail(stdout: Seq<char>, stderr: Seq<char>, code: Option<i32>) -> Seq<
    char,
> {
    if trim(stderr).len() > 0 {
        trim(stderr)
    } else if trim(stdout).len() > 0 {
        trim(stdout)
    } else {
        "Exit code "@ + spec_exit_code_debug(code) + "."@
    }
}

/// Summary of a command's output (stdout and stderr already decoded as text).
pub fn command_output_detail(stdout: &str, stderr: &str, code: Option<i32>) -> (r: String)
    ensures
        r@ == spec_command_output_detail(stdout@, stderr@, code),
{
    let e = chars_of(stderr);
    let en = e.len();
    let (ea, eb) = trim_range(&e, 0, en);
    assert(e@.subrange(0, en as int) =~= e@);
    if ea < eb {
        return crate::text::string_of_range(&e, ea, eb);
    }
    let o = chars_of(stdout);
    let on = o.len();
    let (oa, ob) = trim_range(&o, 0, on);
    assert(o@.subrange(0, on as int) =~= o@);
    if oa < ob {
        return crate::text::string_of_range(&o, oa, ob);
    }
    let mut v: Vec<char> = Vec::new();
    push_str(&mut v, "Exit code ");
    match code {
        Some(c) => {
            push_str(&mut v, "Some(");
            push_i64(&mut v, c as i64);
            push_str(&mut v, ")");
        },
        None => push_str(&mut v, "None"),
    }
    push_str(&mut v, ".");
    assert(v@ =~= spec_command_output_detail(stdout@, stderr@, code));
    string_from_chars(v.as_slice())
}

/// The notice after tearing a tunnel down.
pub fn tunnel_removed_message(passed: usize) -> (r: String)
    ensures
        r@ == "Tunnel removed ("@ + dec(passed as nat) + " step(s) passed)."@,
{
    let mut v: Vec<char> = Vec::new();
    push_str(&mut v, "Tunnel removed (");
    push_dec(&mut v, passed as u64);
    push_str(&mut v, " step(s) passed).");
    string_from_chars(v.as_slice())
}

// ---------------------------------------------------------------------------
// Flags
// ---------------------------------------------------------------------------

/// `str::to_uppercase`: Unicode upper case of `s`.
pub uninterp spec fn unicode_upper(s: Seq<char>) -> Seq<char>;

/// `str::to_lowercase`: Unicode lower case of `s`.
pub uninterp spec fn unicode_lower(s: Seq<char>) -> Seq<char>;

/// std's `str::to_uppercase`; its result depends on `s` alone.
#[verifier::external_body]
pub(crate) fn to_uppercase(s: &str) -> (r: String)
    ensures
        r@ == unicode_upper(s@),
{
    s.to_uppercase()
}

/// std's `str::to_lowercase`; its result depends on `s` alone.
#[verifier::external_body]
fn to_lowercase(s: &str) -> (r: String)
    ensures
        r@ == unicode_lower(s@),
{
    s.to_lowercase()
}

/// `char::from_u32`: the character with code point `x`, if `x` is a Unicode
/// scalar value.
pub open spec fn spec_char_from_u32(x: u32) -> Option<char> {
    if x <= 0x10FFFF && !(0xD800 <= x && x <= 0xDFFF) {
        Some(x as char)
    } else {
        None
    }
}

/// std's `char::from_u32`, as its documentation states it.
#[verifier::external_body]
fn char_from_u32(x: u32) -> (r: Option<char>)
    ensures
        r == spec_char_from_u32(x),
{
    char::from_u32(x)
}

/// Offset from `A` to the regional indicator symbol letter A.
pub open spec fn regional_offset() -> u32 {
    127397
}

/// A letter's regional indicator symbol (two of them form a flag emoji);
/// characters with no such symbol stay as they are.
pub open spec fn regional_char(c: char) -> char {
    let x = (c as u32) as int + regional_offset();
    if x <= u32::MAX {
        match spec_char_from_u32(x as u32) {
            Some(r) => r,
            None => c,
        }
    } else {
        c
    }
}

/// The emoji flag of a country code.
pub fn country_code_to_emoji(code: &str) -> (r: String)
    ensures
        r@ == unicode_upper(code@).map_values(|c: char| regional_char(c)),
{
    let up = to_uppercase(code);
    let v = chars_of(up.as_str());
    let mut out: Vec<char> = Vec::new();
    let mut i: usize = 0;
    while i < v.len()
        invariant
            i <= v@.len(),
            v@ == unicode_upper(code@),
            out@ =~= v@.take(i as int).map_values(|c: char| regional_char(c)),
        decreases v@.len() - i,
    {
        let c = v[i];
        let x: u64 = (c as u32) as u64 + 127397;
        let m = if x <= 0xFFFF_FFFF {
            match char_from_u32(x as u32) {
                Some(r) => r,
                None => c,
            }
        } else {
            c
        };
        out.push(m);
        i += 1;
        assert(out@ =~= v@.take(i as int).map_values(|c: char| regional_char(c)));
    }
    assert(v@.take(i as int) =~= v@);
    string_from_chars(out.as_slice())
}

/// Codes tried for a country's flag: the lower-cased code, then its alias
/// (`uk` and `gb` stand for each other).
pub open spec fn flag_codes(cc: Seq<char>) -> Seq<Seq<char>> {
    if cc == "uk"@ {
        seq!["uk"@, "gb"@]
    } else if cc == "gb"@ {
        seq!["gb"@, "uk"@]
    } else {
        seq![cc]
    }
}

/// File names tried for a country's flag, in order: for each code, its PNG
/// then its SVG; none for an empty code.
pub open spec fn spec_flag_file_names(country_code: Seq<char>) -> Seq<Seq<char>> {
    if country_code.len() == 0 {
        Seq::empty()
    } else {
        let codes = flag_codes(unicode_lower(country_code));
        Seq::new(
            2 * codes.len(),
            |i: int|
                codes[i / 2] + (if i % 2 == 0 {
                    ".png"@
                } else {
                    ".svg"@
                }),
        )
    }
}

fn push_flag_names(out: &mut Vec<String>, code: &str)
    ensures
        strings_view(final(out)@) == strings_view(old(out)@) + seq![code@ + ".png"@, code@ + ".svg"@],
{
    let mut a: Vec<char> = Vec::new();
    push_str(&mut a, code);
    push_str(&mut a, ".png");
    let mut b: Vec<char> = Vec::new();
    push_str(&mut b, code);
    push_str(&mut b, ".svg");
    out.push(string_from_chars(a.as_slice()));
    out.push(string_from_chars(b.as_slice()));
    assert(strings_view(out@) =~= strings_view(old(out)@) + seq![code@ + ".png"@, code@ + ".svg"@]);
}

/// The flag image file names to look for, most preferred first.
pub fn flag_file_names(country_code: &str) -> (r: Vec<String>)
    ensures
        strings_view(r@) == spec_flag_file_names(country_code@),
{
    let mut out: Vec<String> = Vec::new();
    if country_code.is_empty() {
        assert(strings_view(out@) =~= Seq::<Seq<char>>::empty());
        return out;
    }
    let cc = to_lowercase(country_code);
    let v = chars_of(cc.as_str());
    let n = v.len();
    assert(v@.subrange(0, n as int) =~= v@);
    let ghost codes = flag_codes(cc@);
    if crate::text::range_eq(&v, 0, n, "uk") {
        push_flag_names(&mut out, "uk");
        push_flag_names(&mut out, "gb");
    } else if crate::text::range_eq(&v, 0, n, "gb") {
        push_flag_names(&mut out, "gb");
        push_flag_names(&mut out, "uk");
    } else {
        push_flag_names(&mut out, cc.as_str());
    }
    assert(strings_view(out@) =~= spec_flag_file_names(country_code@));
    out
}

/// Spaces written as `%20`.
pub open spec fn escape_spaces(s: Seq<char>) -> Seq<char>
    decreases s.len(),
{
    if s.len() == 0 {
        Seq::empty()
    } else {
        escape_spaces(s.drop_last()) + (if s.last() == ' ' {
            "%20"@
        } else {
            seq![s.last()]
        })
    }
}

/// The `file://` URI of a flag file path: `\` becomes `/`, a `//?/` or `/?/`
/// prefix is dropped, spaces become `%20`; a path whose second byte is `:`
/// (a drive letter) or that is relative gets `file:///`, an absolute one `file://`.
pub open spec fn spec_flag_uri(path: Seq<char>) -> Seq<char> {
    let s0 = crate::text::replace_char(path, '\\', '/');
    let s1 = if crate::text::starts_with(s0, "//?/"@) {
        s0.skip(4)
    } else {
        s0
    };
    let s2 = if crate::text::starts_with(s1, "/?/"@) {
        s1.skip(3)
    } else {
        s1
    };
    let s = escape_spaces(s2);
    if s.len() >= 2 && (s[0] as u32) < 128 && s[1] == ':' {
        "file:///"@ + s
    } else if crate::text::starts_with(s, "/"@) {
        "file://"@ + s
    } else {
        "file:///"@ + s
    }
}

pub open spec fn opt_str_view(o: Option<&str>) -> Option<Seq<char>> {
    match o {
        Some(s) => Some(s@),
        None => None,
    }
}

/// The `file://` URI of a country's flag, given the flag file found for it
/// (already made canonical where possible), or `None` when none was found.
pub fn get_flag_uri(flag_path: Option<&str>) -> (r: Option<String>)
    ensures
        match flag_path {
            Some(p) => r matches Some(u) && u@ == spec_flag_uri(p@),
            None => r is None,
        },
{
    let path = match flag_path {
        Some(p) => p,
        None => {
            return None;
        },
    };
    let pv = chars_of(path);
    let n = pv.len();
    // `\` to `/`
    let mut s0: Vec<char> = Vec::new();
    let mut i: usize = 0;
    while i < n
        invariant
            i <= n == pv@.len(),
            s0@ =~= crate::text::replace_char(pv@.take(i as int), '\\', '/'),
        decreases n - i,
    {
        let c = pv[i];
        s0.push(if c == '\\' { '/' } else { c });
        i += 1;
        assert(s0@ =~= crate::text::replace_char(pv@.take(i as int), '\\', '/'));
    }
    assert(pv@.take(n as int) =~= pv@);
    let n0 = s0.len();
    assert(s0@.subrange(0, n0 as int) =~= s0@);
    let a1: usize = if crate::text::range_starts_with(&s0, 0, n0, "//?/") {
        proof {
            reveal_strlit("//?/");
        }
        4
    } else {
        0
    };
    assert(s0@.subrange(a1 as int, n0 as int) =~= (if a1 == 4 {
        s0@.skip(4)
    } else {
        s0@
    }));
    let a2: usize = if crate::text::range_starts_with(&s0, a1, n0, "/?/") {
        proof {
            reveal_strlit("/?/");
        }
        a1 + 3
    } else {
        a1
    };
    let ghost s2 = s0@.subrange(a2 as int, n0 as int);
    assert(s2 =~= (if a2 == a1 + 3 {
        s0@.subrange(a1 as int, n0 as int).skip(3)
    } else {
        s0@.subrange(a1 as int, n0 as int)
    }));
    let mut s: Vec<char> = Vec::new();
    let mut j = a2;
    while j < n0
        invariant
            a2 <= j <= n0 == s0@.len(),
            s2 == s0@.subrange(a2 as int, n0 as int),
            s@ == escape_spaces(s0@.subrange(a2 as int, j as int)),
        decreases n0 - j,
    {
        let c = s0[j];
        if c == ' ' {
            push_str(&mut s, "%20");
        } else {
            s.push(c);
        }
        assert(s0@.subrange(a2 as int, j + 1).drop_last() =~= s0@.subrange(a2 as int, j as int));
        j += 1;
        assert(s@ =~= escape_spaces(s0@.subrange(a2 as int, j as int)));
    }
    let mut out: Vec<char> = Vec::new();
    let sn = s.len();
    assert(s@.subrange(0, sn as int) =~= s@);
    if sn >= 2 && (s[0] as u32) < 128 && s[1] == ':' {
        push_str(&mut out, "file:///");
    } else if crate::text::range_starts_with(&s, 0, sn, "/") {
        push_str(&mut out, "file://");
    } else {
        push_str(&mut out, "file:///");
    }
    push_range(&mut out, &s, 0, sn);
    let u = string_from_chars(out.as_slice());
    assert(u@ =~= spec_flag_uri(path@));
    Some(u)
}

} // verus!
