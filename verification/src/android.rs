//! Options handed to the Android tunnel service.
use vstd::prelude::*;
use crate::num::{dec, parse_i32, parse_i32_range, parse_u16, parse_u16_range, push_dec};
use crate::session::{spec_phase_label, phase_label, ConnectionPhase};
use crate::text::{
    chars_of, push_str, range_starts_with, starts_with, string_from_chars, string_of_range, trim,
    trim_range,
};

verus! {

/// A separator between `key=value` options: newline, `;` or `,`.
pub open spec fn is_option_sep(c: char) -> bool {
    c == '\n' || c == ';' || c == ','
}

/// Position of the first separator at or after `i` (the length when none).
pub open spec fn sep_from(s: Seq<char>, i: int) -> int
    decreases s.len() - i,
{
    if i >= s.len() {
        s.len() as int
    } else if is_option_sep(s[i]) {
        i
    } else {
        sep_from(s, i + 1)
    }
}

pub proof fn lemma_sep_from_bounds(s: Seq<char>, i: int)
    requires
        i <= s.len(),
    ensures
        i <= sep_from(s, i) <= s.len(),
    decreases s.len() - i,
{
    if i < s.len() && !is_option_sep(s[i]) {
        lemma_sep_from_bounds(s, i + 1);
    }
}

/// The descriptor named by one option: `udp_fd=N` (surrounding spaces
/// allowed) with `N` an `i32`.
pub open spec fn udp_fd_of_part(p: Seq<char>) -> Option<i32> {
    let t = trim(p);
    if starts_with(t, "udp_fd="@) {
        parse_i32(trim(t.skip(7)))
    } else {
        None
    }
}

/// The first `udp_fd` option among the options from position `i` on, or -1.
pub open spec fn udp_fd_from(s: Seq<char>, i: int) -> i32
    decreases s.len() - i,
{
    if i > s.len() {
        -1i32
    } else {
        let k = sep_from(s, i);
        proof {
            lemma_sep_from_bounds(s, i);
        }
        match udp_fd_of_part(s.subrange(i, k)) {
            Some(n) => n,
            None => if k < s.len() {
                udp_fd_from(s, k + 1)
            } else {
                -1i32
            },
        }
    }
}

/// The UDP socket descriptor passed in a tunnel's extra options
/// (`udp_fd=N`, options split at newlines, `;` and `,`), or -1 when none is
/// given or none parses.
pub fn parse_extra_udp_fd(extra: &str) -> (r: i32)
    ensures
        r == udp_fd_from(extra@, 0),
{
    let v = chars_of(extra);
    let n = v.len();
    let mut start: usize = 0;
    while start <= n
        invariant
            v@ == extra@,
            n == v@.len(),
            udp_fd_from(v@, 0) == udp_fd_from(v@, start as int),
        decreases n + 1 - start,
    {
        let mut j = start;
        while j < n && !(v[j] == '\n' || v[j] == ';' || v[j] == ',')
            invariant
                start <= j <= n,
                n == v@.len(),
                sep_from(v@, start as int) == sep_from(v@, j as int),
            decreases n - j,
        {
            j += 1;
        }
        proof {
            lemma_sep_from_bounds(v@, start as int);
        }
        let (a, b) = trim_range(&v, start, j);
        if range_starts_with(&v, a, b, "udp_fd=") {
            proof {
                reveal_strlit("udp_fd=");
            }
            let (c, d) = trim_range(&v, a + 7, b);
            assert(v@.subrange(a as int, b as int).skip(7) =~= v@.subrange(a + 7, b as int));
            match parse_i32_range(&v, c, d) {
                Some(x) => {
                    return x;
                },
                None => {},
            }
        }
        if j == n {
            return -1;
        }
        start = j + 1;
    }
    -1
}

// ---------------------------------------------------------------------------
// Starting an Outline tunnel
// ---------------------------------------------------------------------------

/// How the Android Outline tunnel is started.
#[derive(Clone, Copy, Debug, PartialEq, Eq, Structural)]
pub enum OutlineStart {
    /// From the host, method and password given, on this port.
    Fields { port: u16 },
    /// The fields are incomplete: the access key (`ss://...`) is read instead.
    FromAccessKey,
}

/// The fields are used when the host, method and password are non-empty and
/// the port text parses as a non-zero `u16`; otherwise the access key is.
pub open spec fn spec_outline_start(
    host: Seq<char>,
    port: Seq<char>,
    password: Seq<char>,
    method: Seq<char>,
) -> OutlineStart {
    let p = match parse_u16(port) {
        Some(x) => x,
        None => 0u16,
    };
    if host.len() == 0 || p == 0 || method.len() == 0 || password.len() == 0 {
        OutlineStart::FromAccessKey
    } else {
        OutlineStart::Fields { port: p }
    }
}

/// How to start an Outline tunnel from the fields the Android app passes.
pub fn outline_start(host: &str, port: &str, password: &str, method: &str) -> (r: OutlineStart)
    ensures
        r == spec_outline_start(host@, port@, password@, method@),
{
    let v = chars_of(port);
    let n = v.len();
    assert(v@.subrange(0, n as int) =~= v@);
    let p: u16 = match parse_u16_range(&v, 0, n) {
        Some(x) => x,
        None => 0,
    };
    if host.unicode_len() == 0 || p == 0 || method.unicode_len() == 0 || password.unicode_len() == 0 {
        OutlineStart::FromAccessKey
    } else {
        OutlineStart::Fields { port: p }
    }
}

/// The report of a started Outline tunnel and its local SOCKS port.
pub fn outline_started_report(socks_port: u16) -> (r: String)
    ensures
        r@ == "OK\nkind=outline\nsocks_port="@ + dec(socks_port as nat),
{
    let mut v: Vec<char> = Vec::new();
    push_str(&mut v, "OK\nkind=outline\nsocks_port=");
    push_dec(&mut v, socks_port as u64);
    string_from_chars(v.as_slice())
}

// ---------------------------------------------------------------------------
// Reports handed back to the Android app
// ---------------------------------------------------------------------------

/// A failure report: `ERR` and the message.
pub fn error_report(message: &str) -> (r: String)
    ensures
        r@ == "ERR\nmessage="@ + message@,
{
    let mut v: Vec<char> = Vec::new();
    push_str(&mut v, "ERR\nmessage=");
    push_str(&mut v, message);
    string_from_chars(v.as_slice())
}

/// The hosts of a comma-separated list, trimmed, without empty ones.
pub open spec fn split_hosts_from(s: Seq<char>, i: int) -> Seq<Seq<char>>
    decreases s.len() - i,
{
    if i > s.len() {
        Seq::empty()
    } else {
        let k = comma_from(s, i);
        proof {
            lemma_comma_from_bounds(s, i);
        }
        let h = trim(s.subrange(i, k));
        let rest = if k < s.len() {
            split_hosts_from(s, k + 1)
        } else {
            Seq::empty()
        };
        if h.len() == 0 {
            rest
        } else {
            seq![h] + rest
        }
    }
}

/// Position of the first `,` at or after `i` (the length when none).
pub open spec fn comma_from(s: Seq<char>, i: int) -> int
    decreases s.len() - i,
{
    if i >= s.len() {
        s.len() as int
    } else if s[i] == ',' {
        i
    } else {
        comma_from(s, i + 1)
    }
}

pub proof fn lemma_comma_from_bounds(s: Seq<char>, i: int)
    requires
        i <= s.len(),
    ensures
        i <= comma_from(s, i) <= s.len(),
    decreases s.len() - i,
{
    if i < s.len() && s[i] != ',' {
        lemma_comma_from_bounds(s, i + 1);
    }
}

pub open spec fn strings_view(v: Seq<String>) -> Seq<Seq<char>> {
    v.map_values(|x: String| x@)
}

/// The hosts named in a discovery request (`a, b,,c`).
pub fn split_hosts(hosts: &str) -> (r: Vec<String>)
    ensures
        strings_view(r@) == split_hosts_from(hosts@, 0),
{
    let v = chars_of(hosts);
    let n = v.len();
    let mut out: Vec<String> = Vec::new();
    let mut start: usize = 0;
    while start <= n
        invariant
            v@ == hosts@,
            n == v@.len(),
            strings_view(out@) + split_hosts_from(v@, start as int) == split_hosts_from(v@, 0),
        decreases n + 1 - start,
    {
        let mut j = start;
        while j < n && v[j] != ','
            invariant
                start <= j <= n,
                n == v@.len(),
                comma_from(v@, start as int) == comma_from(v@, j as int),
            decreases n - j,
        {
            j += 1;
        }
        proof {
            lemma_comma_from_bounds(v@, start as int);
        }
        let (a, b) = trim_range(&v, start, j);
        let ghost prev = strings_view(out@);
        if a < b {
            out.push(string_of_range(&v, a, b));
            assert(strings_view(out@) =~= prev.push(trim(v@.subrange(start as int, j as int))));
        }
        if j == n {
            assert(split_hosts_from(v@, (j + 1) as int) =~= Seq::<Seq<char>>::empty());
            assert(strings_view(out@) =~= split_hosts_from(v@, 0));
            return out;
        }
        assert(strings_view(out@) + split_hosts_from(v@, (j + 1) as int) =~= split_hosts_from(v@, 0));
        start = j + 1;
    }
    out
}

/// `\n<key>=<value>` when there is a value.
pub open spec fn opt_line(key: Seq<char>, value: Option<Seq<char>>) -> Seq<char> {
    match value {
        Some(v) => "\n"@ + key + "="@ + v,
        None => Seq::empty(),
    }
}

pub open spec fn opt_num_line(key: Seq<char>, value: Option<u64>) -> Seq<char> {
    match value {
        Some(v) => "\n"@ + key + "="@ + dec(v as nat),
        None => Seq::empty(),
    }
}

pub open spec fn opt_view(o: Option<&str>) -> Option<Seq<char>> {
    match o {
        Some(s) => Some(s@),
        None => None,
    }
}

/// Seconds from `from` to `to` (none when `to` is earlier).
pub open spec fn since(from: u64, to: u64) -> u64 {
    if to > from {
        (to - from) as u64
    } else {
        0
    }
}

/// The status report of the cached session at `now`: phase, names, then
/// each field the session has (elapsed time since it connected, seconds
/// left on its cooldown).
pub open spec fn spec_status_report(
    phase: ConnectionPhase,
    server_name: Seq<char>,
    server_id: Seq<char>,
    endpoint: Seq<char>,
    client_ip: Option<Seq<char>>,
    server_ip: Option<Seq<char>>,
    session_id: Option<Seq<char>>,
    connected_at: Option<u64>,
    cooldown_until: Option<u64>,
    profile: Option<Seq<char>>,
    now: u64,
) -> Seq<char> {
    "OK\nphase="@ + spec_phase_label(phase) + "\nserver_name="@ + server_name + "\nserver_id="@
        + server_id + "\nendpoint="@ + endpoint + opt_line("client_ip"@, client_ip) + opt_line(
        "server_ip"@,
        server_ip,
    ) + opt_line("session_id"@, session_id) + opt_num_line(
        "elapsed_secs"@,
        match connected_at {
            Some(at) => Some(since(at, now)),
            None => None,
        },
    ) + opt_num_line(
        "cooldown_remaining_secs"@,
        match cooldown_until {
            Some(u) => Some(since(now, u)),
            None => None,
        },
    ) + opt_line("profile"@, profile)
}

fn push_opt_line(v: &mut Vec<char>, key: &str, value: Option<&str>)
    ensures
        final(v)@ == old(v)@ + opt_line(key@, opt_view(value)),
{
    match value {
        Some(x) => {
            push_str(v, "\n");
            push_str(v, key);
            push_str(v, "=");
            push_str(v, x);
        },
        None => {},
    }
}

fn push_opt_num_line(v: &mut Vec<char>, key: &str, value: Option<u64>)
    ensures
        final(v)@ == old(v)@ + opt_num_line(key@, value),
{
    match value {
        Some(x) => {
            push_str(v, "\n");
            push_str(v, key);
            push_str(v, "=");
            push_dec(v, x);
        },
        None => {},
    }
}

/// The report of the cached session for the Android app.
pub fn status_report(
    phase: ConnectionPhase,
    server_name: &str,
    server_id: &str,
    endpoint: &str,
    client_ip: Option<&str>,
    server_ip: Option<&str>,
    session_id: Option<&str>,
    connected_at: Option<u64>,
    cooldown_until: Option<u64>,
    profile: Option<&str>,
    now: u64,
) -> (r: String)
    ensures
        r@ == spec_status_report(
            phase,
            server_name@,
            server_id@,
            endpoint@,
            opt_view(client_ip),
            opt_view(server_ip),
            opt_view(session_id),
            connected_at,
            cooldown_until,
            opt_view(profile),
            now,
        ),
{
    let mut v: Vec<char> = Vec::new();
    push_str(&mut v, "OK\nphase=");
    push_str(&mut v, phase_label(&phase));
    push_str(&mut v, "\nserver_name=");
    push_str(&mut v, server_name);
    push_str(&mut v, "\nserver_id=");
    push_str(&mut v, server_id);
    push_str(&mut v, "\nendpoint=");
    push_str(&mut v, endpoint);
    push_opt_line(&mut v, "client_ip", client_ip);
    push_opt_line(&mut v, "server_ip", server_ip);
    push_opt_line(&mut v, "session_id", session_id);
    push_opt_num_line(
        &mut v,
        "elapsed_secs",
        match connected_at {
            Some(at) => Some(now.saturating_sub(at)),
            None => None,
        },
    );
    push_opt_num_line(
        &mut v,
        "cooldown_remaining_secs",
        match cooldown_until {
            Some(u) => Some(u.saturating_sub(now)),
            None => None,
        },
    );
    push_opt_line(&mut v, "profile", profile);
    string_from_chars(v.as_slice())
}

/// The server's part of a status report.
pub fn server_status_suffix(locked_down: bool, connected_peers: u64, uptime_secs: u64) -> (r: String)
    ensures
        r@ == "\nserver_locked_down="@ + (if locked_down {
            "true"@
        } else {
            "false"@
        }) + "\nconnected_peers="@ + dec(connected_peers as nat) + "\nuptime_secs="@ + dec(
            uptime_secs as nat,
        ),
{
    let mut v: Vec<char> = Vec::new();
    push_str(&mut v, "\nserver_locked_down=");
    push_str(
        &mut v,
        if locked_down {
            "true"
        } else {
            "false"
        },
    );
    push_str(&mut v, "\nconnected_peers=");
    push_dec(&mut v, connected_peers);
    push_str(&mut v, "\nuptime_secs=");
    push_dec(&mut v, uptime_secs);
    string_from_chars(v.as_slice())
}

} // verus!
