//! Decisions and text of the `vpn-client` command line.
use vstd::prelude::*;
use crate::num::{dec, push_dec, push_dec_padded, zero_pad};
use crate::text::{chars_of, owned, push_str, string_from_chars, string_of_range, trim, trim_range};

verus! {

/// A remaining time: `Nh MMm` with hours, else `Nm SSs`.
pub open spec fn spec_format_remaining(seconds: u64) -> Seq<char> {
    let hours = seconds / 3600;
    let minutes = (seconds % 3600) / 60;
    if hours > 0 {
        dec(hours as nat) + "h "@ + zero_pad(dec(minutes as nat), 2) + "m"@
    } else {
        dec(minutes as nat) + "m "@ + zero_pad(dec((seconds % 60) as nat), 2) + "s"@
    }
}

/// How long until a cooldown ends, as the command line prints it.
pub fn format_remaining(seconds: u64) -> (r: String)
    ensures
        r@ == spec_format_remaining(seconds),
{
    let hours = seconds / 3600;
    let minutes = (seconds % 3600) / 60;
    let mut v: Vec<char> = Vec::new();
    if hours > 0 {
        push_dec(&mut v, hours);
        push_str(&mut v, "h ");
        push_dec_padded(&mut v, minutes, 2);
        push_str(&mut v, "m");
    } else {
        push_dec(&mut v, minutes);
        push_str(&mut v, "m ");
        push_dec_padded(&mut v, seconds % 60, 2);
        push_str(&mut v, "s");
    }
    assert(v@ =~= spec_format_remaining(seconds));
    string_from_chars(v.as_slice())
}

/// A Gregorian leap year.
pub open spec fn is_leap(y: nat) -> bool {
    (y % 4 == 0 && y % 100 != 0) || y % 400 == 0
}

/// The number of days of year `y`.
pub open spec fn year_days(y: nat) -> nat {
    if is_leap(y) {
        366
    } else {
        365
    }
}

/// The calendar year of the day that lies `d` days after January 1st of `y`.
pub open spec fn year_of_day(y: nat, d: nat) -> nat
    decreases d,
{
    if d < year_days(y) {
        y
    } else {
        year_of_day(y + 1, (d - year_days(y)) as nat)
    }
}

/// The panic-log time stamp for `secs` since the Unix epoch: the UTC
/// calendar year and time of day, in RFC 3339 shape, with month and day
/// always written as January 1st.
pub open spec fn spec_timestamp(secs: u64) -> Seq<char> {
    let sod = secs % 86_400;
    let year = year_of_day(1970, (secs / 86_400) as nat);
    zero_pad(dec(year), 4) + "-01-01T"@ + zero_pad(dec((sod / 3600) as nat), 2) + seq![':']
        + zero_pad(dec(((sod % 3600) / 60) as nat), 2) + seq![':'] + zero_pad(
        dec((sod % 60) as nat),
        2,
    ) + seq!['Z']
}

fn year_days_exec(y: u64) -> (r: u64)
    ensures
        r == year_days(y as nat),
{
    if (y % 4 == 0 && y % 100 != 0) || y % 400 == 0 {
        366
    } else {
        365
    }
}

/// The UTC calendar year of the day `days` days after 1970-01-01.
fn calendar_year(days: u64) -> (r: u64)
    requires
        days < 0x1_0000_0000_0000,
    ensures
        r == year_of_day(1970, days as nat),
{
    let mut y: u64 = 1970;
    let mut d: u64 = days;
    loop
        invariant
            days < 0x1_0000_0000_0000,
            d <= days,
            1970 <= y <= 1970 + (days - d),
            year_of_day(y as nat, d as nat) == year_of_day(1970, days as nat),
        decreases d,
    {
        let n = year_days_exec(y);
        if d < n {
            return y;
        }
        d = d - n;
        y = y + 1;
    }
}

/// The panic-log time stamp of a moment given in seconds since the Unix epoch.
pub fn chrono_like_timestamp(secs: u64) -> (r: String)
    ensures
        r@ == spec_timestamp(secs),
{
    let days = secs / 86_400;
    let sod = secs % 86_400;
    let year = calendar_year(days);
    let mut v: Vec<char> = Vec::new();
    push_dec_padded(&mut v, year, 4);
    push_str(&mut v, "-01-01T");
    push_dec_padded(&mut v, sod / 3600, 2);
    v.push(':');
    push_dec_padded(&mut v, (sod % 3600) / 60, 2);
    v.push(':');
    push_dec_padded(&mut v, sod % 60, 2);
    v.push('Z');
    assert(v@ =~= spec_timestamp(secs));
    string_from_chars(v.as_slice())
}

/// A discovered server, as far as choosing one goes.
#[derive(Debug)]
pub struct ServerChoice {
    pub server_id: String,
    pub name: String,
}

pub open spec fn choice_view(c: ServerChoice) -> (Seq<char>, Seq<char>) {
    (c.server_id@, c.name@)
}

pub open spec fn choices_view(v: Seq<ServerChoice>) -> Seq<(Seq<char>, Seq<char>)> {
    v.map_values(|c: ServerChoice| choice_view(c))
}

/// The first position whose server id is `k`.
pub open spec fn first_with_id(s: Seq<(Seq<char>, Seq<char>)>, k: Seq<char>) -> Option<int>
    decreases s.len(),
{
    if s.len() == 0 {
        None
    } else {
        match first_with_id(s.drop_last(), k) {
            Some(i) => Some(i),
            None => if s.last().0 == k {
                Some(s.len() - 1)
            } else {
                None
            },
        }
    }
}

/// Items joined with `sep` between them.
pub open spec fn join_with(ls: Seq<Seq<char>>, sep: Seq<char>) -> Seq<char>
    decreases ls.len(),
{
    if ls.len() == 0 {
        Seq::empty()
    } else if ls.len() == 1 {
        ls[0]
    } else {
        join_with(ls.drop_last(), sep) + sep + ls.last()
    }
}

/// `name (id)` of each candidate.
pub open spec fn candidate_labels(s: Seq<(Seq<char>, Seq<char>)>) -> Seq<Seq<char>> {
    s.map_values(|c: (Seq<char>, Seq<char>)| c.1 + " ("@ + c.0 + ")"@)
}

/// Which discovered server a connect uses: the one asked for by id; else the
/// only one; else the one connected to last time; otherwise an error listing
/// the candidates.
pub open spec fn spec_select_server(
    s: Seq<(Seq<char>, Seq<char>)>,
    wanted: Option<Seq<char>>,
    last: Option<Seq<char>>,
) -> Result<int, Seq<char>> {
    if s.len() == 0 {
        Err("no reachable ZeroNode servers matched the current request"@)
    } else {
        match wanted {
            Some(w) => match first_with_id(s, w) {
                Some(i) => Ok(i),
                None => Err("no discovered server matched "@ + w),
            },
            None => if s.len() == 1 {
                Ok(0)
            } else {
                match (match last {
                    Some(l) => first_with_id(s, l),
                    None => None,
                }) {
                    Some(i) => Ok(i),
                    None => Err(
                        "multiple servers matched; rerun with --server-id. Candidates: "@
                            + join_with(candidate_labels(s), ", "@),
                    ),
                }
            },
        }
    }
}

proof fn lemma_first_with_id_prefix(s: Seq<(Seq<char>, Seq<char>)>, k: Seq<char>, j: int)
    requires
        0 <= j <= s.len(),
        first_with_id(s.take(j), k) is Some,
    ensures
        first_with_id(s, k) == first_with_id(s.take(j), k),
    decreases s.len() - j,
{
    if j < s.len() {
        assert(s.take(j + 1).drop_last() =~= s.take(j));
        lemma_first_with_id_prefix(s, k, j + 1);
    } else {
        assert(s.take(j) =~= s);
    }
}

/// Position of the first server with id `k`.
fn find_id(servers: &Vec<ServerChoice>, k: &str) -> (r: Option<usize>)
    ensures
        match first_with_id(choices_view(servers@), k@) {
            Some(i) => r == Some(i as usize),
            None => r is None,
        },
{
    let ghost s = choices_view(servers@);
    let mut i: usize = 0;
    assert(s.take(0) =~= Seq::<(Seq<char>, Seq<char>)>::empty());
    while i < servers.len()
        invariant
            i <= servers@.len(),
            s == choices_view(servers@),
            first_with_id(s.take(i as int), k@) is None,
        decreases servers@.len() - i,
    {
        assert(s.take(i + 1).drop_last() =~= s.take(i as int));
        if owned(servers[i].server_id.as_str()) == owned(k) {
            assert(first_with_id(s.take(i + 1), k@) == Some(i as int));
            proof {
                lemma_first_with_id_prefix(s, k@, i + 1);
            }
            return Some(i);
        }
        i += 1;
    }
    assert(s.take(i as int) =~= s);
    None
}

/// Choose the server to connect to among those discovered.
pub fn select_server(servers: &Vec<ServerChoice>, server_id: Option<&str>, last_connected: Option<
    &str,
>) -> (r: Result<usize, String>)
    ensures
        match spec_select_server(
            choices_view(servers@),
            match server_id {
                Some(w) => Some(w@),
                None => None,
            },
            match last_connected {
                Some(l) => Some(l@),
                None => None,
            },
        ) {
            Ok(i) => r == Ok::<usize, String>(i as usize),
            Err(e) => r matches Err(m) && m@ == e,
        },
{
    let ghost s = choices_view(servers@);
    if servers.len() == 0 {
        return Err(owned("no reachable ZeroNode servers matched the current request"));
    }
    match server_id {
        Some(w) => {
            return match find_id(servers, w) {
                Some(i) => Ok(i),
                None => {
                    let mut v: Vec<char> = Vec::new();
                    push_str(&mut v, "no discovered server matched ");
                    push_str(&mut v, w);
                    Err(string_from_chars(v.as_slice()))
                },
            };
        },
        None => {},
    }
    if servers.len() == 1 {
        return Ok(0);
    }
    match last_connected {
        Some(l) => match find_id(servers, l) {
            Some(i) => {
                return Ok(i);
            },
            None => {},
        },
        None => {},
    }
    let mut v: Vec<char> = Vec::new();
    push_str(&mut v, "multiple servers matched; rerun with --server-id. Candidates: ");
    let ghost prefix = v@;
    let ghost labels = candidate_labels(s);
    let mut i: usize = 0;
    while i < servers.len()
        invariant
            i <= servers@.len(),
            s == choices_view(servers@),
            labels == candidate_labels(s),
            v@ == prefix + join_with(labels.take(i as int), ", "@),
        decreases servers@.len() - i,
    {
        assert(labels.take(i + 1).drop_last() =~= labels.take(i as int));
        if i > 0 {
            push_str(&mut v, ", ");
        } else {
            assert(labels.take(0) =~= Seq::<Seq<char>>::empty());
        }
        let ghost before = v@;
        push_str(&mut v, servers[i].name.as_str());
        push_str(&mut v, " (");
        push_str(&mut v, servers[i].server_id.as_str());
        push_str(&mut v, ")");
        assert(v@ =~= before + labels[i as int]);
        i += 1;
        assert(v@ =~= prefix + join_with(labels.take(i as int), ", "@));
    }
    assert(labels.take(i as int) =~= labels);
    Err(string_from_chars(v.as_slice()))
}

/// What `servers` prints when nothing was discovered.
pub fn no_servers_line() -> (r: &'static str)
    ensures
        r@ == "No servers discovered."@,
{
    "No servers discovered."
}

/// One line of the server list.
pub open spec fn spec_server_line(
    id: Seq<char>,
    name: Seq<char>,
    endpoint: Seq<char>,
    wg_endpoint: Seq<char>,
    has_password: bool,
    online: bool,
) -> Seq<char> {
    id + "  "@ + name + "  control="@ + endpoint + "  wg="@ + wg_endpoint + "  "@ + (if has_password {
        "protected"@
    } else {
        "open"@
    }) + "  "@ + (if online {
        "online"@
    } else {
        "offline"@
    })
}

/// The line `servers` prints for one server.
pub fn server_line(
    id: &str,
    name: &str,
    endpoint: &str,
    wg_endpoint: &str,
    has_password: bool,
    online: bool,
) -> (r: String)
    ensures
        r@ == spec_server_line(id@, name@, endpoint@, wg_endpoint@, has_password, online),
{
    let mut v: Vec<char> = Vec::new();
    push_str(&mut v, id);
    push_str(&mut v, "  ");
    push_str(&mut v, name);
    push_str(&mut v, "  control=");
    push_str(&mut v, endpoint);
    push_str(&mut v, "  wg=");
    push_str(&mut v, wg_endpoint);
    push_str(&mut v, "  ");
    push_str(
        &mut v,
        if has_password {
            "protected"
        } else {
            "open"
        },
    );
    push_str(&mut v, "  ");
    push_str(
        &mut v,
        if online {
            "online"
        } else {
            "offline"
        },
    );
    assert(v@ =~= spec_server_line(id@, name@, endpoint@, wg_endpoint@, has_password, online));
    string_from_chars(v.as_slice())
}

/// Seconds from `now` until `until` (none once it has passed).
pub open spec fn seconds_left(until: u64, now: u64) -> u64 {
    if until > now {
        (until - now) as u64
    } else {
        0
    }
}

/// Why `connect` refuses a server still on cooldown.
pub fn cooldown_refusal(until: u64, now: u64) -> (r: String)
    ensures
        r@ == "Access Denied — Too many failed attempts. Try again in "@ + spec_format_remaining(
            seconds_left(until, now),
        ) + "."@,
{
    let mut v: Vec<char> = Vec::new();
    push_str(&mut v, "Access Denied — Too many failed attempts. Try again in ");
    let t = format_remaining(until.saturating_sub(now));
    push_str(&mut v, t.as_str());
    push_str(&mut v, ".");
    string_from_chars(v.as_slice())
}

/// What `status` prints for a session on cooldown.
pub fn cooldown_status_line(server_name: &str, until: u64, now: u64) -> (r: String)
    ensures
        r@ == "Cooldown active for "@ + server_name@ + ". "@ + spec_format_remaining(
            seconds_left(until, now),
        ) + " remaining."@,
{
    let mut v: Vec<char> = Vec::new();
    push_str(&mut v, "Cooldown active for ");
    push_str(&mut v, server_name);
    push_str(&mut v, ". ");
    let t = format_remaining(until.saturating_sub(now));
    push_str(&mut v, t.as_str());
    push_str(&mut v, " remaining.");
    string_from_chars(v.as_slice())
}

/// What `cooldowns` prints when there are none.
pub fn no_cooldowns_line() -> (r: &'static str)
    ensures
        r@ == "No client-side cooldowns recorded."@,
{
    "No client-side cooldowns recorded."
}

/// The line `cooldowns` prints for one entry.
pub fn cooldown_line(server_id: &str, endpoint: &str, until: u64, now: u64) -> (r: String)
    ensures
        r@ == server_id@ + "  "@ + endpoint@ + "  "@ + spec_format_remaining(seconds_left(until, now))
            + " remaining"@,
{
    let mut v: Vec<char> = Vec::new();
    push_str(&mut v, server_id);
    push_str(&mut v, "  ");
    push_str(&mut v, endpoint);
    push_str(&mut v, "  ");
    let t = format_remaining(until.saturating_sub(now));
    push_str(&mut v, t.as_str());
    push_str(&mut v, " remaining");
    string_from_chars(v.as_slice())
}

/// The host `add-host` saves: the argument trimmed; an empty one is refused.
pub open spec fn spec_cli_host(host: Seq<char>) -> Result<Seq<char>, Seq<char>> {
    if trim(host).len() == 0 {
        Err("host cannot be empty"@)
    } else {
        Ok(trim(host))
    }
}

/// The host `add-host` saves, or why it refuses it.
pub fn cli_host(host: &str) -> (r: Result<String, String>)
    ensures
        match spec_cli_host(host@) {
            Ok(h) => r matches Ok(s) && s@ == h,
            Err(e) => r matches Err(s) && s@ == e,
        },
{
    let v = chars_of(host);
    let n = v.len();
    let (a, b) = trim_range(&v, 0, n);
    assert(v@.subrange(0, n as int) =~= v@);
    if a == b {
        Err(owned("host cannot be empty"))
    } else {
        Ok(string_of_range(&v, a, b))
    }
}

/// What `add-host` prints once the host is saved.
pub fn saved_host_line(host: &str) -> (r: String)
    ensures
        r@ == "Saved host: "@ + host@,
{
    let mut v: Vec<char> = Vec::new();
    push_str(&mut v, "Saved host: ");
    push_str(&mut v, host);
    string_from_chars(v.as_slice())
}

/// The outcome of one setup or teardown check.
#[derive(Clone, Copy, Debug, PartialEq, Eq, Structural)]
pub enum CheckStatus {
    Pass,
    Warn,
    Fail,
}

/// The label printed for a check's outcome.
pub open spec fn spec_check_label(s: CheckStatus) -> Seq<char> {
    match s {
        CheckStatus::Pass => "PASS"@,
        CheckStatus::Warn => "WARN"@,
        CheckStatus::Fail => "FAIL"@,
    }
}

pub open spec fn strings_view(v: Seq<String>) -> Seq<Seq<char>> {
    v.map_values(|s: String| s@)
}

/// What is printed for one check: `[STATUS] name - detail`, then the remedy
/// (indented) when there is one.
pub open spec fn spec_setup_check_lines(
    status: CheckStatus,
    name: Seq<char>,
    detail: Seq<char>,
    remedy: Option<Seq<char>>,
) -> Seq<Seq<char>> {
    let first = seq!['['] + spec_check_label(status) + "] "@ + name + " - "@ + detail;
    match remedy {
        Some(r) => seq![first, "      remedy: "@ + r],
        None => seq![first],
    }
}

/// The lines printed for one check.
pub fn setup_check_lines(status: CheckStatus, name: &str, detail: &str, remedy: Option<&str>) -> (r: Vec<String>)
    ensures
        strings_view(r@) == spec_setup_check_lines(status, name@, detail@, match remedy {
            Some(x) => Some(x@),
            None => None,
        }),
{
    let mut v: Vec<char> = Vec::new();
    v.push('[');
    push_str(
        &mut v,
        match status {
            CheckStatus::Pass => "PASS",
            CheckStatus::Warn => "WARN",
            CheckStatus::Fail => "FAIL",
        },
    );
    push_str(&mut v, "] ");
    push_str(&mut v, name);
    push_str(&mut v, " - ");
    push_str(&mut v, detail);
    let mut out: Vec<String> = Vec::new();
    out.push(string_from_chars(v.as_slice()));
    match remedy {
        Some(x) => {
            let mut w: Vec<char> = Vec::new();
            push_str(&mut w, "      remedy: ");
            push_str(&mut w, x);
            out.push(string_from_chars(w.as_slice()));
        },
        None => {},
    }
    let ghost rv = match remedy {
        Some(x) => Some(x@),
        None => None,
    };
    assert(strings_view(out@) =~= spec_setup_check_lines(status, name@, detail@, rv));
    out
}

/// How many checks passed.
pub open spec fn passed_count(s: Seq<CheckStatus>) -> nat
    decreases s.len(),
{
    if s.len() == 0 {
        0
    } else {
        passed_count(s.drop_last()) + if s.last() == CheckStatus::Pass {
            1nat
        } else {
            0nat
        }
    }
}

/// The number of checks that passed.
pub fn count_passed(checks: &Vec<CheckStatus>) -> (r: usize)
    ensures
        r == passed_count(checks@),
{
    let mut n: usize = 0;
    let mut i: usize = 0;
    while i < checks.len()
        invariant
            i <= checks@.len(),
            n == passed_count(checks@.take(i as int)),
            n <= i,
        decreases checks@.len() - i,
    {
        assert(checks@.take(i + 1).drop_last() =~= checks@.take(i as int));
        if checks[i] == CheckStatus::Pass {
            n += 1;
        }
        i += 1;
    }
    assert(checks@.take(i as int) =~= checks@);
    n
}

} // verus!
