//! Tor connections: exit naming, system-route decisions, `torrc`.
use vstd::prelude::*;
use crate::display::{to_uppercase, unicode_upper};
use crate::num::{dec, push_dec};
use crate::text::{
    chars_of, contains, lower, lower_range, owned, push_str, range_contains, replace_char,
    string_from_chars, trim, trim_range,
};

verus! {

/// The exit address Tor reports before GeoIP has resolved.
pub open spec fn unknown_ip() -> Seq<char> {
    "Unknown IP"@
}

/// A usable exit address: non-empty and not the "Unknown IP" placeholder.
pub open spec fn known_ip(ip: Seq<char>) -> bool {
    ip.len() > 0 && ip != unknown_ip()
}

fn is_known_ip(ip: &str) -> (r: bool)
    ensures
        r == known_ip(ip@),
{
    if ip.is_empty() {
        return false;
    }
    let v = chars_of(ip);
    let n = v.len();
    assert(v@.subrange(0, n as int) =~= v@);
    !crate::text::range_eq(&v, 0, n, "Unknown IP")
}

/// Two ASCII letters: an ISO 3166 alpha-2 code.
pub open spec fn is_iso2(s: Seq<char>) -> bool {
    s.len() == 2 && forall|i: int|
        0 <= i < 2 ==> (('a' <= #[trigger] s[i] && s[i] <= 'z') || ('A' <= s[i] && s[i] <= 'Z'))
}

fn is_ascii_letter(c: char) -> (r: bool)
    ensures
        r == (('a' <= c && c <= 'z') || ('A' <= c && c <= 'Z')),
{
    ('a' <= c && c <= 'z') || ('A' <= c && c <= 'Z')
}

fn is_iso2_exec(s: &str) -> (r: bool)
    ensures
        r == is_iso2(s@),
{
    let v = chars_of(s);
    if v.len() != 2 {
        return false;
    }
    let a = v[0];
    let b = v[1];
    let r = is_ascii_letter(a) && is_ascii_letter(b);
    assert(r == is_iso2(s@)) by {
        if !r {
            if !(('a' <= a && a <= 'z') || ('A' <= a && a <= 'Z')) {
                assert(s@[0] == a);
            } else {
                assert(s@[1] == b);
            }
        }
    }
    r
}

/// The exit's country code: the GeoIP record's code (trimmed, upper-cased)
/// when it is two letters, else the reported country upper-cased when that is
/// two letters, else none.
pub open spec fn spec_exit_country_code(country: Seq<char>, exit_cc: Option<Seq<char>>) -> Option<
    Seq<char>,
> {
    let from_info = match exit_cc {
        Some(c) => if is_iso2(unicode_upper(trim(c))) {
            Some(unicode_upper(trim(c)))
        } else {
            None
        },
        None => None,
    };
    match from_info {
        Some(c) => Some(c),
        None => if is_iso2(unicode_upper(country)) {
            Some(unicode_upper(country))
        } else {
            None
        },
    }
}

pub open spec fn opt_str_view(o: Option<&str>) -> Option<Seq<char>> {
    match o {
        Some(s) => Some(s@),
        None => None,
    }
}

/// The country code shown for a Tor exit.
pub fn exit_country_code(country: &str, exit_cc: Option<&str>) -> (r: Option<String>)
    ensures
        match spec_exit_country_code(country@, opt_str_view(exit_cc)) {
            Some(c) => r matches Some(s) && s@ == c,
            None => r is None,
        },
{
    match exit_cc {
        Some(c) => {
            let v = chars_of(c);
            let n = v.len();
            let (a, b) = trim_range(&v, 0, n);
            assert(v@.subrange(0, n as int) =~= v@);
            let t = crate::text::string_of_range(&v, a, b);
            let up = to_uppercase(t.as_str());
            if is_iso2_exec(up.as_str()) {
                return Some(up);
            }
        },
        None => {},
    }
    let up = to_uppercase(country);
    if is_iso2_exec(up.as_str()) {
        Some(up)
    } else {
        None
    }
}

/// The name shown for a Tor exit. With a country code: the GeoIP country name
/// (unless empty or still "Resolving…"), else the name known for the code,
/// else the code itself. Without one: the exit IP when known, else "Unknown".
pub open spec fn spec_exit_server_name(
    ip: Seq<char>,
    cc: Option<Seq<char>>,
    exit_country_name: Option<Seq<char>>,
    known_name: Option<Seq<char>>,
) -> Seq<char> {
    match cc {
        Some(c) => {
            let friendly = match exit_country_name {
                Some(n) => if n.len() > 0 && n != "Resolving…"@ {
                    Some(n)
                } else {
                    None
                },
                None => None,
            };
            "Tor Exit: "@ + match friendly {
                Some(n) => n,
                None => match known_name {
                    Some(k) => k,
                    None => c,
                },
            }
        },
        None => if known_ip(ip) {
            "Tor Exit: "@ + ip
        } else {
            "Tor Exit: Unknown"@
        },
    }
}

/// The server name shown for a Tor connection once its exit is known.
pub fn exit_server_name(
    ip: &str,
    cc: Option<&str>,
    exit_country_name: Option<&str>,
    known_name: Option<&str>,
) -> (r: String)
    ensures
        r@ == spec_exit_server_name(
            ip@,
            opt_str_view(cc),
            opt_str_view(exit_country_name),
            opt_str_view(known_name),
        ),
{
    let mut v: Vec<char> = Vec::new();
    match cc {
        Some(c) => {
            push_str(&mut v, "Tor Exit: ");
            let friendly: Option<&str> = match exit_country_name {
                Some(n) => {
                    let nv = chars_of(n);
                    let nn = nv.len();
                    assert(nv@.subrange(0, nn as int) =~= nv@);
                    if !n.is_empty() && !crate::text::range_eq(&nv, 0, nn, "Resolving…") {
                        Some(n)
                    } else {
                        None
                    }
                },
                None => None,
            };
            match friendly {
                Some(n) => push_str(&mut v, n),
                None => match known_name {
                    Some(k) => push_str(&mut v, k),
                    None => push_str(&mut v, c),
                },
            }
        },
        None => {
            if is_known_ip(ip) {
                push_str(&mut v, "Tor Exit: ");
                push_str(&mut v, ip);
            } else {
                push_str(&mut v, "Tor Exit: Unknown");
            }
        },
    }
    assert(v@ =~= spec_exit_server_name(
        ip@,
        opt_str_view(cc),
        opt_str_view(exit_country_name),
        opt_str_view(known_name),
    ));
    string_from_chars(v.as_slice())
}

/// The endpoint a Tor connection shows: the exit IP, once it is known.
pub fn exit_endpoint(ip: &str) -> (r: Option<String>)
    ensures
        known_ip(ip@) ==> (r matches Some(s) && s@ == ip@),
        !known_ip(ip@) ==> r is None,
{
    if is_known_ip(ip) {
        Some(owned(ip))
    } else {
        None
    }
}

/// Retries of the system route while Tor is still bootstrapping.
pub open spec fn max_route_attempts() -> u32 {
    24
}

/// What to do about the system-wide route when Tor reports an exit.
#[derive(Clone, Copy, Debug, PartialEq, Eq, Structural)]
pub enum TorRoutePlan {
    /// App-isolation mode: SOCKS5 only, no system route.
    AppsOnly,
    /// Exit not known yet: try again later; this is attempt `attempt`.
    Retry { attempt: u32 },
    /// Exit still not known after every retry: give up.
    Stuck,
    /// Exit not known, and no retry is due (isolation mode is neither `apps` nor `system`).
    Wait,
    /// Exit known: enable the route now (the retry counter restarts).
    Enable,
}

/// The route decision for an isolation mode, exit IP and retries so far.
pub open spec fn spec_tor_route_plan(isolation: Seq<char>, ip: Seq<char>, attempts: u32) -> TorRoutePlan {
    if isolation == "apps"@ {
        TorRoutePlan::AppsOnly
    } else if !known_ip(ip) {
        if isolation == "system"@ && attempts < max_route_attempts() {
            TorRoutePlan::Retry { attempt: (attempts + 1) as u32 }
        } else if attempts >= max_route_attempts() {
            TorRoutePlan::Stuck
        } else {
            TorRoutePlan::Wait
        }
    } else {
        TorRoutePlan::Enable
    }
}

fn str_is(s: &str, lit: &str) -> (r: bool)
    ensures
        r == (s@ == lit@),
{
    let v = chars_of(s);
    let n = v.len();
    assert(v@.subrange(0, n as int) =~= v@);
    crate::text::range_eq(&v, 0, n, lit)
}

/// Decide what to do about the system-wide route (on Linux) when Tor reports an exit.
pub fn tor_route_plan(isolation: &str, ip: &str, attempts: u32) -> (r: TorRoutePlan)
    ensures
        r == spec_tor_route_plan(isolation@, ip@, attempts),
{
    if str_is(isolation, "apps") {
        return TorRoutePlan::AppsOnly;
    }
    if !is_known_ip(ip) {
        if str_is(isolation, "system") && attempts < 24 {
            return TorRoutePlan::Retry { attempt: attempts + 1 };
        } else if attempts >= 24 {
            return TorRoutePlan::Stuck;
        }
        return TorRoutePlan::Wait;
    }
    TorRoutePlan::Enable
}

/// Retrying never goes past the retry budget, and then gives up: a plan
/// computed from the attempt a retry reports is a further retry only while
/// attempts remain.
pub proof fn law_route_retries_bounded(isolation: Seq<char>, ip: Seq<char>, attempts: u32)
    ensures
        spec_tor_route_plan(isolation, ip, attempts) matches TorRoutePlan::Retry { attempt } ==> attempt
            <= max_route_attempts(),
        attempts >= max_route_attempts() && isolation != "apps"@ && !known_ip(ip)
            ==> spec_tor_route_plan(isolation, ip, attempts) == TorRoutePlan::Stuck,
{
}

/// The notice for a route plan (none for `Wait` and `Enable`).
pub open spec fn spec_route_notice(plan: TorRoutePlan, socks_port: u16) -> Option<Seq<char>> {
    match plan {
        TorRoutePlan::AppsOnly => Some(
            "Tor SOCKS5 up on 127.0.0.1:"@ + dec(socks_port as nat)
                + " (app isolation mode). Launch selected apps through Tor — system-wide route is off."@,
        ),
        TorRoutePlan::Retry { attempt } => Some(
            "Tor bootstrapping… enabling system-wide VPN automatically ("@ + dec(attempt as nat)
                + "/24)"@,
        ),
        TorRoutePlan::Stuck => Some(
            "Tor SOCKS5 is up but bootstrap is stuck — check your connection, then click Connect again."@,
        ),
        _ => None,
    }
}

/// The notice for a route plan.
pub fn route_notice(plan: TorRoutePlan, socks_port: u16) -> (r: Option<String>)
    ensures
        match spec_route_notice(plan, socks_port) {
            Some(n) => r matches Some(s) && s@ == n,
            None => r is None,
        },
{
    match plan {
        TorRoutePlan::AppsOnly => {
            let mut v: Vec<char> = Vec::new();
            push_str(&mut v, "Tor SOCKS5 up on 127.0.0.1:");
            push_dec(&mut v, socks_port as u64);
            push_str(
                &mut v,
                " (app isolation mode). Launch selected apps through Tor — system-wide route is off.",
            );
            assert(v@ =~= spec_route_notice(plan, socks_port)->0);
            Some(string_from_chars(v.as_slice()))
        },
        TorRoutePlan::Retry { attempt } => {
            let mut v: Vec<char> = Vec::new();
            push_str(&mut v, "Tor bootstrapping… enabling system-wide VPN automatically (");
            push_dec(&mut v, attempt as u64);
            push_str(&mut v, "/24)");
            assert(v@ =~= spec_route_notice(plan, socks_port)->0);
            Some(string_from_chars(v.as_slice()))
        },
        TorRoutePlan::Stuck => Some(
            owned(
                "Tor SOCKS5 is up but bootstrap is stuck — check your connection, then click Connect again.",
            ),
        ),
        _ => None,
    }
}

/// The outcome of asking the helper daemon to start the Tor route: whether
/// the route is now active, and the notice.
pub open spec fn spec_helper_route_outcome(ok: Option<bool>, error: Option<Seq<char>>) -> (bool, Seq<
    char,
>) {
    if ok == Some(true) {
        (true, "Tor VPN connected — all apps now use Tor."@)
    } else {
        (
            false,
            "Tor connected (browser proxy OK); system-wide failed: "@ + match error {
                Some(e) => e,
                None => "helper error"@,
            },
        )
    }
}

/// Read the helper's answer (its `ok` and `error` fields) to `tor_start`.
pub fn helper_route_outcome(ok: Option<bool>, error: Option<&str>) -> (r: (bool, String))
    ensures
        (r.0, r.1@) == spec_helper_route_outcome(ok, opt_str_view(error)),
{
    if ok == Some(true) {
        return (true, owned("Tor VPN connected — all apps now use Tor."));
    }
    let mut v: Vec<char> = Vec::new();
    push_str(&mut v, "Tor connected (browser proxy OK); system-wide failed: ");
    match error {
        Some(e) => push_str(&mut v, e),
        None => push_str(&mut v, "helper error"),
    }
    assert(v@ =~= spec_helper_route_outcome(ok, opt_str_view(error)).1);
    (false, string_from_chars(v.as_slice()))
}

/// Without a helper daemon: what to do about the route.
#[derive(Clone, Copy, Debug, PartialEq, Eq, Structural)]
pub enum DirectRouteStep {
    /// The route is up already: only the exit changed.
    KeepActive,
    /// Running with privileges: start the route directly.
    StartDirect,
    /// Not privileged: ask for elevation, then retry.
    AskElevation,
}

/// The route step without a helper: keep a running route, start one when
/// privileged, else ask for elevation.
pub fn direct_route_step(route_active: bool, tunnel_running: bool, elevated: bool) -> (r: DirectRouteStep)
    ensures
        route_active && tunnel_running ==> r == DirectRouteStep::KeepActive,
        !(route_active && tunnel_running) && elevated ==> r == DirectRouteStep::StartDirect,
        !(route_active && tunnel_running) && !elevated ==> r == DirectRouteStep::AskElevation,
{
    if route_active && tunnel_running {
        DirectRouteStep::KeepActive
    } else if elevated {
        DirectRouteStep::StartDirect
    } else {
        DirectRouteStep::AskElevation
    }
}

/// The notice after choosing an isolation mode.
pub fn isolation_notice(mode: &str) -> (r: String)
    ensures
        mode@ == "apps"@ ==> r@ == "Tor isolation: selected apps via SOCKS5 (system-wide route off)."@,
        mode@ != "apps"@ ==> r@ == "Tor isolation: whole PC (system-wide Wintun route when enabled)."@,
{
    if str_is(mode, "apps") {
        owned("Tor isolation: selected apps via SOCKS5 (system-wide route off).")
    } else {
        owned("Tor isolation: whole PC (system-wide Wintun route when enabled).")
    }
}

/// The `torrc` written for a Tor run: data directory, SOCKS listener on
/// localhost, GeoIP files, no disk-heavy writes, notice log (paths with `/`).
pub open spec fn spec_torrc(
    data_dir: Seq<char>,
    socks_port: u16,
    geoip: Seq<char>,
    geoip6: Seq<char>,
    notice_log: Seq<char>,
) -> Seq<char> {
    "DataDirectory "@ + replace_char(data_dir, '\\', '/') + "\nSocksPort 127.0.0.1:"@ + dec(
        socks_port as nat,
    ) + " NoIsolateDestAddr NoIsolateDestPort\nGeoIPFile "@ + replace_char(geoip, '\\', '/')
        + "\nGeoIPv6File "@ + replace_char(geoip6, '\\', '/') + "\nAvoidDiskWrites 1\nLog notice file "@
        + replace_char(notice_log, '\\', '/') + "\n"@
}

fn push_slashed(out: &mut Vec<char>, s: &str)
    ensures
        final(out)@ == old(out)@ + replace_char(s@, '\\', '/'),
{
    let v = chars_of(s);
    let mut i: usize = 0;
    while i < v.len()
        invariant
            i <= v@.len(),
            v@ == s@,
            out@ =~= old(out)@ + replace_char(v@.take(i as int), '\\', '/'),
        decreases v@.len() - i,
    {
        let c = v[i];
        out.push(if c == '\\' { '/' } else { c });
        i += 1;
        assert(out@ =~= old(out)@ + replace_char(v@.take(i as int), '\\', '/'));
    }
    assert(v@.take(i as int) =~= v@);
}

/// The `torrc` for a Tor run.
pub fn torrc_contents(
    data_dir: &str,
    socks_port: u16,
    geoip: &str,
    geoip6: &str,
    notice_log: &str,
) -> (r: String)
    ensures
        r@ == spec_torrc(data_dir@, socks_port, geoip@, geoip6@, notice_log@),
{
    let mut v: Vec<char> = Vec::new();
    push_str(&mut v, "DataDirectory ");
    push_slashed(&mut v, data_dir);
    push_str(&mut v, "\nSocksPort 127.0.0.1:");
    push_dec(&mut v, socks_port as u64);
    push_str(&mut v, " NoIsolateDestAddr NoIsolateDestPort\nGeoIPFile ");
    push_slashed(&mut v, geoip);
    push_str(&mut v, "\nGeoIPv6File ");
    push_slashed(&mut v, geoip6);
    push_str(&mut v, "\nAvoidDiskWrites 1\nLog notice file ");
    push_slashed(&mut v, notice_log);
    push_str(&mut v, "\n");
    assert(v@ =~= spec_torrc(data_dir@, socks_port, geoip@, geoip6@, notice_log@));
    string_from_chars(v.as_slice())
}

// ---------------------------------------------------------------------------
// Apps launched through Tor
// ---------------------------------------------------------------------------

/// `socks5://127.0.0.1:<port>`, or with `socks5h` (names resolved by Tor).
pub open spec fn socks_url(scheme: Seq<char>, port: u16) -> Seq<char> {
    scheme + "://127.0.0.1:"@ + dec(port as nat)
}

/// Browser families that take a `--proxy-server` argument.
pub open spec fn chromium_names() -> Seq<Seq<char>> {
    seq!["chrome"@, "msedge"@, "brave"@, "chromium"@, "opera"@, "vivaldi"@]
}

/// Whether an executable path (lower-cased) names a Chromium-family browser.
pub open spec fn is_chromium_like(lower_path: Seq<char>) -> bool {
    exists|i: int| 0 <= i < chromium_names().len() && contains(lower_path, #[trigger] chromium_names()[i])
}

/// How an isolated app is started: its proxy environment (both spellings of
/// each variable; `ALL_PROXY` lets Tor resolve names) and, for Chromium-family
/// browsers, a `--proxy-server` argument.
pub open spec fn spec_isolated_env(port: u16) -> Seq<(Seq<char>, Seq<char>)> {
    let proxy = socks_url("socks5"@, port);
    let socks = socks_url("socks5h"@, port);
    seq![
        ("ALL_PROXY"@, socks),
        ("all_proxy"@, socks),
        ("HTTP_PROXY"@, proxy),
        ("HTTPS_PROXY"@, proxy),
        ("http_proxy"@, proxy),
        ("https_proxy"@, proxy),
    ]
}

pub open spec fn spec_isolated_args(path: Seq<char>, port: u16) -> Seq<Seq<char>> {
    if is_chromium_like(lower(path)) {
        seq!["--proxy-server="@ + socks_url("socks5"@, port)]
    } else {
        Seq::empty()
    }
}

/// The environment and arguments of an app launched through Tor.
pub struct IsolatedLaunch {
    pub env: Vec<(String, String)>,
    pub args: Vec<String>,
}

pub open spec fn pairs_view(v: Seq<(String, String)>) -> Seq<(Seq<char>, Seq<char>)> {
    v.map_values(|p: (String, String)| (p.0@, p.1@))
}

pub open spec fn strings_view(v: Seq<String>) -> Seq<Seq<char>> {
    v.map_values(|s: String| s@)
}

fn socks_url_exec(scheme: &str, port: u16) -> (r: String)
    ensures
        r@ == socks_url(scheme@, port),
{
    let mut v: Vec<char> = Vec::new();
    push_str(&mut v, scheme);
    push_str(&mut v, "://127.0.0.1:");
    push_dec(&mut v, port as u64);
    string_from_chars(v.as_slice())
}

fn chromium_name(i: usize) -> (r: &'static str)
    requires
        i < 6,
    ensures
        r@ == chromium_names()[i as int],
{
    match i {
        0 => "chrome",
        1 => "msedge",
        2 => "brave",
        3 => "chromium",
        4 => "opera",
        _ => "vivaldi",
    }
}

/// How to start the app at `path` through the SOCKS port `port`.
pub fn isolated_launch(path: &str, port: u16) -> (r: IsolatedLaunch)
    ensures
        pairs_view(r.env@) == spec_isolated_env(port),
        strings_view(r.args@) == spec_isolated_args(path@, port),
{
    let proxy = socks_url_exec("socks5", port);
    let socks = socks_url_exec("socks5h", port);
    let mut env: Vec<(String, String)> = Vec::new();
    env.push((owned("ALL_PROXY"), owned(socks.as_str())));
    env.push((owned("all_proxy"), owned(socks.as_str())));
    env.push((owned("HTTP_PROXY"), owned(proxy.as_str())));
    env.push((owned("HTTPS_PROXY"), owned(proxy.as_str())));
    env.push((owned("http_proxy"), owned(proxy.as_str())));
    env.push((owned("https_proxy"), owned(proxy.as_str())));
    let pv = chars_of(path);
    let n = pv.len();
    let low = lower_range(&pv, 0, n);
    assert(pv@.subrange(0, n as int) =~= pv@);
    let ln = low.len();
    assert(low@.subrange(0, ln as int) =~= low@);
    let mut chromium = false;
    let mut i: usize = 0;
    while i < 6
        invariant
            i <= 6,
            low@ == lower(path@),
            ln == low@.len(),
            low@.subrange(0, ln as int) == low@,
            chromium <==> exists|j: int| 0 <= j < i && contains(low@, #[trigger] chromium_names()[j]),
        decreases 6 - i,
    {
        let nv = chars_of(chromium_name(i));
        let ghost before = chromium;
        let hit = range_contains(&low, 0, ln, &nv);
        if hit {
            chromium = true;
        }
        proof {
            if hit {
                assert(contains(low@, chromium_names()[i as int]));
            } else if !before {
                assert forall|j: int| 0 <= j < i + 1 implies !contains(low@, #[trigger] chromium_names()[j]) by {
                    if j == i {
                    } else {
                        assert(!(0 <= j < i && contains(low@, chromium_names()[j])));
                    }
                }
            }
        }
        i += 1;
    }
    let mut args: Vec<String> = Vec::new();
    if chromium {
        let mut v: Vec<char> = Vec::new();
        push_str(&mut v, "--proxy-server=");
        push_str(&mut v, proxy.as_str());
        args.push(string_from_chars(v.as_slice()));
    }
    let r = IsolatedLaunch { env, args };
    assert(pairs_view(r.env@) =~= spec_isolated_env(port));
    assert(strings_view(r.args@) =~= spec_isolated_args(path@, port));
    r
}

/// The notice after launching (or failing to launch) an isolated app;
/// `error` is `None` when it started.
pub fn isolated_launch_notice(name: &str, port: u16, error: Option<&str>) -> (r: String)
    ensures
        error is None ==> r@ == "Launched '"@ + name@ + "' through Tor SOCKS5 127.0.0.1:"@ + dec(
            port as nat,
        ) + "."@,
        error matches Some(e) ==> r@ == "Could not launch "@ + name@ + ": "@ + e@,
{
    let mut v: Vec<char> = Vec::new();
    match error {
        None => {
            push_str(&mut v, "Launched '");
            push_str(&mut v, name);
            push_str(&mut v, "' through Tor SOCKS5 127.0.0.1:");
            push_dec(&mut v, port as u64);
            push_str(&mut v, ".");
        },
        Some(e) => {
            push_str(&mut v, "Could not launch ");
            push_str(&mut v, name);
            push_str(&mut v, ": ");
            push_str(&mut v, e);
        },
    }
    string_from_chars(v.as_slice())
}

/// Why an isolated app cannot be launched: it is not in the list, Tor is
/// not up, or its executable is missing; `None` when it can be.
pub fn isolated_launch_refusal(found: bool, socks_port: Option<u16>, path: &str, path_is_file: bool) -> (r: Option<String>)
    ensures
        !found ==> (r matches Some(m) && m@ == "Isolated app not found."@),
        found && socks_port is None ==> (r matches Some(m) && m@
            == "Tor SOCKS5 is not up. Connect Tor first, then launch the app."@),
        found && socks_port is Some && !path_is_file ==> (r matches Some(m) && m@
            == "App path missing: "@ + path@),
        found && socks_port is Some && path_is_file ==> r is None,
{
    if !found {
        return Some(owned("Isolated app not found."));
    }
    if socks_port.is_none() {
        return Some(owned("Tor SOCKS5 is not up. Connect Tor first, then launch the app."));
    }
    if !path_is_file {
        let mut v: Vec<char> = Vec::new();
        push_str(&mut v, "App path missing: ");
        push_str(&mut v, path);
        return Some(string_from_chars(v.as_slice()));
    }
    None
}

// ---------------------------------------------------------------------------
// Starting Tor
// ---------------------------------------------------------------------------

/// The system-wide Tor route needs administrator rights; app isolation (the
/// SOCKS proxy alone) does not.
pub fn tor_needs_elevation(isolation_mode: &str, elevated: bool) -> (r: bool)
    ensures
        r == (isolation_mode@ != "apps"@ && !elevated),
{
    !str_is(isolation_mode, "apps") && !elevated
}

/// The notice after asking for elevation for the Tor route: accepted
/// (`None`), the client restarts; refused, Tor starts as a SOCKS proxy only.
pub fn tor_elevation_notice(error: Option<&str>) -> (r: String)
    ensures
        error is None ==> r@ == "Accepted UAC — restarting elevated for system-wide Tor VPN…"@,
        error matches Some(e) ==> r@ == "System-wide Tor VPN needs Administrator ("@ + e@
            + "). Starting SOCKS5-only — enable routing after running as admin."@,
{
    match error {
        None => owned("Accepted UAC — restarting elevated for system-wide Tor VPN…"),
        Some(e) => {
            let mut v: Vec<char> = Vec::new();
            push_str(&mut v, "System-wide Tor VPN needs Administrator (");
            push_str(&mut v, e);
            push_str(&mut v, "). Starting SOCKS5-only — enable routing after running as admin.");
            string_from_chars(v.as_slice())
        },
    }
}

/// The SOCKS port Tor is given: a free port found by the caller, else 9050.
pub fn tor_socks_port(free_port: Option<u16>) -> (r: u16)
    ensures
        r == (match free_port {
            Some(p) => p,
            None => 9050,
        }),
{
    match free_port {
        Some(p) => p,
        None => 9050,
    }
}

/// The endpoint shown while Tor bootstraps: its local SOCKS listener.
pub fn tor_local_endpoint(socks_port: u16) -> (r: String)
    ensures
        r@ == "127.0.0.1:"@ + dec(socks_port as nat),
{
    let mut v: Vec<char> = Vec::new();
    push_str(&mut v, "127.0.0.1:");
    push_dec(&mut v, socks_port as u64);
    string_from_chars(v.as_slice())
}

/// The name of a fresh Tor data directory (under the temp directory).
pub fn tor_data_dir_name(now: u64) -> (r: String)
    ensures
        r@ == "vpn_suite_tor_data_"@ + dec(now as nat),
{
    let mut v: Vec<char> = Vec::new();
    push_str(&mut v, "vpn_suite_tor_data_");
    push_dec(&mut v, now);
    string_from_chars(v.as_slice())
}

/// Whether poll `attempt` (from 0) retries opening the local GeoIP database.
pub fn geoip_reopen_due(attempt: u32) -> (r: bool)
    ensures
        r == (attempt % 10 == 0),
{
    attempt % 10 == 0
}

/// The country reported for an exit: its code, or `TOR` while unknown.
pub fn reported_exit_country(country_code: &str) -> (r: String)
    ensures
        country_code@.len() > 0 ==> r@ == country_code@,
        country_code@.len() == 0 ==> r@ == "TOR"@,
{
    if country_code.is_empty() {
        owned("TOR")
    } else {
        owned(country_code)
    }
}

} // verus!
