//! Connecting and disconnecting profile tunnels (WireGuard, OpenVPN, Outline,
//! PPTP): session ids, what blocks a connect, elevation, what each start
//! outcome shows, and what a disconnect tears down.
use vstd::prelude::*;
use crate::helper::{spec_dispatch_request, HelperRequestView};
use crate::num::{dec, dec_signed, parse_i64, parse_i64_range, push_dec, push_i64};
use crate::ovpn::{
    needs_auth_user_pass, spec_needs_auth_user_pass, spec_wait_failure_message, wait_failure_message,
    OvpnTunnelState, TunnelStateView, WaitOutcome, WaitOutcomeView,
};
use crate::session::{spec_other_tunnel_busy, ActiveSession, ConnectionPhase};
use crate::text::{chars_of, owned, push_str, range_starts_with, starts_with, string_from_chars};

verus! {

/// A profile tunnel the client can bring up.
#[derive(Clone, Copy, Debug, PartialEq, Eq, Structural)]
pub enum TunnelKind {
    WireGuard,
    OpenVpn,
    Outline,
    Pptp,
}

/// The desktop systems on which profile tunnels run.
#[derive(Clone, Copy, Debug, PartialEq, Eq, Structural)]
pub enum TunnelOs {
    /// Elevation through UAC.
    Windows,
    /// Elevation through pkexec.
    Linux,
}

/// The session-id prefix of a profile tunnel.
pub open spec fn kind_prefix(k: TunnelKind) -> Seq<char> {
    match k {
        TunnelKind::WireGuard => "wg_"@,
        TunnelKind::OpenVpn => "ovpn_"@,
        TunnelKind::Outline => "outline_"@,
        TunnelKind::Pptp => "pptp_"@,
    }
}

fn kind_prefix_str(k: TunnelKind) -> (r: &'static str)
    ensures
        r@ == kind_prefix(k),
{
    match k {
        TunnelKind::WireGuard => "wg_",
        TunnelKind::OpenVpn => "ovpn_",
        TunnelKind::Outline => "outline_",
        TunnelKind::Pptp => "pptp_",
    }
}

/// The session id of profile `id` of kind `k`: its prefix and the id.
pub open spec fn session_id_of(k: TunnelKind, id: i64) -> Seq<char> {
    kind_prefix(k) + dec_signed(id as int)
}

/// The session id under which a profile's connection is tracked.
pub fn connect_server_id(k: TunnelKind, id: i64) -> (r: String)
    ensures
        r@ == session_id_of(k, id),
{
    let mut v: Vec<char> = Vec::new();
    push_str(&mut v, kind_prefix_str(k));
    push_i64(&mut v, id);
    string_from_chars(v.as_slice())
}

/// The prefix a connect of kind `k` checks other sessions against.
pub fn connect_prefix(k: TunnelKind) -> (r: &'static str)
    ensures
        r@ == kind_prefix(k),
{
    kind_prefix_str(k)
}

/// A profile's own session never blocks a new connect of the same kind.
pub proof fn law_own_session_never_blocks(phase: ConnectionPhase, k: TunnelKind, id: i64)
    ensures
        !spec_other_tunnel_busy(phase, session_id_of(k, id), kind_prefix(k)),
{
    assert(session_id_of(k, id).take(kind_prefix(k).len() as int) =~= kind_prefix(k));
}

proof fn lemma_prefixes_differ(a: TunnelKind, b: TunnelKind, s: Seq<char>)
    requires
        a != b,
        starts_with(s, kind_prefix(a)),
    ensures
        !starts_with(s, kind_prefix(b)),
        s != "tor_local"@,
{
    reveal_strlit("wg_");
    reveal_strlit("ovpn_");
    reveal_strlit("outline_");
    reveal_strlit("pptp_");
    reveal_strlit("tor_local");
    assert(s[0] == kind_prefix(a)[0]);
    assert(s[1] == kind_prefix(a)[1]);
    if starts_with(s, kind_prefix(b)) {
        assert(s[0] == kind_prefix(b)[0]);
        assert(s[1] == kind_prefix(b)[1]);
    }
    if s == "tor_local"@ {
        assert(s[0] == 't');
    }
}

/// A connecting or connected session of one kind blocks connecting any other
/// kind.
pub proof fn law_other_kind_blocks(active: TunnelKind, id: i64, wanted: TunnelKind, phase: ConnectionPhase)
    requires
        active != wanted,
        phase == ConnectionPhase::Connecting || phase == ConnectionPhase::Connected,
    ensures
        spec_other_tunnel_busy(phase, session_id_of(active, id), kind_prefix(wanted)),
{
    let s = session_id_of(active, id);
    assert(s.take(kind_prefix(active).len() as int) =~= kind_prefix(active));
    lemma_prefixes_differ(active, wanted, s);
}

/// The notice when another protocol's tunnel is up.
pub fn busy_notice(active_protocol: &str) -> (r: String)
    ensures
        r@ == active_protocol@ + " is already connected. Disconnect it before switching protocols."@,
{
    let mut v: Vec<char> = Vec::new();
    push_str(&mut v, active_protocol);
    push_str(&mut v, " is already connected. Disconnect it before switching protocols.");
    string_from_chars(v.as_slice())
}

/// The protocol name used in connect notices.
pub open spec fn kind_label(k: TunnelKind) -> Seq<char> {
    match k {
        TunnelKind::WireGuard => "WireGuard"@,
        TunnelKind::OpenVpn => "OpenVPN"@,
        TunnelKind::Outline => "Outline"@,
        TunnelKind::Pptp => "PPTP"@,
    }
}

fn kind_label_str(k: TunnelKind) -> (r: &'static str)
    ensures
        r@ == kind_label(k),
{
    match k {
        TunnelKind::WireGuard => "WireGuard",
        TunnelKind::OpenVpn => "OpenVPN",
        TunnelKind::Outline => "Outline",
        TunnelKind::Pptp => "PPTP",
    }
}

/// The notice when the profile to connect is gone.
pub fn profile_not_found_notice(k: TunnelKind) -> (r: String)
    ensures
        r@ == kind_label(k) + " profile not found."@,
{
    let mut v: Vec<char> = Vec::new();
    push_str(&mut v, kind_label_str(k));
    push_str(&mut v, " profile not found.");
    string_from_chars(v.as_slice())
}

/// The notice while a profile's tunnel is being brought up.
pub open spec fn spec_starting_notice(k: TunnelKind, name: Seq<char>, endpoint: Seq<char>) -> Seq<
    char,
> {
    match k {
        TunnelKind::WireGuard => "Starting WireGuard for '"@ + name + "' ("@ + endpoint + ")…"@,
        TunnelKind::OpenVpn => "OpenVPN starting for '"@ + name + "' ("@ + endpoint
            + ")… waiting for tunnel up."@,
        TunnelKind::Outline => "Starting Outline '"@ + name + "' ("@ + endpoint + ")…"@,
        TunnelKind::Pptp => "Dialing PPTP '"@ + name + "'…"@,
    }
}

/// The notice while a profile's tunnel is being brought up.
pub fn starting_notice(k: TunnelKind, name: &str, endpoint: &str) -> (r: String)
    ensures
        r@ == spec_starting_notice(k, name@, endpoint@),
{
    let mut v: Vec<char> = Vec::new();
    match k {
        TunnelKind::WireGuard => {
            push_str(&mut v, "Starting WireGuard for '");
            push_str(&mut v, name);
            push_str(&mut v, "' (");
            push_str(&mut v, endpoint);
            push_str(&mut v, ")…");
        },
        TunnelKind::OpenVpn => {
            push_str(&mut v, "OpenVPN starting for '");
            push_str(&mut v, name);
            push_str(&mut v, "' (");
            push_str(&mut v, endpoint);
            push_str(&mut v, ")… waiting for tunnel up.");
        },
        TunnelKind::Outline => {
            push_str(&mut v, "Starting Outline '");
            push_str(&mut v, name);
            push_str(&mut v, "' (");
            push_str(&mut v, endpoint);
            push_str(&mut v, ")…");
        },
        TunnelKind::Pptp => {
            push_str(&mut v, "Dialing PPTP '");
            push_str(&mut v, name);
            push_str(&mut v, "'…");
        },
    }
    assert(v@ =~= spec_starting_notice(k, name@, endpoint@));
    string_from_chars(v.as_slice())
}

/// The endpoint shown for a WireGuard profile: its `Endpoint`, else `wireguard`.
pub fn wg_display_endpoint(endpoint: Option<&str>) -> (r: String)
    ensures
        match endpoint {
            Some(e) => r@ == e@,
            None => r@ == "wireguard"@,
        },
{
    match endpoint {
        Some(e) => owned(e),
        None => owned("wireguard"),
    }
}

/// Whether a connect must first relaunch the client elevated: WireGuard and
/// OpenVPN always need privileges, Outline only for its system-wide tunnel,
/// PPTP never.
pub open spec fn spec_needs_elevation(k: TunnelKind, system_wide: bool, elevated: bool) -> bool {
    !elevated && match k {
        TunnelKind::WireGuard => true,
        TunnelKind::OpenVpn => true,
        TunnelKind::Outline => system_wide,
        TunnelKind::Pptp => false,
    }
}

/// Whether a connect must first relaunch the client elevated.
pub fn needs_elevation(k: TunnelKind, system_wide: bool, elevated: bool) -> (r: bool)
    ensures
        r == spec_needs_elevation(k, system_wide, elevated),
{
    !elevated && match k {
        TunnelKind::WireGuard => true,
        TunnelKind::OpenVpn => true,
        TunnelKind::Outline => system_wide,
        TunnelKind::Pptp => false,
    }
}

/// The arguments of the elevated relaunch that resumes a connect.
pub open spec fn spec_relaunch_args(k: TunnelKind, id: i64) -> Seq<Seq<char>> {
    match k {
        TunnelKind::WireGuard => seq!["--auto-connect-wg="@ + dec_signed(id as int)],
        TunnelKind::OpenVpn => seq!["--auto-connect-ovpn"@, dec_signed(id as int)],
        TunnelKind::Outline => seq!["--auto-connect-outline="@ + dec_signed(id as int)],
        TunnelKind::Pptp => Seq::empty(),
    }
}

pub open spec fn strings_view(v: Seq<String>) -> Seq<Seq<char>> {
    v.map_values(|s: String| s@)
}

/// The arguments of the elevated relaunch that resumes a connect (none for
/// PPTP, which never relaunches).
pub fn relaunch_args(k: TunnelKind, id: i64) -> (r: Vec<String>)
    ensures
        strings_view(r@) == spec_relaunch_args(k, id),
{
    let mut out: Vec<String> = Vec::new();
    match k {
        TunnelKind::WireGuard => {
            let mut v: Vec<char> = Vec::new();
            push_str(&mut v, "--auto-connect-wg=");
            push_i64(&mut v, id);
            out.push(string_from_chars(v.as_slice()));
        },
        TunnelKind::OpenVpn => {
            out.push(owned("--auto-connect-ovpn"));
            let mut v: Vec<char> = Vec::new();
            push_i64(&mut v, id);
            out.push(string_from_chars(v.as_slice()));
        },
        TunnelKind::Outline => {
            let mut v: Vec<char> = Vec::new();
            push_str(&mut v, "--auto-connect-outline=");
            push_i64(&mut v, id);
            out.push(string_from_chars(v.as_slice()));
        },
        TunnelKind::Pptp => {},
    }
    assert(strings_view(out@) =~= spec_relaunch_args(k, id));
    out
}

/// What a step of a connect shows: the session's new phase (if it changes),
/// the notice, and whether the public IP is looked up again.
pub struct StepNotice {
    pub phase: Option<ConnectionPhase>,
    pub notice: String,
    pub refresh_ip: bool,
}

/// The value of a [`StepNotice`].
pub struct StepNoticeView {
    pub phase: Option<ConnectionPhase>,
    pub notice: Seq<char>,
    pub refresh_ip: bool,
}

impl View for StepNotice {
    type V = StepNoticeView;

    open spec fn view(&self) -> StepNoticeView {
        StepNoticeView { phase: self.phase, notice: self.notice@, refresh_ip: self.refresh_ip }
    }
}

/// After asking for an elevated relaunch: accepted (`None`) means the client
/// restarts; refused means an error (OpenVPN has no session yet, so only the
/// notice changes). PPTP never asks.
pub open spec fn spec_elevation_notice(k: TunnelKind, os: TunnelOs, error: Option<Seq<char>>) -> StepNoticeView {
    let text = match error {
        None => match (k, os) {
            (TunnelKind::WireGuard, TunnelOs::Windows) => "Accepted UAC — restarting elevated for WireGuard…"@,
            (TunnelKind::WireGuard, TunnelOs::Linux) => "Accepted — restarting elevated for WireGuard (pkexec)…"@,
            (TunnelKind::OpenVpn, TunnelOs::Windows) => "Accepted UAC — restarting elevated for system-wide OpenVPN…"@,
            (TunnelKind::OpenVpn, TunnelOs::Linux) => "Accepted — restarting elevated for system-wide OpenVPN (pkexec)…"@,
            (TunnelKind::Outline, TunnelOs::Windows) => "Accepted UAC — restarting elevated for Outline…"@,
            (TunnelKind::Outline, TunnelOs::Linux) => "Accepted — restarting elevated for Outline (pkexec)…"@,
            (TunnelKind::Pptp, _) => Seq::empty(),
        },
        Some(e) => match (k, os) {
            (TunnelKind::WireGuard, TunnelOs::Windows) => "WireGuard needs Administrator ("@ + e
                + "). Accept UAC or Run as administrator."@,
            (TunnelKind::WireGuard, TunnelOs::Linux) => "WireGuard needs Administrator ("@ + e
                + "). Authenticate via pkexec or run with sudo."@,
            (TunnelKind::OpenVpn, TunnelOs::Windows) => "System-wide OpenVPN needs Administrator ("@
                + e + "). Accept UAC or Run as administrator."@,
            (TunnelKind::OpenVpn, TunnelOs::Linux) => "System-wide OpenVPN needs Administrator ("@
                + e + "). Authenticate via pkexec or run with sudo."@,
            (TunnelKind::Outline, _) => "Outline system tunnel needs Administrator ("@ + e + ")."@,
            (TunnelKind::Pptp, _) => Seq::empty(),
        },
    };
    StepNoticeView {
        phase: if error is Some && (k == TunnelKind::WireGuard || k == TunnelKind::Outline) {
            Some(ConnectionPhase::Error)
        } else {
            None
        },
        notice: text,
        refresh_ip: false,
    }
}

/// What a relaunch request shows; `relaunch_error` is `None` when the
/// relaunch was accepted.
pub fn elevation_notice(k: TunnelKind, os: TunnelOs, relaunch_error: Option<&str>) -> (r: StepNotice)
    requires
        k != TunnelKind::Pptp,
    ensures
        r@ == spec_elevation_notice(k, os, match relaunch_error {
            Some(e) => Some(e@),
            None => None,
        }),
{
    let mut v: Vec<char> = Vec::new();
    match relaunch_error {
        None => {
            let t = match (k, os) {
                (TunnelKind::WireGuard, TunnelOs::Windows) => "Accepted UAC — restarting elevated for WireGuard…",
                (TunnelKind::WireGuard, TunnelOs::Linux) => "Accepted — restarting elevated for WireGuard (pkexec)…",
                (TunnelKind::OpenVpn, TunnelOs::Windows) => "Accepted UAC — restarting elevated for system-wide OpenVPN…",
                (TunnelKind::OpenVpn, TunnelOs::Linux) => "Accepted — restarting elevated for system-wide OpenVPN (pkexec)…",
                (TunnelKind::Outline, TunnelOs::Windows) => "Accepted UAC — restarting elevated for Outline…",
                (_, _) => "Accepted — restarting elevated for Outline (pkexec)…",
            };
            push_str(&mut v, t);
        },
        Some(e) => {
            match (k, os) {
                (TunnelKind::WireGuard, TunnelOs::Windows) => {
                    push_str(&mut v, "WireGuard needs Administrator (");
                    push_str(&mut v, e);
                    push_str(&mut v, "). Accept UAC or Run as administrator.");
                },
                (TunnelKind::WireGuard, TunnelOs::Linux) => {
                    push_str(&mut v, "WireGuard needs Administrator (");
                    push_str(&mut v, e);
                    push_str(&mut v, "). Authenticate via pkexec or run with sudo.");
                },
                (TunnelKind::OpenVpn, TunnelOs::Windows) => {
                    push_str(&mut v, "System-wide OpenVPN needs Administrator (");
                    push_str(&mut v, e);
                    push_str(&mut v, "). Accept UAC or Run as administrator.");
                },
                (TunnelKind::OpenVpn, TunnelOs::Linux) => {
                    push_str(&mut v, "System-wide OpenVPN needs Administrator (");
                    push_str(&mut v, e);
                    push_str(&mut v, "). Authenticate via pkexec or run with sudo.");
                },
                (_, _) => {
                    push_str(&mut v, "Outline system tunnel needs Administrator (");
                    push_str(&mut v, e);
                    push_str(&mut v, ").");
                },
            }
        },
    }
    let failed = relaunch_error.is_some() && (match k {
        TunnelKind::WireGuard => true,
        TunnelKind::Outline => true,
        _ => false,
    });
    let r = StepNotice {
        phase: if failed {
            Some(ConnectionPhase::Error)
        } else {
            None
        },
        notice: string_from_chars(v.as_slice()),
        refresh_ip: false,
    };
    proof {
        let ev = match relaunch_error {
            Some(e) => Some(e@),
            None => None,
        };
        assert(r@.notice =~= spec_elevation_notice(k, os, ev).notice);
    }
    r
}

/// How bringing up a WireGuard tunnel went.
#[derive(Debug)]
pub enum WgStart {
    /// The profile did not parse.
    InvalidConfig(String),
    /// The tunnel did not start.
    StartFailed(String),
    /// The tunnel started but was gone after settling.
    ExitedImmediately,
    /// The tunnel is up.
    Running,
}

/// The value of a [`WgStart`].
pub enum WgStartView {
    InvalidConfig(Seq<char>),
    StartFailed(Seq<char>),
    ExitedImmediately,
    Running,
}

impl View for WgStart {
    type V = WgStartView;

    open spec fn view(&self) -> WgStartView {
        match self {
            WgStart::InvalidConfig(e) => WgStartView::InvalidConfig(e@),
            WgStart::StartFailed(e) => WgStartView::StartFailed(e@),
            WgStart::ExitedImmediately => WgStartView::ExitedImmediately,
            WgStart::Running => WgStartView::Running,
        }
    }
}

/// What a WireGuard start shows: up means connected (and the public IP is
/// looked up again); anything else is an error.
pub open spec fn spec_wg_start_outcome(os: TunnelOs, name: Seq<char>, endpoint: Seq<char>, s: WgStartView) -> StepNoticeView {
    match s {
        WgStartView::Running => StepNoticeView {
            phase: Some(ConnectionPhase::Connected),
            notice: "WireGuard ACTIVE for '"@ + name + "' ("@ + endpoint + "). Refreshing Your IP…"@,
            refresh_ip: true,
        },
        WgStartView::ExitedImmediately => StepNoticeView {
            phase: Some(ConnectionPhase::Error),
            notice: match os {
                TunnelOs::Windows =>
                    "WireGuard tunnel exited immediately. Run as Administrator and ensure wintun.dll is next to vpn-client.exe."@,
                TunnelOs::Linux =>
                    "WireGuard tunnel exited immediately. Run as Administrator (pkexec) and ensure TUN is available."@,
            },
            refresh_ip: false,
        },
        WgStartView::StartFailed(e) => StepNoticeView {
            phase: Some(ConnectionPhase::Error),
            notice: match os {
                TunnelOs::Windows => "WireGuard failed: "@ + e
                    + ". Need Administrator + wintun.dll beside the app."@,
                TunnelOs::Linux => "WireGuard failed: "@ + e + ". Need Administrator + TUN (pkexec)."@,
            },
            refresh_ip: false,
        },
        WgStartView::InvalidConfig(e) => StepNoticeView {
            phase: Some(ConnectionPhase::Error),
            notice: "Invalid WireGuard config: "@ + e,
            refresh_ip: false,
        },
    }
}

/// What a WireGuard start shows.
pub fn wg_start_outcome(os: TunnelOs, name: &str, endpoint: &str, s: &WgStart) -> (r: StepNotice)
    ensures
        r@ == spec_wg_start_outcome(os, name@, endpoint@, s@),
{
    let mut v: Vec<char> = Vec::new();
    let (phase, refresh) = match s {
        WgStart::Running => {
            push_str(&mut v, "WireGuard ACTIVE for '");
            push_str(&mut v, name);
            push_str(&mut v, "' (");
            push_str(&mut v, endpoint);
            push_str(&mut v, "). Refreshing Your IP…");
            (ConnectionPhase::Connected, true)
        },
        WgStart::ExitedImmediately => {
            match os {
                TunnelOs::Windows => push_str(
                    &mut v,
                    "WireGuard tunnel exited immediately. Run as Administrator and ensure wintun.dll is next to vpn-client.exe.",
                ),
                TunnelOs::Linux => push_str(
                    &mut v,
                    "WireGuard tunnel exited immediately. Run as Administrator (pkexec) and ensure TUN is available.",
                ),
            }
            (ConnectionPhase::Error, false)
        },
        WgStart::StartFailed(e) => {
            push_str(&mut v, "WireGuard failed: ");
            push_str(&mut v, e.as_str());
            match os {
                TunnelOs::Windows => push_str(&mut v, ". Need Administrator + wintun.dll beside the app."),
                TunnelOs::Linux => push_str(&mut v, ". Need Administrator + TUN (pkexec)."),
            }
            (ConnectionPhase::Error, false)
        },
        WgStart::InvalidConfig(e) => {
            push_str(&mut v, "Invalid WireGuard config: ");
            push_str(&mut v, e.as_str());
            (ConnectionPhase::Error, false)
        },
    };
    let r = StepNotice { phase: Some(phase), notice: string_from_chars(v.as_slice()), refresh_ip: refresh };
    assert(r@.notice =~= spec_wg_start_outcome(os, name@, endpoint@, s@).notice);
    r
}

/// Where imported WireGuard profiles cannot be applied: an error naming the
/// saved profile.
pub fn wg_unsupported_notice(profile_path: &str) -> (r: StepNotice)
    ensures
        r.phase == Some(ConnectionPhase::Error),
        !r.refresh_ip,
        r.notice@ == "WireGuard profile saved to "@ + profile_path@
            + ". Full-tunnel apply for imported .conf is Windows-first; use ZeroNode control-plane WireGuard on Linux for now."@,
{
    let mut v: Vec<char> = Vec::new();
    push_str(&mut v, "WireGuard profile saved to ");
    push_str(&mut v, profile_path);
    push_str(
        &mut v,
        ". Full-tunnel apply for imported .conf is Windows-first; use ZeroNode control-plane WireGuard on Linux for now.",
    );
    StepNotice { phase: Some(ConnectionPhase::Error), notice: string_from_chars(v.as_slice()), refresh_ip: false }
}

/// What an Outline start shows: the SOCKS port it listens on (and, for the
/// system-wide tunnel, that the TUN is up and the public IP is looked up
/// again), or the error.
pub open spec fn spec_outline_outcome(name: Seq<char>, system_wide: bool, started: Result<u16, Seq<char>>) -> StepNoticeView {
    match started {
        Ok(port) => StepNoticeView {
            phase: Some(ConnectionPhase::Connected),
            notice: "Outline ACTIVE for '"@ + name + "' (SOCKS 127.0.0.1:"@ + dec(port as nat) + (if system_wide {
                " + system TUN"@
            } else {
                Seq::empty()
            }) + "). Refreshing Your IP…"@,
            refresh_ip: system_wide,
        },
        Err(e) => StepNoticeView {
            phase: Some(ConnectionPhase::Error),
            notice: "Outline failed: "@ + e,
            refresh_ip: false,
        },
    }
}

/// What an Outline start shows.
pub fn outline_start_outcome(name: &str, system_wide: bool, started: Result<u16, &str>) -> (r: StepNotice)
    ensures
        r@ == spec_outline_outcome(name@, system_wide, match started {
            Ok(p) => Ok(p),
            Err(e) => Err(e@),
        }),
{
    let mut v: Vec<char> = Vec::new();
    let ghost sv = match started {
        Ok(p) => Ok(p),
        Err(e) => Err(e@),
    };
    match started {
        Ok(port) => {
            push_str(&mut v, "Outline ACTIVE for '");
            push_str(&mut v, name);
            push_str(&mut v, "' (SOCKS 127.0.0.1:");
            push_dec(&mut v, port as u64);
            if system_wide {
                push_str(&mut v, " + system TUN");
            }
            push_str(&mut v, "). Refreshing Your IP…");
            assert(v@ =~= spec_outline_outcome(name@, system_wide, sv).notice);
            StepNotice {
                phase: Some(ConnectionPhase::Connected),
                notice: string_from_chars(v.as_slice()),
                refresh_ip: system_wide,
            }
        },
        Err(e) => {
            push_str(&mut v, "Outline failed: ");
            push_str(&mut v, e);
            StepNotice { phase: Some(ConnectionPhase::Error), notice: string_from_chars(v.as_slice()), refresh_ip: false }
        },
    }
}

/// Where the Outline system tunnel is not implemented: an error.
pub fn outline_unsupported_notice() -> (r: StepNotice)
    ensures
        r.phase == Some(ConnectionPhase::Error),
        !r.refresh_ip,
        r.notice@ == "Outline system tunnel is currently implemented on Windows (sslocal + TUN)."@,
{
    StepNotice {
        phase: Some(ConnectionPhase::Error),
        notice: owned("Outline system tunnel is currently implemented on Windows (sslocal + TUN)."),
        refresh_ip: false,
    }
}

/// What a PPTP dial shows: connected (and the public IP is looked up again),
/// or the dial error.
pub open spec fn spec_pptp_outcome(name: Seq<char>, dialed: Option<Seq<char>>) -> StepNoticeView {
    match dialed {
        None => StepNoticeView {
            phase: Some(ConnectionPhase::Connected),
            notice: "PPTP connected to '"@ + name + "' (legacy). Refreshing Your IP…"@,
            refresh_ip: true,
        },
        Some(e) => StepNoticeView {
            phase: Some(ConnectionPhase::Error),
            notice: "PPTP dial failed: "@ + e,
            refresh_ip: false,
        },
    }
}

/// What a PPTP dial shows; `dial_error` is `None` when the dial succeeded.
pub fn pptp_dial_outcome(name: &str, dial_error: Option<&str>) -> (r: StepNotice)
    ensures
        r@ == spec_pptp_outcome(name@, match dial_error {
            Some(e) => Some(e@),
            None => None,
        }),
{
    let mut v: Vec<char> = Vec::new();
    match dial_error {
        None => {
            push_str(&mut v, "PPTP connected to '");
            push_str(&mut v, name);
            push_str(&mut v, "' (legacy). Refreshing Your IP…");
            StepNotice { phase: Some(ConnectionPhase::Connected), notice: string_from_chars(v.as_slice()), refresh_ip: true }
        },
        Some(e) => {
            push_str(&mut v, "PPTP dial failed: ");
            push_str(&mut v, e);
            StepNotice { phase: Some(ConnectionPhase::Error), notice: string_from_chars(v.as_slice()), refresh_ip: false }
        },
    }
}

/// Where PPTP cannot be dialled: an error.
pub fn pptp_unsupported_notice() -> (r: StepNotice)
    ensures
        r.phase == Some(ConnectionPhase::Error),
        !r.refresh_ip,
        r.notice@ == "PPTP is currently supported on Windows only (RAS)."@,
{
    StepNotice {
        phase: Some(ConnectionPhase::Error),
        notice: owned("PPTP is currently supported on Windows only (RAS)."),
        refresh_ip: false,
    }
}

// ---------------------------------------------------------------------------
// OpenVPN
// ---------------------------------------------------------------------------

/// An OpenVPN connect stops before starting when the profile asks for a
/// username and password and no credentials file is there.
pub fn ovpn_credentials_missing(content: &str, auth_file_exists: bool) -> (r: bool)
    ensures
        r == (spec_needs_auth_user_pass(content@) && !auth_file_exists),
{
    needs_auth_user_pass(content) && !auth_file_exists
}

/// The notice when an OpenVPN profile needs credentials.
pub fn ovpn_credentials_notice(name: &str) -> (r: String)
    ensures
        r@ == "OpenVPN profile '"@ + name@
            + "' requires username/password (auth-user-pass). Enter credentials and Connect again."@,
{
    let mut v: Vec<char> = Vec::new();
    push_str(&mut v, "OpenVPN profile '");
    push_str(&mut v, name);
    push_str(&mut v, "' requires username/password (auth-user-pass). Enter credentials and Connect again.");
    string_from_chars(v.as_slice())
}

/// What the end of the wait for an OpenVPN tunnel leads to.
pub struct OvpnVerdict {
    /// The session's phase.
    pub phase: ConnectionPhase,
    pub notice: String,
    /// Kill the OpenVPN processes.
    pub stop_openvpn: bool,
    /// Delete the saved credentials file.
    pub forget_credentials: bool,
    /// Look the public IP up again.
    pub refresh_ip: bool,
}

/// The value of an [`OvpnVerdict`].
pub struct OvpnVerdictView {
    pub phase: ConnectionPhase,
    pub notice: Seq<char>,
    pub stop_openvpn: bool,
    pub forget_credentials: bool,
    pub refresh_ip: bool,
}

impl View for OvpnVerdict {
    type V = OvpnVerdictView;

    open spec fn view(&self) -> OvpnVerdictView {
        OvpnVerdictView {
            phase: self.phase,
            notice: self.notice@,
            stop_openvpn: self.stop_openvpn,
            forget_credentials: self.forget_credentials,
            refresh_ip: self.refresh_ip,
        }
    }
}

/// The verdict on a finished wait: up is connected; refused credentials are
/// forgotten; any other end stops OpenVPN with an error naming what happened.
pub open spec fn spec_ovpn_verdict(
    name: Seq<char>,
    endpoint: Seq<char>,
    log_path: Seq<char>,
    stderr_path: Seq<char>,
    timeout_secs: u64,
    outcome: WaitOutcomeView,
) -> OvpnVerdictView {
    match outcome {
        WaitOutcomeView::Finished(TunnelStateView::Up) => OvpnVerdictView {
            phase: ConnectionPhase::Connected,
            notice: "OpenVPN system tunnel ACTIVE for '"@ + name + "' ("@ + endpoint
                + "). Refreshing Your IP…"@,
            stop_openvpn: false,
            forget_credentials: false,
            refresh_ip: true,
        },
        WaitOutcomeView::Finished(TunnelStateView::AuthFailed) => OvpnVerdictView {
            phase: ConnectionPhase::Error,
            notice: "OpenVPN authentication failed for '"@ + name + "'. Check username/password."@,
            stop_openvpn: true,
            forget_credentials: true,
            refresh_ip: false,
        },
        WaitOutcomeView::Finished(TunnelStateView::Fatal(detail)) => OvpnVerdictView {
            phase: ConnectionPhase::Error,
            notice: "OpenVPN failed for '"@ + name + "': "@ + detail,
            stop_openvpn: true,
            forget_credentials: false,
            refresh_ip: false,
        },
        WaitOutcomeView::Finished(_) => OvpnVerdictView {
            phase: ConnectionPhase::Error,
            notice: "OpenVPN exited before the tunnel was ready for '"@ + name + "'. See "@ + log_path,
            stop_openvpn: true,
            forget_credentials: false,
            refresh_ip: false,
        },
        _ => OvpnVerdictView {
            phase: ConnectionPhase::Error,
            notice: "OpenVPN did not establish a system tunnel: "@ + spec_wait_failure_message(
                outcome,
                stderr_path,
                timeout_secs,
            ),
            stop_openvpn: true,
            forget_credentials: false,
            refresh_ip: false,
        },
    }
}

/// The verdict once the wait for an OpenVPN tunnel has ended.
pub fn ovpn_wait_verdict(
    name: &str,
    endpoint: &str,
    log_path: &str,
    stderr_path: &str,
    timeout_secs: u64,
    outcome: &WaitOutcome,
) -> (r: OvpnVerdict)
    requires
        !(outcome@ is KeepWaiting),
    ensures
        r@ == spec_ovpn_verdict(name@, endpoint@, log_path@, stderr_path@, timeout_secs, outcome@),
{
    let mut v: Vec<char> = Vec::new();
    match outcome {
        WaitOutcome::Finished(OvpnTunnelState::Up) => {
            push_str(&mut v, "OpenVPN system tunnel ACTIVE for '");
            push_str(&mut v, name);
            push_str(&mut v, "' (");
            push_str(&mut v, endpoint);
            push_str(&mut v, "). Refreshing Your IP…");
            assert(v@ =~= spec_ovpn_verdict(name@, endpoint@, log_path@, stderr_path@, timeout_secs, outcome@).notice);
            OvpnVerdict {
                phase: ConnectionPhase::Connected,
                notice: string_from_chars(v.as_slice()),
                stop_openvpn: false,
                forget_credentials: false,
                refresh_ip: true,
            }
        },
        WaitOutcome::Finished(OvpnTunnelState::AuthFailed) => {
            push_str(&mut v, "OpenVPN authentication failed for '");
            push_str(&mut v, name);
            push_str(&mut v, "'. Check username/password.");
            assert(v@ =~= spec_ovpn_verdict(name@, endpoint@, log_path@, stderr_path@, timeout_secs, outcome@).notice);
            OvpnVerdict {
                phase: ConnectionPhase::Error,
                notice: string_from_chars(v.as_slice()),
                stop_openvpn: true,
                forget_credentials: true,
                refresh_ip: false,
            }
        },
        WaitOutcome::Finished(OvpnTunnelState::Fatal(detail)) => {
            push_str(&mut v, "OpenVPN failed for '");
            push_str(&mut v, name);
            push_str(&mut v, "': ");
            push_str(&mut v, detail.as_str());
            assert(v@ =~= spec_ovpn_verdict(name@, endpoint@, log_path@, stderr_path@, timeout_secs, outcome@).notice);
            OvpnVerdict {
                phase: ConnectionPhase::Error,
                notice: string_from_chars(v.as_slice()),
                stop_openvpn: true,
                forget_credentials: false,
                refresh_ip: false,
            }
        },
        WaitOutcome::Finished(_) => {
            push_str(&mut v, "OpenVPN exited before the tunnel was ready for '");
            push_str(&mut v, name);
            push_str(&mut v, "'. See ");
            push_str(&mut v, log_path);
            assert(v@ =~= spec_ovpn_verdict(name@, endpoint@, log_path@, stderr_path@, timeout_secs, outcome@).notice);
            OvpnVerdict {
                phase: ConnectionPhase::Error,
                notice: string_from_chars(v.as_slice()),
                stop_openvpn: true,
                forget_credentials: false,
                refresh_ip: false,
            }
        },
        WaitOutcome::Failed(f) => {
            push_str(&mut v, "OpenVPN did not establish a system tunnel: ");
            let m = wait_failure_message(f, stderr_path, timeout_secs);
            push_str(&mut v, m.as_str());
            assert(v@ =~= spec_ovpn_verdict(name@, endpoint@, log_path@, stderr_path@, timeout_secs, outcome@).notice);
            OvpnVerdict {
                phase: ConnectionPhase::Error,
                notice: string_from_chars(v.as_slice()),
                stop_openvpn: true,
                forget_credentials: false,
                refresh_ip: false,
            }
        },
        WaitOutcome::KeepWaiting => {
            proof {
                assert(false);
            }
            OvpnVerdict {
                phase: ConnectionPhase::Error,
                notice: string_from_chars(v.as_slice()),
                stop_openvpn: true,
                forget_credentials: false,
                refresh_ip: false,
            }
        },
    }
}

/// What pressing Connect on an OpenVPN profile leads to.
#[derive(Clone, Copy, Debug, PartialEq, Eq, Structural)]
pub enum OvpnConnectRequest {
    /// No profile is selected.
    SelectFirst,
    /// The selected profile is not in the list.
    NotFound,
    /// The profile needs a username and password and none are saved: ask.
    AskCredentials,
    /// Connect now.
    Connect { id: i64 },
}

/// The OpenVPN connect request for the selected profile: `profile` is the
/// selected profile's text, `None` when it is not in the list.
pub open spec fn spec_ovpn_connect_request(
    selected: Option<i64>,
    profile: Option<Seq<char>>,
    has_saved_auth: bool,
) -> OvpnConnectRequest {
    match selected {
        None => OvpnConnectRequest::SelectFirst,
        Some(id) => match profile {
            None => OvpnConnectRequest::NotFound,
            Some(c) => if spec_needs_auth_user_pass(c) && !has_saved_auth {
                OvpnConnectRequest::AskCredentials
            } else {
                OvpnConnectRequest::Connect { id }
            },
        },
    }
}

/// What Connect does for the selected OpenVPN profile.
pub fn ovpn_connect_request(selected: Option<i64>, profile: Option<&str>, has_saved_auth: bool) -> (r: OvpnConnectRequest)
    ensures
        r == spec_ovpn_connect_request(selected, match profile {
            Some(c) => Some(c@),
            None => None,
        }, has_saved_auth),
{
    match selected {
        None => OvpnConnectRequest::SelectFirst,
        Some(id) => match profile {
            None => OvpnConnectRequest::NotFound,
            Some(c) => if needs_auth_user_pass(c) && !has_saved_auth {
                OvpnConnectRequest::AskCredentials
            } else {
                OvpnConnectRequest::Connect { id }
            },
        },
    }
}

/// The notice for a request that does not connect (none when it connects or
/// asks for credentials).
pub fn ovpn_request_notice(r: OvpnConnectRequest) -> (n: Option<String>)
    ensures
        r == OvpnConnectRequest::SelectFirst ==> (n matches Some(m) && m@ == "Select an OpenVPN server first."@),
        r == OvpnConnectRequest::NotFound ==> (n matches Some(m) && m@ == "OpenVPN profile not found."@),
        r == OvpnConnectRequest::AskCredentials || r is Connect ==> n is None,
{
    match r {
        OvpnConnectRequest::SelectFirst => Some(owned("Select an OpenVPN server first.")),
        OvpnConnectRequest::NotFound => Some(owned("OpenVPN profile not found.")),
        _ => None,
    }
}

/// The notice when OpenVPN could not be started.
pub fn ovpn_spawn_failed_notice(exe_path: &str, error: &str) -> (r: String)
    ensures
        r@ == "Failed to start OpenVPN ("@ + exe_path@ + "): "@ + error@,
{
    let mut v: Vec<char> = Vec::new();
    push_str(&mut v, "Failed to start OpenVPN (");
    push_str(&mut v, exe_path);
    push_str(&mut v, "): ");
    push_str(&mut v, error);
    string_from_chars(v.as_slice())
}

/// The OpenVPN profile id of a session id `ovpn_<id>`.
pub open spec fn spec_ovpn_profile_id(server_id: Seq<char>) -> Option<i64> {
    if starts_with(server_id, "ovpn_"@) {
        parse_i64(server_id.skip(5))
    } else {
        None
    }
}

/// The OpenVPN profile a session belongs to, if it is an OpenVPN session.
pub fn ovpn_profile_id(server_id: &str) -> (r: Option<i64>)
    ensures
        r == spec_ovpn_profile_id(server_id@),
{
    let v = chars_of(server_id);
    let n = v.len();
    if !range_starts_with(&v, 0, n, "ovpn_") {
        assert(v@.subrange(0, n as int) =~= v@);
        return None;
    }
    assert(v@.subrange(0, n as int) =~= v@);
    proof {
        reveal_strlit("ovpn_");
    }
    assert(v@.subrange(5, n as int) =~= server_id@.skip(5));
    parse_i64_range(&v, 5, n)
}

/// An OpenVPN profile's own session id reads back as that profile.
pub proof fn law_ovpn_session_id_roundtrip(id: i64)
    ensures
        spec_ovpn_profile_id(session_id_of(TunnelKind::OpenVpn, id)) == Some(id),
{
    reveal_strlit("ovpn_");
    let s = session_id_of(TunnelKind::OpenVpn, id);
    assert(s.take(5) =~= "ovpn_"@);
    assert(s.skip(5) =~= dec_signed(id as int));
    crate::num::lemma_parse_dec_signed(id as int, i64::MIN as int, i64::MAX as int);
}

/// The notice when an OpenVPN session's process has gone.
pub fn ovpn_died_notice() -> (r: String)
    ensures
        r@ == "OpenVPN connection failed or process died."@,
{
    owned("OpenVPN connection failed or process died.")
}

// ---------------------------------------------------------------------------
// Disconnect
// ---------------------------------------------------------------------------

/// The kind of session a disconnect tears down, by its id.
#[derive(Clone, Copy, Debug, PartialEq, Eq, Structural)]
pub enum SessionKind {
    /// The local Tor session (`tor_local`).
    TorLocal,
    OpenVpn,
    WireGuard,
    Pptp,
    Outline,
    /// A session with a ZeroNode server.
    ControlPlane,
}

/// The kind of a session id: `tor_local`, else by its prefix, else a
/// ZeroNode server session.
pub open spec fn spec_session_kind(server_id: Seq<char>) -> SessionKind {
    if server_id == "tor_local"@ {
        SessionKind::TorLocal
    } else if starts_with(server_id, "ovpn_"@) {
        SessionKind::OpenVpn
    } else if starts_with(server_id, "wg_"@) {
        SessionKind::WireGuard
    } else if starts_with(server_id, "pptp_"@) {
        SessionKind::Pptp
    } else if starts_with(server_id, "outline_"@) {
        SessionKind::Outline
    } else {
        SessionKind::ControlPlane
    }
}

/// The kind of the session being torn down.
pub fn session_kind(server_id: &str) -> (r: SessionKind)
    ensures
        r == spec_session_kind(server_id@),
{
    let v = chars_of(server_id);
    let n = v.len();
    assert(v@.subrange(0, n as int) =~= v@);
    if crate::text::range_eq(&v, 0, n, "tor_local") {
        SessionKind::TorLocal
    } else if range_starts_with(&v, 0, n, "ovpn_") {
        SessionKind::OpenVpn
    } else if range_starts_with(&v, 0, n, "wg_") {
        SessionKind::WireGuard
    } else if range_starts_with(&v, 0, n, "pptp_") {
        SessionKind::Pptp
    } else if range_starts_with(&v, 0, n, "outline_") {
        SessionKind::Outline
    } else {
        SessionKind::ControlPlane
    }
}

/// The session kind of a profile tunnel.
pub open spec fn kind_session(k: TunnelKind) -> SessionKind {
    match k {
        TunnelKind::WireGuard => SessionKind::WireGuard,
        TunnelKind::OpenVpn => SessionKind::OpenVpn,
        TunnelKind::Outline => SessionKind::Outline,
        TunnelKind::Pptp => SessionKind::Pptp,
    }
}

/// A disconnect recognises every profile session for what it is.
pub proof fn law_session_kind_roundtrip(k: TunnelKind, id: i64)
    ensures
        spec_session_kind(session_id_of(k, id)) == kind_session(k),
{
    let s = session_id_of(k, id);
    assert(s.take(kind_prefix(k).len() as int) =~= kind_prefix(k));
    reveal_strlit("wg_");
    reveal_strlit("ovpn_");
    reveal_strlit("outline_");
    reveal_strlit("pptp_");
    reveal_strlit("tor_local");
    assert(s[0] == kind_prefix(k)[0]);
    assert(s[1] == kind_prefix(k)[1]);
    if s == "tor_local"@ {
        assert(s[0] == 't');
    }
    if k != TunnelKind::OpenVpn {
        lemma_prefixes_differ(k, TunnelKind::OpenVpn, s);
    }
    if k != TunnelKind::WireGuard {
        lemma_prefixes_differ(k, TunnelKind::WireGuard, s);
    }
    if k != TunnelKind::Pptp {
        lemma_prefixes_differ(k, TunnelKind::Pptp, s);
    }
}

/// The helper-daemon command that stops a session's tunnel (the control
/// plane's kernel tunnel is WireGuard).
pub open spec fn spec_helper_stop(kind: SessionKind) -> Seq<char> {
    match kind {
        SessionKind::TorLocal => "tor_stop"@,
        SessionKind::OpenVpn => "ovpn_stop"@,
        SessionKind::WireGuard => "wg_stop"@,
        SessionKind::Pptp => "pptp_stop"@,
        SessionKind::Outline => "ss_stop"@,
        SessionKind::ControlPlane => "wg_stop"@,
    }
}

/// The helper-daemon command sent to stop a session's tunnel.
pub fn helper_stop_command(kind: SessionKind) -> (r: &'static str)
    ensures
        r@ == spec_helper_stop(kind),
{
    match kind {
        SessionKind::TorLocal => "tor_stop",
        SessionKind::OpenVpn => "ovpn_stop",
        SessionKind::WireGuard => "wg_stop",
        SessionKind::Pptp => "pptp_stop",
        SessionKind::Outline => "ss_stop",
        SessionKind::ControlPlane => "wg_stop",
    }
}

/// Every stop command a disconnect sends is one the helper daemon accepts,
/// whatever else the request carries.
pub proof fn law_stop_commands_accepted(kind: SessionKind, req: HelperRequestView)
    requires
        req.cmd == Some(spec_helper_stop(kind)),
    ensures
        spec_dispatch_request(req) is Ok,
{
    reveal_strlit("ping");
    reveal_strlit("tor_start");
    reveal_strlit("tor_stop");
    reveal_strlit("wg_start");
    reveal_strlit("wg_stop");
    reveal_strlit("ovpn_start");
    reveal_strlit("ovpn_stop");
    reveal_strlit("pptp_start");
    reveal_strlit("pptp_stop");
    reveal_strlit("ss_start");
    reveal_strlit("ss_stop");
    reveal_strlit("status");
    // The command names are pairwise different.
    let lits = seq![
        "ping"@, "tor_start"@, "tor_stop"@, "wg_start"@, "wg_stop"@, "ovpn_start"@,
        "ovpn_stop"@, "pptp_start"@, "pptp_stop"@, "ss_start"@, "ss_stop"@,
    ];
    assert forall|i: int, j: int| 0 <= i < j < lits.len() implies lits[i] != lits[j] by {
        if lits[i].len() == lits[j].len() {
            assert(lits[i][0] != lits[j][0] || lits[i][1] != lits[j][1] || lits[i][2] != lits[j][2]
                || lits[i][3] != lits[j][3] || lits[i][4] != lits[j][4]);
        }
    }
}

/// What a disconnect reports of the teardown, by session kind (for a Tor
/// session, after any warning from stopping its route; for a server session
/// or none, the tunnel-removal report).
pub open spec fn spec_teardown_notice(kind: SessionKind, tor_stop_error: Option<Seq<char>>, removal: Seq<char>) -> Seq<char> {
    match kind {
        SessionKind::TorLocal => (match tor_stop_error {
            Some(e) => "Tor tunnel stop warning: "@ + e + ". "@,
            None => Seq::empty(),
        }) + "Tor stopped; system routes restored (no permanent OS proxy was installed)."@,
        SessionKind::OpenVpn => "OpenVPN disconnected; profile stopped."@,
        SessionKind::WireGuard => "WireGuard disconnected; tunnel stopped."@,
        SessionKind::Pptp => "PPTP disconnected."@,
        SessionKind::Outline => "Outline disconnected; SOCKS/TUN stopped."@,
        SessionKind::ControlPlane => removal,
    }
}

/// The notice after a disconnect: what was torn down, then that the public
/// IP is being looked up again.
pub open spec fn spec_disconnect_notice(kind: Option<SessionKind>, tor_stop_error: Option<Seq<char>>, removal: Seq<char>) -> Seq<char> {
    "Disconnected. "@ + match kind {
        Some(k) => spec_teardown_notice(k, tor_stop_error, removal),
        None => removal,
    } + " Refreshing Your IP…"@
}

/// The notice after a disconnect; `kind` is `None` when no session was
/// active, `removal` the tunnel-removal report (used for server sessions and
/// when none was active).
pub fn disconnect_notice(kind: Option<SessionKind>, tor_stop_error: Option<&str>, removal: &str) -> (r: String)
    ensures
        r@ == spec_disconnect_notice(kind, match tor_stop_error {
            Some(e) => Some(e@),
            None => None,
        }, removal@),
{
    let mut v: Vec<char> = Vec::new();
    push_str(&mut v, "Disconnected. ");
    match kind {
        Some(SessionKind::TorLocal) => {
            match tor_stop_error {
                Some(e) => {
                    push_str(&mut v, "Tor tunnel stop warning: ");
                    push_str(&mut v, e);
                    push_str(&mut v, ". ");
                },
                None => {},
            }
            push_str(&mut v, "Tor stopped; system routes restored (no permanent OS proxy was installed).");
        },
        Some(SessionKind::OpenVpn) => push_str(&mut v, "OpenVPN disconnected; profile stopped."),
        Some(SessionKind::WireGuard) => push_str(&mut v, "WireGuard disconnected; tunnel stopped."),
        Some(SessionKind::Pptp) => push_str(&mut v, "PPTP disconnected."),
        Some(SessionKind::Outline) => push_str(&mut v, "Outline disconnected; SOCKS/TUN stopped."),
        Some(SessionKind::ControlPlane) => push_str(&mut v, removal),
        None => push_str(&mut v, removal),
    }
    push_str(&mut v, " Refreshing Your IP…");
    proof {
        let te = match tor_stop_error {
            Some(e) => Some(e@),
            None => None,
        };
        assert(v@ =~= spec_disconnect_notice(kind, te, removal@));
    }
    string_from_chars(v.as_slice())
}

/// What the client keeps about its current connection between commands.
#[derive(Debug)]
pub struct ClientSessionState {
    /// The active connection.
    pub active: Option<ActiveSession>,
    /// The connection remembered across restarts.
    pub remembered: Option<ActiveSession>,
    /// Whether the system-wide Tor route is up.
    pub tor_route_active: bool,
    /// Tor's SOCKS port while Tor runs.
    pub tor_socks_port: Option<u16>,
    /// Route retries so far while Tor bootstraps.
    pub tor_route_attempts: u32,
    /// Whether an operation's progress bar is shown.
    pub progress_active: bool,
}

/// What a disconnect tore down (`None` when nothing was active), and the
/// state it leaves.
#[derive(Debug)]
pub struct DisconnectOutcome {
    pub torn_down: Option<SessionKind>,
    pub state: ClientSessionState,
}

/// The state after a disconnect: no active or remembered connection, no Tor
/// route, no progress bar; Tor's port and retry count are forgotten when the
/// session was Tor's or none was active, and kept otherwise.
pub fn after_disconnect(state: ClientSessionState) -> (r: DisconnectOutcome)
    ensures
        match state.active {
            Some(a) => r.torn_down == Some(spec_session_kind(a.server_id@)),
            None => r.torn_down is None,
        },
        r.state.active is None,
        r.state.remembered is None,
        !r.state.tor_route_active,
        !r.state.progress_active,
        (r.torn_down is None || r.torn_down == Some(SessionKind::TorLocal)) ==> r.state.tor_socks_port
            is None && r.state.tor_route_attempts == 0,
        !(r.torn_down is None || r.torn_down == Some(SessionKind::TorLocal)) ==> r.state.tor_socks_port
            == state.tor_socks_port && r.state.tor_route_attempts == state.tor_route_attempts,
{
    let torn_down = match &state.active {
        Some(a) => Some(session_kind(a.server_id.as_str())),
        None => None,
    };
    let forget_tor = match torn_down {
        None => true,
        Some(SessionKind::TorLocal) => true,
        _ => false,
    };
    DisconnectOutcome {
        torn_down,
        state: ClientSessionState {
            active: None,
            remembered: None,
            tor_route_active: false,
            tor_socks_port: if forget_tor {
                None
            } else {
                state.tor_socks_port
            },
            tor_route_attempts: if forget_tor {
                0
            } else {
                state.tor_route_attempts
            },
            progress_active: false,
        },
    }
}

// ---------------------------------------------------------------------------
// Public IP after a connect
// ---------------------------------------------------------------------------

/// How the public IP is polled after a profile tunnel comes up: a settling
/// pause, the number of tries, and the pause between tries (milliseconds).
#[derive(Clone, Copy, Debug, PartialEq, Eq, Structural)]
pub struct IpRefreshPlan {
    pub settle_ms: u64,
    pub attempts: u32,
    pub gap_ms: u64,
}

/// PPTP settles longest; WireGuard and Outline need extra tries for the
/// handshake and routes; OpenVPN the fewest. Tor and server sessions are
/// refreshed otherwise.
pub open spec fn spec_ip_refresh_plan(kind: SessionKind) -> Option<IpRefreshPlan> {
    match kind {
        SessionKind::Pptp => Some(IpRefreshPlan { settle_ms: 3000, attempts: 6, gap_ms: 1500 }),
        SessionKind::WireGuard => Some(IpRefreshPlan { settle_ms: 2000, attempts: 8, gap_ms: 1200 }),
        SessionKind::Outline => Some(IpRefreshPlan { settle_ms: 2000, attempts: 8, gap_ms: 1200 }),
        SessionKind::OpenVpn => Some(IpRefreshPlan { settle_ms: 2000, attempts: 5, gap_ms: 1000 }),
        _ => None,
    }
}

/// The polling plan for the public IP after a profile tunnel connects.
pub fn ip_refresh_plan(kind: SessionKind) -> (r: Option<IpRefreshPlan>)
    ensures
        r == spec_ip_refresh_plan(kind),
{
    match kind {
        SessionKind::Pptp => Some(IpRefreshPlan { settle_ms: 3000, attempts: 6, gap_ms: 1500 }),
        SessionKind::WireGuard => Some(IpRefreshPlan { settle_ms: 2000, attempts: 8, gap_ms: 1200 }),
        SessionKind::Outline => Some(IpRefreshPlan { settle_ms: 2000, attempts: 8, gap_ms: 1200 }),
        SessionKind::OpenVpn => Some(IpRefreshPlan { settle_ms: 2000, attempts: 5, gap_ms: 1000 }),
        _ => None,
    }
}

/// Whether the public IP moved: it differs from before and is known.
pub fn public_ip_changed(before: Option<&str>, after: Option<&str>) -> (r: bool)
    ensures
        r == (match after {
            Some(a) => a@.len() > 0 && match before {
                Some(b) => b@ != a@,
                None => true,
            },
            None => false,
        }),
{
    match after {
        Some(a) => {
            if a.is_empty() {
                return false;
            }
            match before {
                Some(b) => {
                    let bv = chars_of(b);
                    let n = bv.len();
                    assert(bv@.subrange(0, n as int) =~= bv@);
                    !crate::text::range_eq(&bv, 0, n, a)
                },
                None => true,
            }
        },
        None => false,
    }
}

/// The progress label of try `attempt` (counted from 1) of `attempts`.
pub fn ip_refresh_label(attempt: u32, attempts: u32) -> (r: String)
    ensures
        r@ == "Refreshing Your IP… (try "@ + dec(attempt as nat) + "/"@ + dec(attempts as nat) + ")"@,
{
    let mut v: Vec<char> = Vec::new();
    push_str(&mut v, "Refreshing Your IP… (try ");
    push_dec(&mut v, attempt as u64);
    push_str(&mut v, "/");
    push_dec(&mut v, attempts as u64);
    push_str(&mut v, ")");
    string_from_chars(v.as_slice())
}

} // verus!
