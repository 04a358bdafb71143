//! The control-session state machine of a connection to a ZeroNode server.
use vstd::prelude::*;
use crate::num::{dec, push_dec};
use crate::text::{chars_of, owned, push_str, range_starts_with, string_from_chars, starts_with};

verus! {

/// Where a connection stands.
#[derive(Clone, Copy, Debug, PartialEq, Eq, Structural)]
pub enum ConnectionPhase {
    Disconnected,
    Connecting,
    Connected,
    Reconnecting,
    Cooldown,
    Error,
}

/// The phase and how many control-session attempts in a row have not succeeded.
#[derive(Clone, Copy, Debug, PartialEq, Eq, Structural)]
pub struct SessionProgress {
    pub phase: ConnectionPhase,
    pub attempt_count: u32,
}

/// Failed status checks after which a session is given up.
pub open spec fn max_status_failures() -> u32 {
    4
}

pub open spec fn sat_inc(n: u32) -> u32 {
    if n == u32::MAX {
        n
    } else {
        (n + 1) as u32
    }
}

/// After a status check that could not reach the server: reconnecting, one
/// more attempt, and an error once four attempts have failed.
pub open spec fn spec_after_status_error(p: SessionProgress) -> SessionProgress {
    let n = sat_inc(p.attempt_count);
    SessionProgress {
        phase: if n >= max_status_failures() {
            ConnectionPhase::Error
        } else {
            ConnectionPhase::Reconnecting
        },
        attempt_count: n,
    }
}

/// The session after a failed background status check.
pub fn after_status_error(p: SessionProgress) -> (r: SessionProgress)
    ensures
        r == spec_after_status_error(p),
{
    let n = p.attempt_count.saturating_add(1);
    SessionProgress {
        phase: if n >= 4 {
            ConnectionPhase::Error
        } else {
            ConnectionPhase::Reconnecting
        },
        attempt_count: n,
    }
}

/// What a status answer from the server says of the session.
#[derive(Clone, Copy, Debug, PartialEq, Eq, Structural)]
pub enum StatusReport {
    /// The server is locked down.
    LockedDown,
    /// The server holds an active session lease for us.
    Leased,
    /// The server has no session for us.
    NoSession,
}

/// After a status answer: locked down is an error; a lease means connected
/// with the counter reset; no session means reconnecting, or an error once
/// three attempts had already failed.
pub open spec fn spec_after_status(previous: SessionProgress, report: StatusReport) -> SessionProgress {
    match report {
        StatusReport::LockedDown => SessionProgress { phase: ConnectionPhase::Error, ..previous },
        StatusReport::Leased => SessionProgress { phase: ConnectionPhase::Connected, attempt_count: 0 },
        StatusReport::NoSession => SessionProgress {
            phase: if previous.attempt_count >= 3 {
                ConnectionPhase::Error
            } else {
                ConnectionPhase::Reconnecting
            },
            attempt_count: sat_inc(previous.attempt_count),
        },
    }
}

/// The session after a status answer.
pub fn after_status(previous: SessionProgress, report: StatusReport) -> (r: SessionProgress)
    ensures
        r == spec_after_status(previous, report),
{
    match report {
        StatusReport::LockedDown => SessionProgress { phase: ConnectionPhase::Error, ..previous },
        StatusReport::Leased => SessionProgress { phase: ConnectionPhase::Connected, attempt_count: 0 },
        StatusReport::NoSession => SessionProgress {
            phase: if previous.attempt_count >= 3 {
                ConnectionPhase::Error
            } else {
                ConnectionPhase::Reconnecting
            },
            attempt_count: previous.attempt_count.saturating_add(1),
        },
    }
}

/// The notice after a status answer.
pub open spec fn spec_status_notice(report: StatusReport, server_name: Seq<char>, peers: u64) -> Seq<
    char,
> {
    match report {
        StatusReport::LockedDown => "SERVER LOCKED DOWN — Contact the server owner to restore access."@,
        StatusReport::Leased => "Connected to "@ + server_name + ". "@ + dec(peers as nat)
            + " authenticated peer(s) currently active."@,
        StatusReport::NoSession => "Session is being checked and may be reconnecting."@,
    }
}

/// The notice after a status answer (when there is no session and attempts
/// are exhausted the notice says the session expired).
pub fn status_notice(previous: SessionProgress, report: StatusReport, server_name: &str, peers: u64) -> (r: String)
    ensures
        (report == StatusReport::NoSession && previous.attempt_count >= 3) ==> r@
            == "The control session expired or could not be resumed."@,
        !(report == StatusReport::NoSession && previous.attempt_count >= 3) ==> r@
            == spec_status_notice(report, server_name@, peers),
{
    match report {
        StatusReport::LockedDown => owned("SERVER LOCKED DOWN — Contact the server owner to restore access."),
        StatusReport::Leased => {
            let mut v: Vec<char> = Vec::new();
            push_str(&mut v, "Connected to ");
            push_str(&mut v, server_name);
            push_str(&mut v, ". ");
            push_dec(&mut v, peers);
            push_str(&mut v, " authenticated peer(s) currently active.");
            assert(v@ =~= spec_status_notice(report, server_name@, peers));
            string_from_chars(v.as_slice())
        },
        StatusReport::NoSession => {
            if previous.attempt_count >= 3 {
                owned("The control session expired or could not be resumed.")
            } else {
                owned("Session is being checked and may be reconnecting.")
            }
        },
    }
}

/// The message shown on the server card after a status answer: the server's
/// banner, else a lockdown note, else none.
pub fn server_status_message(banner: Option<&str>, locked_down: bool) -> (r: Option<String>)
    ensures
        match banner {
            Some(b) => r matches Some(m) && m@ == b@,
            None => if locked_down {
                r matches Some(m) && m@ == "Server locked down."@
            } else {
                r is None
            },
        },
{
    match banner {
        Some(b) => Some(owned(b)),
        None => if locked_down {
            Some(owned("Server locked down."))
        } else {
            None
        },
    }
}

/// The session after an authentication answer: accepted means connected with
/// the counter reset; a cooldown means on cooldown; anything else (or no
/// answer) is an error after one attempt.
pub open spec fn spec_after_auth(answer: Option<(bool, Option<u64>)>) -> SessionProgress {
    match answer {
        Some((true, _)) => SessionProgress { phase: ConnectionPhase::Connected, attempt_count: 0 },
        Some((false, Some(_))) => SessionProgress { phase: ConnectionPhase::Cooldown, attempt_count: 0 },
        _ => SessionProgress { phase: ConnectionPhase::Error, attempt_count: 1 },
    }
}

/// The session after an authentication attempt: `answer` is `None` when the
/// server could not be reached, else whether it accepted and the cooldown it
/// imposed, if any.
pub fn after_auth(answer: Option<(bool, Option<u64>)>) -> (r: SessionProgress)
    ensures
        r == spec_after_auth(answer),
{
    match answer {
        Some((true, _)) => SessionProgress { phase: ConnectionPhase::Connected, attempt_count: 0 },
        Some((false, Some(_))) => SessionProgress { phase: ConnectionPhase::Cooldown, attempt_count: 0 },
        _ => SessionProgress { phase: ConnectionPhase::Error, attempt_count: 1 },
    }
}

/// The session a connect starts with.
pub fn connecting() -> (r: SessionProgress)
    ensures
        r == (SessionProgress { phase: ConnectionPhase::Connecting, attempt_count: 1 }),
{
    SessionProgress { phase: ConnectionPhase::Connecting, attempt_count: 1 }
}

/// Whether a session on cooldown until `until` may be dropped at `now`.
pub fn cooldown_over(phase: ConnectionPhase, until: Option<u64>, now: u64) -> (r: bool)
    ensures
        r == (phase == ConnectionPhase::Cooldown && until is Some && until->0 <= now),
{
    match phase {
        ConnectionPhase::Cooldown => match until {
            Some(u) => u <= now,
            None => false,
        },
        _ => false,
    }
}

/// Whether a connect to a `want_prefix` profile must wait for another tunnel:
/// a connecting or connected session other than the local Tor one and not of
/// the wanted kind.
pub open spec fn spec_other_tunnel_busy(phase: ConnectionPhase, server_id: Seq<char>, want_prefix: Seq<
    char,
>) -> bool {
    (phase == ConnectionPhase::Connecting || phase == ConnectionPhase::Connected) && server_id
        != "tor_local"@ && !starts_with(server_id, want_prefix)
}

/// Whether another tunnel blocks a connect of the given kind.
pub fn other_tunnel_busy(phase: ConnectionPhase, server_id: &str, want_prefix: &str) -> (r: bool)
    ensures
        r == spec_other_tunnel_busy(phase, server_id@, want_prefix@),
{
    let busy = match phase {
        ConnectionPhase::Connecting | ConnectionPhase::Connected => true,
        _ => false,
    };
    if !busy {
        return false;
    }
    let v = chars_of(server_id);
    let n = v.len();
    assert(v@.subrange(0, n as int) =~= v@);
    if crate::text::range_eq(&v, 0, n, "tor_local") {
        return false;
    }
    !range_starts_with(&v, 0, n, want_prefix)
}

/// Labels used by the command line for each phase.
pub open spec fn spec_phase_label(phase: ConnectionPhase) -> Seq<char> {
    match phase {
        ConnectionPhase::Disconnected => "disconnected"@,
        ConnectionPhase::Connecting => "connecting"@,
        ConnectionPhase::Connected => "connected"@,
        ConnectionPhase::Reconnecting => "reconnecting"@,
        ConnectionPhase::Cooldown => "cooldown"@,
        ConnectionPhase::Error => "error"@,
    }
}

/// The command-line label of a phase.
pub fn phase_label(phase: &ConnectionPhase) -> (r: &'static str)
    ensures
        r@ == spec_phase_label(*phase),
{
    match phase {
        ConnectionPhase::Disconnected => "disconnected",
        ConnectionPhase::Connecting => "connecting",
        ConnectionPhase::Connected => "connected",
        ConnectionPhase::Reconnecting => "reconnecting",
        ConnectionPhase::Cooldown => "cooldown",
        ConnectionPhase::Error => "error",
    }
}

/// `n` failed status checks in a row.
pub open spec fn status_errors(p: SessionProgress, n: nat) -> SessionProgress
    decreases n,
{
    if n == 0 {
        p
    } else {
        spec_after_status_error(status_errors(p, (n - 1) as nat))
    }
}

/// A session whose status checks keep failing is given up: from any state,
/// four failed checks in a row leave it in `Error`.
pub proof fn law_status_failures_end_in_error(p: SessionProgress)
    ensures
        status_errors(p, 4).phase == ConnectionPhase::Error,
{
    assert(status_errors(p, 1).attempt_count >= 1);
    assert(status_errors(p, 2).attempt_count >= 2);
    assert(status_errors(p, 3).attempt_count >= 3);
    assert(status_errors(p, 4).attempt_count >= 4);
}

/// One failed check does not give up a session that had no failed attempt.
pub proof fn law_first_failure_reconnects(p: SessionProgress)
    requires
        p.attempt_count == 0,
    ensures
        spec_after_status_error(p).phase == ConnectionPhase::Reconnecting,
        spec_after_status_error(p).attempt_count == 1,
{
}

/// A lease always brings the session back: connected, counter reset.
pub proof fn law_lease_resets(p: SessionProgress)
    ensures
        spec_after_status(p, StatusReport::Leased) == (SessionProgress {
            phase: ConnectionPhase::Connected,
            attempt_count: 0,
        }),
{
}

// ---------------------------------------------------------------------------
// The active session record
// ---------------------------------------------------------------------------

/// What the client records of its active connection.
#[derive(Debug)]
pub struct ActiveSession {
    pub server_id: String,
    pub server_name: String,
    pub endpoint: String,
    pub phase: ConnectionPhase,
    pub attempt_count: u32,
    pub session_id: Option<String>,
    pub reserved_client_ip: Option<String>,
    pub server_internal_ip: Option<String>,
    pub tunnel_profile_path: Option<String>,
    pub connected_at_unix: Option<u64>,
    pub cooldown_until_unix: Option<u64>,
    pub last_status_unix: Option<u64>,
}

/// The value of an [`ActiveSession`].
pub struct ActiveSessionView {
    pub server_id: Seq<char>,
    pub server_name: Seq<char>,
    pub endpoint: Seq<char>,
    pub phase: ConnectionPhase,
    pub attempt_count: u32,
    pub session_id: Option<Seq<char>>,
    pub reserved_client_ip: Option<Seq<char>>,
    pub server_internal_ip: Option<Seq<char>>,
    pub tunnel_profile_path: Option<Seq<char>>,
    pub connected_at_unix: Option<u64>,
    pub cooldown_until_unix: Option<u64>,
    pub last_status_unix: Option<u64>,
}

pub open spec fn ostr(o: Option<String>) -> Option<Seq<char>> {
    match o {
        Some(s) => Some(s@),
        None => None,
    }
}

impl View for ActiveSession {
    type V = ActiveSessionView;

    open spec fn view(&self) -> ActiveSessionView {
        ActiveSessionView {
            server_id: self.server_id@,
            server_name: self.server_name@,
            endpoint: self.endpoint@,
            phase: self.phase,
            attempt_count: self.attempt_count,
            session_id: ostr(self.session_id),
            reserved_client_ip: ostr(self.reserved_client_ip),
            server_internal_ip: ostr(self.server_internal_ip),
            tunnel_profile_path: ostr(self.tunnel_profile_path),
            connected_at_unix: self.connected_at_unix,
            cooldown_until_unix: self.cooldown_until_unix,
            last_status_unix: self.last_status_unix,
        }
    }
}

impl ActiveSession {
    /// The phase and failed-attempt count of the session.
    pub open spec fn progress(self) -> SessionProgress {
        SessionProgress { phase: self.phase, attempt_count: self.attempt_count }
    }
}

/// A session lease granted by a server.
#[derive(Debug)]
pub struct SessionLease {
    pub server_id: String,
    pub session_id: String,
    pub reserved_client_ip: String,
    pub server_internal_ip: String,
}

/// The value of a [`SessionLease`].
pub struct SessionLeaseView {
    pub server_id: Seq<char>,
    pub session_id: Seq<char>,
    pub reserved_client_ip: Seq<char>,
    pub server_internal_ip: Seq<char>,
}

impl View for SessionLease {
    type V = SessionLeaseView;

    open spec fn view(&self) -> SessionLeaseView {
        SessionLeaseView {
            server_id: self.server_id@,
            session_id: self.session_id@,
            reserved_client_ip: self.reserved_client_ip@,
            server_internal_ip: self.server_internal_ip@,
        }
    }
}

/// The session after a status answer at `now`: a locked-down server makes it
/// an error; a lease makes it connected under the lease's server and session
/// id, with no failed attempts, keeping the first connect time (or now); no
/// session counts one more failed attempt (an error once three had failed).
/// Every answer records `now` as the last status time.
pub open spec fn spec_consume_status(
    p: ActiveSessionView,
    locked_down: bool,
    lease: Option<SessionLeaseView>,
    server_name: Seq<char>,
    now: u64,
) -> ActiveSessionView {
    if locked_down {
        ActiveSessionView { phase: ConnectionPhase::Error, last_status_unix: Some(now), ..p }
    } else {
        match lease {
            Some(l) => ActiveSessionView {
                server_id: l.server_id,
                server_name,
                endpoint: p.endpoint,
                phase: ConnectionPhase::Connected,
                attempt_count: 0,
                session_id: Some(l.session_id),
                reserved_client_ip: Some(l.reserved_client_ip),
                server_internal_ip: Some(l.server_internal_ip),
                tunnel_profile_path: p.tunnel_profile_path,
                connected_at_unix: match p.connected_at_unix {
                    Some(t) => Some(t),
                    None => Some(now),
                },
                cooldown_until_unix: None,
                last_status_unix: Some(now),
            },
            None => ActiveSessionView {
                phase: if p.attempt_count >= 3 {
                    ConnectionPhase::Error
                } else {
                    ConnectionPhase::Reconnecting
                },
                attempt_count: sat_inc(p.attempt_count),
                last_status_unix: Some(now),
                ..p
            },
        }
    }
}

/// The session after a status answer (`server_name` is the name the
/// server reports).
pub fn consume_status(
    previous: ActiveSession,
    locked_down: bool,
    lease: Option<SessionLease>,
    server_name: &str,
    now: u64,
) -> (r: ActiveSession)
    ensures
        r@ == spec_consume_status(previous@, locked_down, match lease {
            Some(l) => Some(l@),
            None => None,
        }, server_name@, now),
{
    if locked_down {
        return ActiveSession { phase: ConnectionPhase::Error, last_status_unix: Some(now), ..previous };
    }
    match lease {
        Some(l) => ActiveSession {
            server_id: l.server_id,
            server_name: owned(server_name),
            endpoint: previous.endpoint,
            phase: ConnectionPhase::Connected,
            attempt_count: 0,
            session_id: Some(l.session_id),
            reserved_client_ip: Some(l.reserved_client_ip),
            server_internal_ip: Some(l.server_internal_ip),
            tunnel_profile_path: previous.tunnel_profile_path,
            connected_at_unix: match previous.connected_at_unix {
                Some(t) => Some(t),
                None => Some(now),
            },
            cooldown_until_unix: None,
            last_status_unix: Some(now),
        },
        None => {
            let phase = if previous.attempt_count >= 3 {
                ConnectionPhase::Error
            } else {
                ConnectionPhase::Reconnecting
            };
            let attempt_count = previous.attempt_count.saturating_add(1);
            ActiveSession { phase, attempt_count, last_status_unix: Some(now), ..previous }
        },
    }
}

/// The record agrees with the phase machine: after any status answer the
/// session's phase and attempt count are those `after_status` gives.
pub proof fn law_consume_status_follows_progress(
    p: ActiveSessionView,
    locked_down: bool,
    lease: Option<SessionLeaseView>,
    server_name: Seq<char>,
    now: u64,
)
    ensures
        ({
            let r = spec_consume_status(p, locked_down, lease, server_name, now);
            let report = if locked_down {
                StatusReport::LockedDown
            } else if lease is Some {
                StatusReport::Leased
            } else {
                StatusReport::NoSession
            };
            let q = spec_after_status(
                SessionProgress { phase: p.phase, attempt_count: p.attempt_count },
                report,
            );
            r.phase == q.phase && r.attempt_count == q.attempt_count
        }),
{
}

/// The session recorded when a connect is refused for a cooldown ending at
/// `until`: on cooldown, no attempt, nothing else known.
pub open spec fn spec_cooldown_session(
    server_id: Seq<char>,
    server_name: Seq<char>,
    endpoint: Seq<char>,
    until: u64,
) -> ActiveSessionView {
    ActiveSessionView {
        server_id,
        server_name,
        endpoint,
        phase: ConnectionPhase::Cooldown,
        attempt_count: 0,
        session_id: None,
        reserved_client_ip: None,
        server_internal_ip: None,
        tunnel_profile_path: None,
        connected_at_unix: None,
        cooldown_until_unix: Some(until),
        last_status_unix: None,
    }
}

/// The session recorded while a connect authenticates: connecting, first
/// attempt, nothing else known.
pub open spec fn spec_connecting_session(server_id: Seq<char>, server_name: Seq<char>, endpoint: Seq<char>) -> ActiveSessionView {
    ActiveSessionView {
        server_id,
        server_name,
        endpoint,
        phase: ConnectionPhase::Connecting,
        attempt_count: 1,
        session_id: None,
        reserved_client_ip: None,
        server_internal_ip: None,
        tunnel_profile_path: None,
        connected_at_unix: None,
        cooldown_until_unix: None,
        last_status_unix: None,
    }
}

/// The session of a connect refused for a cooldown ending at `until`.
pub fn cooldown_session(server_id: &str, server_name: &str, endpoint: &str, until: u64) -> (r: ActiveSession)
    ensures
        r@ == spec_cooldown_session(server_id@, server_name@, endpoint@, until),
{
    ActiveSession {
        server_id: owned(server_id),
        server_name: owned(server_name),
        endpoint: owned(endpoint),
        phase: ConnectionPhase::Cooldown,
        attempt_count: 0,
        session_id: None,
        reserved_client_ip: None,
        server_internal_ip: None,
        tunnel_profile_path: None,
        connected_at_unix: None,
        cooldown_until_unix: Some(until),
        last_status_unix: None,
    }
}

/// The session of a connect that goes on to authenticate.
pub fn connecting_session(server_id: &str, server_name: &str, endpoint: &str) -> (r: ActiveSession)
    ensures
        r@ == spec_connecting_session(server_id@, server_name@, endpoint@),
{
    ActiveSession {
        server_id: owned(server_id),
        server_name: owned(server_name),
        endpoint: owned(endpoint),
        phase: ConnectionPhase::Connecting,
        attempt_count: 1,
        session_id: None,
        reserved_client_ip: None,
        server_internal_ip: None,
        tunnel_profile_path: None,
        connected_at_unix: None,
        cooldown_until_unix: None,
        last_status_unix: None,
    }
}

} // verus!
