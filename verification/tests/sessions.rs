use zeronode_client::session::{
    after_auth, after_status, after_status_error, connecting, connecting_session, consume_status,
    cooldown_over, cooldown_session, other_tunnel_busy, phase_label, server_status_message,
    status_notice, ActiveSession, ConnectionPhase, SessionLease, SessionProgress, StatusReport,
};

fn p(phase: ConnectionPhase, attempt_count: u32) -> SessionProgress {
    SessionProgress { phase, attempt_count }
}

#[test]
fn failed_status_checks_reconnect_then_give_up() {
    let mut s = p(ConnectionPhase::Connected, 0);
    s = after_status_error(s);
    assert_eq!(s, p(ConnectionPhase::Reconnecting, 1));
    s = after_status_error(s);
    s = after_status_error(s);
    assert_eq!(s, p(ConnectionPhase::Reconnecting, 3));
    s = after_status_error(s);
    assert_eq!(s, p(ConnectionPhase::Error, 4));
    assert_eq!(after_status_error(p(ConnectionPhase::Error, u32::MAX)), p(ConnectionPhase::Error, u32::MAX));
}

#[test]
fn status_answers() {
    assert_eq!(after_status(p(ConnectionPhase::Reconnecting, 2), StatusReport::Leased), p(ConnectionPhase::Connected, 0));
    assert_eq!(after_status(p(ConnectionPhase::Connected, 2), StatusReport::LockedDown), p(ConnectionPhase::Error, 2));
    assert_eq!(after_status(p(ConnectionPhase::Connected, 2), StatusReport::NoSession), p(ConnectionPhase::Reconnecting, 3));
    assert_eq!(after_status(p(ConnectionPhase::Reconnecting, 3), StatusReport::NoSession), p(ConnectionPhase::Error, 4));
}

#[test]
fn status_notices() {
    assert_eq!(
        status_notice(p(ConnectionPhase::Connected, 0), StatusReport::Leased, "Home", 3),
        "Connected to Home. 3 authenticated peer(s) currently active."
    );
    assert_eq!(
        status_notice(p(ConnectionPhase::Connected, 0), StatusReport::LockedDown, "Home", 0),
        "SERVER LOCKED DOWN — Contact the server owner to restore access."
    );
    assert_eq!(
        status_notice(p(ConnectionPhase::Connected, 0), StatusReport::NoSession, "Home", 0),
        "Session is being checked and may be reconnecting."
    );
    assert_eq!(
        status_notice(p(ConnectionPhase::Reconnecting, 3), StatusReport::NoSession, "Home", 0),
        "The control session expired or could not be resumed."
    );
}

#[test]
fn server_card_messages() {
    assert_eq!(server_status_message(Some("hi"), true).as_deref(), Some("hi"));
    assert_eq!(server_status_message(None, true).as_deref(), Some("Server locked down."));
    assert_eq!(server_status_message(None, false), None);
}

#[test]
fn auth_answers() {
    assert_eq!(connecting(), p(ConnectionPhase::Connecting, 1));
    assert_eq!(after_auth(Some((true, None))), p(ConnectionPhase::Connected, 0));
    assert_eq!(after_auth(Some((true, Some(9)))), p(ConnectionPhase::Connected, 0));
    assert_eq!(after_auth(Some((false, Some(5)))), p(ConnectionPhase::Cooldown, 0));
    assert_eq!(after_auth(Some((false, None))), p(ConnectionPhase::Error, 1));
    assert_eq!(after_auth(None), p(ConnectionPhase::Error, 1));
}

#[test]
fn cooldown_ends_at_its_time() {
    assert!(cooldown_over(ConnectionPhase::Cooldown, Some(10), 10));
    assert!(!cooldown_over(ConnectionPhase::Cooldown, Some(11), 10));
    assert!(!cooldown_over(ConnectionPhase::Cooldown, None, 10));
    assert!(!cooldown_over(ConnectionPhase::Connected, Some(1), 10));
}

#[test]
fn other_tunnels_block_connects() {
    assert!(other_tunnel_busy(ConnectionPhase::Connected, "wg_3", "ovpn_"));
    assert!(other_tunnel_busy(ConnectionPhase::Connecting, "srv", "wg_"));
    assert!(!other_tunnel_busy(ConnectionPhase::Connected, "tor_local", "ovpn_"));
    assert!(!other_tunnel_busy(ConnectionPhase::Connected, "ovpn_2", "ovpn_"));
    assert!(!other_tunnel_busy(ConnectionPhase::Disconnected, "wg_3", "ovpn_"));
    assert!(!other_tunnel_busy(ConnectionPhase::Error, "wg_3", "ovpn_"));
}

#[test]
fn phase_labels() {
    assert_eq!(phase_label(&ConnectionPhase::Disconnected), "disconnected");
    assert_eq!(phase_label(&ConnectionPhase::Connecting), "connecting");
    assert_eq!(phase_label(&ConnectionPhase::Connected), "connected");
    assert_eq!(phase_label(&ConnectionPhase::Reconnecting), "reconnecting");
    assert_eq!(phase_label(&ConnectionPhase::Cooldown), "cooldown");
    assert_eq!(phase_label(&ConnectionPhase::Error), "error");
}

fn active(attempts: u32, connected_at: Option<u64>) -> ActiveSession {
    ActiveSession {
        server_id: String::from("srv"),
        server_name: String::from("Old name"),
        endpoint: String::from("1.2.3.4:7000"),
        phase: ConnectionPhase::Reconnecting,
        attempt_count: attempts,
        session_id: None,
        reserved_client_ip: None,
        server_internal_ip: None,
        tunnel_profile_path: Some(String::from("/tmp/p.conf")),
        connected_at_unix: connected_at,
        cooldown_until_unix: Some(5),
        last_status_unix: None,
    }
}

fn lease() -> SessionLease {
    SessionLease {
        server_id: String::from("srv2"),
        session_id: String::from("sess-9"),
        reserved_client_ip: String::from("10.0.0.2"),
        server_internal_ip: String::from("10.0.0.1"),
    }
}

#[test]
fn consume_status_lease_records_session() {
    let r = consume_status(active(2, None), false, Some(lease()), "New name", 500);
    assert_eq!(r.phase, ConnectionPhase::Connected);
    assert_eq!(r.attempt_count, 0);
    assert_eq!(r.session_id.as_deref(), Some("sess-9"));
    assert_eq!(r.server_id, "srv2");
    assert_eq!(r.server_name, "New name");
    assert_eq!(r.reserved_client_ip.as_deref(), Some("10.0.0.2"));
    assert_eq!(r.server_internal_ip.as_deref(), Some("10.0.0.1"));
    assert_eq!(r.connected_at_unix, Some(500));
    assert_eq!(r.cooldown_until_unix, None);
    assert_eq!(r.last_status_unix, Some(500));
    assert_eq!(r.tunnel_profile_path.as_deref(), Some("/tmp/p.conf"));
    let r = consume_status(active(0, Some(100)), false, Some(lease()), "New name", 500);
    assert_eq!(r.connected_at_unix, Some(100));
}

#[test]
fn consume_status_lockdown_and_missing_session() {
    let r = consume_status(active(1, Some(100)), true, Some(lease()), "x", 700);
    assert_eq!(r.phase, ConnectionPhase::Error);
    assert_eq!(r.attempt_count, 1);
    assert_eq!(r.server_id, "srv");
    assert_eq!(r.session_id, None);
    assert_eq!(r.last_status_unix, Some(700));
    let r = consume_status(active(2, None), false, None, "x", 700);
    assert_eq!(r.phase, ConnectionPhase::Reconnecting);
    assert_eq!(r.attempt_count, 3);
    let r = consume_status(active(3, None), false, None, "x", 700);
    assert_eq!(r.phase, ConnectionPhase::Error);
    assert_eq!(r.attempt_count, 4);
    assert_eq!(r.server_name, "Old name");
}

#[test]
fn cooldown_and_connecting_sessions() {
    let c = cooldown_session("srv", "Name", "1.2.3.4:7000", 900);
    assert_eq!(c.phase, ConnectionPhase::Cooldown);
    assert_eq!(c.attempt_count, 0);
    assert_eq!(c.cooldown_until_unix, Some(900));
    assert_eq!(c.server_id, "srv");
    assert_eq!(c.endpoint, "1.2.3.4:7000");
    let n = connecting_session("srv", "Name", "1.2.3.4:7000");
    assert_eq!(n.phase, ConnectionPhase::Connecting);
    assert_eq!(n.attempt_count, 1);
    assert_eq!(n.cooldown_until_unix, None);
    assert_eq!(n.server_name, "Name");
}
