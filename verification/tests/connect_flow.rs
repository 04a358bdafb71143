use zeronode_client::connect::{
    after_disconnect, ClientSessionState,
    busy_notice, connect_prefix, connect_server_id, disconnect_notice, elevation_notice,
    ip_refresh_label, ip_refresh_plan, ovpn_connect_request, ovpn_request_notice,
    public_ip_changed, IpRefreshPlan, OvpnConnectRequest,
    helper_stop_command, needs_elevation, outline_start_outcome, outline_unsupported_notice,
    ovpn_credentials_missing, ovpn_credentials_notice, ovpn_died_notice, ovpn_profile_id,
    ovpn_spawn_failed_notice, ovpn_wait_verdict, pptp_dial_outcome, pptp_unsupported_notice,
    profile_not_found_notice, relaunch_args, session_kind, starting_notice, wg_display_endpoint,
    wg_start_outcome, wg_unsupported_notice, SessionKind, TunnelKind, TunnelOs, WgStart,
};
use zeronode_client::helper::dispatch;
use zeronode_client::ovpn::{OvpnTunnelState, WaitFailure, WaitOutcome};
use zeronode_client::session::{connecting_session, other_tunnel_busy, ConnectionPhase};

const KINDS: [TunnelKind; 4] =
    [TunnelKind::WireGuard, TunnelKind::OpenVpn, TunnelKind::Outline, TunnelKind::Pptp];

#[test]
fn session_ids_and_prefixes() {
    assert_eq!(connect_server_id(TunnelKind::WireGuard, 3), "wg_3");
    assert_eq!(connect_server_id(TunnelKind::OpenVpn, -1), "ovpn_-1");
    assert_eq!(connect_server_id(TunnelKind::Outline, 12), "outline_12");
    assert_eq!(connect_server_id(TunnelKind::Pptp, 0), "pptp_0");
    assert_eq!(connect_prefix(TunnelKind::Outline), "outline_");
}

#[test]
fn sessions_block_other_kinds_only() {
    for a in KINDS {
        for b in KINDS {
            let id = connect_server_id(a, 7);
            let busy = other_tunnel_busy(ConnectionPhase::Connected, &id, connect_prefix(b));
            assert_eq!(busy, a != b);
            assert!(!other_tunnel_busy(ConnectionPhase::Error, &id, connect_prefix(b)));
        }
    }
}

#[test]
fn disconnect_recognises_profile_sessions() {
    let expected = [SessionKind::WireGuard, SessionKind::OpenVpn, SessionKind::Outline, SessionKind::Pptp];
    for (k, e) in KINDS.iter().zip(expected.iter()) {
        assert_eq!(session_kind(&connect_server_id(*k, 42)), *e);
    }
    assert_eq!(session_kind("tor_local"), SessionKind::TorLocal);
    assert_eq!(session_kind("node-1"), SessionKind::ControlPlane);
}

#[test]
fn stop_commands_are_accepted_by_the_helper() {
    for k in [
        SessionKind::TorLocal,
        SessionKind::OpenVpn,
        SessionKind::WireGuard,
        SessionKind::Pptp,
        SessionKind::Outline,
        SessionKind::ControlPlane,
    ] {
        let line = format!("{{\"cmd\":\"{}\"}}", helper_stop_command(k));
        assert!(dispatch(&line).is_ok(), "{line}");
    }
    assert_eq!(helper_stop_command(SessionKind::Outline), "ss_stop");
}

#[test]
fn connect_notices() {
    assert_eq!(
        busy_notice("WireGuard"),
        "WireGuard is already connected. Disconnect it before switching protocols."
    );
    assert_eq!(profile_not_found_notice(TunnelKind::Pptp), "PPTP profile not found.");
    assert_eq!(profile_not_found_notice(TunnelKind::OpenVpn), "OpenVPN profile not found.");
    assert_eq!(
        starting_notice(TunnelKind::WireGuard, "Home", "1.2.3.4:51820"),
        "Starting WireGuard for 'Home' (1.2.3.4:51820)…"
    );
    assert_eq!(
        starting_notice(TunnelKind::OpenVpn, "Work", "h:1194"),
        "OpenVPN starting for 'Work' (h:1194)… waiting for tunnel up."
    );
    assert_eq!(starting_notice(TunnelKind::Outline, "O", "h:443"), "Starting Outline 'O' (h:443)…");
    assert_eq!(starting_notice(TunnelKind::Pptp, "P", "ignored"), "Dialing PPTP 'P'…");
    assert_eq!(wg_display_endpoint(None), "wireguard");
    assert_eq!(wg_display_endpoint(Some("e:1")), "e:1");
}

#[test]
fn elevation_rules_and_arguments() {
    assert!(needs_elevation(TunnelKind::WireGuard, false, false));
    assert!(!needs_elevation(TunnelKind::WireGuard, false, true));
    assert!(needs_elevation(TunnelKind::OpenVpn, false, false));
    assert!(needs_elevation(TunnelKind::Outline, true, false));
    assert!(!needs_elevation(TunnelKind::Outline, false, false));
    assert!(!needs_elevation(TunnelKind::Pptp, true, false));
    assert_eq!(relaunch_args(TunnelKind::WireGuard, 5), vec!["--auto-connect-wg=5"]);
    assert_eq!(relaunch_args(TunnelKind::OpenVpn, 5), vec!["--auto-connect-ovpn", "5"]);
    assert_eq!(relaunch_args(TunnelKind::Outline, -2), vec!["--auto-connect-outline=-2"]);
    assert!(relaunch_args(TunnelKind::Pptp, 5).is_empty());
}

#[test]
fn elevation_notices() {
    let r = elevation_notice(TunnelKind::WireGuard, TunnelOs::Windows, None);
    assert_eq!(r.phase, None);
    assert_eq!(r.notice, "Accepted UAC — restarting elevated for WireGuard…");
    let r = elevation_notice(TunnelKind::OpenVpn, TunnelOs::Linux, None);
    assert_eq!(r.notice, "Accepted — restarting elevated for system-wide OpenVPN (pkexec)…");
    let r = elevation_notice(TunnelKind::WireGuard, TunnelOs::Linux, Some("denied"));
    assert_eq!(r.phase, Some(ConnectionPhase::Error));
    assert_eq!(r.notice, "WireGuard needs Administrator (denied). Authenticate via pkexec or run with sudo.");
    let r = elevation_notice(TunnelKind::OpenVpn, TunnelOs::Windows, Some("denied"));
    assert_eq!(r.phase, None);
    assert_eq!(r.notice, "System-wide OpenVPN needs Administrator (denied). Accept UAC or Run as administrator.");
    let r = elevation_notice(TunnelKind::Outline, TunnelOs::Windows, Some("x"));
    assert_eq!(r.phase, Some(ConnectionPhase::Error));
    assert_eq!(r.notice, "Outline system tunnel needs Administrator (x).");
    assert!(!r.refresh_ip);
}

#[test]
fn wireguard_start_outcomes() {
    let r = wg_start_outcome(TunnelOs::Linux, "Home", "e:1", &WgStart::Running);
    assert_eq!(r.phase, Some(ConnectionPhase::Connected));
    assert!(r.refresh_ip);
    assert_eq!(r.notice, "WireGuard ACTIVE for 'Home' (e:1). Refreshing Your IP…");
    let r = wg_start_outcome(TunnelOs::Windows, "Home", "e:1", &WgStart::ExitedImmediately);
    assert_eq!(r.phase, Some(ConnectionPhase::Error));
    assert_eq!(
        r.notice,
        "WireGuard tunnel exited immediately. Run as Administrator and ensure wintun.dll is next to vpn-client.exe."
    );
    let r = wg_start_outcome(TunnelOs::Linux, "Home", "e:1", &WgStart::StartFailed(String::from("no tun")));
    assert_eq!(r.notice, "WireGuard failed: no tun. Need Administrator + TUN (pkexec).");
    let r = wg_start_outcome(TunnelOs::Windows, "Home", "e:1", &WgStart::InvalidConfig(String::from("bad key")));
    assert_eq!(r.notice, "Invalid WireGuard config: bad key");
    assert!(!r.refresh_ip);
    let r = wg_unsupported_notice("/p/wg_1.conf");
    assert_eq!(r.phase, Some(ConnectionPhase::Error));
    assert_eq!(
        r.notice,
        "WireGuard profile saved to /p/wg_1.conf. Full-tunnel apply for imported .conf is Windows-first; use ZeroNode control-plane WireGuard on Linux for now."
    );
}

#[test]
fn outline_and_pptp_outcomes() {
    let r = outline_start_outcome("O", true, Ok(1080));
    assert_eq!(r.phase, Some(ConnectionPhase::Connected));
    assert!(r.refresh_ip);
    assert_eq!(r.notice, "Outline ACTIVE for 'O' (SOCKS 127.0.0.1:1080 + system TUN). Refreshing Your IP…");
    let r = outline_start_outcome("O", false, Ok(1080));
    assert!(!r.refresh_ip);
    assert_eq!(r.notice, "Outline ACTIVE for 'O' (SOCKS 127.0.0.1:1080). Refreshing Your IP…");
    let r = outline_start_outcome("O", true, Err("refused"));
    assert_eq!(r.phase, Some(ConnectionPhase::Error));
    assert_eq!(r.notice, "Outline failed: refused");
    assert_eq!(
        outline_unsupported_notice().notice,
        "Outline system tunnel is currently implemented on Windows (sslocal + TUN)."
    );
    let r = pptp_dial_outcome("P", None);
    assert_eq!(r.phase, Some(ConnectionPhase::Connected));
    assert_eq!(r.notice, "PPTP connected to 'P' (legacy). Refreshing Your IP…");
    let r = pptp_dial_outcome("P", Some("busy"));
    assert_eq!(r.notice, "PPTP dial failed: busy");
    assert_eq!(pptp_unsupported_notice().notice, "PPTP is currently supported on Windows only (RAS).");
}

#[test]
fn openvpn_credentials_gate() {
    assert!(ovpn_credentials_missing("auth-user-pass\n", false));
    assert!(!ovpn_credentials_missing("auth-user-pass\n", true));
    assert!(!ovpn_credentials_missing("client\n", false));
    assert_eq!(
        ovpn_credentials_notice("Work"),
        "OpenVPN profile 'Work' requires username/password (auth-user-pass). Enter credentials and Connect again."
    );
}

#[test]
fn openvpn_wait_verdicts() {
    let up = ovpn_wait_verdict("W", "h:1", "/l", "/e", 60, &WaitOutcome::Finished(OvpnTunnelState::Up));
    assert_eq!(up.phase, ConnectionPhase::Connected);
    assert!(up.refresh_ip && !up.stop_openvpn && !up.forget_credentials);
    assert_eq!(up.notice, "OpenVPN system tunnel ACTIVE for 'W' (h:1). Refreshing Your IP…");

    let auth = ovpn_wait_verdict("W", "h:1", "/l", "/e", 60, &WaitOutcome::Finished(OvpnTunnelState::AuthFailed));
    assert_eq!(auth.phase, ConnectionPhase::Error);
    assert!(auth.stop_openvpn && auth.forget_credentials && !auth.refresh_ip);
    assert_eq!(auth.notice, "OpenVPN authentication failed for 'W'. Check username/password.");

    let fatal = ovpn_wait_verdict(
        "W", "h:1", "/l", "/e", 60,
        &WaitOutcome::Finished(OvpnTunnelState::Fatal(String::from("Options error: x"))),
    );
    assert_eq!(fatal.notice, "OpenVPN failed for 'W': Options error: x");
    assert!(fatal.stop_openvpn && !fatal.forget_credentials);

    let exited = ovpn_wait_verdict("W", "h:1", "/l/ovpn_1.log", "/e", 60, &WaitOutcome::Finished(OvpnTunnelState::Exited));
    assert_eq!(exited.notice, "OpenVPN exited before the tunnel was ready for 'W'. See /l/ovpn_1.log");

    let timed = ovpn_wait_verdict("W", "h:1", "/l", "/e", 60, &WaitOutcome::Failed(WaitFailure::TimedOut(String::from("tail"))));
    assert_eq!(timed.phase, ConnectionPhase::Error);
    assert_eq!(timed.notice, "OpenVPN did not establish a system tunnel: OpenVPN did not finish within 60s. Last log:\ntail");
}

#[test]
fn openvpn_sessions() {
    assert_eq!(ovpn_profile_id("ovpn_12"), Some(12));
    assert_eq!(ovpn_profile_id(&connect_server_id(TunnelKind::OpenVpn, -9)), Some(-9));
    assert_eq!(ovpn_profile_id("ovpn_x"), None);
    assert_eq!(ovpn_profile_id("wg_12"), None);
    assert_eq!(ovpn_died_notice(), "OpenVPN connection failed or process died.");
    assert_eq!(
        ovpn_spawn_failed_notice("C:/ovpn/openvpn.exe", "denied"),
        "Failed to start OpenVPN (C:/ovpn/openvpn.exe): denied"
    );
}

#[test]
fn disconnect_notices() {
    assert_eq!(
        disconnect_notice(Some(SessionKind::TorLocal), None, ""),
        "Disconnected. Tor stopped; system routes restored (no permanent OS proxy was installed). Refreshing Your IP…"
    );
    assert_eq!(
        disconnect_notice(Some(SessionKind::TorLocal), Some("busy"), ""),
        "Disconnected. Tor tunnel stop warning: busy. Tor stopped; system routes restored (no permanent OS proxy was installed). Refreshing Your IP…"
    );
    assert_eq!(
        disconnect_notice(Some(SessionKind::WireGuard), None, "ignored"),
        "Disconnected. WireGuard disconnected; tunnel stopped. Refreshing Your IP…"
    );
    assert_eq!(
        disconnect_notice(Some(SessionKind::ControlPlane), None, "Tunnel removed (2 step(s) passed)."),
        "Disconnected. Tunnel removed (2 step(s) passed). Refreshing Your IP…"
    );
    assert_eq!(
        disconnect_notice(None, None, "Tunnel removed (0 step(s) passed)."),
        "Disconnected. Tunnel removed (0 step(s) passed). Refreshing Your IP…"
    );
}

#[test]
fn public_ip_polling() {
    assert_eq!(
        ip_refresh_plan(SessionKind::Pptp),
        Some(IpRefreshPlan { settle_ms: 3000, attempts: 6, gap_ms: 1500 })
    );
    assert_eq!(
        ip_refresh_plan(SessionKind::WireGuard),
        Some(IpRefreshPlan { settle_ms: 2000, attempts: 8, gap_ms: 1200 })
    );
    assert_eq!(ip_refresh_plan(SessionKind::OpenVpn).map(|p| p.attempts), Some(5));
    assert_eq!(ip_refresh_plan(SessionKind::TorLocal), None);
    assert_eq!(ip_refresh_plan(SessionKind::ControlPlane), None);
    assert!(public_ip_changed(Some("1.1.1.1"), Some("2.2.2.2")));
    assert!(public_ip_changed(None, Some("2.2.2.2")));
    assert!(!public_ip_changed(Some("1.1.1.1"), Some("1.1.1.1")));
    assert!(!public_ip_changed(Some("1.1.1.1"), Some("")));
    assert!(!public_ip_changed(Some("1.1.1.1"), None));
    assert_eq!(ip_refresh_label(2, 8), "Refreshing Your IP… (try 2/8)");
}

#[test]
fn openvpn_connect_requests() {
    assert_eq!(ovpn_connect_request(None, None, false), OvpnConnectRequest::SelectFirst);
    assert_eq!(ovpn_connect_request(Some(3), None, false), OvpnConnectRequest::NotFound);
    assert_eq!(
        ovpn_connect_request(Some(3), Some("client\nauth-user-pass\n"), false),
        OvpnConnectRequest::AskCredentials
    );
    assert_eq!(
        ovpn_connect_request(Some(3), Some("client\nauth-user-pass\n"), true),
        OvpnConnectRequest::Connect { id: 3 }
    );
    assert_eq!(ovpn_connect_request(Some(4), Some("client\n"), false), OvpnConnectRequest::Connect { id: 4 });
    assert_eq!(
        ovpn_request_notice(OvpnConnectRequest::SelectFirst).as_deref(),
        Some("Select an OpenVPN server first.")
    );
    assert_eq!(ovpn_request_notice(OvpnConnectRequest::NotFound).as_deref(), Some("OpenVPN profile not found."));
    assert_eq!(ovpn_request_notice(OvpnConnectRequest::AskCredentials), None);
}

fn client_state(active_id: Option<&str>) -> ClientSessionState {
    ClientSessionState {
        active: active_id.map(|id| connecting_session(id, "Name", "1.2.3.4:7000")),
        remembered: active_id.map(|id| connecting_session(id, "Name", "1.2.3.4:7000")),
        tor_route_active: true,
        tor_socks_port: Some(9050),
        tor_route_attempts: 3,
        progress_active: true,
    }
}

#[test]
fn disconnect_resets_state() {
    let out = after_disconnect(client_state(Some("wg_4")));
    assert_eq!(out.torn_down, Some(SessionKind::WireGuard));
    assert!(out.state.active.is_none());
    assert!(out.state.remembered.is_none());
    assert!(!out.state.tor_route_active);
    assert!(!out.state.progress_active);
    assert_eq!(out.state.tor_socks_port, Some(9050));
    assert_eq!(out.state.tor_route_attempts, 3);

    let out = after_disconnect(client_state(Some("tor_local")));
    assert_eq!(out.torn_down, Some(SessionKind::TorLocal));
    assert_eq!(out.state.tor_socks_port, None);
    assert_eq!(out.state.tor_route_attempts, 0);
    assert!(!out.state.tor_route_active);

    let out = after_disconnect(client_state(None));
    assert_eq!(out.torn_down, None);
    assert_eq!(out.state.tor_socks_port, None);
    assert!(out.state.active.is_none());
}
