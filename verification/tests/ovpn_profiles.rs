use zeronode_client::ovpn::{
    auth_file_contents, auth_file_path, inspect_openvpn_log, ipwho_as_name, log_file_path,
    merge_logs, needs_auth_user_pass, openvpn_config_path, ovpn_import_fields, ovpn_imported_notice,
    parse_ovpn, preferred_windows_driver,
    prepare_runtime_profile, prepare_runtime_profile_with_driver, process_probe_due,
    runtime_profile_path, tail_lines, wait_for_openvpn_step, wait_failure_message,
    remote_ip_from, remote_ip_step, OvpnTunnelState, ParsedOvpn, RemoteIp, WaitFailure, WaitOutcome,
};

const SAMPLE: &str = "client\n\
dev tun1\n\
proto TCP\n\
remote vpn.example.com 443\n\
remote backup.example.com\n\
# remote commented.example.com 1\n\
; remote semicolon.example.com 2\n\
cipher AES-256-GCM\n\
auth SHA256\n\
<ca>\n\
remote inside.tag 1\n\
</ca>\n\
<tls-crypt>\n\
xyz\n\
</tls-crypt>\n";

#[test]
fn parse_ovpn_reads_fields() {
    let p = parse_ovpn(SAMPLE);
    assert_eq!(p.remote_host, "vpn.example.com");
    assert_eq!(p.remote_port, 443);
    assert_eq!(p.proto, "tcp");
    assert_eq!(p.dev, "tun1");
    assert_eq!(p.cipher, "AES-256-GCM");
    assert_eq!(p.auth, "SHA256");
    assert!(p.has_tls_auth);
    assert!(p.has_inline_certs);
    assert_eq!(
        p.remotes,
        vec![
            (String::from("vpn.example.com"), 443),
            (String::from("backup.example.com"), 1194)
        ]
    );
}

#[test]
fn parse_ovpn_defaults() {
    let p = parse_ovpn("");
    assert_eq!(p.remote_host, "");
    assert_eq!(p.remote_port, 1194);
    assert_eq!(p.proto, "udp");
    assert_eq!(p.dev, "tun");
    assert!(!p.has_tls_auth);
    assert!(!p.has_inline_certs);
    assert!(p.remotes.is_empty());
    let d = ParsedOvpn::default();
    assert_eq!(d.remote_port, 0);
    assert_eq!(d.proto, "");
}

#[test]
fn parse_ovpn_port_directive_and_bad_port() {
    let p = parse_ovpn("remote h1 abc\nport 1195\nREMOTE h2 5000\ntls-auth ta.key 1\n");
    assert_eq!(p.remote_host, "h1");
    assert_eq!(p.remote_port, 1195);
    assert_eq!(
        p.remotes,
        vec![(String::from("h1"), 1194), (String::from("h2"), 5000)]
    );
    assert!(p.has_tls_auth);
    assert!(!p.has_inline_certs);
}

#[test]
fn needs_auth_user_pass_cases() {
    assert!(needs_auth_user_pass("client\nauth-user-pass\n"));
    assert!(needs_auth_user_pass("AUTH-USER-PASS creds.txt"));
    assert!(!needs_auth_user_pass("<ca>\nauth-user-pass\n</ca>\n"));
    assert!(!needs_auth_user_pass("# auth-user-pass\n; auth-user-pass\n"));
    assert!(needs_auth_user_pass("<ca>\nx\n</ca>\n  auth-user-pass  \n"));
    assert!(!needs_auth_user_pass(""));
}

#[test]
fn profile_file_paths() {
    assert_eq!(auth_file_path("/tmp/p", 7), "/tmp/p/ovpn_7.auth");
    assert_eq!(log_file_path("/tmp/p", 7), "/tmp/p/ovpn_7.log");
    assert_eq!(runtime_profile_path("/tmp/p/", 7), "/tmp/p/ovpn_7.runtime.ovpn");
    assert_eq!(auth_file_path("dir", -3), "dir/ovpn_-3.auth");
}

#[test]
fn config_paths_use_forward_slashes() {
    assert_eq!(openvpn_config_path("C:\\Users\\me\\a.auth"), "C:/Users/me/a.auth");
    assert_eq!(openvpn_config_path("/already/fine"), "/already/fine");
}

#[test]
fn auth_file_has_two_lines() {
    assert_eq!(auth_file_contents("user", "pass"), "user\npass\n");
}

#[test]
fn windows_driver_only_with_wintun() {
    assert_eq!(preferred_windows_driver(true), Some(String::from("wintun")));
    assert_eq!(preferred_windows_driver(false), None);
}

#[test]
fn runtime_profile_forces_file_auth_and_routes() {
    let r = prepare_runtime_profile(
        "client\ndev tun1\nauth-user-pass\nremote h 1194\n",
        "/p",
        5,
        Some("C:\\x\\a.auth"),
    );
    assert_eq!(r.path, "/p/ovpn_5.runtime.ovpn");
    assert_eq!(
        r.contents,
        "client\ndev tun\nauth-user-pass C:/x/a.auth\nremote h 1194\nredirect-gateway def1 bypass-dhcp\nauth-nocache\nscript-security 2\n"
    );
}

#[test]
fn runtime_profile_keeps_tags_and_fixes_redirect() {
    let r = prepare_runtime_profile("<ca>\nabc\n</ca>\nredirect-gateway local\n", "/p", 1, None);
    assert_eq!(
        r.contents,
        "<ca>\nabc\n</ca>\nredirect-gateway def1 bypass-dhcp\ndev tun\nauth-nocache\nscript-security 2\n"
    );
}

#[test]
fn runtime_profile_appends_missing_auth_and_driver() {
    let r = prepare_runtime_profile_with_driver("client\n", "/p", 1, Some("/a b/u.auth"), Some("wintun"));
    assert_eq!(
        r.contents,
        "client\ndev tun\nwindows-driver wintun\nredirect-gateway def1 bypass-dhcp\nauth-user-pass /a b/u.auth\nauth-nocache\nscript-security 2\n"
    );
}

#[test]
fn runtime_profile_keeps_existing_settings() {
    let r = prepare_runtime_profile(
        "auth-user-pass C:\\creds\\u.txt\nredirect-gateway def1\nAuth-NoCache\nscript-security 3\n",
        "/p",
        2,
        None,
    );
    assert_eq!(
        r.contents,
        "auth-user-pass C:/creds/u.txt\nredirect-gateway def1\nAuth-NoCache\nscript-security 3\ndev tun\n"
    );
}

#[test]
fn inspect_log_states() {
    assert!(matches!(
        inspect_openvpn_log("Tue Initialization Sequence Completed"),
        OvpnTunnelState::Up
    ));
    assert!(matches!(inspect_openvpn_log("x\nAUTH_FAILED\n"), OvpnTunnelState::AuthFailed));
    assert!(matches!(inspect_openvpn_log("SIGTERM received, process exiting"), OvpnTunnelState::Exited));
    assert!(matches!(inspect_openvpn_log(""), OvpnTunnelState::Connecting));
    assert!(matches!(inspect_openvpn_log("resolving host"), OvpnTunnelState::Connecting));
}

#[test]
fn inspect_log_fatal_detail_is_last_matching_line() {
    match inspect_openvpn_log("line1\nERROR: Cannot open TUN/TAP dev foo\nline3") {
        OvpnTunnelState::Fatal(d) => assert_eq!(d, "ERROR: Cannot open TUN/TAP dev foo"),
        other => panic!("unexpected {other:?}"),
    }
    match inspect_openvpn_log("Options error: a\nx\nOptions error: b") {
        OvpnTunnelState::Fatal(d) => assert_eq!(d, "Options error: b"),
        other => panic!("unexpected {other:?}"),
    }
}

#[test]
fn logs_merge_and_tail() {
    assert_eq!(merge_logs(Some("a"), Some("b")), "a\nb");
    assert_eq!(merge_logs(None, Some("b")), "b");
    assert_eq!(merge_logs(Some("a"), Some("")), "a");
    assert_eq!(merge_logs(None, None), "");
    assert_eq!(tail_lines("1\n2\n3", 2), "2\n3");
    assert_eq!(tail_lines("1\n2\n3\n", 12), "1\n2\n3");
    assert_eq!(tail_lines("", 12), "");
}

#[test]
fn wait_step_outcomes() {
    let secs = |s: u128| s * 1_000_000_000;
    let (seen, o) = wait_for_openvpn_step("", "Initialization Sequence Completed", secs(1), secs(30), None);
    assert_eq!(seen, "Initialization Sequence Completed");
    assert!(matches!(o, WaitOutcome::Finished(OvpnTunnelState::Up)));

    let (_, o) = wait_for_openvpn_step("", "", secs(5), secs(30), Some(false));
    assert!(matches!(o, WaitOutcome::Failed(WaitFailure::ExitedWithoutLog)));

    let (_, o) = wait_for_openvpn_step("", "connecting", secs(5), secs(30), Some(false));
    assert!(matches!(o, WaitOutcome::Finished(OvpnTunnelState::Exited)));

    let (seen, o) = wait_for_openvpn_step("old", "", secs(1), secs(30), None);
    assert_eq!(seen, "old");
    assert!(matches!(o, WaitOutcome::KeepWaiting));

    let (_, o) = wait_for_openvpn_step("", "a\nb", secs(31), secs(30), Some(true));
    match o {
        WaitOutcome::Failed(WaitFailure::TimedOut(t)) => assert_eq!(t, "a\nb"),
        other => panic!("unexpected {other:?}"),
    }

    let (_, o) = wait_for_openvpn_step("", "", secs(30), secs(30), None);
    assert!(matches!(o, WaitOutcome::Failed(WaitFailure::TimedOutWithoutLog)));
}

#[test]
fn process_probe_after_four_seconds() {
    assert!(!process_probe_due(4_000_000_000));
    assert!(process_probe_due(4_000_000_001));
}

#[test]
fn wait_failure_messages() {
    assert_eq!(
        wait_failure_message(&WaitFailure::ExitedWithoutLog, "/p/ovpn_1.stderr.log", 45),
        "openvpn.exe exited within seconds with no log. Run ZeroNode elevated (UAC), confirm OpenVPN DCO/TAP is installed, and check /p/ovpn_1.stderr.log"
    );
    assert_eq!(
        wait_failure_message(&WaitFailure::TimedOutWithoutLog, "e.log", 45),
        "OpenVPN did not report success within 45s (no log output). Usually means missing Admin rights, missing TAP/DCO, or blocked remote. stderr: e.log"
    );
    assert_eq!(
        wait_failure_message(&WaitFailure::TimedOut(String::from("x")), "e.log", 45),
        "OpenVPN did not finish within 45s. Last log:\nx"
    );
}

#[test]
fn as_name_labels() {
    assert_eq!(ipwho_as_name("13335", "Cloudflare"), "AS13335 Cloudflare");
    assert_eq!(ipwho_as_name("AS13335", "Cloudflare"), "AS13335 Cloudflare");
    assert_eq!(ipwho_as_name("", "Cloudflare"), "");
    assert_eq!(ipwho_as_name("AS1", ""), "AS1");
}

#[test]
fn runtime_profiles_never_prompt_and_route_everything() {
    let sources = [
        "",
        "client\nremote h 1194\n",
        "REDIRECT-GATEWAY DEF1\nDev tap7\nAUTH-NOCACHE\n",
        "<ca>\nredirect-gateway local\nauth-user-pass x\n</ca>\nredirect-gateway ipv6\n",
        "# only a comment\n; and another",
    ];
    for src in sources {
        for auth in [None, Some("C:\\creds\\a.auth")] {
            let r = prepare_runtime_profile(src, "/p", 3, auth);
            let low = r.contents.to_ascii_lowercase();
            assert!(low.contains("auth-nocache"), "{src:?}");
            assert!(low.contains("script-security"), "{src:?}");
            assert!(low.contains("redirect-gateway"), "{src:?}");
            assert!(low.contains("def1"), "{src:?}");
            assert!(r.contents.contains("dev tun\n"), "{src:?}");
            if auth.is_some() {
                assert!(r.contents.contains("auth-user-pass C:/creds/a.auth\n"), "{src:?}");
            }
        }
    }
}

#[test]
fn ovpn_import_stores_known_fields() {
    let f = ovpn_import_fields(SAMPLE);
    assert_eq!(f.remote_host.as_deref(), Some("vpn.example.com"));
    assert_eq!(f.remote_port, 443);
    assert_eq!(f.proto, "tcp");
    assert_eq!(f.cipher.as_deref(), Some("AES-256-GCM"));
    assert_eq!(f.auth.as_deref(), Some("SHA256"));
    let e = ovpn_import_fields("client\n");
    assert_eq!(e.remote_host, None);
    assert_eq!(e.remote_port, 1194);
    assert_eq!(e.proto, "udp");
    assert_eq!(e.cipher, None);
    assert_eq!(e.auth, None);
    assert_eq!(ovpn_imported_notice("work"), "Imported OpenVPN server 'work'. Looking up location…");
}

#[test]
fn remote_ip_steps() {
    assert_eq!(remote_ip_step(""), RemoteIp::Missing);
    assert_eq!(remote_ip_step("10.1.2.3"), RemoteIp::Literal(String::from("10.1.2.3")));
    assert_eq!(remote_ip_step("fd00::1"), RemoteIp::Literal(String::from("fd00::1")));
    assert_eq!(remote_ip_step("vpn.example.org"), RemoteIp::NeedsLookup);
    assert_eq!(remote_ip_step("10.1.2.300"), RemoteIp::NeedsLookup);
    assert_eq!(remote_ip_from("host", true), RemoteIp::Literal(String::from("host")));
    assert_eq!(remote_ip_from("", true), RemoteIp::Missing);
}

fn same_parse(a: &ParsedOvpn, b: &ParsedOvpn) -> bool {
    a.remote_host == b.remote_host
        && a.remote_port == b.remote_port
        && a.proto == b.proto
        && a.dev == b.dev
        && a.cipher == b.cipher
        && a.auth == b.auth
        && a.has_tls_auth == b.has_tls_auth
        && a.has_inline_certs == b.has_inline_certs
        && a.remotes == b.remotes
}

#[test]
fn keyword_case_and_comments_do_not_matter() {
    let plain = "client\nremote vpn.example.org 443\nproto udp\ndev tun\ncipher AES-256-GCM\n<ca>\nAAA\n</ca>\ntls-crypt x\n";
    let shouted = "CLIENT\nREMOTE vpn.example.org 443\nProto udp\nDEV tun\nCipher AES-256-GCM\n<CA>\nAAA\n</Ca>\nTLS-Crypt x\n";
    let commented = "client\n# a comment\nremote vpn.example.org 443\n\n; another\nproto udp\ndev tun\ncipher AES-256-GCM\n<ca>\nAAA\n</ca>\ntls-crypt x\n";
    let a = parse_ovpn(plain);
    assert!(same_parse(&a, &parse_ovpn(shouted)));
    assert!(same_parse(&a, &parse_ovpn(commented)));
    assert_eq!(a.remote_host, "vpn.example.org");
    assert_eq!(a.remote_port, 443);
    assert!(a.has_inline_certs);
    assert!(a.has_tls_auth);
}

#[test]
fn rewriting_a_runtime_profile_again_changes_nothing() {
    let content = "client\r\nDEV tap0\nredirect-gateway\nauth-user-pass C:\\creds.txt\n<ca>\nAAA\n</ca>\nremote vpn.example.org 1194\n";
    for auth in [None, Some("C:\\profiles\\7.auth")] {
        for driver in [None, Some("wintun")] {
            let first = prepare_runtime_profile_with_driver(content, "/p", 7, auth, driver);
            let second = prepare_runtime_profile_with_driver(&first.contents, "/p", 7, auth, driver);
            assert_eq!(second.contents, first.contents);
        }
    }
}

#[test]
fn profile_paths_never_collide() {
    let mut seen = std::collections::HashSet::new();
    for id in [-12i64, -1, 0, 1, 7, 12, 71, i64::MAX, i64::MIN] {
        for p in [runtime_profile_path("/tmp/p", id), auth_file_path("/tmp/p", id), log_file_path("/tmp/p", id)] {
            assert!(seen.insert(p));
        }
    }
    assert_eq!(runtime_profile_path("/tmp/p/", 7), "/tmp/p/ovpn_7.runtime.ovpn");
    assert_eq!(log_file_path("", -3), "ovpn_-3.log");
}

#[test]
fn comments_and_keyword_case_together() {
    let plain = "remote a.example 1194\nproto udp\ndev tun\n";
    let mixed = "# header\n\nREMOTE a.example 1194\n; note\nPROTO udp\n   \nDev tun\n# end\n";
    assert!(same_parse(&parse_ovpn(plain), &parse_ovpn(mixed)));
}
