use zeronode_client::android::{
    error_report, outline_start, outline_started_report, parse_extra_udp_fd,
    server_status_suffix, split_hosts, status_report, OutlineStart,
};
use zeronode_client::session::ConnectionPhase;
use zeronode_client::launch::{AutoConnectCommand, DesktopAutoConnect};

#[test]
fn plain_launch_queues_nothing() {
    assert!(DesktopAutoConnect::default().commands().is_empty());
    assert_eq!(DesktopAutoConnect::from_flags(false, None), DesktopAutoConnect::default());
}

#[test]
fn flags_queue_commands_in_order() {
    let a = DesktopAutoConnect { tor: true, ovpn: Some(4), wg: Some(5), outline: Some(6) };
    assert_eq!(
        a.commands(),
        vec![
            AutoConnectCommand::ConnectTor,
            AutoConnectCommand::ConnectOvpnFile { id: 4 },
            AutoConnectCommand::ConnectWireGuard { id: 5 },
            AutoConnectCommand::ConnectOutline { id: 6, system_wide: true },
        ]
    );
    assert_eq!(
        DesktopAutoConnect::from_flags(false, Some(9)).commands(),
        vec![AutoConnectCommand::ConnectOvpnFile { id: 9 }]
    );
}

#[test]
fn udp_fd_option() {
    assert_eq!(parse_extra_udp_fd("udp_fd=7"), 7);
    assert_eq!(parse_extra_udp_fd("mtu=1400; udp_fd = 12 ,x=1"), -1);
    assert_eq!(parse_extra_udp_fd("mtu=1400; udp_fd= 12 ,x=1"), 12);
    assert_eq!(parse_extra_udp_fd("a\n  udp_fd=-3  \nudp_fd=9"), -3);
    assert_eq!(parse_extra_udp_fd("udp_fd=abc,udp_fd=5"), 5);
    assert_eq!(parse_extra_udp_fd(""), -1);
    assert_eq!(parse_extra_udp_fd("udp_fd=99999999999"), -1);
}

#[test]
fn android_reports() {
    assert_eq!(error_report("boom"), "ERR\nmessage=boom");
    assert_eq!(split_hosts(" a.example , ,b.example,, "), vec!["a.example", "b.example"]);
    assert!(split_hosts("").is_empty());
    assert_eq!(
        status_report(
            ConnectionPhase::Connected,
            "Home",
            "srv1",
            "1.2.3.4:7000",
            Some("10.8.0.2"),
            None,
            Some("s-1"),
            Some(100),
            None,
            Some("/p/wg.conf"),
            160,
        ),
        "OK\nphase=connected\nserver_name=Home\nserver_id=srv1\nendpoint=1.2.3.4:7000\nclient_ip=10.8.0.2\nsession_id=s-1\nelapsed_secs=60\nprofile=/p/wg.conf"
    );
    assert_eq!(
        status_report(ConnectionPhase::Cooldown, "H", "s", "e", None, None, None, None, Some(130), None, 100),
        "OK\nphase=cooldown\nserver_name=H\nserver_id=s\nendpoint=e\ncooldown_remaining_secs=30"
    );
    assert_eq!(
        server_status_suffix(false, 3, 3600),
        "\nserver_locked_down=false\nconnected_peers=3\nuptime_secs=3600"
    );
}

#[test]
fn outline_start_uses_fields_only_when_complete() {
    assert_eq!(outline_start("1.2.3.4", "8388", "pw", "chacha20-ietf-poly1305"), OutlineStart::Fields { port: 8388 });
    assert_eq!(outline_start("", "8388", "pw", "m"), OutlineStart::FromAccessKey);
    assert_eq!(outline_start("h", "0", "pw", "m"), OutlineStart::FromAccessKey);
    assert_eq!(outline_start("h", "70000", "pw", "m"), OutlineStart::FromAccessKey);
    assert_eq!(outline_start("h", "x", "pw", "m"), OutlineStart::FromAccessKey);
    assert_eq!(outline_start("h", "443", "", "m"), OutlineStart::FromAccessKey);
    assert_eq!(outline_start("h", "443", "pw", ""), OutlineStart::FromAccessKey);
    assert_eq!(outline_started_report(1080), "OK\nkind=outline\nsocks_port=1080");
}
