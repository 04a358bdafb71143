use zeronode_client::tor::{
    direct_route_step, exit_country_code, exit_endpoint, exit_server_name, helper_route_outcome,
    geoip_reopen_due, isolated_launch, isolated_launch_notice, isolated_launch_refusal,
    isolation_notice, reported_exit_country, tor_data_dir_name, tor_elevation_notice,
    tor_local_endpoint, tor_needs_elevation, tor_socks_port,
    route_notice, tor_route_plan, torrc_contents, DirectRouteStep, TorRoutePlan,
};

#[test]
fn exit_country_codes() {
    assert_eq!(exit_country_code("Germany", Some(" de ")).as_deref(), Some("DE"));
    assert_eq!(exit_country_code("de", None).as_deref(), Some("DE"));
    assert_eq!(exit_country_code("Germany", None), None);
    assert_eq!(exit_country_code("fr", Some("xyz")).as_deref(), Some("FR"));
    assert_eq!(exit_country_code("", Some("")), None);
}

#[test]
fn exit_server_names() {
    assert_eq!(exit_server_name("1.2.3.4", Some("DE"), Some("Germany"), None), "Tor Exit: Germany");
    assert_eq!(
        exit_server_name("1.2.3.4", Some("DE"), Some("Resolving…"), Some("Deutschland")),
        "Tor Exit: Deutschland"
    );
    assert_eq!(exit_server_name("1.2.3.4", Some("DE"), Some(""), None), "Tor Exit: DE");
    assert_eq!(exit_server_name("1.2.3.4", None, Some("Germany"), None), "Tor Exit: 1.2.3.4");
    assert_eq!(exit_server_name("Unknown IP", None, None, None), "Tor Exit: Unknown");
    assert_eq!(exit_server_name("", None, None, None), "Tor Exit: Unknown");
}

#[test]
fn exit_endpoints() {
    assert_eq!(exit_endpoint("Unknown IP"), None);
    assert_eq!(exit_endpoint(""), None);
    assert_eq!(exit_endpoint("5.6.7.8").as_deref(), Some("5.6.7.8"));
}

#[test]
fn route_plans() {
    assert_eq!(tor_route_plan("apps", "", 0), TorRoutePlan::AppsOnly);
    assert_eq!(tor_route_plan("apps", "1.2.3.4", 0), TorRoutePlan::AppsOnly);
    assert_eq!(tor_route_plan("system", "", 0), TorRoutePlan::Retry { attempt: 1 });
    assert_eq!(tor_route_plan("system", "Unknown IP", 23), TorRoutePlan::Retry { attempt: 24 });
    assert_eq!(tor_route_plan("system", "", 24), TorRoutePlan::Stuck);
    assert_eq!(tor_route_plan("other", "", 3), TorRoutePlan::Wait);
    assert_eq!(tor_route_plan("system", "1.2.3.4", 5), TorRoutePlan::Enable);
}

#[test]
fn retries_stop_at_the_budget() {
    let mut attempts = 0u32;
    loop {
        match tor_route_plan("system", "", attempts) {
            TorRoutePlan::Retry { attempt } => {
                assert!(attempt <= 24);
                attempts = attempt;
            }
            TorRoutePlan::Stuck => break,
            other => panic!("unexpected {other:?}"),
        }
    }
    assert_eq!(attempts, 24);
}

#[test]
fn route_notices() {
    assert_eq!(
        route_notice(TorRoutePlan::Retry { attempt: 3 }, 9050).as_deref(),
        Some("Tor bootstrapping… enabling system-wide VPN automatically (3/24)")
    );
    assert_eq!(
        route_notice(TorRoutePlan::AppsOnly, 9150).as_deref(),
        Some("Tor SOCKS5 up on 127.0.0.1:9150 (app isolation mode). Launch selected apps through Tor — system-wide route is off.")
    );
    assert_eq!(
        route_notice(TorRoutePlan::Stuck, 9050).as_deref(),
        Some("Tor SOCKS5 is up but bootstrap is stuck — check your connection, then click Connect again.")
    );
    assert_eq!(route_notice(TorRoutePlan::Wait, 9050), None);
    assert_eq!(route_notice(TorRoutePlan::Enable, 9050), None);
}

#[test]
fn helper_route_answers() {
    assert_eq!(
        helper_route_outcome(Some(true), None),
        (true, String::from("Tor VPN connected — all apps now use Tor."))
    );
    assert_eq!(
        helper_route_outcome(Some(false), Some("boom")),
        (false, String::from("Tor connected (browser proxy OK); system-wide failed: boom"))
    );
    assert_eq!(
        helper_route_outcome(None, None),
        (false, String::from("Tor connected (browser proxy OK); system-wide failed: helper error"))
    );
}

#[test]
fn direct_route_steps() {
    assert_eq!(direct_route_step(true, true, false), DirectRouteStep::KeepActive);
    assert_eq!(direct_route_step(false, true, true), DirectRouteStep::StartDirect);
    assert_eq!(direct_route_step(true, false, false), DirectRouteStep::AskElevation);
}

#[test]
fn isolation_notices() {
    assert_eq!(isolation_notice("apps"), "Tor isolation: selected apps via SOCKS5 (system-wide route off).");
    assert_eq!(isolation_notice("system"), "Tor isolation: whole PC (system-wide Wintun route when enabled).");
}

#[test]
fn torrc_uses_forward_slashes() {
    assert_eq!(
        torrc_contents("C:\\tor\\data", 9050, "C:\\tor\\geoip", "C:\\tor\\geoip6", "C:\\tor\\notice.log"),
        "DataDirectory C:/tor/data\nSocksPort 127.0.0.1:9050 NoIsolateDestAddr NoIsolateDestPort\nGeoIPFile C:/tor/geoip\nGeoIPv6File C:/tor/geoip6\nAvoidDiskWrites 1\nLog notice file C:/tor/notice.log\n"
    );
}

#[test]
fn isolated_apps_get_proxy_settings() {
    let l = isolated_launch("C:\\Program Files\\Google\\Chrome\\Application\\chrome.exe", 9150);
    let env: Vec<(&str, &str)> = l.env.iter().map(|(k, v)| (k.as_str(), v.as_str())).collect();
    assert_eq!(
        env,
        vec![
            ("ALL_PROXY", "socks5h://127.0.0.1:9150"),
            ("all_proxy", "socks5h://127.0.0.1:9150"),
            ("HTTP_PROXY", "socks5://127.0.0.1:9150"),
            ("HTTPS_PROXY", "socks5://127.0.0.1:9150"),
            ("http_proxy", "socks5://127.0.0.1:9150"),
            ("https_proxy", "socks5://127.0.0.1:9150"),
        ]
    );
    assert_eq!(l.args, vec!["--proxy-server=socks5://127.0.0.1:9150"]);
    assert!(isolated_launch("/usr/bin/Brave-Browser", 9050).args.len() == 1);
    assert!(isolated_launch("/usr/bin/firefox", 9050).args.is_empty());
}

#[test]
fn isolated_app_notices() {
    assert_eq!(isolated_launch_notice("Firefox", 9050, None), "Launched 'Firefox' through Tor SOCKS5 127.0.0.1:9050.");
    assert_eq!(isolated_launch_notice("Firefox", 9050, Some("denied")), "Could not launch Firefox: denied");
    assert_eq!(isolated_launch_refusal(false, Some(1), "/x", true).as_deref(), Some("Isolated app not found."));
    assert_eq!(
        isolated_launch_refusal(true, None, "/x", true).as_deref(),
        Some("Tor SOCKS5 is not up. Connect Tor first, then launch the app.")
    );
    assert_eq!(isolated_launch_refusal(true, Some(1), "/x", false).as_deref(), Some("App path missing: /x"));
    assert_eq!(isolated_launch_refusal(true, Some(1), "/x", true), None);
}

#[test]
fn tor_start_decisions() {
    assert!(tor_needs_elevation("system", false));
    assert!(!tor_needs_elevation("system", true));
    assert!(!tor_needs_elevation("apps", false));
    assert_eq!(tor_elevation_notice(None), "Accepted UAC — restarting elevated for system-wide Tor VPN…");
    assert_eq!(
        tor_elevation_notice(Some("cancelled")),
        "System-wide Tor VPN needs Administrator (cancelled). Starting SOCKS5-only — enable routing after running as admin."
    );
    assert_eq!(tor_socks_port(Some(41234)), 41234);
    assert_eq!(tor_socks_port(None), 9050);
    assert_eq!(tor_local_endpoint(9050), "127.0.0.1:9050");
    assert_eq!(tor_data_dir_name(1700000000), "vpn_suite_tor_data_1700000000");
    assert!(geoip_reopen_due(0) && geoip_reopen_due(30) && !geoip_reopen_due(7));
    assert_eq!(reported_exit_country("NL"), "NL");
    assert_eq!(reported_exit_country(""), "TOR");
}
