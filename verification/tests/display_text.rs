use zeronode_client::display::{
    command_output_detail, country_code_to_emoji, flag_file_names, format_elapsed,
    format_remaining, get_flag_uri, local_server_endpoints, tunnel_removed_message,
};

#[test]
fn elapsed_is_hh_mm_ss() {
    assert_eq!(format_elapsed(0), "00:00:00");
    assert_eq!(format_elapsed(3725), "01:02:05");
    assert_eq!(format_elapsed(360_000), "100:00:00");
}

#[test]
fn remaining_uses_largest_unit() {
    assert_eq!(format_remaining(90_061), "1d 01h");
    assert_eq!(format_remaining(3660), "1h 01m");
    assert_eq!(format_remaining(59), "0m");
    assert_eq!(format_remaining(600), "10m");
}

#[test]
fn local_endpoints_list_v4_then_bracketed_v6() {
    let v4 = vec![String::from("1.2.3.4"), String::from("5.6.7.8")];
    let v6 = vec![String::from("2001:db8::1")];
    assert_eq!(
        local_server_endpoints(0, &v4, &v6),
        vec!["1.2.3.4:51820", "5.6.7.8:51820", "[2001:db8::1]:51820"]
    );
    assert_eq!(local_server_endpoints(7000, &v4[..1].to_vec(), &Vec::new()), vec!["1.2.3.4:7000"]);
}

#[test]
fn command_output_prefers_stderr() {
    assert_eq!(command_output_detail("out\n", "  err \n", Some(1)), "err");
    assert_eq!(command_output_detail("out ", "", Some(2)), "out");
    assert_eq!(command_output_detail("", " ", Some(3)), "Exit code Some(3).");
    assert_eq!(command_output_detail("", "", Some(-1)), "Exit code Some(-1).");
    assert_eq!(command_output_detail("", "", None), "Exit code None.");
}

#[test]
fn tunnel_removed_text() {
    assert_eq!(tunnel_removed_message(3), "Tunnel removed (3 step(s) passed).");
}

#[test]
fn emoji_flags() {
    assert_eq!(country_code_to_emoji("us"), "\u{1F1FA}\u{1F1F8}");
    assert_eq!(country_code_to_emoji("DE"), "\u{1F1E9}\u{1F1EA}");
    assert_eq!(country_code_to_emoji(""), "");
}

#[test]
fn flag_file_candidates() {
    assert_eq!(flag_file_names("UK"), vec!["uk.png", "uk.svg", "gb.png", "gb.svg"]);
    assert_eq!(flag_file_names("gb"), vec!["gb.png", "gb.svg", "uk.png", "uk.svg"]);
    assert_eq!(flag_file_names("de"), vec!["de.png", "de.svg"]);
    assert!(flag_file_names("").is_empty());
}

#[test]
fn flag_uris() {
    assert_eq!(get_flag_uri(Some("C:\\flags\\us.png")).as_deref(), Some("file:///C:/flags/us.png"));
    assert_eq!(
        get_flag_uri(Some("/usr/share/vpn client/flags/us.png")).as_deref(),
        Some("file:///usr/share/vpn%20client/flags/us.png")
    );
    assert_eq!(get_flag_uri(Some("\\\\?\\C:\\f\\a.png")).as_deref(), Some("file:///C:/f/a.png"));
    assert_eq!(get_flag_uri(Some("flags/us.png")).as_deref(), Some("file:///flags/us.png"));
    assert_eq!(get_flag_uri(None), None);
}
