use zeronode_client::cli::{
    chrono_like_timestamp, cli_host, count_passed, setup_check_lines, CheckStatus, cooldown_line, cooldown_refusal, cooldown_status_line,
    format_remaining, no_cooldowns_line, no_servers_line, saved_host_line, select_server,
    server_line, ServerChoice,
};

fn choice(id: &str, name: &str) -> ServerChoice {
    ServerChoice { server_id: String::from(id), name: String::from(name) }
}

#[test]
fn cli_remaining_times() {
    assert_eq!(format_remaining(3725), "1h 02m");
    assert_eq!(format_remaining(125), "2m 05s");
    assert_eq!(format_remaining(0), "0m 00s");
    assert_eq!(format_remaining(90_000), "25h 00m");
}

#[test]
fn panic_stamp() {
    assert_eq!(chrono_like_timestamp(0), "1970-01-01T00:00:00Z");
    assert_eq!(chrono_like_timestamp(86_400 * 365 + 3661), "1971-01-01T01:01:01Z");
    assert_eq!(chrono_like_timestamp(86_399), "1970-01-01T23:59:59Z");
    assert_eq!(chrono_like_timestamp(1_779_023_045), "2026-01-01T13:04:05Z");
    assert_eq!(chrono_like_timestamp(978_307_199), "2000-01-01T23:59:59Z");
    assert_eq!(chrono_like_timestamp(978_307_200), "2001-01-01T00:00:00Z");
    assert_eq!(chrono_like_timestamp(94_608_000), "1972-01-01T00:00:00Z");
}

#[test]
fn select_by_id_single_or_last() {
    let two = vec![choice("a", "Alpha"), choice("b", "Beta")];
    assert_eq!(select_server(&two, Some("b"), None), Ok(1));
    assert_eq!(select_server(&two, Some("b"), Some("a")), Ok(1));
    assert_eq!(select_server(&two, None, Some("a")), Ok(0));
    let one = vec![choice("x", "X")];
    assert_eq!(select_server(&one, None, Some("zzz")), Ok(0));
}

#[test]
fn select_errors() {
    let two = vec![choice("a", "Alpha"), choice("b", "Beta")];
    assert_eq!(
        select_server(&two, Some("c"), None),
        Err(String::from("no discovered server matched c"))
    );
    assert_eq!(
        select_server(&two, None, None),
        Err(String::from(
            "multiple servers matched; rerun with --server-id. Candidates: Alpha (a), Beta (b)"
        ))
    );
    assert_eq!(
        select_server(&two, None, Some("gone")),
        Err(String::from(
            "multiple servers matched; rerun with --server-id. Candidates: Alpha (a), Beta (b)"
        ))
    );
    assert_eq!(
        select_server(&Vec::new(), Some("a"), None),
        Err(String::from("no reachable ZeroNode servers matched the current request"))
    );
}

#[test]
fn server_listing_lines() {
    assert_eq!(no_servers_line(), "No servers discovered.");
    assert_eq!(
        server_line("id1", "Home", "1.2.3.4:7000", "1.2.3.4:51820", true, false),
        "id1  Home  control=1.2.3.4:7000  wg=1.2.3.4:51820  protected  offline"
    );
    assert_eq!(
        server_line("id2", "Open", "c", "w", false, true),
        "id2  Open  control=c  wg=w  open  online"
    );
}

#[test]
fn cli_cooldown_texts() {
    assert_eq!(
        cooldown_refusal(1125, 1000),
        "Access Denied — Too many failed attempts. Try again in 2m 05s."
    );
    assert_eq!(
        cooldown_refusal(900, 1000),
        "Access Denied — Too many failed attempts. Try again in 0m 00s."
    );
    assert_eq!(
        cooldown_status_line("Home", 1000 + 3725, 1000),
        "Cooldown active for Home. 1h 02m remaining."
    );
    assert_eq!(no_cooldowns_line(), "No client-side cooldowns recorded.");
    assert_eq!(cooldown_line("s1", "1.2.3.4:7000", 1060, 1000), "s1  1.2.3.4:7000  1m 00s remaining");
}

#[test]
fn cli_add_host_trims_and_refuses_empty() {
    assert_eq!(cli_host("  10.0.0.1 \n"), Ok(String::from("10.0.0.1")));
    assert_eq!(cli_host("   "), Err(String::from("host cannot be empty")));
    assert_eq!(cli_host(""), Err(String::from("host cannot be empty")));
    assert_eq!(saved_host_line("10.0.0.1"), "Saved host: 10.0.0.1");
}

#[test]
fn setup_check_printing() {
    assert_eq!(
        setup_check_lines(CheckStatus::Warn, "tun", "module missing", Some("modprobe tun")),
        vec!["[WARN] tun - module missing", "      remedy: modprobe tun"]
    );
    assert_eq!(setup_check_lines(CheckStatus::Pass, "wg", "ok", None), vec!["[PASS] wg - ok"]);
    assert_eq!(
        count_passed(&vec![CheckStatus::Pass, CheckStatus::Fail, CheckStatus::Pass, CheckStatus::Warn]),
        2
    );
    assert_eq!(count_passed(&Vec::new()), 0);
}
