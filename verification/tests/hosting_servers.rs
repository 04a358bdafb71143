use zeronode_client::servers::{
    add_host_command, add_host_notice, add_known_host, choose_ovpn_profile, discovery_notice, display_order,
    filter_selection, hosting_start_check, selection_saved_notice, str_lt, AddHostOutcome,
    ServerKey,
};

fn strings(v: &[&str]) -> Vec<String> {
    v.iter().map(|s| String::from(*s)).collect()
}

#[test]
fn selection_keeps_offered_sorted_unique() {
    let sel = strings(&["b", "a", "z", "a"]);
    let avail = strings(&["a", "b", "c"]);
    assert_eq!(filter_selection(&sel, &avail), strings(&["a", "b"]));
    assert!(filter_selection(&Vec::new(), &avail).is_empty());
}

#[test]
fn selection_notice() {
    assert_eq!(
        selection_saved_notice(2, 1),
        "Saved server address selection: 2 IPv4 / 1 IPv6 selected."
    );
}

#[test]
fn hosting_needs_global_and_selected_address() {
    assert_eq!(
        hosting_start_check(false, 1, 1),
        Err(String::from(
            "No global/public IPv4 or IPv6 address was detected on this machine. Local/LAN addresses are not allowed for server hosting."
        ))
    );
    assert_eq!(
        hosting_start_check(true, 0, 0),
        Err(String::from(
            "No public IPv4 or IPv6 address is selected for hosting. Open Settings on the hosting card and select at least one global address."
        ))
    );
    assert_eq!(hosting_start_check(true, 1, 0), Ok(()));
    assert_eq!(hosting_start_check(true, 0, 2), Ok(()));
}

#[test]
fn manual_hosts_are_added_once() {
    let mut known: Vec<String> = Vec::new();
    assert_eq!(add_known_host(&mut known, "5.6.7.8"), AddHostOutcome::Added);
    assert_eq!(add_known_host(&mut known, "1.2.3.4"), AddHostOutcome::Added);
    assert_eq!(add_known_host(&mut known, "5.6.7.8"), AddHostOutcome::AlreadyKnown);
    assert_eq!(known, strings(&["5.6.7.8", "1.2.3.4"]));
    assert_eq!(
        add_known_host(&mut known, "YWJjZGVmZ2hpamtsbW5vcHFyc3R1dnd4eXoxMjM0NTY="),
        AddHostOutcome::LooksLikeKey
    );
    assert_eq!(known.len(), 2);
}

#[test]
fn manual_host_notices() {
    assert_eq!(add_host_notice(AddHostOutcome::Added, "h").as_deref(), Some("Saved manual host h."));
    assert_eq!(add_host_notice(AddHostOutcome::AlreadyKnown, "h"), None);
    assert!(add_host_notice(AddHostOutcome::LooksLikeKey, "k")
        .unwrap()
        .starts_with("That looks like a WireGuard public key"));
}

#[test]
fn discovery_notice_counts_offline() {
    assert_eq!(
        discovery_notice(2, 3),
        "Discovered 2 online node(s); 1 saved node(s) are currently offline."
    );
    assert_eq!(
        discovery_notice(3, 3),
        "Discovered 3 online node(s); 0 saved node(s) are currently offline."
    );
}

#[test]
fn connect_selected_profile_or_first() {
    assert_eq!(choose_ovpn_profile(Some(3), Some(1)), Some(3));
    assert_eq!(choose_ovpn_profile(None, Some(1)), Some(1));
    assert_eq!(choose_ovpn_profile(None, None), None);
}

#[test]
fn cards_online_first_then_by_name_stable() {
    let keys = vec![
        ServerKey { online: false, name: String::from("b") },
        ServerKey { online: true, name: String::from("z") },
        ServerKey { online: true, name: String::from("a") },
        ServerKey { online: false, name: String::from("a") },
        ServerKey { online: true, name: String::from("a") },
    ];
    assert_eq!(display_order(&keys), vec![2, 4, 1, 3, 0]);
    assert!(display_order(&Vec::new()).is_empty());
}

#[test]
fn string_order() {
    assert!(str_lt("a", "b"));
    assert!(str_lt("a", "ab"));
    assert!(!str_lt("b", "a"));
    assert!(!str_lt("a", "a"));
    assert!(str_lt("Z", "a"));
}

#[test]
fn add_host_command_refreshes_unless_key() {
    let key = "YWJjZGVmZ2hpamtsbW5vcHFyc3R1dnd4eXoxMjM0NTY=";
    let mut known = strings(&["a.example"]);
    let step = add_host_command(&mut known, key);
    assert_eq!(step.outcome, AddHostOutcome::LooksLikeKey);
    assert!(!step.refresh);
    assert!(!step.save_config);
    assert!(step.notice.unwrap().starts_with("That looks like a WireGuard public key"));
    assert_eq!(known, strings(&["a.example"]));

    let step = add_host_command(&mut known, "b.example");
    assert_eq!(step.outcome, AddHostOutcome::Added);
    assert!(step.refresh);
    assert!(step.save_config);
    assert_eq!(step.notice.as_deref(), Some("Saved manual host b.example."));
    assert_eq!(known, strings(&["a.example", "b.example"]));

    let step = add_host_command(&mut known, "a.example");
    assert_eq!(step.outcome, AddHostOutcome::AlreadyKnown);
    assert!(step.refresh);
    assert!(!step.save_config);
    assert!(step.notice.is_none());
    assert_eq!(known, strings(&["a.example", "b.example"]));
}
