use zeronode_client::prefs::{
    enabled_column, enabled_from_column, fail_limit_exceeded, get_selected_outline_id,
    get_selected_ovpn_id, get_selected_pptp_id, get_selected_wg_id, get_tor_isolation_mode,
    location_ip, non_empty, outline_endpoint_label, ovpn_endpoint_label, pptp_endpoint_label,
    set_selected_outline_id, set_selected_ovpn_id, set_selected_pptp_id, set_selected_wg_id,
    set_tor_isolation_mode, wg_endpoint_label, TorIsolatedApp, SELECTED_OUTLINE_ID_KEY,
    SELECTED_OVPN_ID_KEY, SELECTED_PPTP_ID_KEY, SELECTED_WG_ID_KEY, TOR_ISOLATION_MODE_KEY,
};

#[test]
fn selected_ids_parse_stored_values() {
    assert_eq!(get_selected_ovpn_id(Some("42")), Some(42));
    assert_eq!(get_selected_ovpn_id(Some("-5")), Some(-5));
    assert_eq!(get_selected_ovpn_id(Some("+7")), Some(7));
    assert_eq!(get_selected_ovpn_id(Some("")), None);
    assert_eq!(get_selected_ovpn_id(Some("abc")), None);
    assert_eq!(get_selected_ovpn_id(Some(" 4")), None);
    assert_eq!(get_selected_ovpn_id(None), None);
    assert_eq!(get_selected_wg_id(Some("9223372036854775807")), Some(i64::MAX));
    assert_eq!(get_selected_pptp_id(Some("9223372036854775808")), None);
    assert_eq!(get_selected_outline_id(Some("-9223372036854775808")), Some(i64::MIN));
}

#[test]
fn selected_ids_store_as_text() {
    assert_eq!(set_selected_ovpn_id(Some(42)), "42");
    assert_eq!(set_selected_ovpn_id(None), "");
    assert_eq!(set_selected_wg_id(Some(-3)), "-3");
    assert_eq!(set_selected_pptp_id(Some(0)), "0");
    assert_eq!(set_selected_outline_id(Some(i64::MIN)), "-9223372036854775808");
}

#[test]
fn selected_id_round_trip() {
    for id in [None, Some(0i64), Some(17), Some(-17), Some(i64::MAX), Some(i64::MIN)] {
        let stored = set_selected_ovpn_id(id);
        assert_eq!(get_selected_ovpn_id(Some(stored.as_str())), id);
        let stored = set_selected_wg_id(id);
        assert_eq!(get_selected_wg_id(Some(stored.as_str())), id);
        let stored = set_selected_pptp_id(id);
        assert_eq!(get_selected_pptp_id(Some(stored.as_str())), id);
        let stored = set_selected_outline_id(id);
        assert_eq!(get_selected_outline_id(Some(stored.as_str())), id);
    }
}

#[test]
fn tor_isolation_mode_defaults_to_system() {
    assert_eq!(get_tor_isolation_mode(None), "system");
    assert_eq!(get_tor_isolation_mode(Some("apps")), "apps");
    let stored = set_tor_isolation_mode("apps");
    assert_eq!(get_tor_isolation_mode(Some(stored.as_str())), "apps");
}

#[test]
fn enabled_flag_columns() {
    assert_eq!(enabled_column(true), 1);
    assert_eq!(enabled_column(false), 0);
    assert!(!enabled_from_column(0));
    assert!(enabled_from_column(2));
    assert!(enabled_from_column(enabled_column(true)));
    let app = TorIsolatedApp {
        id: 1,
        name: String::from("Browser"),
        path: String::from("/usr/bin/browser"),
        enabled: enabled_from_column(1),
    };
    assert!(app.enabled);
}

#[test]
fn fail_limit_is_five() {
    assert!(!fail_limit_exceeded(5));
    assert!(fail_limit_exceeded(6));
    assert!(!fail_limit_exceeded(0));
}

#[test]
fn endpoint_labels() {
    assert_eq!(ovpn_endpoint_label(Some("h"), Some(1194)), "h:1194");
    assert_eq!(ovpn_endpoint_label(Some("h"), None), "h");
    assert_eq!(ovpn_endpoint_label(None, Some(1)), "OpenVPN profile");
    assert_eq!(outline_endpoint_label(None, None), "Outline access key");
    assert_eq!(outline_endpoint_label(Some("o"), Some(8388)), "o:8388");
    assert_eq!(wg_endpoint_label(Some("1.2.3.4:51820")), "1.2.3.4:51820");
    assert_eq!(wg_endpoint_label(None), "WireGuard profile");
    assert_eq!(pptp_endpoint_label("h", 1723), "h");
    assert_eq!(pptp_endpoint_label("h", 1724), "h:1724");
}

#[test]
fn location_ip_and_optional_text() {
    assert_eq!(location_ip(Some("1.1.1.1"), Some("h")), "1.1.1.1");
    assert_eq!(location_ip(None, Some("h")), "h");
    assert_eq!(location_ip(None, None), "");
    assert_eq!(non_empty(""), None);
    assert_eq!(non_empty("x"), Some("x"));
}

#[test]
fn saving_one_preference_keeps_the_others() {
    let mut store = std::collections::BTreeMap::new();
    store.insert(SELECTED_PPTP_ID_KEY, set_selected_pptp_id(Some(5)));
    store.insert(SELECTED_OVPN_ID_KEY, set_selected_ovpn_id(Some(9)));
    store.insert(SELECTED_WG_ID_KEY, set_selected_wg_id(None));
    store.insert(SELECTED_OUTLINE_ID_KEY, set_selected_outline_id(Some(2)));
    store.insert(TOR_ISOLATION_MODE_KEY, set_tor_isolation_mode("apps"));
    assert_eq!(store.len(), 5);
    assert_eq!(get_selected_pptp_id(store.get(SELECTED_PPTP_ID_KEY).map(|s| s.as_str())), Some(5));
    assert_eq!(get_selected_ovpn_id(store.get(SELECTED_OVPN_ID_KEY).map(|s| s.as_str())), Some(9));
}
