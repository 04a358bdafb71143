use zeronode_client::wireguard::{
    host_from_endpoint, looks_like_wireguard_public_key, parse_wg_summary, wg_import,
    wg_imported_notice, wg_location_ip, WgSummary,
};

const CONF: &str = "# home\n\
[Interface]\n\
Address = 10.0.0.2/32, fd00::2/128\n\
PrivateKey = abc\n\
Endpoint = 9.9.9.9:1\n\
\n\
[Peer]\n\
PublicKey = PUB=\n\
Endpoint = 1.2.3.4:51820\n\
Address = 10.9.9.9/32\n";

#[test]
fn wg_summary_reads_peer_and_interface() {
    let s = parse_wg_summary(CONF);
    assert_eq!(s.endpoint.as_deref(), Some("1.2.3.4:51820"));
    assert_eq!(s.public_key.as_deref(), Some("PUB="));
    assert_eq!(s.address.as_deref(), Some("10.0.0.2/32"));
}

#[test]
fn wg_summary_sections_are_case_insensitive_but_keys_are_not() {
    let s = parse_wg_summary("[interface]\naddress = 1.1.1.1/32\n[PEER]\nEndpoint=h:1\n");
    assert_eq!(s.address, None);
    assert_eq!(s.endpoint.as_deref(), Some("h:1"));
    assert_eq!(s.public_key, None);
    let d = WgSummary::default();
    assert!(d.endpoint.is_none() && d.public_key.is_none() && d.address.is_none());
}

#[test]
fn wg_summary_of_empty_text() {
    let s = parse_wg_summary("");
    assert!(s.endpoint.is_none() && s.public_key.is_none() && s.address.is_none());
}

#[test]
fn host_from_endpoint_cases() {
    assert_eq!(host_from_endpoint("1.2.3.4:51820"), "1.2.3.4");
    assert_eq!(host_from_endpoint("[fd00::1]:51820"), "fd00::1");
    assert_eq!(host_from_endpoint("example.com"), "example.com");
    assert_eq!(host_from_endpoint("  host:1 "), "host");
    assert_eq!(host_from_endpoint("[fd00::1"), "[fd00::1");
    assert_eq!(host_from_endpoint("a:b:c"), "a:b");
    assert_eq!(host_from_endpoint(""), "");
}

#[test]
fn wg_location_ip_prefers_resolved() {
    assert_eq!(wg_location_ip(Some("9.9.9.9"), Some("1.2.3.4:5")), "9.9.9.9");
    assert_eq!(wg_location_ip(None, Some("1.2.3.4:5")), "1.2.3.4");
    assert_eq!(wg_location_ip(None, Some("host")), "");
    assert_eq!(wg_location_ip(None, None), "");
}

#[test]
fn public_key_shapes() {
    let key = "YWJjZGVmZ2hpamtsbW5vcHFyc3R1dnd4eXoxMjM0NTY=";
    assert!(looks_like_wireguard_public_key(key));
    assert!(looks_like_wireguard_public_key(&format!("  {key}  ")));
    assert!(looks_like_wireguard_public_key(&format!("{key}:51820")));
    assert!(looks_like_wireguard_public_key(&format!("[{key}]")));
    assert!(!looks_like_wireguard_public_key("1.2.3.4:51820"));
    assert!(!looks_like_wireguard_public_key("YWJjZGVmZ2hpamtsbW5vcHFyc3R1dnd4eXoxMjM0NTY"));
    assert!(!looks_like_wireguard_public_key("short/key="));
    assert!(!looks_like_wireguard_public_key("YWJjZGVmZ2hpamtsbW5vcHFyc3R1dnd4eXo-MjM0NTY="));
}

#[test]
fn wg_import_checks_and_names() {
    let ok = wg_import("  Home  ", "\n  [Interface]\nPrivateKey = abc\n[Peer]\nPublicKey = PUB=\nEndpoint = 1.2.3.4:51820\n\n")
        .expect("complete profile");
    assert_eq!(ok.name, "Home");
    assert_eq!(ok.content, "[Interface]\nPrivateKey = abc\n[Peer]\nPublicKey = PUB=\nEndpoint = 1.2.3.4:51820");
    assert_eq!(ok.summary.endpoint.as_deref(), Some("1.2.3.4:51820"));
    let unnamed = wg_import(" ", "[Interface]\nPrivateKey=k\n[Peer]\nPublicKey=P\nEndpoint=h:1").unwrap();
    assert_eq!(unnamed.name, "h:1");
    match wg_import("x", "   \n ") {
        Err(e) => assert_eq!(e, "WireGuard config is empty."),
        Ok(_) => panic!("empty profile accepted"),
    }
    let incomplete = "Invalid WireGuard config: need [Interface] PrivateKey and [Peer] PublicKey + Endpoint.";
    match wg_import("x", "[Interface]\nPrivateKey abc\n[Peer]\nPublicKey=P\nEndpoint=h:1") {
        Err(e) => assert_eq!(e, incomplete),
        Ok(_) => panic!("profile without a private key accepted"),
    }
    match wg_import("x", "[Interface]\nPrivateKey=k\n[Peer]\nEndpoint=h:1") {
        Err(e) => assert_eq!(e, incomplete),
        Ok(_) => panic!("profile without a peer key accepted"),
    }
    assert_eq!(wg_imported_notice("Home"), "Imported WireGuard profile 'Home'. Looking up location…");
}

#[test]
fn endpoint_host_roundtrip_examples() {
    for port in [0u16, 1, 51820, 65535] {
        assert_eq!(host_from_endpoint(&format!("vpn.example.org:{port}")), "vpn.example.org");
        assert_eq!(host_from_endpoint(&format!("[fd00::2]:{port}")), "fd00::2");
        assert_eq!(host_from_endpoint(&format!("[]:{port}")), "");
    }
}
