use zeronode_client::helper::{available, dispatch, error_reply, helper_reply, HelperCommand};

#[test]
fn dispatch_rejects_unknown_and_bad_json() {
    assert!(dispatch("not json").is_err());
    assert!(dispatch(r#"{"cmd":"nope"}"#).is_err());
    assert!(dispatch(r#"{"cmd":"ping"}"#).is_ok());
}

#[test]
fn bad_json_is_a_bad_request() {
    match dispatch("not json") {
        Err(e) => assert!(e.starts_with("bad request: ")),
        Ok(_) => panic!("malformed JSON must be refused"),
    }
}

#[test]
fn unknown_command_names_the_command() {
    match dispatch(r#"{"cmd":"nope"}"#) {
        Err(e) => assert_eq!(e, "unknown command 'nope'"),
        Ok(_) => panic!("unknown command must be refused"),
    }
}

#[test]
fn ping_and_status_are_accepted() {
    assert!(matches!(dispatch(r#"{"cmd":"ping"}"#), Ok(HelperCommand::Ping)));
    assert!(matches!(dispatch(r#"{"cmd":"status"}"#), Ok(HelperCommand::Status)));
    assert!(matches!(dispatch(r#"{"cmd":"wg_stop"}"#), Ok(HelperCommand::WgStop)));
}

#[test]
fn tor_start_port_defaults_and_truncates() {
    assert!(matches!(
        dispatch(r#"{"cmd":"tor_start"}"#),
        Ok(HelperCommand::TorStart { socks_port: 9050 })
    ));
    assert!(matches!(
        dispatch(r#"{"cmd":"tor_start","params":{"socks_port":9150}}"#),
        Ok(HelperCommand::TorStart { socks_port: 9150 })
    ));
    assert!(matches!(
        dispatch(r#"{"cmd":"tor_start","params":{"socks_port":70000}}"#),
        Ok(HelperCommand::TorStart { socks_port: 4464 })
    ));
}

#[test]
fn required_parameters_are_checked() {
    match dispatch(r#"{"cmd":"wg_start"}"#) {
        Err(e) => assert_eq!(e, "config_path required"),
        Ok(_) => panic!("wg_start without a path must be refused"),
    }
    match dispatch(r#"{"cmd":"ovpn_start","params":{"profile_path":""}}"#) {
        Err(e) => assert_eq!(e, "profile_path required"),
        Ok(_) => panic!("ovpn_start without a path must be refused"),
    }
    match dispatch(r#"{"cmd":"pptp_start","params":{"server":"vpn.example"}}"#) {
        Err(e) => assert_eq!(e, "server/username required"),
        Ok(_) => panic!("pptp_start without a user must be refused"),
    }
    match dispatch(r#"{"cmd":"ss_start","params":{}}"#) {
        Err(e) => assert_eq!(e, "host required"),
        Ok(_) => panic!("ss_start without a host must be refused"),
    }
}

#[test]
fn parameters_are_passed_through() {
    match dispatch(r#"{"cmd":"wg_start","params":{"config_path":"/etc/wg/a.conf"}}"#) {
        Ok(HelperCommand::WgStart { config_path }) => assert_eq!(config_path, "/etc/wg/a.conf"),
        _ => panic!("expected wg_start"),
    }
    match dispatch(r#"{"cmd":"pptp_start","params":{"server":"s","username":"u"}}"#) {
        Ok(HelperCommand::PptpStart { server, username, password }) => {
            assert_eq!(server, "s");
            assert_eq!(username, "u");
            assert_eq!(password, "");
        }
        _ => panic!("expected pptp_start"),
    }
    match dispatch(r#"{"cmd":"ss_start","params":{"host":"h","method":"aes","password":"p"}}"#) {
        Ok(HelperCommand::SsStart { method, password, host, port, system_wide }) => {
            assert_eq!(method, "aes");
            assert_eq!(password, "p");
            assert_eq!(host, "h");
            assert_eq!(port, 443);
            assert!(system_wide);
        }
        _ => panic!("expected ss_start"),
    }
    match dispatch(r#"{"cmd":"ss_start","params":{"host":"h","port":8388,"system_wide":false}}"#) {
        Ok(HelperCommand::SsStart { port, system_wide, .. }) => {
            assert_eq!(port, 8388);
            assert!(!system_wide);
        }
        _ => panic!("expected ss_start"),
    }
}

#[test]
fn helper_available_only_on_ok_ping() {
    assert!(available(Some("{\"ok\":true}\n")));
    assert!(available(Some("  {\"ok\": true, \"version\": 2}  ")));
    assert!(!available(Some("{\"ok\":false,\"error\":\"x\"}")));
    assert!(!available(Some("{\"ok\":\"true\"}")));
    assert!(!available(Some("not json")));
    assert!(!available(Some("")));
    assert!(!available(None));
}

#[test]
fn helper_reply_fields() {
    assert_eq!(helper_reply(None), None);
    assert_eq!(helper_reply(Some("   \n")), None);
    assert_eq!(helper_reply(Some("{oops")), None);
    assert_eq!(helper_reply(Some("{\"ok\":true}\n")), Some((Some(true), None)));
    assert_eq!(
        helper_reply(Some(" {\"ok\":false,\"error\":\"no established guard\"} ")),
        Some((Some(false), Some(String::from("no established guard"))))
    );
    assert_eq!(helper_reply(Some("[1,2]")), Some((None, None)));
}

#[test]
fn error_reply_envelope() {
    assert_eq!(error_reply("unknown cmd"), "{\"error\":\"unknown cmd\",\"ok\":false}");
    assert_eq!(
        error_reply("bad \"x\"\n"),
        "{\"error\":\"bad \\\"x\\\"\\n\",\"ok\":false}"
    );
    let v: serde_json::Value = serde_json::from_str(&error_reply("a\u{1}b")).unwrap();
    assert_eq!(v["ok"], serde_json::Value::Bool(false));
    assert_eq!(v["error"], serde_json::Value::String(String::from("a\u{1}b")));
    let mut m = serde_json::Map::new();
    m.insert(String::from("ok"), serde_json::Value::Bool(false));
    m.insert(String::from("error"), serde_json::Value::String(String::from("tab\there")));
    assert_eq!(error_reply("tab\there"), serde_json::Value::Object(m).to_string());
}
