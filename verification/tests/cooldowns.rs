use zeronode_client::cooldown::{cooldown_notice, ConnectStart, Cooldowns, ServerCooldown};
use zeronode_client::session::ConnectionPhase;

fn card(id: &str, until: Option<u64>, msg: Option<&str>) -> ServerCooldown {
    ServerCooldown {
        server_id: String::from(id),
        cooldown_until_unix: until,
        last_message: msg.map(String::from),
    }
}

#[test]
fn set_then_get_returns_the_entry() {
    let mut t = Cooldowns::new();
    assert_eq!(t.len(), 0);
    t.set_cooldown(String::from("s1"), String::from("1.2.3.4:7000"), 100, String::from("too many"));
    let e = t.get("s1").expect("entry");
    assert_eq!(e.endpoint, "1.2.3.4:7000");
    assert_eq!(e.until_unix, 100);
    assert_eq!(e.reason, "too many");
    assert!(t.get("s2").is_none());
    assert_eq!(t.len(), 1);
}

#[test]
fn set_replaces_an_existing_entry() {
    let mut t = Cooldowns::new();
    t.set_cooldown(String::from("s1"), String::from("a"), 100, String::from("r1"));
    t.set_cooldown(String::from("s1"), String::from("b"), 200, String::from("r2"));
    assert_eq!(t.len(), 1);
    let e = t.get("s1").unwrap();
    assert_eq!(e.until_unix, 200);
    assert_eq!(e.reason, "r2");
}

#[test]
fn clear_removes_and_reports() {
    let mut t = Cooldowns::new();
    t.set_cooldown(String::from("s1"), String::from("a"), 100, String::from("r"));
    assert!(t.clear_cooldown("s1"));
    assert!(t.get("s1").is_none());
    assert!(!t.clear_cooldown("s1"));
    assert_eq!(t.len(), 0);
}

#[test]
fn prune_drops_expired_only() {
    let mut t = Cooldowns::new();
    t.set_cooldown(String::from("old"), String::from("a"), 50, String::from("r"));
    t.set_cooldown(String::from("edge"), String::from("a"), 60, String::from("r"));
    t.set_cooldown(String::from("live"), String::from("a"), 61, String::from("r"));
    assert!(t.prune(60));
    assert!(t.get("old").is_none());
    assert!(t.get("edge").is_none());
    assert_eq!(t.get("live").unwrap().until_unix, 61);
    assert_eq!(t.len(), 1);
    assert!(!t.prune(60));
    assert_eq!(t.len(), 1);
}

#[test]
fn cards_show_live_cooldowns() {
    let mut t = Cooldowns::new();
    t.set_cooldown(String::from("a"), String::from("e"), 100, String::from("wait"));
    t.set_cooldown(String::from("b"), String::from("e"), 10, String::from("old"));
    let mut cards = vec![
        card("a", None, None),
        card("b", Some(10), Some("keep")),
        card("c", Some(5), Some("m")),
    ];
    t.apply_to_servers(&mut cards, 50);
    assert_eq!(cards[0].cooldown_until_unix, Some(100));
    assert_eq!(cards[0].last_message.as_deref(), Some("wait"));
    assert_eq!(cards[1].cooldown_until_unix, None);
    assert_eq!(cards[1].last_message.as_deref(), Some("keep"));
    assert_eq!(cards[2].cooldown_until_unix, None);
    assert_eq!(cards[2].last_message.as_deref(), Some("m"));
}

#[test]
fn prune_does_not_change_cards() {
    let mut t = Cooldowns::new();
    t.set_cooldown(String::from("a"), String::from("e"), 100, String::from("wait"));
    t.set_cooldown(String::from("b"), String::from("e"), 10, String::from("old"));
    let mut before = vec![card("a", None, None), card("b", Some(3), Some("x"))];
    let mut after = vec![card("a", None, None), card("b", Some(3), Some("x"))];
    t.apply_to_servers(&mut before, 50);
    t.prune(50);
    t.apply_to_servers(&mut after, 50);
    for (x, y) in before.iter().zip(after.iter()) {
        assert_eq!(x.cooldown_until_unix, y.cooldown_until_unix);
        assert_eq!(x.last_message, y.last_message);
    }
}

#[test]
fn blocking_cooldown_only_while_running() {
    let mut t = Cooldowns::new();
    t.set_cooldown(String::from("s"), String::from("e"), 100, String::from("r"));
    assert_eq!(t.blocking_cooldown("s", 99), Some(100));
    assert_eq!(t.blocking_cooldown("s", 100), None);
    assert_eq!(t.blocking_cooldown("x", 0), None);
    t.clear_cooldown("s");
    assert_eq!(t.blocking_cooldown("s", 0), None);
}

#[test]
fn cooldown_notice_text() {
    assert_eq!(
        cooldown_notice(1090, 1000),
        "Access Denied — Too many failed attempts. Try again in 1m."
    );
    assert_eq!(
        cooldown_notice(1000 + 2 * 86_400 + 3 * 3600, 1000),
        "Access Denied — Too many failed attempts. Try again in 2d 03h."
    );
    assert_eq!(
        cooldown_notice(5, 10),
        "Access Denied — Too many failed attempts. Try again in 0m."
    );
}

#[test]
fn connect_refused_during_cooldown() {
    let mut t = Cooldowns::new();
    t.set_cooldown(String::from("s1"), String::from("1.2.3.4:7000"), 1090, String::from("too many"));
    match t.connect_start("s1", "One", "1.2.3.4:7000", 1000) {
        ConnectStart::Refused { session, notice } => {
            assert_eq!(session.phase, ConnectionPhase::Cooldown);
            assert_eq!(session.attempt_count, 0);
            assert_eq!(session.server_id, "s1");
            assert_eq!(session.cooldown_until_unix, Some(1090));
            assert_eq!(notice, "Access Denied — Too many failed attempts. Try again in 1m.");
        }
        ConnectStart::Authenticate { .. } => panic!("a running cooldown must refuse"),
    }
    match t.connect_start("s1", "One", "1.2.3.4:7000", 1090) {
        ConnectStart::Authenticate { session } => {
            assert_eq!(session.phase, ConnectionPhase::Connecting);
            assert_eq!(session.attempt_count, 1);
        }
        ConnectStart::Refused { .. } => panic!("an ended cooldown must not refuse"),
    }
    assert!(matches!(t.connect_start("s2", "Two", "e", 1000), ConnectStart::Authenticate { .. }));
}
