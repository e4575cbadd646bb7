use agent_server::events::bus::EventBus;
use agent_server::events::kinds;
use agent_server::events::pollers::contact_diff::{emit_diff_events, snapshot_from_rows, ContactDiffPoller, ContactInfo};
use agent_server::events::{JsonValue, Payload};
use agent_server::str_map::StrMap;

fn info(nick: &str, remark: &str) -> ContactInfo {
    ContactInfo { nick_name: nick.to_string(), remark: remark.to_string() }
}

#[test]
fn diff_snapshot_detects_added_and_removed() {
    let mut previous = StrMap::new();
    previous.insert("wxid_a".to_string(), info("A", ""));
    previous.insert("wxid_b".to_string(), info("B", ""));

    let mut current = StrMap::new();
    current.insert("wxid_b".to_string(), info("B2", "new"));
    current.insert("wxid_c".to_string(), info("C", ""));

    let mut bus = EventBus::new(16, 10);
    let mut receiver = bus.subscribe();
    emit_diff_events(&current, &previous, &mut bus);
    let e1 = receiver.try_recv().unwrap();
    let e2 = receiver.try_recv().unwrap();
    let kinds_vec = vec![e1.kind.clone(), e2.kind.clone()];
    assert!(kinds_vec.contains(&kinds::CONTACT_ADDED.to_string()));
    assert!(kinds_vec.contains(&kinds::CONTACT_REMOVED.to_string()));
    let mut found = Vec::new();
    for evt in [e1, e2] {
        if let Some(wxid) = evt.data.get("wxid").and_then(JsonValue::as_str) {
            found.push(wxid.to_string());
        }
    }
    assert!(found.contains(&"wxid_c".to_string()));
    assert!(found.contains(&"wxid_a".to_string()));
}

fn row(user: &str, nick: Option<&str>) -> Payload {
    let mut p = Payload::new().with("username", JsonValue::Str(user.to_string()));
    if let Some(n) = nick {
        p.push("nick_name", JsonValue::Str(n.to_string()));
    }
    p.with("remark", JsonValue::Null)
}

#[test]
fn snapshot_skips_blank_usernames_and_defaults_fields() {
    let rows = vec![row("a", Some("A")), row("", Some("X")), row("b", None), row("a", Some("A2"))];
    let snap = snapshot_from_rows(&rows);
    assert_eq!(snap.len(), 2);
    assert_eq!(snap.get("a").unwrap().nick_name, "A2");
    assert_eq!(snap.get("b").unwrap().nick_name, "");
    assert_eq!(snap.get("b").unwrap().remark, "");
    assert!(snap.get("").is_none());
}

#[test]
fn poller_cold_start_only_records() {
    let mut bus = EventBus::new(16, 10);
    let mut poller = ContactDiffPoller::new(60);
    poller.process_snapshot(snapshot_from_rows(&vec![row("a", None)]), &mut bus);
    assert_eq!(bus.ring_len(), 0);
    assert!(!poller.cold_start);
    let mut rx = bus.subscribe();
    poller.process_snapshot(snapshot_from_rows(&vec![row("a", None)]), &mut bus);
    assert!(rx.try_recv().is_err());
    poller.process_snapshot(snapshot_from_rows(&vec![row("b", Some("B"))]), &mut bus);
    let added = rx.try_recv().unwrap();
    assert_eq!(added.kind, "contact.added");
    assert_eq!(added.data.get_str("wxid"), Some("b"));
    assert_eq!(added.data.get_str("nickName"), Some("B"));
    let removed = rx.try_recv().unwrap();
    assert_eq!(removed.kind, "contact.removed");
    assert_eq!(removed.data.get_str("wxid"), Some("a"));
}
