use agent_server::events::bus::EventBus;
use agent_server::events::kinds;
use agent_server::events::pollers::session_emitter::{emit_login, emit_logout, emit_qr_refresh, emit_scan};
use agent_server::events::JsonValue;

#[test]
fn emit_login_event_has_expected_payload() {
    let mut bus = EventBus::new(16, 100);
    let mut rx = bus.subscribe();

    emit_login(&mut bus, "wxid_user", "default");
    let evt = rx.try_recv().unwrap();
    assert_eq!(evt.kind, kinds::SESSION_LOGIN);
    assert_eq!(evt.data.get("wxid").and_then(JsonValue::as_str), Some("wxid_user"));
    assert_eq!(evt.data.get("sessionName").and_then(JsonValue::as_str), Some("default"));
}

#[test]
fn emit_logout_event_has_expected_payload() {
    let mut bus = EventBus::new(16, 100);
    let mut rx = bus.subscribe();

    emit_logout(&mut bus, "wxid_user", "user_logout");
    let evt = rx.try_recv().unwrap();
    assert_eq!(evt.kind, kinds::SESSION_LOGOUT);
    assert_eq!(evt.data.get("reason").and_then(JsonValue::as_str), Some("user_logout"));
}

#[test]
fn emit_scan_event_skips_empty_wxid() {
    let mut bus = EventBus::new(16, 100);
    let mut rx = bus.subscribe();

    emit_scan(&mut bus, "confirmed", None);
    let evt = rx.try_recv().unwrap();
    assert_eq!(evt.kind, kinds::SESSION_SCAN);
    assert_eq!(evt.data.get("stage").and_then(JsonValue::as_str), Some("confirmed"));
    assert!(evt.data.get("wxid").is_none());
}

#[test]
fn emit_scan_with_wxid_carries_it() {
    let mut bus = EventBus::new(16, 100);
    let mut rx = bus.subscribe();
    emit_scan(&mut bus, "scanned", Some("wxid_9"));
    let evt = rx.try_recv().unwrap();
    assert_eq!(evt.data.get_str("wxid"), Some("wxid_9"));
    assert_eq!(evt.data.len(), 2);
}

#[test]
fn emit_qr_refresh_carries_payload_and_lands_in_ring() {
    let mut bus = EventBus::new(16, 100);
    emit_qr_refresh(&mut bus, "qr-data", "2026-01-01T00:00:00Z");
    assert_eq!(bus.ring_len(), 1);
    let mut rx = bus.subscribe();
    emit_login(&mut bus, "w", "s");
    let evt = rx.try_recv().unwrap();
    assert_eq!(evt.kind, "session.login");
    assert_eq!(bus.ring_len(), 2);
}
