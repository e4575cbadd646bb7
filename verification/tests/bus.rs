use agent_server::events::bus::EventBus;
use agent_server::events::id::{event_id_from_ulid, next_event_id};
use agent_server::events::{Event, JsonValue, Payload};

fn ev(kind: &str) -> Event {
    Event::new(kind, Payload::new())
}

#[test]
fn publish_and_subscribe_receives() {
    let mut bus = EventBus::new(16, 100);
    let mut rx = bus.subscribe();
    let e = ev("test.a");
    bus.publish(e.clone());
    let recv = rx.try_recv().unwrap();
    assert_eq!(recv.id, e.id);
}

#[test]
fn replay_since_returns_newer_events() {
    let mut bus = EventBus::new(16, 100);
    let e1 = ev("test.a");
    bus.publish(e1.clone());
    let e2 = ev("test.b");
    bus.publish(e2.clone());
    let e3 = ev("test.c");
    bus.publish(e3.clone());
    let replayed = bus.replay_since(Some(&e1.id)).unwrap();
    assert_eq!(replayed.len(), 2);
    assert_eq!(replayed[0].id, e2.id);
    assert_eq!(replayed[1].id, e3.id);
}

#[test]
fn replay_since_none_returns_empty() {
    let mut bus = EventBus::new(16, 100);
    bus.publish(ev("a"));
    assert!(bus.replay_since(None).unwrap().is_empty());
}

#[test]
fn replay_since_too_old_returns_gap() {
    let mut bus = EventBus::new(16, 3);
    bus.publish(ev("a"));
    bus.publish(ev("b"));
    bus.publish(ev("c"));
    bus.publish(ev("d"));
    let err = bus.replay_since(Some("evt_00000000000000000000000000")).unwrap_err();
    assert!(!err.earliest_in_buffer.is_empty());
}

#[test]
fn ring_buffer_caps_at_capacity() {
    let mut bus = EventBus::new(16, 2);
    bus.publish(ev("a"));
    bus.publish(ev("b"));
    bus.publish(ev("c"));
    assert_eq!(bus.ring_len(), 2);
}

#[test]
fn ring_keeps_the_latest_events_in_order() {
    let mut bus = EventBus::new(16, 2);
    // Ids from increasing ULID values, so that they sort in publishing order
    // (fresh ULIDs made within one millisecond need not).
    let with_id = |kind: &str, ulid: u128| {
        let mut e = ev(kind);
        e.id = event_id_from_ulid(ulid);
        e
    };
    let a = with_id("a", 1);
    let b = with_id("b", 2);
    let c = with_id("c", 3);
    bus.publish(a.clone());
    bus.publish(b.clone());
    bus.publish(c.clone());
    let replayed = bus.replay_since(Some(&b.id)).unwrap();
    assert_eq!(replayed.len(), 1);
    assert_eq!(replayed[0].id, c.id);
    // `a` was evicted; its id sorts before the oldest kept one, so it is a gap.
    let gap = bus.replay_since(Some(&a.id)).unwrap_err();
    assert_eq!(gap.earliest_in_buffer, b.id);
}

#[test]
fn zero_capacity_ring_keeps_nothing() {
    let mut bus = EventBus::new(4, 0);
    let mut rx = bus.subscribe();
    let a = ev("a");
    bus.publish(a.clone());
    assert_eq!(bus.ring_len(), 0);
    assert_eq!(rx.try_recv().unwrap().id, a.id);
    assert!(bus.replay_since(Some(&a.id)).unwrap().is_empty());
}

#[test]
fn replay_from_unknown_newer_cursor_gives_nothing() {
    let mut bus = EventBus::new(4, 4);
    bus.publish(ev("a"));
    assert!(bus.replay_since(Some("evt_ZZZZZZZZZZZZZZZZZZZZZZZZZZ")).unwrap().is_empty());
}

#[test]
fn replay_of_last_event_is_empty() {
    let mut bus = EventBus::new(4, 4);
    let a = ev("a");
    bus.publish(a.clone());
    assert!(bus.replay_since(Some(&a.id)).unwrap().is_empty());
}

#[test]
fn event_ids_are_evt_and_a_ulid() {
    let id = next_event_id();
    assert_eq!(id.len(), 30);
    assert!(id.starts_with("evt_"));
    assert!(id[4..].chars().all(|c| "0123456789ABCDEFGHJKMNPQRSTVWXYZ".contains(c)));
}

#[test]
fn event_id_from_ulid_encodes_crockford_base32() {
    assert_eq!(event_id_from_ulid(0), "evt_00000000000000000000000000");
    assert_eq!(event_id_from_ulid(31), "evt_0000000000000000000000000Z");
    assert_eq!(event_id_from_ulid(32), "evt_00000000000000000000000010");
    assert_eq!(event_id_from_ulid(u128::MAX), "evt_7ZZZZZZZZZZZZZZZZZZZZZZZZZ");
}

#[test]
fn event_ids_sort_by_ulid() {
    let pairs: [(u128, u128); 4] = [(0, 1), (31, 32), (1 << 80, (1 << 80) + 1), (5, u128::MAX)];
    for (a, b) in pairs {
        assert!(event_id_from_ulid(a) < event_id_from_ulid(b));
    }
}

#[test]
fn new_event_is_version_one_with_utc_time() {
    let e = Event::new("x.y", Payload::new().with("k", JsonValue::Int(1)));
    assert_eq!(e.v, 1);
    assert_eq!(e.kind, "x.y");
    assert!(e.ts.ends_with('Z'));
    // YYYY-MM-DDTHH:MM:SS.mmmZ
    let b = e.ts.as_bytes();
    assert_eq!(b.len(), 24);
    for (i, c) in b.iter().enumerate() {
        match i {
            4 | 7 => assert_eq!(*c, b'-'),
            10 => assert_eq!(*c, b'T'),
            13 | 16 => assert_eq!(*c, b':'),
            19 => assert_eq!(*c, b'.'),
            23 => assert_eq!(*c, b'Z'),
            _ => assert!(c.is_ascii_digit(), "{}", e.ts),
        }
    }
    assert!(matches!(e.data.get("k"), Some(JsonValue::Int(1))));
}

#[test]
fn chat_id_reads_string_chat_id_only() {
    let e = Event::new("m", Payload::new().with("chatId", JsonValue::Str("c1".to_string())));
    assert_eq!(e.chat_id(), Some("c1"));
    let e = Event::new("m", Payload::new().with("chatId", JsonValue::Int(3)));
    assert_eq!(e.chat_id(), None);
    let e = Event::new("m", Payload::new());
    assert_eq!(e.chat_id(), None);
}

#[test]
fn replay_over_the_window_after_evictions() {
    let mut bus = EventBus::new(16, 3);
    let mut events = Vec::new();
    for (n, kind) in ["a", "b", "c", "d"].iter().enumerate() {
        let mut e = ev(kind);
        e.id = event_id_from_ulid(n as u128 + 10);
        bus.publish(e.clone());
        events.push(e);
    }
    // The window is b, c, d.
    let from_b = bus.replay_since(Some(&events[1].id)).unwrap();
    assert_eq!(from_b.iter().map(|e| e.kind.as_str()).collect::<Vec<_>>(), vec!["c", "d"]);
    let from_d = bus.replay_since(Some(&events[3].id)).unwrap();
    assert!(from_d.is_empty());
    let gap = bus.replay_since(Some("evt_00000000000000000000000000")).unwrap_err();
    assert_eq!(gap.earliest_in_buffer, events[1].id);
    let gap_a = bus.replay_since(Some(&events[0].id)).unwrap_err();
    assert_eq!(gap_a.earliest_in_buffer, events[1].id);
    assert!(bus.replay_since(Some("evt_ZZZZZZZZZZZZZZZZZZZZZZZZZZ")).unwrap().is_empty());

    let mut empty = EventBus::new(16, 0);
    empty.publish(ev("x"));
    assert!(empty.replay_since(Some("evt_00000000000000000000000000")).unwrap().is_empty());
}
