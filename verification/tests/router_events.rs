use agent_server::events::bus::{EventBus, ReplayGap};
use agent_server::events::{Event, JsonValue, Payload};
use agent_server::router::events::{
    connect_decision, extract_bearer, is_authorized, matches_filter, parse_chats, parse_topics,
    plan_replay, prepare_subscription, topic_matches, CloseCode, EventsWsQuery, WsInput, WsSession,
    WsStep,
};
use axum::http::{HeaderMap, HeaderValue};

fn event_with_kind(kind: &str, chat_id: Option<&str>) -> Event {
    let mut data = Payload::new();
    if let Some(chat_id) = chat_id {
        data.push("chatId", JsonValue::Str(chat_id.to_string()));
    }
    Event { v: 1, id: "test".to_string(), ts: "2026-01-01T00:00:00Z".to_string(), kind: kind.to_string(), data }
}

#[test]
fn topic_matches_all() {
    let topics = vec!["*".to_string()];
    assert!(topic_matches("message.new", &topics));
    assert!(topic_matches("session.login", &topics));
}

#[test]
fn topic_matches_prefix_and_exact() {
    let topics = vec!["message.*".to_string(), "session.login".to_string()];
    assert!(topic_matches("message.new", &topics));
    assert!(topic_matches("session.login", &topics));
    assert!(!topic_matches("session.logout", &topics));
}

#[test]
fn matches_uses_topic_and_chats_filters() {
    let topics = vec!["message.*".to_string()];
    let chats = vec!["chat_a".to_string(), "chat_b".to_string()];
    assert!(matches_filter(&event_with_kind("message.new", Some("chat_a")), &topics, &chats));
    assert!(!matches_filter(&event_with_kind("message.new", Some("chat_z")), &topics, &chats));
    assert!(matches_filter(&event_with_kind("session.login", None), &vec!["*".to_string()], &chats));
    assert!(!matches_filter(&event_with_kind("session.login", Some("chat_a")), &topics, &chats));
}

#[test]
fn extract_bearer_parses_token() {
    let header = |headers: &HeaderMap| {
        headers.get(axum::http::header::AUTHORIZATION).and_then(|v| v.to_str().ok()).map(|s| s.to_string())
    };
    let mut headers = HeaderMap::new();
    headers.insert(axum::http::header::AUTHORIZATION, HeaderValue::from_static("Bearer abc123"));
    let value = header(&headers);
    assert_eq!(extract_bearer(value.as_deref()), Some("abc123"));
    headers.insert(axum::http::header::AUTHORIZATION, HeaderValue::from_static("Basic abc123"));
    let value = header(&headers);
    assert_eq!(extract_bearer(value.as_deref()), None);
    assert_eq!(extract_bearer(None), None);
}

#[test]
fn empty_topic_list_matches_everything() {
    assert!(topic_matches("anything", &Vec::new()));
}

#[test]
fn prefix_topic_is_a_plain_prefix() {
    let topics = vec!["message.*".to_string()];
    assert!(topic_matches("message", &topics));
    assert!(topic_matches("messages.x", &topics));
    assert!(!topic_matches("session.message", &topics));
}

#[test]
fn parse_topics_trims_and_defaults_to_star() {
    assert_eq!(parse_topics(None), vec!["*".to_string()]);
    assert_eq!(parse_topics(Some(String::new())), vec!["*".to_string()]);
    assert_eq!(parse_topics(Some(" , ,".to_string())), vec!["*".to_string()]);
    assert_eq!(
        parse_topics(Some(" message.* , session.login,,".to_string())),
        vec!["message.*".to_string(), "session.login".to_string()]
    );
    assert_eq!(parse_topics(Some("\u{3000}a\t".to_string())), vec!["a".to_string()]);
}

#[test]
fn parse_chats_drops_star_and_blanks() {
    assert!(parse_chats(None).is_empty());
    assert!(parse_chats(Some("*".to_string())).is_empty());
    assert_eq!(parse_chats(Some(" a@chatroom ,*, b ".to_string())), vec!["a@chatroom".to_string(), "b".to_string()]);
}

#[test]
fn authorization_by_token_or_bearer() {
    assert!(is_authorized(Some("t0k"), None, "t0k"));
    assert!(is_authorized(None, Some("Bearer t0k"), "t0k"));
    assert!(is_authorized(Some("bad"), Some("Bearer t0k"), "t0k"));
    assert!(!is_authorized(Some("bad"), Some("Bearer nope"), "t0k"));
    assert!(!is_authorized(None, Some("bearer t0k"), "t0k"));
    assert!(!is_authorized(None, None, "t0k"));
}

#[test]
fn prepare_subscription_reads_query() {
    let q = EventsWsQuery {
        token: Some("k".to_string()),
        topics: Some("message.*".to_string()),
        chats: Some("c1,*".to_string()),
        since: Some(String::new()),
    };
    let s = prepare_subscription(q, None, "k");
    assert!(s.authorized);
    assert_eq!(s.topics, vec!["message.*".to_string()]);
    assert_eq!(s.chats, vec!["c1".to_string()]);
    assert_eq!(s.since, None);
}

#[test]
fn connect_decision_refuses_unauthorized_first() {
    let c = connect_decision(false, false).unwrap();
    assert_eq!(c.code, CloseCode::Policy);
    assert_eq!(c.reason, "unauthorized");
    let c = connect_decision(true, false).unwrap();
    assert_eq!(c.code, CloseCode::Error);
    assert_eq!(c.reason, "event bus unavailable");
    assert!(connect_decision(true, true).is_none());
}

#[test]
fn replay_plan_filters_and_counts() {
    let mut bus = EventBus::new(8, 8);
    let first = Event::new("message.new", Payload::new());
    bus.publish(first.clone());
    bus.publish(Event::new("message.new", Payload::new().with("chatId", JsonValue::Str("c1".into()))));
    bus.publish(Event::new("session.login", Payload::new()));
    bus.publish(Event::new("message.new", Payload::new().with("chatId", JsonValue::Str("c2".into()))));
    let replayed = bus.replay_since(Some(&first.id));
    let plan = plan_replay(replayed, &vec!["message.*".to_string()], &vec!["c1".to_string()], Some(first.id.clone()));
    assert_eq!(plan.events.len(), 1);
    assert_eq!(plan.events[0].chat_id(), Some("c1"));
    assert_eq!(plan.control.kind, "replay.done");
    assert!(matches!(plan.control.data.get("count"), Some(JsonValue::UInt(1))));
    assert_eq!(plan.control.data.get_str("since"), Some(first.id.as_str()));
    assert!(plan.close.is_none());
}

#[test]
fn replay_plan_for_gap_closes() {
    let gap = ReplayGap { earliest_in_buffer: "evt_1".to_string() };
    let plan = plan_replay(Err(gap), &vec!["*".to_string()], &Vec::new(), None);
    assert!(plan.events.is_empty());
    assert_eq!(plan.control.kind, "replay.gap");
    assert_eq!(plan.control.data.get_str("reason"), Some("gap"));
    assert_eq!(plan.control.data.get_str("earliest"), Some("evt_1"));
    assert!(matches!(plan.control.data.get("since"), Some(JsonValue::Null)));
    let close = plan.close.unwrap();
    assert_eq!(close.code, CloseCode::Error);
    assert_eq!(close.reason, "replay gap");
}

#[test]
fn session_heartbeat_closes_after_missed_pong() {
    let mut s = WsSession::new(vec!["*".to_string()], Vec::new());
    assert!(matches!(s.step(WsInput::HeartbeatTick), WsStep::Ping));
    match s.step(WsInput::HeartbeatTick) {
        WsStep::Finish { control, close } => {
            assert!(control.is_none());
            let close = close.unwrap();
            assert_eq!(close.code, CloseCode::Away);
            assert_eq!(close.reason, "missed pong");
        }
        other => panic!("unexpected step {other:?}"),
    }
}

#[test]
fn session_pong_resets_heartbeat() {
    let mut s = WsSession::new(vec!["*".to_string()], Vec::new());
    assert!(matches!(s.step(WsInput::HeartbeatTick), WsStep::Ping));
    assert!(matches!(s.step(WsInput::Pong), WsStep::Wait));
    assert!(matches!(s.step(WsInput::HeartbeatTick), WsStep::Ping));
    assert!(matches!(s.step(WsInput::OtherFrame), WsStep::Wait));
}

#[test]
fn session_lag_reports_gap_and_closes() {
    let mut s = WsSession::new(vec!["*".to_string()], Vec::new());
    match s.step(WsInput::Lagged(42)) {
        WsStep::Finish { control, close } => {
            let c = control.unwrap();
            assert_eq!(c.kind, "replay.gap");
            assert_eq!(c.data.get_str("reason"), Some("lagged"));
            assert!(matches!(c.data.get("lagged"), Some(JsonValue::UInt(42))));
            let close = close.unwrap();
            assert_eq!(close.code, CloseCode::Again);
            assert_eq!(close.reason, "lagged by 42 messages");
        }
        other => panic!("unexpected step {other:?}"),
    }
    assert!(matches!(s.step(WsInput::BusClosed), WsStep::Finish { control: None, close: None }));
    assert!(matches!(s.step(WsInput::SocketClosed), WsStep::Finish { control: None, close: None }));
}

#[test]
fn session_forwards_only_accepted_events() {
    let mut s = WsSession::new(vec!["message.*".to_string()], vec!["c1".to_string()]);
    let e = event_with_kind("message.new", Some("c1"));
    assert!(matches!(s.step(WsInput::Published(e)), WsStep::Forward(_)));
    let e = event_with_kind("message.new", Some("c2"));
    assert!(matches!(s.step(WsInput::Published(e)), WsStep::Wait));
}
