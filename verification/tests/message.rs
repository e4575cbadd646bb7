use agent_server::events::bus::EventBus;
use agent_server::events::kinds;
use agent_server::events::pollers::message::{derive_chatroom_event, extract_name_before, message_event, MessagePoller};
use agent_server::events::JsonValue;
use agent_server::types::Message;

fn msg(chat: &str, local_id: i64, msg_type: i32, content: &str) -> Message {
    Message {
        local_id,
        server_id: -7,
        chat_id: chat.to_string(),
        sender: Some("s".to_string()),
        sender_name: None,
        msg_type,
        content: content.to_string(),
        timestamp: "2026-05-27T00:00:00Z".to_string(),
        is_mentioned: None,
        mentioned_wxids: None,
        is_self: Some(true),
        reply: None,
    }
}

#[test]
fn derive_chatroom_event_member_joined() {
    let evt = derive_chatroom_event("abc@chatroom", "wxid_xxx加入了群聊");
    assert!(evt.is_some());
    let evt = evt.expect("joined event");
    assert_eq!(evt.kind, kinds::CHATROOM_MEMBER_JOINED);
    assert_eq!(evt.chat_id().unwrap_or_default(), "abc@chatroom");
}

#[test]
fn derive_chatroom_event_member_left() {
    let evt = derive_chatroom_event("group@chatroom", "wxid_yyy退出了群聊");
    assert!(evt.is_some());
    let evt = evt.expect("left event");
    assert_eq!(evt.kind, kinds::CHATROOM_MEMBER_LEFT);
    assert_eq!(evt.chat_id().unwrap_or_default(), "group@chatroom");
}

#[test]
fn derive_chatroom_event_no_match_returns_none() {
    let evt = derive_chatroom_event("abc@chatroom", "这是一条普通文本消息");
    assert!(evt.is_none());
}

#[test]
fn derive_chatroom_event_non_chatroom_is_none() {
    let evt = derive_chatroom_event("wxid_user", "wxid_x加入了群聊");
    assert!(evt.is_none());
}

#[test]
fn derived_event_carries_trimmed_name_and_empty_wxid() {
    let evt = derive_chatroom_event("g@chatroom", "  \"张三\" 加入了群聊").unwrap();
    assert_eq!(evt.data.get_str("name"), Some("\"张三\""));
    assert_eq!(evt.data.get_str("wxid"), Some(""));
    assert!(derive_chatroom_event("g@chatroom", "   加入了群聊").is_none());
}

#[test]
fn extract_name_before_uses_first_marker() {
    assert_eq!(extract_name_before("a|b|c", "|"), Some("a".to_string()));
    assert_eq!(extract_name_before("abc", "|"), None);
}

#[test]
fn message_event_payload() {
    let e = message_event(&msg("c1", 12, 1, "hi"));
    assert_eq!(e.kind, kinds::MESSAGE_NEW);
    assert_eq!(e.data.get_str("chatId"), Some("c1"));
    assert_eq!(e.data.get_str("sender"), Some("s"));
    assert_eq!(e.data.get_str("senderName"), Some(""));
    assert!(matches!(e.data.get("msgType"), Some(JsonValue::Int(1))));
    assert_eq!(e.data.get_str("serverId"), Some("-7"));
    assert!(matches!(e.data.get("localId"), Some(JsonValue::Int(12))));
    assert!(matches!(e.data.get("isSelf"), Some(JsonValue::Bool(true))));
    assert_eq!(e.data.get_str("timestamp"), Some("2026-05-27T00:00:00Z"));
}

#[test]
fn poller_cold_start_records_then_publishes_only_new() {
    let mut bus = EventBus::new(16, 32);
    let mut poller = MessagePoller::new(200);
    poller.process_chat("c@chatroom".to_string(), vec![msg("c@chatroom", 2, 1, "a"), msg("c@chatroom", 1, 1, "b")], &mut bus);
    poller.process_chat("empty".to_string(), Vec::new(), &mut bus);
    poller.finish_poll();
    assert_eq!(bus.ring_len(), 0);
    assert_eq!(poller.last_seen.get("c@chatroom"), Some(&2));
    assert_eq!(poller.last_seen.get("empty"), None);

    let mut rx = bus.subscribe();
    let batch = vec![
        msg("c@chatroom", 3, 10000, "wxid_k加入了群聊"),
        msg("c@chatroom", 2, 1, "a"),
        msg("c@chatroom", 4, 1, "d"),
    ];
    poller.process_chat("c@chatroom".to_string(), batch.clone(), &mut bus);
    let kinds_seen: Vec<String> = std::iter::from_fn(|| rx.try_recv().ok()).map(|e| e.kind).collect();
    assert_eq!(kinds_seen, vec!["message.new", "chatroom.member_joined", "message.new"]);
    assert_eq!(poller.last_seen.get("c@chatroom"), Some(&4));

    // The same batch again publishes nothing.
    poller.process_chat("c@chatroom".to_string(), batch, &mut bus);
    assert!(rx.try_recv().is_err());
}
