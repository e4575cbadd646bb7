use agent_server::events::bus::EventBus;
use agent_server::events::kinds;
use agent_server::events::pollers::friend_request::{
    collect_friend_request_events, extract_attr, extract_msg_tag, parse_friend_request_xml,
    FriendRequestPoller,
};
use agent_server::events::JsonValue;
use agent_server::types::Message;

fn request(local_id: i64, content: &str, timestamp: &str) -> Message {
    Message {
        local_id,
        server_id: local_id,
        chat_id: "fmessage".to_string(),
        sender: None,
        sender_name: None,
        msg_type: 37,
        content: content.to_string(),
        timestamp: timestamp.to_string(),
        is_mentioned: None,
        mentioned_wxids: None,
        is_self: None,
        reply: None,
    }
}

#[test]
fn parse_friend_request_xml_fields() {
    let xml = r#"<msg fromusername="wxid_from" fromnickname="张三" alias="zhangsan" scene="14" content="你好，我想加你" />"#;
    let parsed = parse_friend_request_xml(xml);
    assert_eq!(parsed.from_wxid, "wxid_from");
    assert_eq!(parsed.from_name, "张三");
    assert_eq!(parsed.alias, "zhangsan");
    assert_eq!(parsed.scene, "14");
    assert_eq!(parsed.content, "你好，我想加你");
}

#[test]
fn parse_friend_request_xml_tolerant_to_missing() {
    let xml = r#"<msg fromusername="wxid_from" />"#;
    let parsed = parse_friend_request_xml(xml);
    assert_eq!(parsed.from_wxid, "wxid_from");
    assert_eq!(parsed.from_name, "");
    assert_eq!(parsed.alias, "");
    assert_eq!(parsed.scene, "");
    assert_eq!(parsed.content, "");
}

#[test]
fn friend_request_cold_start_then_emit_only_new() {
    let mut cursor = 0;
    let messages = vec![
        request(1, r#"<msg fromusername="wxid_a" fromnickname="A" alias="a" scene="14" content="hello" />"#, "2026-05-27T00:00:00Z"),
        request(2, r#"<msg fromusername="wxid_b" fromnickname="B" alias="b" scene="14" content="world" />"#, "2026-05-27T00:00:01Z"),
    ];

    let events = collect_friend_request_events(&messages, &mut cursor, true);
    assert!(events.is_empty());
    assert_eq!(cursor, 2);

    let events = collect_friend_request_events(&messages, &mut cursor, false);
    assert!(events.is_empty());

    let messages = vec![request(
        3,
        r#"<msg fromusername="wxid_c" fromnickname="C" alias="c" scene="14" content="new" />"#,
        "2026-05-27T00:00:02Z",
    )];
    let events = collect_friend_request_events(&messages, &mut cursor, false);
    assert_eq!(events.len(), 1);
    assert_eq!(events[0].kind, kinds::CONTACT_FRIEND_REQUEST);
    assert_eq!(events[0].data.get("fromWxid").and_then(JsonValue::as_str), Some("wxid_c"));
    assert_eq!(cursor, 3);
}

#[test]
fn extract_msg_tag_takes_the_msg_element() {
    let xml = r#"<?xml version="1.0"?><msg a="1" b="2">inner <x/></msg>"#;
    assert_eq!(extract_msg_tag(xml), r#"<msg a="1" b="2">"#);
    assert_eq!(extract_msg_tag("no tag here"), "no tag here");
    assert_eq!(extract_msg_tag("<msg unterminated"), "<msg unterminated");
}

#[test]
fn extract_attr_tries_double_then_single_quotes() {
    assert_eq!(extract_attr(r#"<msg k="v1" />"#, "k"), "v1");
    assert_eq!(extract_attr("<msg k='v2' />", "k"), "v2");
    assert_eq!(extract_attr(r#"<msg k="unterminated />"#, "k"), "");
    assert_eq!(extract_attr(r#"<msg other="x" />"#, "k"), "");
    // The first `key="` found is used, even inside another attribute's name.
    assert_eq!(extract_attr(r#"<msg xscene="1" scene="2" />"#, "scene"), "1");
}

#[test]
fn poller_sorts_skips_other_types_and_moves_cursor() {
    let mut bus = EventBus::new(16, 16);
    let mut poller = FriendRequestPoller::new(500);
    assert!(poller.cold_start);
    poller.process_messages(vec![request(5, r#"<msg fromusername="w5" />"#, "t")], &mut bus);
    assert_eq!(bus.ring_len(), 0);
    assert_eq!(poller.last_seen_local_id, 5);
    assert!(!poller.cold_start);

    let mut other = request(9, "text", "t");
    other.msg_type = 1;
    let batch = vec![
        request(7, r#"<msg fromusername="w7" />"#, "t"),
        other,
        request(6, r#"<msg fromusername="w6" />"#, "t"),
        request(4, r#"<msg fromusername="old" />"#, "t"),
    ];
    let mut rx = bus.subscribe();
    poller.process_messages(batch, &mut bus);
    assert_eq!(poller.last_seen_local_id, 7);
    assert_eq!(rx.try_recv().unwrap().data.get_str("fromWxid"), Some("w6"));
    assert_eq!(rx.try_recv().unwrap().data.get_str("fromWxid"), Some("w7"));
    assert!(rx.try_recv().is_err());
}

#[test]
fn rescan_from_left_cursor_announces_nothing() {
    let messages = vec![
        request(3, r#"<msg fromusername="w3" />"#, "t"),
        request(8, r#"<msg fromusername="w8" />"#, "t"),
    ];
    let mut cursor = 2;
    let first = collect_friend_request_events(&messages, &mut cursor, false);
    assert_eq!(first.len(), 2);
    assert_eq!(cursor, 8);
    let again = collect_friend_request_events(&messages, &mut cursor, false);
    assert!(again.is_empty());
    assert_eq!(cursor, 8);
}
