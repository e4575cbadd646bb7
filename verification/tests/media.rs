use agent_server::events::bus::EventBus;
use agent_server::events::kinds;
use agent_server::events::pollers::media::{
    decide_media_action, is_media_message_type, media_ready_event, media_relative_path, message_create_time,
    join_path, next_original_wait, prepare_media_file, MediaPlan, MediaPoller, MediaStep, OriginalFetch, PollAction,
};
use agent_server::events::JsonValue;
use agent_server::router::media::{is_forbidden_media_path, media_mime_type};
use agent_server::types::Message;

fn media_msg(local_id: i64, msg_type: i32, timestamp: &str) -> Message {
    Message {
        local_id,
        server_id: 1,
        chat_id: "c".to_string(),
        sender: None,
        sender_name: None,
        msg_type,
        content: String::new(),
        timestamp: timestamp.to_string(),
        is_mentioned: None,
        mentioned_wxids: None,
        is_self: None,
        reply: None,
    }
}

#[test]
fn media_ready_event_payload_shape() {
    let event = media_ready_event(
        "56486886448@chatroom",
        42,
        "image",
        "jpeg",
        "/wechat-media/56486886448@chatroom/42.jpeg",
        "56486886448@chatroom/42.jpeg",
        1024,
    );
    assert_eq!(event.kind, kinds::MESSAGE_MEDIA_READY);
    assert_eq!(event.data.len(), 7);
    assert_eq!(event.data.get_str("chatId"), Some("56486886448@chatroom"));
    assert!(matches!(event.data.get("localId"), Some(JsonValue::Int(42))));
    assert_eq!(event.data.get_str("mediaType"), Some("image"));
    assert_eq!(event.data.get_str("format"), Some("jpeg"));
    assert!(matches!(event.data.get("sizeBytes"), Some(JsonValue::UInt(1024))));
    assert_eq!(event.data.get_str("containerPath"), Some("/wechat-media/56486886448@chatroom/42.jpeg"));
    assert_eq!(event.data.get_str("relativePath"), Some("56486886448@chatroom/42.jpeg"));
}

#[test]
fn media_poller_cold_start_advances_cursor_without_emit() {
    let decision = decide_media_action("pending", false, true);
    assert_eq!(decision, PollAction::UpdateCursor);
}

#[test]
fn media_actions_when_warm() {
    assert_eq!(decide_media_action("pending", true, false), PollAction::Retry);
    assert_eq!(decide_media_action("unsupported", true, false), PollAction::UpdateCursor);
    assert_eq!(decide_media_action("image", false, false), PollAction::UpdateCursor);
    assert_eq!(decide_media_action("image", true, false), PollAction::Emit);
}

#[test]
fn media_types_are_images_and_videos() {
    assert!(is_media_message_type(3));
    assert!(is_media_message_type(43));
    assert!(!is_media_message_type(1));
}

#[test]
fn create_time_parses_rfc3339() {
    assert_eq!(message_create_time("1970-01-01T00:01:00Z"), Some(60));
    assert_eq!(message_create_time("2026-05-27T08:00:00+08:00"), Some(1_779_840_000));
    assert_eq!(message_create_time("not a time"), None);
}

#[test]
fn relative_path_and_decoding() {
    assert_eq!(media_relative_path("a@chatroom", 42, "jpeg"), "a@chatroom/42.jpeg");
    assert_eq!(media_relative_path("a", -1, "mp4"), "a/-1.mp4");
    let f = prepare_media_file("c", 7, "png", "aGVsbG8=").unwrap();
    assert_eq!(f.relative_path, "c/7.png");
    assert_eq!(f.bytes, b"hello".to_vec());
    assert!(prepare_media_file("c", 7, "png", "!!not base64").is_none());
}

#[test]
fn original_wait_steps_by_half_seconds() {
    assert_eq!(next_original_wait(0, 5000), Some(500));
    assert_eq!(next_original_wait(4500, 5000), Some(5000));
    assert_eq!(next_original_wait(5000, 5000), None);
    assert_eq!(next_original_wait(0, 0), None);
}

#[test]
fn media_poller_scan_steps() {
    let mut bus = EventBus::new(8, 8);
    let mut p = MediaPoller::new(2000, "/wechat-media".to_string(), true, 5000);
    let (mut scan, sorted) = p.start_chat("c", vec![media_msg(9, 3, "x"), media_msg(4, 3, "x")]);
    assert_eq!(scan.latest_seen, 0);
    assert_eq!(sorted.iter().map(|m| m.local_id).collect::<Vec<_>>(), vec![4, 9]);
    assert_eq!(p.classify_message(&mut scan, &media_msg(1, 1, "x")), MediaStep::Skip);
    assert_eq!(p.classify_message(&mut scan, &media_msg(2, 3, "x")), MediaStep::RecordOnly);
    assert_eq!(scan.latest_seen, 2);
    p.finish_chat("c".to_string(), scan);
    p.finish_poll();
    assert_eq!(p.last_seen.get("c"), Some(&2));

    let (mut scan, _) = p.start_chat("c", Vec::new());
    assert_eq!(p.classify_message(&mut scan, &media_msg(2, 3, "x")), MediaStep::Skip);
    assert_eq!(
        p.classify_message(&mut scan, &media_msg(3, 3, "1970-01-01T00:00:10Z")),
        MediaStep::Fetch(OriginalFetch::WaitFor(10))
    );
    assert_eq!(p.classify_message(&mut scan, &media_msg(3, 3, "bad")), MediaStep::Fetch(OriginalFetch::NoTimestamp));
    assert_eq!(p.classify_message(&mut scan, &media_msg(3, 43, "bad")), MediaStep::Fetch(OriginalFetch::NotWanted));
    assert!(matches!(p.plan_lookup(&mut scan, "c", 3, "unsupported", "jpeg", Some("aGVsbG8=")), MediaPlan::SkipPast));
    assert_eq!(scan.latest_seen, 3);
    assert!(matches!(p.plan_lookup(&mut scan, "c", 4, "pending", "jpeg", None), MediaPlan::StopChat));
    assert_eq!(scan.latest_seen, 3);
    assert!(matches!(p.plan_lookup(&mut scan, "c", 4, "image", "jpeg", None), MediaPlan::SkipPast));
    assert_eq!(scan.latest_seen, 4);
    assert!(matches!(p.plan_lookup(&mut scan, "c", 5, "image", "jpeg", Some("!!")), MediaPlan::Undecodable));
    assert_eq!(scan.latest_seen, 4);
    let file = match p.plan_lookup(&mut scan, "c", 5, "image", "jpeg", Some("aGVsbG8=")) {
        MediaPlan::Write(f) => f,
        other => panic!("expected a file to write, got {other:?}"),
    };
    assert_eq!(file.relative_path, "c/5.jpeg");
    assert_eq!(file.bytes, b"hello".to_vec());
    assert_eq!(scan.latest_seen, 4);
    let mut rx = bus.subscribe();
    assert_eq!(p.media_file_path(&file), "/wechat-media/c/5.jpeg");
    p.announce_media(&mut scan, &mut bus, "c", 5, "image", "jpeg", &file);
    assert_eq!(scan.latest_seen, 5);
    assert_eq!(bus.ring_len(), 1);
    let e = rx.try_recv().unwrap();
    assert_eq!(e.kind, kinds::MESSAGE_MEDIA_READY);
    assert_eq!(e.data.get_str("relativePath"), Some("c/5.jpeg"));
    assert_eq!(e.data.get_str("containerPath"), Some("/wechat-media/c/5.jpeg"));
    assert!(matches!(e.data.get("sizeBytes"), Some(JsonValue::UInt(5))));
    p.finish_chat("c".to_string(), scan);
    assert_eq!(p.last_seen.get("c"), Some(&5));
}

#[test]
fn media_route_rules() {
    assert!(is_forbidden_media_path("../etc/passwd"));
    assert!(is_forbidden_media_path("a/..b"));
    assert!(!is_forbidden_media_path("a/b.jpeg"));
    assert_eq!(media_mime_type("JPG"), "image/jpeg");
    assert_eq!(media_mime_type("jpeg"), "image/jpeg");
    assert_eq!(media_mime_type("png"), "image/png");
    assert_eq!(media_mime_type("Mp4"), "video/mp4");
    assert_eq!(media_mime_type("gif"), "image/gif");
    assert_eq!(media_mime_type(""), "application/octet-stream");
    assert_eq!(media_mime_type("webp"), "application/octet-stream");
}

#[test]
fn media_paths_join_as_path_join_does() {
    assert_eq!(join_path("/wechat-media", "c/5.jpeg"), "/wechat-media/c/5.jpeg");
    assert_eq!(join_path("/wechat-media/", "c/5.jpeg"), "/wechat-media/c/5.jpeg");
    assert_eq!(join_path("", "c/5.jpeg"), "c/5.jpeg");
    assert_eq!(join_path("/wechat-media", "/abs/5.jpeg"), "/abs/5.jpeg");
    for (dir, rel) in [("/wechat-media", "c/5.jpeg"), ("/m/", "a"), ("", "x/y"), ("/d", "/e")] {
        let joined = std::path::Path::new(dir).join(rel);
        assert_eq!(join_path(dir, rel), joined.to_string_lossy());
    }
}
