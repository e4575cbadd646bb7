use agent_server::config::{parse_bool_env_var, parse_bool_text, receive_only_probe_secs_from, PollersConfig, WsConfig};

#[test]
fn parse_bool_env_var_accepts_truthy_values() {
    assert!(!parse_bool_env_var(None));
    for on in ["1", "true", "on", "yes", "TRUE", "On", "YeS"] {
        assert!(parse_bool_env_var(Some(on.to_string())), "{on}");
    }
    for off in ["false", "0", "", " 1", "enabled", "tru"] {
        assert!(!parse_bool_env_var(Some(off.to_string())), "{off}");
    }
}

#[test]
fn probe_secs_defaults_to_off() {
    assert_eq!(receive_only_probe_secs_from(None), 0);
    assert_eq!(receive_only_probe_secs_from(Some("30")), 30);
    assert_eq!(receive_only_probe_secs_from(Some("+7")), 7);
    assert_eq!(receive_only_probe_secs_from(Some("-1")), 0);
    assert_eq!(receive_only_probe_secs_from(Some("abc")), 0);
}

#[test]
fn test_receive_only_env_var_parsing() {
    // The variable unset, then set to each value in turn.
    assert!(!parse_bool_env_var(None));
    assert!(parse_bool_env_var(Some("1".to_string())));
    assert!(parse_bool_env_var(Some("true".to_string())));
    assert!(parse_bool_env_var(Some("on".to_string())));
    assert!(!parse_bool_env_var(Some("false".to_string())));
    assert!(!parse_bool_env_var(Some("0".to_string())));
}

#[test]
fn test_receive_only_probe_secs_default_off() {
    assert_eq!(receive_only_probe_secs_from(None), 0);
    assert_eq!(receive_only_probe_secs_from(Some("30")), 30);
}

#[test]
fn defaults() {
    let ws = WsConfig::default();
    assert_eq!(ws.ring_buffer_size, 10_000);
    assert_eq!(ws.broadcast_capacity, 1024);
    assert_eq!(ws.heartbeat_interval_secs, 30);
    let p = PollersConfig::default();
    assert_eq!(p.message_interval_ms, 200);
    assert_eq!(p.friend_request_interval_ms, 500);
    assert_eq!(p.contact_diff_interval_secs, 60);
    assert_eq!(p.media_interval_ms, Some(2000));
    assert!(p.image_fetch_original);
    assert_eq!(p.image_fetch_timeout_ms, 5000);
}

#[test]
fn settings_from_values() {
    let ws = WsConfig::from_values(Some("5"), Some("x"), None);
    assert_eq!(ws.ring_buffer_size, 5);
    assert_eq!(ws.broadcast_capacity, 1024);
    assert_eq!(ws.heartbeat_interval_secs, 30);
    let p = PollersConfig::from_values(Some("10"), None, Some("18446744073709551616"), None, Some("false"), Some("1"));
    assert_eq!(p.message_interval_ms, 10);
    assert_eq!(p.friend_request_interval_ms, 500);
    assert_eq!(p.contact_diff_interval_secs, 60);
    assert_eq!(p.media_interval_ms, None);
    assert!(!p.image_fetch_original);
    assert_eq!(p.image_fetch_timeout_ms, 1);
    let p = PollersConfig::from_values(None, None, None, Some("750"), Some("TRUE"), None);
    assert_eq!(p.media_interval_ms, Some(750));
    assert!(p.image_fetch_original);
}

#[test]
fn bool_text_is_exact() {
    assert_eq!(parse_bool_text("true"), Some(true));
    assert_eq!(parse_bool_text("false"), Some(false));
    assert_eq!(parse_bool_text("True"), None);
}

#[test]
fn flag_value_case_does_not_matter() {
    for v in ["TRUE", "True", "YES", "ON"] {
        assert_eq!(
            parse_bool_env_var(Some(v.to_string())),
            parse_bool_env_var(Some(v.to_ascii_lowercase()))
        );
        assert!(parse_bool_env_var(Some(v.to_string())));
    }
    assert_eq!(
        parse_bool_env_var(Some("FALSE".to_string())),
        parse_bool_env_var(Some("false".to_string()))
    );
}
