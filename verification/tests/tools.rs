use agent_server::tools::wechat_chatroom_members::has_contact_db_key;
use agent_server::events::{JsonValue, Payload};
use agent_server::tools::a11y_daemon::{a11y_launch_command, probe_says_running, stop_a11y, AT_SPI_MATCH};
use agent_server::tools::wechat_chatroom_members::list_chatroom_members;

#[test]
fn test_pattern_matches_launcher_path() {
    assert!("/usr/libexec/at-spi-bus-launcher".contains(AT_SPI_MATCH));
}

#[test]
fn test_stop_guard_inactive_is_noop() {
    struct G {
        active: bool,
    }
    impl Drop for G {
        fn drop(&mut self) {
            if self.active {
                stop_a11y();
            }
        }
    }
    let _g = G { active: false };
}

#[test]
fn launch_command_for_session() {
    assert_eq!(
        a11y_launch_command(":1", Some("unix:path=/run/bus"), "wx"),
        "DISPLAY=:1 DBUS_SESSION_BUS_ADDRESS=unix:path=/run/bus HOME=/home/wx /usr/libexec/at-spi-bus-launcher &"
    );
    assert_eq!(
        a11y_launch_command(":0", None, "u"),
        "DISPLAY=:0 DBUS_SESSION_BUS_ADDRESS= HOME=/home/u /usr/libexec/at-spi-bus-launcher &"
    );
}

#[test]
fn probe_needs_success_and_output() {
    assert!(probe_says_running(true, true, 5));
    assert!(!probe_says_running(true, true, 0));
    assert!(!probe_says_running(true, false, 5));
    assert!(!probe_says_running(false, true, 5));
}

#[test]
fn chatroom_members_from_rows() {
    let rows = vec![
        Payload::new().with("wxid", JsonValue::Str("w1".into())).with("nickname", JsonValue::Str("N1".into())),
        Payload::new().with("wxid", JsonValue::Str(String::new())).with("nickname", JsonValue::Str("X".into())),
        Payload::new().with("wxid", JsonValue::Str("w2".into())).with("nickname", JsonValue::Null),
        Payload::new().with("nickname", JsonValue::Str("Y".into())),
    ];
    let members = list_chatroom_members(&rows);
    assert_eq!(members.len(), 2);
    assert_eq!(members[0].wxid, "w1");
    assert_eq!(members[0].nickname, "N1");
    assert_eq!(members[1].wxid, "w2");
    assert_eq!(members[1].nickname, "");
}

#[test]
fn contact_db_key_on_hand() {
    assert!(has_contact_db_key(&vec!["message_0.db".to_string(), "contact.db".to_string()]));
    assert!(!has_contact_db_key(&vec!["message_0.db".to_string()]));
    assert!(!has_contact_db_key(&Vec::new()));
}
