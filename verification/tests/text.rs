use agent_server::events::pollers::wechat_dbs::{
    has_message_db_key, has_message_store_key, has_missing_message_db, is_message_db_file_name,
    is_message_store_name,
};
use agent_server::str_map::StrMap;
use agent_server::text::{
    contains, ends_with, find, split_commas, starts_with, str_eq, str_lt, strip_prefix,
    strip_suffix, trim_str,
};

#[test]
fn text_prefix_suffix_and_search() {
    assert!(starts_with("message_0.db", "message_"));
    assert!(!starts_with("msg", "message_"));
    assert!(ends_with("message_0.db", ".db"));
    assert!(!ends_with("message_0.db-wal", ".db"));
    assert!(contains("message_fts.db", "fts"));
    assert!(!contains("message_0.db", "fts"));
    assert_eq!(find("abcabc", "ca"), Some(2));
    assert_eq!(find("abc", "x"), None);
    assert_eq!(find("abc", ""), Some(0));
    assert!(str_eq("abc", "abc"));
    assert!(!str_eq("abc", "abd"));
}

#[test]
fn text_strip_and_trim() {
    assert_eq!(strip_prefix("Bearer tok", "Bearer "), Some("tok"));
    assert_eq!(strip_prefix("Basic tok", "Bearer "), None);
    assert_eq!(strip_suffix("name.db", ".db"), Some("name"));
    assert_eq!(strip_suffix("name.txt", ".db"), None);
    assert_eq!(trim_str("  a b \t\n"), "a b");
    assert_eq!(trim_str("   "), "");
    assert_eq!(trim_str(""), "");
}

#[test]
fn text_split_commas_keeps_empty_pieces() {
    assert_eq!(split_commas("a,b"), vec!["a", "b"]);
    assert_eq!(split_commas("a,,b,"), vec!["a", "", "b", ""]);
    assert_eq!(split_commas(""), vec![""]);
}

#[test]
fn text_string_order() {
    assert!(str_lt("01A", "01B"));
    assert!(str_lt("01", "01A"));
    assert!(!str_lt("01B", "01A"));
    assert!(!str_lt("abc", "abc"));
}

#[test]
fn str_map_insert_replaces_in_place() {
    let mut m: StrMap<i64> = StrMap::new();
    assert_eq!(m.len(), 0);
    m.insert("a".to_string(), 1);
    m.insert("b".to_string(), 2);
    m.insert("a".to_string(), 3);
    assert_eq!(m.len(), 2);
    assert_eq!(m.get("a"), Some(&3));
    assert_eq!(m.get("b"), Some(&2));
    assert_eq!(m.get("c"), None);
    assert!(m.contains_key("b"));
    assert!(!m.contains_key("c"));
    assert_eq!(m.entry(0).key, "a");
    assert_eq!(m.entry(0).value, 3);
    assert_eq!(m.entry(1).key, "b");
}

#[test]
fn message_db_file_names() {
    assert!(is_message_db_file_name("message_0.db"));
    assert!(is_message_db_file_name("message_fts.db"));
    assert!(!is_message_db_file_name("contact.db"));
    assert!(is_message_store_name("message_0.db"));
    assert!(!is_message_store_name("message_fts.db"));
    assert!(!is_message_store_name("message_resource.db"));
    assert!(!is_message_store_name("message_0.db-wal"));
}

#[test]
fn message_db_keys_on_hand() {
    let on_disk = vec![
        "message_0.db".to_string(),
        "message_1.db".to_string(),
        "message_fts.db".to_string(),
    ];
    let keys = vec!["message_0.db".to_string(), "contact.db".to_string()];
    assert!(has_missing_message_db(&on_disk, &keys));
    let all = vec!["message_0.db".to_string(), "message_1.db".to_string()];
    assert!(!has_missing_message_db(&on_disk, &all));
    assert!(has_message_store_key(&keys));
    assert!(!has_message_store_key(&vec!["contact.db".to_string()]));
    assert!(has_message_db_key(&vec!["message_fts.db".to_string()]));
    assert!(!has_message_db_key(&vec!["session.db".to_string()]));
}
