use base64::Engine;
use opencode_client::cursor::{
    anchor_of_content, anchor_of_cursor, created_of_message, cursor_of_text, cursor_value,
    id_of_message, message_before_cursor, CursorError,
};
use serde_json::Value;

fn object(members: Vec<(&str, Value)>) -> Value {
    let mut map = serde_json::Map::new();
    for (key, value) in members {
        map.insert(key.to_string(), value);
    }
    Value::Object(map)
}

fn message(id: &str, created: i64) -> Value {
    let time = object(vec![("created", Value::from(created))]);
    object(vec![("info", object(vec![("id", Value::from(id)), ("time", time)]))])
}

fn encoded(text: &str) -> String {
    base64::engine::general_purpose::URL_SAFE_NO_PAD.encode(text)
}

#[test]
fn message_before_cursor_matches_opencode_shape() {
    let cursor = message_before_cursor(&message("msg_123", 456)).expect("cursor");
    let decoded = base64::engine::general_purpose::URL_SAFE_NO_PAD
        .decode(cursor)
        .expect("base64url cursor");
    let value: Value = serde_json::from_slice(&decoded).expect("cursor json");
    assert_eq!(
        value,
        object(vec![("id", Value::from("msg_123")), ("time", Value::from(456))])
    );
}

#[test]
fn cursor_has_the_expected_text() {
    let cursor = message_before_cursor(&message("a1", 1)).unwrap();
    assert_eq!(cursor, "eyJpZCI6ImExIiwidGltZSI6MX0");
    assert_eq!(cursor, encoded("{\"id\":\"a1\",\"time\":1}"));
}

#[test]
fn cursor_carries_a_given_text() {
    assert_eq!(cursor_of_text(b"{\"id\":\"a1\",\"time\":1}"), "eyJpZCI6ImExIiwidGltZSI6MX0");
    assert_eq!(cursor_of_text(b""), "");
    assert_eq!(cursor_of_text(&[0]), "AA");
    assert_eq!(cursor_of_text(&[0xff, 0xe0]), "_-A");
    assert_eq!(cursor_of_text(&[0xfb, 0xff, 0xbf]), "-_-_");
    assert_eq!(anchor_of_cursor(&cursor_of_text(b"{\"id\":\"a1\"}")), Some("a1".to_string()));
}

#[test]
fn cursor_is_url_safe_and_unpadded() {
    for id in ["", "a", "ab", "abc", "\u{3ff}\u{7ff}\u{ffff}", "???>>>~~~", "\"\\\n\u{1}"] {
        for created in [i64::MIN, -1, 0, 1, i64::MAX] {
            let cursor = message_before_cursor(&message(id, created)).unwrap();
            assert!(!cursor.is_empty());
            assert!(cursor
                .chars()
                .all(|c| c.is_ascii_alphanumeric() || c == '-' || c == '_'));
        }
    }
}

#[test]
fn cursor_gives_its_message_back() {
    for id in ["", "msg_123", "\"quoted\" \\ \n \u{1}", "\u{1f600}"] {
        for created in [i64::MIN, -7, 0, 456, i64::MAX] {
            let cursor = message_before_cursor(&message(id, created)).unwrap();
            assert_eq!(anchor_of_cursor(&cursor).as_deref(), Some(id));
            let bytes = base64::engine::general_purpose::URL_SAFE_NO_PAD.decode(&cursor).unwrap();
            let content: Value = serde_json::from_slice(&bytes).unwrap();
            assert_eq!(content, cursor_value(id, created));
        }
    }
}

#[test]
fn different_messages_have_different_cursors() {
    let cursor = message_before_cursor(&message("a", 1)).unwrap();
    assert_ne!(cursor, message_before_cursor(&message("b", 1)).unwrap());
    assert_ne!(cursor, message_before_cursor(&message("a", 2)).unwrap());
}

#[test]
fn message_without_id_has_no_cursor() {
    let time = object(vec![("created", Value::from(1))]);
    let without_id = object(vec![("info", object(vec![("time", time.clone())]))]);
    let numeric_id = object(vec![("info", object(vec![("id", Value::from(3)), ("time", time)]))]);
    for message in [
        Value::Null,
        Value::Bool(true),
        Value::Array(vec![Value::from("id")]),
        object(vec![]),
        object(vec![("info", Value::from("id"))]),
        object(vec![("info", Value::Array(vec![Value::from("id")]))]),
        object(vec![("id", Value::from("a"))]),
        without_id,
        numeric_id,
    ] {
        assert_eq!(message_before_cursor(&message), Err(CursorError::MissingId));
        assert_eq!(id_of_message(&message), None);
    }
}

#[test]
fn message_without_creation_time_has_no_cursor() {
    for created in [
        Value::Null,
        Value::from("456"),
        Value::from(4.5),
        Value::from(456.0),
        Value::from(u64::MAX),
        Value::from(9223372036854775808u64),
    ] {
        let time = object(vec![("created", created)]);
        let message = object(vec![("info", object(vec![("id", Value::from("a")), ("time", time)]))]);
        assert_eq!(message_before_cursor(&message), Err(CursorError::MissingCreated));
        assert_eq!(created_of_message(&message), None);
    }
    let without_time = object(vec![("info", object(vec![("id", Value::from("a"))]))]);
    assert_eq!(message_before_cursor(&without_time), Err(CursorError::MissingCreated));
}

#[test]
fn missing_id_comes_before_missing_time() {
    let empty = object(vec![("info", object(vec![]))]);
    assert_eq!(message_before_cursor(&empty), Err(CursorError::MissingId));
}

#[test]
fn cursor_errors_say_what_is_missing() {
    assert_eq!(CursorError::MissingId.message(), "message is missing info.id");
    assert_eq!(CursorError::MissingCreated.message(), "message is missing info.time.created");
}

#[test]
fn created_time_is_read_as_an_integer() {
    assert_eq!(created_of_message(&message("a", i64::MIN)), Some(i64::MIN));
    assert_eq!(created_of_message(&message("a", i64::MAX)), Some(i64::MAX));
}

#[test]
fn unreadable_cursor_names_no_message() {
    assert_eq!(anchor_of_cursor(""), None);
    assert_eq!(anchor_of_cursor("not base64!"), None);
    assert_eq!(anchor_of_cursor(&encoded("not json")), None);
    assert_eq!(anchor_of_cursor(&encoded("{\"time\":1}")), None);
    assert_eq!(anchor_of_cursor(&encoded("{\"id\":1}")), None);
    assert_eq!(anchor_of_cursor(&encoded("[\"id\"]")), None);
    assert_eq!(anchor_of_cursor("eyJpZCI6ImEifQ=="), None);
    assert_eq!(anchor_of_cursor(&encoded("{\"id\":\"a\"}")), Some("a".to_string()));
}

#[test]
fn only_exact_base64url_is_read() {
    assert_eq!(anchor_of_cursor("eyJpZCI6ImEifQ"), Some("a".to_string()));
    assert_eq!(anchor_of_cursor("eyJpZCI6ImEifR"), None);
    assert_eq!(anchor_of_cursor("eyJpZCI6ImEifQA"), None);
    assert_eq!(anchor_of_cursor("eyJpZCI6ImEif"), None);
    assert_eq!(anchor_of_cursor("eyJpZCI6Ij8_In0"), Some("??".to_string()));
    assert_eq!(anchor_of_cursor("eyJpZCI6Ij8/In0"), None);
    assert_eq!(anchor_of_cursor("eyJpZCI6ImEifQ\u{e9}"), None);
}

#[test]
fn content_names_its_id() {
    assert_eq!(anchor_of_content(&cursor_value("m", 3)), Some("m"));
    assert_eq!(anchor_of_content(&Value::from("m")), None);
}
