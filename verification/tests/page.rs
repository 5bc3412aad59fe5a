use opencode_client::client::OpencodeClient;
use opencode_client::cursor::message_before_cursor;
use opencode_client::page::{
    contains_message, page_has_more, page_of_answer, page_of_body, page_of_messages, path_of_page,
    PageError,
};
use opencode_client::reply::ReplyKind;
use opencode_client::request::Method;
use serde_json::Value;

fn object(members: Vec<(&str, Value)>) -> Value {
    let mut map = serde_json::Map::new();
    for (key, value) in members {
        map.insert(key.to_string(), value);
    }
    Value::Object(map)
}

fn message(id: &str, role: &str, created: i64) -> Value {
    let time = object(vec![("created", Value::from(created))]);
    object(vec![
        (
            "info",
            object(vec![("id", Value::from(id)), ("role", Value::from(role)), ("time", time)]),
        ),
        ("parts", Value::Array(vec![])),
    ])
}

fn assistant_messages(count: i64) -> Vec<Value> {
    (1..=count).map(|i| message(&format!("a{i}"), "assistant", i)).collect()
}

fn answer(messages: &Vec<Value>) -> Vec<u8> {
    serde_json::to_vec(messages).unwrap()
}

#[test]
fn first_page_is_kept() {
    let messages = assistant_messages(4);
    let page = page_of_answer(&answer(&messages), Some(4), None);
    assert_eq!(page.unwrap(), (messages, true));
}

#[test]
fn repeated_page_is_refused() {
    let messages = assistant_messages(4);
    let client = OpencodeClient::new("http://localhost:4096".to_string(), String::new());
    for oldest in &messages {
        let cursor = message_before_cursor(oldest).unwrap();
        let request = client.list_messages_page("ses_page", Some(4), Some(&cursor));
        let error = request.page_of_answer(&answer(&messages)).unwrap_err();
        assert!(matches!(error, PageError::NotAdvancing));
        assert!(error.message().contains("pagination did not advance"));
    }
}

#[test]
fn repeated_page_of_a_tool_heavy_turn_is_refused() {
    let messages = assistant_messages(100);
    let cursor = message_before_cursor(&messages[0]).unwrap();
    let page = page_of_answer(&answer(&messages), Some(100), Some(&cursor));
    assert!(matches!(page, Err(PageError::NotAdvancing)));
}

#[test]
fn next_page_is_accepted() {
    let newest = assistant_messages(100);
    let cursor = message_before_cursor(&newest[0]).unwrap();
    let client = OpencodeClient::new("http://localhost:4096".to_string(), String::new());
    let request = client.list_messages_page("ses_page", Some(100), Some(&cursor));
    assert_eq!(
        request.request.url,
        format!("http://localhost:4096/session/ses_page/message?limit=100&before={cursor}")
    );
    let older = vec![message("u0", "user", 0)];
    let page = request.page_of_answer(&answer(&older));
    assert_eq!(page.unwrap(), (older, false));
}

#[test]
fn accepted_page_gives_another_cursor() {
    let newest = assistant_messages(3);
    let cursor = message_before_cursor(&newest[0]).unwrap();
    let older = vec![message("u0", "user", 0), message("u1", "user", 1)];
    let (kept, _) = page_of_answer(&answer(&older), Some(2), Some(&cursor)).unwrap();
    for message in &kept {
        assert_ne!(message_before_cursor(message).unwrap(), cursor);
    }
}

#[test]
fn unreadable_cursor_checks_nothing() {
    let messages = assistant_messages(2);
    for cursor in ["", "a1", "not base64!", "e30"] {
        let page = page_of_answer(&answer(&messages), None, Some(cursor));
        assert_eq!(page.unwrap(), (messages.clone(), false));
    }
}

#[test]
fn empty_cursor_is_no_cursor() {
    let client = OpencodeClient::new("http://h".to_string(), "tok".to_string());
    for limit in [None, Some(0), Some(2), Some(400)] {
        let without = client.list_messages_page("s", limit, None);
        let empty = client.list_messages_page("s", limit, Some(""));
        assert_eq!(empty.request.url, without.request.url);
        assert!(!empty.request.url.contains("before="));
        for body in ["", "null", "[]", "[{\"info\":{\"id\":\"\"}}]"] {
            let page = empty.page_of_answer(body.as_bytes());
            assert_eq!(
                format!("{page:?}"),
                format!("{:?}", without.page_of_answer(body.as_bytes()))
            );
            assert!(!matches!(page, Err(PageError::NotAdvancing)));
        }
    }
}

#[test]
fn cursor_of_a_message_reaches_the_server() {
    let client = OpencodeClient::new("http://h".to_string(), String::new());
    for id in ["", "a1"] {
        let cursor = message_before_cursor(&message(id, "user", 0)).unwrap();
        let request = client.list_messages_page("s", None, Some(&cursor)).request;
        assert_eq!(request.url, format!("http://h/session/s/message?before={cursor}"));
    }
}

#[test]
fn messages_without_ids_repeat_nothing() {
    let messages = vec![Value::Null, object(vec![]), Value::from("a1"), Value::from(3)];
    let cursor = message_before_cursor(&message("a1", "assistant", 1)).unwrap();
    let page = page_of_answer(&answer(&messages), Some(9), Some(&cursor));
    assert_eq!(page.unwrap(), (messages, false));
}

#[test]
fn body_that_is_no_array_is_an_empty_page() {
    for body in [Value::Null, object(vec![("a", Value::from(1))]), Value::from("x")] {
        assert_eq!(page_of_body(&body, Some(1), None).unwrap(), (vec![], false));
        assert_eq!(page_of_body(&body, Some(0), None).unwrap(), (vec![], true));
        assert_eq!(page_of_body(&body, None, None).unwrap(), (vec![], false));
    }
}

#[test]
fn body_that_is_no_json_is_an_error() {
    for body in ["", "[", "nonsense", "[] []"] {
        let error = page_of_answer(body.as_bytes(), Some(1), None).unwrap_err();
        assert_eq!(error.message(), "error decoding response body");
        let expected = serde_json::from_slice::<Value>(body.as_bytes()).unwrap_err();
        match error {
            PageError::InvalidJson(cause) => assert_eq!(cause.to_string(), expected.to_string()),
            PageError::NotAdvancing => panic!("refused"),
        }
    }
}

#[test]
fn messages_are_kept_as_they_are() {
    let messages = vec![object(vec![
        ("float", Value::from(0.1)),
        ("big", Value::from(u64::MAX)),
        ("nested", Value::Array(vec![Value::Null, Value::Bool(true), object(vec![])])),
    ])];
    let page = page_of_answer(&answer(&messages), None, None);
    assert_eq!(page.unwrap(), (messages, false));
}

#[test]
fn only_full_pages_may_have_more() {
    assert!(page_has_more(4, Some(4)));
    assert!(page_has_more(5, Some(4)));
    assert!(!page_has_more(3, Some(4)));
    assert!(page_has_more(0, Some(0)));
    assert!(!page_has_more(4, None));
    assert!(!page_has_more(4, Some(u32::MAX)));
}

#[test]
fn page_is_refused_by_its_anchor_alone() {
    let messages = assistant_messages(2);
    assert!(contains_message(&messages, "a2"));
    assert!(!contains_message(&messages, "a3"));
    assert!(matches!(
        page_of_messages(messages.clone(), Some(2), Some("a2")),
        Err(PageError::NotAdvancing)
    ));
    assert_eq!(
        page_of_messages(messages.clone(), Some(2), Some("a3")).unwrap(),
        (messages.clone(), true)
    );
    assert_eq!(page_of_messages(messages.clone(), Some(3), None).unwrap(), (messages, false));
}

#[test]
fn page_paths_carry_limit_and_cursor() {
    assert_eq!(path_of_page("s", None, None), "/session/s/message");
    assert_eq!(path_of_page("s", None, Some("")), "/session/s/message");
    assert_eq!(path_of_page("s", Some(0), None), "/session/s/message?limit=0");
    assert_eq!(path_of_page("s", Some(400), Some("")), "/session/s/message?limit=400");
    assert_eq!(path_of_page("s", None, Some("c")), "/session/s/message?before=c");
    assert_eq!(
        path_of_page("s", Some(u32::MAX), Some("c-_")),
        "/session/s/message?limit=4294967295&before=c-_"
    );
}

#[test]
fn page_request_is_a_raw_get() {
    let client = OpencodeClient::new("http://h".to_string(), "tok".to_string());
    let page = client.list_messages_page("s", Some(400), Some("c"));
    assert_eq!(page.request.method, Method::Get);
    assert_eq!(page.request.url, "http://h/session/s/message?limit=400&before=c&auth_token=tok");
    assert_eq!(page.request.body, None);
    assert_eq!(page.request.reply, ReplyKind::Raw);
    assert_eq!(page.limit, Some(400));
    assert_eq!(page.before, Some("c".to_string()));
    let all = client.list_messages_page("s", None, None);
    assert_eq!(all.request.url, "http://h/session/s/message?auth_token=tok");
    assert_eq!(all.before, None);
}
