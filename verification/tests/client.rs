use opencode_client::client::OpencodeClient;
use opencode_client::reply::{
    answer_of_body, answer_of_value, step_for_status, Answer, ReplyError, ReplyKind, StatusStep,
};
use opencode_client::request::{Method, Request};
use opencode_client::text::{contains_char, replace_first, trim_trailing_slashes};
use serde_json::Value;

fn object(members: Vec<(&str, Value)>) -> Value {
    let mut map = serde_json::Map::new();
    for (key, value) in members {
        map.insert(key.to_string(), value);
    }
    Value::Object(map)
}

fn client(base_url: &str, auth_token: &str) -> OpencodeClient {
    OpencodeClient::new(base_url.to_string(), auth_token.to_string())
}

fn check(request: Request, method: Method, url: &str, body: Option<Value>, reply: ReplyKind) {
    assert_eq!(request.method, method);
    assert_eq!(request.url, url);
    assert_eq!(request.body, body);
    assert_eq!(request.reply, reply);
}

#[test]
fn base_url_loses_its_trailing_slashes() {
    assert_eq!(client("http://h", "").base_url(), "http://h");
    assert_eq!(client("http://h/", "").base_url(), "http://h");
    assert_eq!(client("http://h/a///", "").base_url(), "http://h/a");
    assert_eq!(client("///", "").base_url(), "");
    assert_eq!(client("", "").base_url(), "");
    assert_eq!(client("http://h\u{e9}/", "").clone().base_url(), "http://h\u{e9}");
}

#[test]
fn trimming_twice_changes_nothing_more() {
    for text in ["", "/", "a//", "//a//b//"] {
        let once = trim_trailing_slashes(text);
        assert_eq!(once, text.trim_end_matches('/'));
        assert_eq!(trim_trailing_slashes(&once), once);
    }
}

#[test]
fn url_without_token_is_the_path() {
    assert_eq!(client("http://h/", "").url("/x"), "http://h/x");
    assert_eq!(client("http://h/", "").url("/x?a=1"), "http://h/x?a=1");
}

#[test]
fn token_goes_into_the_query() {
    assert_eq!(client("http://h", "t").url("/x"), "http://h/x?auth_token=t");
    assert_eq!(client("http://h", "t").url("/x?a=1"), "http://h/x?a=1&auth_token=t");
    assert_eq!(client("http://h?b", "t").url("/x"), "http://h?b/x?auth_token=t");
}

#[test]
fn terminals_are_websockets() {
    assert_eq!(client("http://h", "").pty_connect_url("7"), "ws://h/pty/7/connect");
    assert_eq!(
        client("http://h/", "t").pty_connect_url("7"),
        "ws://h/pty/7/connect?auth_token=t"
    );
    assert_eq!(
        client("https://h", "t").pty_connect_url("7"),
        "wss://h/pty/7/connect?auth_token=t"
    );
    assert_eq!(client("unix:h", "").pty_connect_url("7"), "unix:h/pty/7/connect");
    assert_eq!(
        client("http://h", "").pty_connect_url("http://https://"),
        "ws://h/pty/http://wss:///connect"
    );
    assert_eq!(
        client("https://h", "").pty_connect_url("http://https://"),
        "wss://h/pty/ws://https:///connect"
    );
}

#[test]
fn first_occurrence_is_replaced() {
    for (s, from, to) in [
        ("aXbXc", "X", "YY"),
        ("abc", "X", "Y"),
        ("", "X", "Y"),
        ("abc", "", "Y"),
        ("aab", "ab", ""),
        ("\u{e9}http://", "http://", "ws://"),
        ("ab", "abc", "Y"),
        ("abc", "abc", "Y"),
    ] {
        assert_eq!(replace_first(s, from, to), s.replacen(from, to, 1));
    }
}

#[test]
fn characters_are_found() {
    assert!(contains_char("a?b", '?'));
    assert!(contains_char("?", '?'));
    assert!(!contains_char("", '?'));
    assert!(!contains_char("abc", '?'));
}

#[test]
fn plain_requests() {
    let c = client("http://h", "t");
    let body = object(vec![("a", Value::from(1.5))]);
    let url = "http://h/x?auth_token=t";
    check(c.get("/x"), Method::Get, url, None, ReplyKind::Value);
    check(c.delete("/x"), Method::Delete, url, None, ReplyKind::Value);
    check(c.raw_get("/x"), Method::Get, url, None, ReplyKind::Raw);
    check(c.post("/x", body.clone()), Method::Post, url, Some(body.clone()), ReplyKind::Value);
    check(c.put("/x", body.clone()), Method::Put, url, Some(body.clone()), ReplyKind::Value);
    check(c.patch("/x", body.clone()), Method::Patch, url, Some(body.clone()), ReplyKind::Value);
    check(
        c.request(Method::Put, "/x", None).for_its_success(),
        Method::Put,
        url,
        None,
        ReplyKind::Done,
    );
}

#[test]
fn terminal_requests() {
    let c = client("http://h", "");
    let body = object(vec![("command", Value::from("sh"))]);
    check(
        c.pty_create(body.clone()),
        Method::Post,
        "http://h/pty",
        Some(body),
        ReplyKind::Value,
    );
    check(c.pty_remove("7"), Method::Delete, "http://h/pty/7", None, ReplyKind::Done);
    let size = object(vec![("rows", Value::from(24u32)), ("cols", Value::from(u32::MAX))]);
    check(
        c.pty_resize("7", 24, u32::MAX),
        Method::Put,
        "http://h/pty/7",
        Some(object(vec![("size", size)])),
        ReplyKind::Done,
    );
}

#[test]
fn session_creation_carries_what_is_given() {
    let c = client("http://h", "");
    let url = "http://h/session";
    let title = || Some("T".to_string());
    let permission = object(vec![("edit", Value::from("ask"))]);
    check(
        c.create_session(None, None),
        Method::Post,
        url,
        Some(object(vec![])),
        ReplyKind::Value,
    );
    check(
        c.create_session(title(), None),
        Method::Post,
        url,
        Some(object(vec![("title", Value::from("T"))])),
        ReplyKind::Value,
    );
    check(
        c.create_session(None, Some(permission.clone())),
        Method::Post,
        url,
        Some(object(vec![("permission", permission.clone())])),
        ReplyKind::Value,
    );
    check(
        c.create_session(title(), Some(permission.clone())),
        Method::Post,
        url,
        Some(object(vec![("title", Value::from("T")), ("permission", permission)])),
        ReplyKind::Value,
    );
}

#[test]
fn session_requests() {
    let c = client("http://h", "");
    check(
        c.summarize_session("s", "p", "m"),
        Method::Post,
        "http://h/session/s/summarize",
        Some(object(vec![
            ("providerID", Value::from("p")),
            ("modelID", Value::from("m")),
            ("auto", Value::Bool(false)),
        ])),
        ReplyKind::Value,
    );
    let named = Some(object(vec![("messageID", Value::from("msg"))]));
    check(
        c.revert_session("s", "msg"),
        Method::Post,
        "http://h/session/s/revert",
        named.clone(),
        ReplyKind::Value,
    );
    check(
        c.fork_session("s", Some("msg")),
        Method::Post,
        "http://h/session/s/fork",
        named,
        ReplyKind::Value,
    );
    check(
        c.fork_session("s", None),
        Method::Post,
        "http://h/session/s/fork",
        Some(object(vec![])),
        ReplyKind::Value,
    );
    check(
        c.list_messages("s"),
        Method::Get,
        "http://h/session/s/message",
        None,
        ReplyKind::Value,
    );
    let prompt = object(vec![("parts", Value::Array(vec![]))]);
    check(
        c.prompt_async("s", prompt.clone()),
        Method::Post,
        "http://h/session/s/prompt_async",
        Some(prompt),
        ReplyKind::Done,
    );
}

#[test]
fn prompt_replies() {
    let c = client("http://h", "");
    check(
        c.permission_reply("r", "once", None),
        Method::Post,
        "http://h/permission/r/reply",
        Some(object(vec![("reply", Value::from("once"))])),
        ReplyKind::Done,
    );
    check(
        c.permission_reply("r", "reject", Some("no")),
        Method::Post,
        "http://h/permission/r/reply",
        Some(object(vec![("reply", Value::from("reject")), ("message", Value::from("no"))])),
        ReplyKind::Done,
    );
    let answers = Value::Array(vec![Value::Array(vec![Value::from("yes")])]);
    check(
        c.question_reply("q", answers.clone()),
        Method::Post,
        "http://h/question/q/reply",
        Some(object(vec![("answers", answers)])),
        ReplyKind::Done,
    );
}

#[test]
fn error_statuses_are_refused() {
    for kind in [ReplyKind::Value, ReplyKind::Done, ReplyKind::Raw] {
        for status in [400, 404, 499, 500, 503, 599] {
            assert!(matches!(step_for_status(kind, status), StatusStep::Refused));
        }
        for status in [100, 200, 204, 302, 399, 600, 999] {
            assert!(!matches!(step_for_status(kind, status), StatusStep::Refused));
        }
    }
}

#[test]
fn no_content_is_null() {
    match step_for_status(ReplyKind::Value, 204) {
        StatusStep::Finished(Answer::Value(value)) => assert_eq!(value, Value::Null),
        step => panic!("{step:?}"),
    }
    assert!(matches!(
        step_for_status(ReplyKind::Done, 204),
        StatusStep::Finished(Answer::Done)
    ));
    assert!(matches!(step_for_status(ReplyKind::Raw, 204), StatusStep::HandOver));
}

#[test]
fn other_statuses_have_their_body_read() {
    for status in [200, 201, 203, 205, 302] {
        assert!(matches!(step_for_status(ReplyKind::Value, status), StatusStep::ReadBody));
        assert!(matches!(step_for_status(ReplyKind::Done, status), StatusStep::ReadBody));
        assert!(matches!(step_for_status(ReplyKind::Raw, status), StatusStep::HandOver));
    }
}

#[test]
fn bodies_are_json() {
    match answer_of_body(ReplyKind::Value, b"{\"a\": [1, 0.5]}") {
        Ok(Answer::Value(value)) => assert_eq!(
            value,
            object(vec![("a", Value::Array(vec![Value::from(1), Value::from(0.5)]))])
        ),
        answer => panic!("{answer:?}"),
    }
    assert!(matches!(answer_of_body(ReplyKind::Done, b"true"), Ok(Answer::Done)));
    for kind in [ReplyKind::Value, ReplyKind::Done] {
        for body in ["", "ok", "{", "1 2"] {
            match answer_of_body(kind, body.as_bytes()) {
                Err(error) => {
                    assert_eq!(error.message(), "error decoding response body");
                    let ReplyError::InvalidJson(cause) = error;
                    let expected = serde_json::from_slice::<Value>(body.as_bytes()).unwrap_err();
                    assert_eq!(cause.to_string(), expected.to_string());
                }
                answer => panic!("{answer:?}"),
            }
        }
    }
}

#[test]
fn cause_of_an_unreadable_body_is_kept() {
    match answer_of_body(ReplyKind::Value, b"{\n  \"a\": oops\n}") {
        Err(ReplyError::InvalidJson(cause)) => {
            assert_eq!(cause.line(), 2);
            assert_eq!(cause.column(), 8);
            assert_eq!(cause.to_string(), "expected value at line 2 column 8");
        }
        answer => panic!("{answer:?}"),
    }
}

#[test]
fn values_are_answers_or_dropped() {
    match answer_of_value(ReplyKind::Value, Value::from(3)) {
        Answer::Value(value) => assert_eq!(value, Value::from(3)),
        Answer::Done => panic!("dropped"),
    }
    assert!(matches!(answer_of_value(ReplyKind::Done, Value::from(3)), Answer::Done));
}
