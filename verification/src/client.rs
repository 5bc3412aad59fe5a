//! The client of an opencode server: the request that each operation sends.
//!
//! The client does not send anything. Each operation gives a [`Request`]; whoever sends it
//! hands the answer to [`crate::reply`] or [`crate::page`].

use crate::json;
use crate::json::{json_of, Json};
use crate::page;
use crate::page::PageRequest;
use crate::reply::ReplyKind;
use crate::request::{Method, Request, RequestView};
use crate::text;
use serde_json::Value;
use vstd::prelude::*;

verus! {

/// A client of an opencode server.
pub struct OpencodeClient {
    base_url: String,
    auth_token: String,
}

/// A client as a mathematical object.
pub struct ClientView {
    /// The URL of the server, without slashes at its end.
    pub base_url: Seq<char>,
    /// The token sent along with each request; empty for none.
    pub auth_token: Seq<char>,
}

impl View for OpencodeClient {
    type V = ClientView;

    closed spec fn view(&self) -> ClientView {
        ClientView { base_url: self.base_url@, auth_token: self.auth_token@ }
    }
}

impl ClientView {
    /// The URL of a path: the token, if there is one, goes into the query.
    pub open spec fn url(self, path: Seq<char>) -> Seq<char> {
        if self.auth_token.len() == 0 {
            self.base_url + path
        } else {
            self.base_url + path + (if path.contains('?') {
                seq!['&']
            } else {
                seq!['?']
            }) + "auth_token="@ + self.auth_token
        }
    }

    /// A request that is answered with a JSON value.
    pub open spec fn request(
        self,
        method: Method,
        path: Seq<char>,
        body: Option<Json>,
    ) -> RequestView {
        RequestView { method, url: self.url(path), body, reply: ReplyKind::Value }
    }

    /// A request of which only the success is asked.
    pub open spec fn command(
        self,
        method: Method,
        path: Seq<char>,
        body: Option<Json>,
    ) -> RequestView {
        RequestView { method, url: self.url(path), body, reply: ReplyKind::Done }
    }

    /// A request that is answered with the response itself.
    pub open spec fn raw_request(self, path: Seq<char>) -> RequestView {
        RequestView { method: Method::Get, url: self.url(path), body: None, reply: ReplyKind::Raw }
    }

    /// The URL of the websocket of a terminal.
    pub open spec fn pty_connect_url(self, pty_id: Seq<char>) -> Seq<char> {
        text::with_first_replaced(
            text::with_first_replaced(
                self.url("/pty/"@ + pty_id + "/connect"@),
                "http://"@,
                "ws://"@,
            ),
            "https://"@,
            "wss://"@,
        )
    }
}

/// The body that sets the size of a terminal.
pub open spec fn resize_body(rows: u32, cols: u32) -> Json {
    Json::Object(
        json::no_members().insert(
            "size"@,
            Json::Object(
                json::no_members().insert("rows"@, Json::Int(rows as int)).insert(
                    "cols"@,
                    Json::Int(cols as int),
                ),
            ),
        ),
    )
}

/// These members and, where there is a text, the text under `key`.
pub open spec fn with_text(
    members: Map<Seq<char>, Json>,
    key: Seq<char>,
    text: Option<Seq<char>>,
) -> Map<Seq<char>, Json> {
    match text {
        Some(text) => members.insert(key, Json::Text(text)),
        None => members,
    }
}

/// The body that creates a session: a title and a permission, each where it is given.
pub open spec fn create_session_body(title: Option<Seq<char>>, permission: Option<Json>) -> Json {
    let members = with_text(json::no_members(), "title"@, title);
    Json::Object(
        match permission {
            Some(permission) => members.insert("permission"@, permission),
            None => members,
        },
    )
}

/// The body that summarizes a session, on request and not by the server's own decision.
pub open spec fn summarize_body(provider_id: Seq<char>, model_id: Seq<char>) -> Json {
    Json::Object(
        json::no_members().insert("providerID"@, Json::Text(provider_id)).insert(
            "modelID"@,
            Json::Text(model_id),
        ).insert("auto"@, Json::Bool(false)),
    )
}

/// The body that names a message, or an empty object.
pub open spec fn message_body(message_id: Option<Seq<char>>) -> Json {
    Json::Object(with_text(json::no_members(), "messageID"@, message_id))
}

/// The body that answers a permission prompt, with a message where there is one.
pub open spec fn permission_body(reply: Seq<char>, message: Option<Seq<char>>) -> Json {
    Json::Object(
        with_text(json::no_members().insert("reply"@, Json::Text(reply)), "message"@, message),
    )
}

/// The body that answers a question.
pub open spec fn question_body(answers: Json) -> Json {
    Json::Object(json::no_members().insert("answers"@, answers))
}

/// The path of something that belongs to one item of a collection.
pub open spec fn item_path(collection: Seq<char>, id: Seq<char>, rest: Seq<char>) -> Seq<char> {
    collection + id + rest
}

/// A session is created with the title and the permission that are given, and with nothing else.
pub proof fn session_body_holds_what_is_given(
    title: Option<Seq<char>>,
    permission: Option<Json>,
    key: Seq<char>,
)
    ensures
        json::member(create_session_body(title, permission), "title"@) == match title {
            Some(title) => Some(Json::Text(title)),
            None => None,
        },
        json::member(create_session_body(title, permission), "permission"@) == permission,
        key != "title"@ && key != "permission"@ ==> json::member(
            create_session_body(title, permission),
            key,
        ) is None,
{
    reveal_strlit("title");
    reveal_strlit("permission");
    assert("title"@.len() != "permission"@.len());
}

/// A permission prompt is answered with the reply, the message if there is one, and nothing else.
pub proof fn permission_body_holds_what_is_given(
    reply: Seq<char>,
    message: Option<Seq<char>>,
    key: Seq<char>,
)
    ensures
        json::member(permission_body(reply, message), "reply"@) == Some(Json::Text(reply)),
        json::member(permission_body(reply, message), "message"@) == match message {
            Some(message) => Some(Json::Text(message)),
            None => None,
        },
        key != "reply"@ && key != "message"@ ==> json::member(
            permission_body(reply, message),
            key,
        ) is None,
{
    reveal_strlit("reply");
    reveal_strlit("message");
    assert("reply"@.len() != "message"@.len());
}

/// A summary is asked for with the provider and the model, and never as an automatic one.
pub proof fn summarize_body_holds_what_is_given(
    provider_id: Seq<char>,
    model_id: Seq<char>,
    key: Seq<char>,
)
    ensures
        json::member(summarize_body(provider_id, model_id), "providerID"@) == Some(
            Json::Text(provider_id),
        ),
        json::member(summarize_body(provider_id, model_id), "modelID"@) == Some(
            Json::Text(model_id),
        ),
        json::member(summarize_body(provider_id, model_id), "auto"@) == Some(Json::Bool(false)),
        key != "providerID"@ && key != "modelID"@ && key != "auto"@ ==> json::member(
            summarize_body(provider_id, model_id),
            key,
        ) is None,
{
    reveal_strlit("providerID");
    reveal_strlit("modelID");
    reveal_strlit("auto");
    assert("providerID"@.len() != "modelID"@.len());
    assert("providerID"@.len() != "auto"@.len());
    assert("modelID"@.len() != "auto"@.len());
}

/// A terminal is resized to the rows and the columns that are given, and nothing else is said.
pub proof fn resize_body_holds_what_is_given(rows: u32, cols: u32, key: Seq<char>)
    ensures
        ({
            let size = json::member(resize_body(rows, cols), "size"@);
            &&& json::then_member(size, "rows"@) == Some(Json::Int(rows as int))
            &&& json::then_member(size, "cols"@) == Some(Json::Int(cols as int))
            &&& key != "rows"@ && key != "cols"@ ==> json::then_member(size, key) is None
            &&& key != "size"@ ==> json::member(resize_body(rows, cols), key) is None
        }),
{
    reveal_strlit("rows");
    reveal_strlit("cols");
    assert("rows"@[0] != "cols"@[0]);
}

/// Every URL starts with the URL of the server and the path.
pub proof fn url_starts_with_base_and_path(client: ClientView, path: Seq<char>)
    ensures
        (client.base_url + path).is_prefix_of(client.url(path)),
{
    let start = client.base_url + path;
    assert(start =~= client.url(path).take(start.len() as int));
}

/// A token ends the URL, as the last parameter of its query.
pub proof fn token_ends_the_query(client: ClientView, path: Seq<char>)
    requires
        client.auth_token.len() > 0,
    ensures
        client.url(path).contains('?'),
        ("auth_token="@ + client.auth_token).is_suffix_of(client.url(path)),
        ({
            let parameter = "auth_token="@ + client.auth_token;
            let before = client.url(path)[client.url(path).len() - parameter.len() - 1];
            before == (if path.contains('?') {
                '&'
            } else {
                '?'
            })
        }),
{
    let url = client.url(path);
    let n = client.base_url.len() as int;
    if path.contains('?') {
        let i = choose|i: int| 0 <= i < path.len() && path[i] == '?';
        assert(url[n + i] == '?');
    } else {
        assert(url[n + path.len()] == '?');
    }
    let parameter = "auth_token="@ + client.auth_token;
    assert(parameter =~= url.subrange(url.len() - parameter.len(), url.len() as int));
}

/// Without a token the URL is the path at the server and nothing else.
pub proof fn no_token_leaves_the_path(client: ClientView, path: Seq<char>)
    requires
        client.auth_token.len() == 0,
    ensures
        client.url(path) == client.base_url + path,
{
}

/// An empty cursor and none send the same request for a page.
pub proof fn empty_cursor_sends_the_same_request(
    client: ClientView,
    session_id: Seq<char>,
    limit: Option<u32>,
)
    ensures
        client.raw_request(page::page_path(session_id, limit, Some(Seq::empty())))
            == client.raw_request(page::page_path(session_id, limit, None)),
{
    page::empty_cursor_is_no_cursor(session_id, limit, Seq::empty());
}

/// The terminals of a server at `http://..` are reached at `ws://..`. What follows the scheme
/// stays as it is, save for the first `https://` in it, if there is one.
pub proof fn http_terminals_are_ws(client: ClientView, host: Seq<char>, pty_id: Seq<char>)
    requires
        client.base_url == "http://"@ + host,
    ensures
        ({
            let rest = client.url("/pty/"@ + pty_id + "/connect"@).skip(7);
            &&& client.pty_connect_url(pty_id) == "ws://"@ + text::with_first_replaced(
                rest,
                "https://"@,
                "wss://"@,
            )
            &&& (forall|i: int| !text::occurs_at(rest, "https://"@, i))
                ==> client.pty_connect_url(pty_id) == "ws://"@ + rest
        }),
{
    reveal_strlit("http://");
    reveal_strlit("https://");
    reveal_strlit("ws://");
    let url = client.url("/pty/"@ + pty_id + "/connect"@);
    let rest = url.skip(7);
    assert(url =~= "http://"@ + rest);
    assert(url.subrange(0, 7) =~= "http://"@);
    assert(text::first_occurs_at(url, "http://"@, 0));
    text::lemma_first_replaced(url, "http://"@, "ws://"@, 0);
    let plain = "ws://"@ + rest;
    assert(text::with_first_replaced(url, "http://"@, "ws://"@) =~= plain);
    assert forall|i: int| 0 <= i < "ws://"@.len() implies !text::occurs_at(
        plain,
        "https://"@,
        i,
    ) by {
        if text::occurs_at(plain, "https://"@, i) {
            assert(plain.subrange(i, i + 8)[0] == plain[i]);
        }
    }
    text::lemma_replaced_behind("ws://"@, rest, "https://"@, "wss://"@);
}

/// The terminals of a server at `https://..` are reached at `wss://..`. What follows the scheme
/// stays as it is, save for the first `http://` in it, if there is one.
pub proof fn https_terminals_are_wss(client: ClientView, host: Seq<char>, pty_id: Seq<char>)
    requires
        client.base_url == "https://"@ + host,
    ensures
        ({
            let rest = client.url("/pty/"@ + pty_id + "/connect"@).skip(8);
            &&& client.pty_connect_url(pty_id) == "wss://"@ + text::with_first_replaced(
                rest,
                "http://"@,
                "ws://"@,
            )
            &&& (forall|i: int| !text::occurs_at(rest, "http://"@, i))
                ==> client.pty_connect_url(pty_id) == "wss://"@ + rest
        }),
{
    reveal_strlit("http://");
    reveal_strlit("https://");
    let url = client.url("/pty/"@ + pty_id + "/connect"@);
    let rest = url.skip(8);
    assert(url =~= "https://"@ + rest);
    assert forall|i: int| 0 <= i < "https://"@.len() implies !text::occurs_at(
        "https://"@ + rest,
        "http://"@,
        i,
    ) by {
        if text::occurs_at(url, "http://"@, i) {
            assert(url.subrange(i, i + 7)[0] == url[i]);
            assert(url.subrange(i, i + 7)[4] == url[i + 4]);
        }
    }
    text::lemma_replaced_behind("https://"@, rest, "http://"@, "ws://"@);
    let tail = text::with_first_replaced(rest, "http://"@, "ws://"@);
    let plain = "https://"@ + tail;
    assert(plain.subrange(0, 8) =~= "https://"@);
    assert(text::first_occurs_at(plain, "https://"@, 0));
    text::lemma_first_replaced(plain, "https://"@, "wss://"@, 0);
    assert(text::with_first_replaced(plain, "https://"@, "wss://"@) =~= "wss://"@ + tail);
}

/// The path of something that belongs to one item of a collection.
fn path_of_item(collection: &str, id: &str, rest: &str) -> (path: String)
    ensures
        path@ == item_path(collection@, id@, rest@),
{
    let mut path = collection.to_owned();
    path.append(id);
    path.append(rest);
    path
}

/// Sets the member under `key` to a text.
fn insert_text(members: &mut serde_json::Map<String, Value>, key: &str, text: &str)
    ensures
        json::members_of(*final(members)) == json::members_of(*old(members)).insert(
            key@,
            Json::Text(text@),
        ),
{
    members.insert(key.to_owned(), json::text_value(text.to_owned()));
}

impl Clone for OpencodeClient {
    fn clone(&self) -> (copy: Self)
        ensures
            copy@ == self@,
    {
        proof {
            use_type_invariant(self);
        }
        OpencodeClient { base_url: self.base_url.clone(), auth_token: self.auth_token.clone() }
    }
}

impl OpencodeClient {
    #[verifier::type_invariant]
    spec fn well_formed(self) -> bool {
        self.base_url@.len() > 0 ==> self.base_url@.last() != '/'
    }

    /// A client of the server at `base_url`; slashes at the end of the URL are dropped.
    pub fn new(base_url: String, auth_token: String) -> (client: Self)
        ensures
            client@.base_url == text::without_trailing_slashes(base_url@),
            client@.auth_token == auth_token@,
    {
        proof {
            text::trimming_removes_only_trailing_slashes(base_url@);
        }
        OpencodeClient { base_url: text::trim_trailing_slashes(base_url.as_str()), auth_token }
    }

    /// The URL of the server. It does not end in a slash.
    pub fn base_url(&self) -> (base_url: &str)
        ensures
            base_url@ == self@.base_url,
            base_url@.len() > 0 ==> base_url@.last() != '/',
    {
        proof {
            use_type_invariant(self);
        }
        self.base_url.as_str()
    }

    /// The URL of a path.
    pub fn url(&self, path: &str) -> (url: String)
        ensures
            url@ == self@.url(path@),
    {
        let mut url = self.base_url.clone();
        url.append(path);
        if !self.auth_token.as_str().is_empty() {
            proof {
                reveal_strlit("&");
                reveal_strlit("?");
            }
            if text::contains_char(path, '?') {
                url.append("&");
            } else {
                url.append("?");
            }
            assert("&"@ =~= seq!['&']);
            assert("?"@ =~= seq!['?']);
            url.append("auth_token=");
            url.append(self.auth_token.as_str());
        }
        url
    }

    /// A request that is answered with a JSON value.
    pub fn request(&self, method: Method, path: &str, body: Option<Value>) -> (request: Request)
        ensures
            request@ == self@.request(
                method,
                path@,
                match body {
                    Some(body) => Some(json_of(body)),
                    None => None,
                },
            ),
            request.body == body,
    {
        Request { method, url: self.url(path), body, reply: ReplyKind::Value }
    }

    /// `GET` of a path.
    pub fn get(&self, path: &str) -> (request: Request)
        ensures
            request@ == self@.request(Method::Get, path@, None),
    {
        self.request(Method::Get, path, None)
    }

    /// `POST` of a body to a path.
    pub fn post(&self, path: &str, body: Value) -> (request: Request)
        ensures
            request@ == self@.request(Method::Post, path@, Some(json_of(body))),
            request.body == Some(body),
    {
        self.request(Method::Post, path, Some(body))
    }

    /// `PATCH` of a path with a body.
    pub fn patch(&self, path: &str, body: Value) -> (request: Request)
        ensures
            request@ == self@.request(Method::Patch, path@, Some(json_of(body))),
            request.body == Some(body),
    {
        self.request(Method::Patch, path, Some(body))
    }

    /// `PUT` of a body to a path.
    pub fn put(&self, path: &str, body: Value) -> (request: Request)
        ensures
            request@ == self@.request(Method::Put, path@, Some(json_of(body))),
            request.body == Some(body),
    {
        self.request(Method::Put, path, Some(body))
    }

    /// `DELETE` of a path.
    pub fn delete(&self, path: &str) -> (request: Request)
        ensures
            request@ == self@.request(Method::Delete, path@, None),
    {
        self.request(Method::Delete, path, None)
    }

    /// `GET` of a path, answered with the response itself.
    pub fn raw_get(&self, path: &str) -> (request: Request)
        ensures
            request@ == self@.raw_request(path@),
    {
        Request { method: Method::Get, url: self.url(path), body: None, reply: ReplyKind::Raw }
    }

    /// `ws://…/pty/{id}/connect[?auth_token=…]`, the websocket of a terminal; `wss://` for a
    /// server behind `https://`.
    pub fn pty_connect_url(&self, pty_id: &str) -> (url: String)
        ensures
            url@ == self@.pty_connect_url(pty_id@),
    {
        let path = path_of_item("/pty/", pty_id, "/connect");
        let url = self.url(path.as_str());
        let url = text::replace_first(url.as_str(), "http://", "ws://");
        text::replace_first(url.as_str(), "https://", "wss://")
    }

    /// `POST /pty`: starts a terminal.
    pub fn pty_create(&self, body: Value) -> (request: Request)
        ensures
            request@ == self@.request(Method::Post, "/pty"@, Some(json_of(body))),
            request.body == Some(body),
    {
        self.post("/pty", body)
    }

    /// `DELETE /pty/:id`: ends a terminal.
    pub fn pty_remove(&self, pty_id: &str) -> (request: Request)
        ensures
            request@ == self@.command(Method::Delete, "/pty/"@ + pty_id@, None),
    {
        let path = path_of_item("/pty/", pty_id, "");
        proof {
            reveal_strlit("");
            assert(path@ =~= "/pty/"@ + pty_id@);
        }
        self.delete(path.as_str()).for_its_success()
    }

    /// `PUT /pty/:id`: sets the size of a terminal.
    pub fn pty_resize(&self, pty_id: &str, rows: u32, cols: u32) -> (request: Request)
        ensures
            request@ == self@.command(
                Method::Put,
                "/pty/"@ + pty_id@,
                Some(resize_body(rows, cols)),
            ),
    {
        let mut size = serde_json::Map::new();
        size.insert("rows".to_owned(), json::int_value(rows as i64));
        size.insert("cols".to_owned(), json::int_value(cols as i64));
        let mut members = serde_json::Map::new();
        members.insert("size".to_owned(), json::object_value(size));
        let path = path_of_item("/pty/", pty_id, "");
        proof {
            reveal_strlit("");
            assert(path@ =~= "/pty/"@ + pty_id@);
        }
        self.put(path.as_str(), json::object_value(members)).for_its_success()
    }

    /// `POST /session`: creates a session.
    pub fn create_session(&self, title: Option<String>, permission: Option<Value>) -> (request:
        Request)
        ensures
            request@ == self@.request(
                Method::Post,
                "/session"@,
                Some(
                    create_session_body(
                        match title {
                            Some(title) => Some(title@),
                            None => None,
                        },
                        match permission {
                            Some(permission) => Some(json_of(permission)),
                            None => None,
                        },
                    ),
                ),
            ),
    {
        let mut members = serde_json::Map::new();
        if let Some(title) = title {
            members.insert("title".to_owned(), json::text_value(title));
        }
        if let Some(permission) = permission {
            members.insert("permission".to_owned(), permission);
        }
        self.post("/session", json::object_value(members))
    }

    /// `POST /session/:id/summarize`.
    pub fn summarize_session(
        &self,
        session_id: &str,
        provider_id: &str,
        model_id: &str,
    ) -> (request: Request)
        ensures
            request@ == self@.request(
                Method::Post,
                item_path("/session/"@, session_id@, "/summarize"@),
                Some(summarize_body(provider_id@, model_id@)),
            ),
    {
        let mut members = serde_json::Map::new();
        insert_text(&mut members, "providerID", provider_id);
        insert_text(&mut members, "modelID", model_id);
        members.insert("auto".to_owned(), json::bool_value(false));
        let path = path_of_item("/session/", session_id, "/summarize");
        self.post(path.as_str(), json::object_value(members))
    }

    /// `POST /session/:id/revert`: takes a session back to a message.
    pub fn revert_session(&self, session_id: &str, message_id: &str) -> (request: Request)
        ensures
            request@ == self@.request(
                Method::Post,
                item_path("/session/"@, session_id@, "/revert"@),
                Some(message_body(Some(message_id@))),
            ),
    {
        let mut members = serde_json::Map::new();
        insert_text(&mut members, "messageID", message_id);
        let path = path_of_item("/session/", session_id, "/revert");
        self.post(path.as_str(), json::object_value(members))
    }

    /// `POST /session/:id/fork`: forks a session, at a message where one is given.
    pub fn fork_session(&self, session_id: &str, message_id: Option<&str>) -> (request: Request)
        ensures
            request@ == self@.request(
                Method::Post,
                item_path("/session/"@, session_id@, "/fork"@),
                Some(message_body(text::optional_chars(message_id))),
            ),
    {
        let mut members = serde_json::Map::new();
        if let Some(message_id) = message_id {
            insert_text(&mut members, "messageID", message_id);
        }
        let path = path_of_item("/session/", session_id, "/fork");
        self.post(path.as_str(), json::object_value(members))
    }

    /// `GET /session/:id/message`: all messages of a session.
    pub fn list_messages(&self, session_id: &str) -> (request: Request)
        ensures
            request@ == self@.request(Method::Get, page::messages_path(session_id@), None),
    {
        let path = path_of_item("/session/", session_id, "/message");
        self.get(path.as_str())
    }

    /// `GET /session/:id/message?limit=&before=`: a page of the messages of a session, the newest
    /// before the message of the cursor `before`. [`PageRequest::page_of_answer`] reads the answer.
    pub fn list_messages_page(
        &self,
        session_id: &str,
        limit: Option<u32>,
        before: Option<&str>,
    ) -> (page_request: PageRequest)
        ensures
            page_request.request@ == self@.raw_request(
                page::page_path(session_id@, limit, text::optional_chars(before)),
            ),
            page_request.limit == limit,
            page_request.cursor() == text::optional_chars(before),
    {
        let path = page::path_of_page(session_id, limit, before);
        let request = self.raw_get(path.as_str());
        let before = match before {
            Some(cursor) => Some(cursor.to_owned()),
            None => None,
        };
        PageRequest { request, limit, before }
    }

    /// `POST /session/:id/prompt_async`: hands a prompt to the server, which answers at once with
    /// no content.
    pub fn prompt_async(&self, session_id: &str, body: Value) -> (request: Request)
        ensures
            request@ == self@.command(
                Method::Post,
                item_path("/session/"@, session_id@, "/prompt_async"@),
                Some(json_of(body)),
            ),
            request.body == Some(body),
    {
        let path = path_of_item("/session/", session_id, "/prompt_async");
        self.post(path.as_str(), body).for_its_success()
    }

    /// `POST /permission/:requestID/reply`: settles a permission prompt. `reply` is one of
    /// `"once"`, `"always"` and `"reject"`.
    pub fn permission_reply(
        &self,
        request_id: &str,
        reply: &str,
        message: Option<&str>,
    ) -> (request: Request)
        ensures
            request@ == self@.command(
                Method::Post,
                item_path("/permission/"@, request_id@, "/reply"@),
                Some(permission_body(reply@, text::optional_chars(message))),
            ),
    {
        let mut members = serde_json::Map::new();
        insert_text(&mut members, "reply", reply);
        if let Some(message) = message {
            insert_text(&mut members, "message", message);
        }
        let path = path_of_item("/permission/", request_id, "/reply");
        self.post(path.as_str(), json::object_value(members)).for_its_success()
    }

    /// `POST /question/:requestID/reply`: settles a question. `answers` is an array of arrays of
    /// strings, one for each question asked, in order.
    pub fn question_reply(&self, request_id: &str, answers: Value) -> (request: Request)
        ensures
            request@ == self@.command(
                Method::Post,
                item_path("/question/"@, request_id@, "/reply"@),
                Some(question_body(json_of(answers))),
            ),
    {
        let mut members = serde_json::Map::new();
        members.insert("answers".to_owned(), answers);
        let path = path_of_item("/question/", request_id, "/reply");
        self.post(path.as_str(), json::object_value(members)).for_its_success()
    }
}

/// The token is sent once: a URL with a token is as long as the URL of the server, the path, one
/// separator, the name of the parameter and the token.
pub proof fn token_is_sent_once(client: ClientView, path: Seq<char>)
    requires
        client.auth_token.len() > 0,
    ensures
        client.url(path).len() == client.base_url.len() + path.len() + 1 + "auth_token="@.len()
            + client.auth_token.len(),
        path.contains('?') ==> client.url(path) == client.base_url + path + "&auth_token="@
            + client.auth_token,
        !path.contains('?') ==> client.url(path) == client.base_url + path + "?auth_token="@
            + client.auth_token,
{
    reveal_strlit("auth_token=");
    reveal_strlit("&auth_token=");
    reveal_strlit("?auth_token=");
    assert("&auth_token="@ =~= seq!['&'] + "auth_token="@);
    assert("?auth_token="@ =~= seq!['?'] + "auth_token="@);
    assert(path.contains('?') ==> client.url(path) =~= client.base_url + path + "&auth_token="@
        + client.auth_token);
    assert(!path.contains('?') ==> client.url(path) =~= client.base_url + path + "?auth_token="@
        + client.auth_token);
}

/// The URL that a client gives is made of the path, and of the URL and the token that the client
/// was made with: the slashes at the end of the one are dropped, and the other, if there is one, is
/// the last parameter of the query.
pub proof fn url_is_made_of_what_was_given(
    base_url: String,
    auth_token: String,
    client: OpencodeClient,
    path: &str,
    url: String,
    server: Seq<char>,
    slashes: Seq<char>,
)
    requires
        call_ensures(OpencodeClient::new, (base_url, auth_token), client),
        call_ensures(OpencodeClient::url, (&client, path), url),
        base_url@ == server + slashes,
        forall|i: int| 0 <= i < slashes.len() ==> slashes[i] == '/',
        server.len() > 0 ==> server.last() != '/',
    ensures
        auth_token@.len() == 0 ==> url@ == server + path@,
        auth_token@.len() > 0 ==> url@.len() == server.len() + path@.len() + 1 + "auth_token="@.len()
            + auth_token@.len(),
        auth_token@.len() > 0 && path@.contains('?') ==> url@ == server + path@ + "&auth_token="@
            + auth_token@,
        auth_token@.len() > 0 && !path@.contains('?') ==> url@ == server + path@ + "?auth_token="@
            + auth_token@,
{
    text::lemma_trimmed(server, slashes);
    if auth_token@.len() > 0 {
        token_is_sent_once(client@, path@);
    }
}

/// A client gives the URL that it was made with, without the slashes at its end.
pub proof fn base_url_is_what_was_given(
    base_url: String,
    auth_token: String,
    client: OpencodeClient,
    found: &str,
    server: Seq<char>,
    slashes: Seq<char>,
)
    requires
        call_ensures(OpencodeClient::new, (base_url, auth_token), client),
        call_ensures(OpencodeClient::base_url, (&client,), found),
        base_url@ == server + slashes,
        forall|i: int| 0 <= i < slashes.len() ==> slashes[i] == '/',
        server.len() > 0 ==> server.last() != '/',
    ensures
        found@ == server,
{
    text::lemma_trimmed(server, slashes);
}

/// The copy of a client gives the same URLs.
pub proof fn copies_give_the_same_urls(
    client: &OpencodeClient,
    copy: OpencodeClient,
    path: &str,
    url: String,
    copied_url: String,
)
    requires
        call_ensures(OpencodeClient::clone, (client,), copy),
        call_ensures(OpencodeClient::url, (client, path), url),
        call_ensures(OpencodeClient::url, (&copy, path), copied_url),
    ensures
        copied_url@ == url@,
        copy@ == client@,
{
}

/// The kinds of requests differ in what they are answered with, and all of them go to the URL of
/// their path.
pub proof fn requests_go_to_their_path(
    client: ClientView,
    method: Method,
    path: Seq<char>,
    body: Option<Json>,
)
    ensures
        client.request(method, path, body).method == method,
        client.request(method, path, body).url == client.url(path),
        client.request(method, path, body).body == body,
        client.request(method, path, body).reply is Value,
        client.command(method, path, body).method == method,
        client.command(method, path, body).url == client.url(path),
        client.command(method, path, body).body == body,
        client.command(method, path, body).reply is Done,
        client.raw_request(path).method is Get,
        client.raw_request(path).url == client.url(path),
        client.raw_request(path).body is None,
        client.raw_request(path).reply is Raw,
{
}

/// A request has the method and the body that are given, and goes to the URL that the client gives
/// for its path.
pub proof fn request_holds_what_is_given(
    client: &OpencodeClient,
    method: Method,
    path: &str,
    body: Option<Value>,
    request: Request,
    url: String,
)
    requires
        call_ensures(OpencodeClient::request, (client, method, path, body), request),
        call_ensures(OpencodeClient::url, (client, path), url),
    ensures
        request.method == method,
        request.url@ == url@,
        request.body == body,
        request.reply is Value,
{
}

/// `get`, `delete` and `raw_get` send no body, each with its own method and answer.
pub proof fn requests_without_a_body(
    client: &OpencodeClient,
    path: &str,
    url: String,
    got: Request,
    deleted: Request,
    raw: Request,
)
    requires
        call_ensures(OpencodeClient::url, (client, path), url),
        call_ensures(OpencodeClient::get, (client, path), got),
        call_ensures(OpencodeClient::delete, (client, path), deleted),
        call_ensures(OpencodeClient::raw_get, (client, path), raw),
    ensures
        got.method is Get && got.url@ == url@ && got.body is None && got.reply is Value,
        deleted.method is Delete && deleted.url@ == url@ && deleted.body is None
            && deleted.reply is Value,
        raw.method is Get && raw.url@ == url@ && raw.body is None && raw.reply is Raw,
{
    assert(got@.body is None && deleted@.body is None && raw@.body is None);
}

/// `post`, `put` and `patch` send the body that is given, each with its own method.
pub proof fn requests_with_a_body(
    client: &OpencodeClient,
    path: &str,
    body: Value,
    url: String,
    posted: Request,
    put: Request,
    patched: Request,
)
    requires
        call_ensures(OpencodeClient::url, (client, path), url),
        call_ensures(OpencodeClient::post, (client, path, body), posted),
        call_ensures(OpencodeClient::put, (client, path, body), put),
        call_ensures(OpencodeClient::patch, (client, path, body), patched),
    ensures
        posted.method is Post && posted.url@ == url@ && posted.body == Some(body)
            && posted.reply is Value,
        put.method is Put && put.url@ == url@ && put.body == Some(body) && put.reply is Value,
        patched.method is Patch && patched.url@ == url@ && patched.body == Some(body)
            && patched.reply is Value,
{
}

/// A question is answered with the answers as they are, and with nothing else.
pub proof fn question_body_holds_what_is_given(answers: Json, key: Seq<char>)
    ensures
        json::member(question_body(answers), "answers"@) == Some(answers),
        key != "answers"@ ==> json::member(question_body(answers), key) is None,
        question_body(answers) == Json::Object(map!["answers"@ => answers]),
{
}

/// A message is named by its id, and no message by an empty object.
pub proof fn message_body_holds_what_is_given(message_id: Seq<char>)
    ensures
        message_body(Some(message_id)) == Json::Object(map!["messageID"@ => Json::Text(message_id)]),
        message_body(None) == Json::Object(Map::empty()),
{
}

/// A text is set under its key and the other members stay; without a text all of them stay.
pub proof fn text_is_set_under_its_key(
    members: Map<Seq<char>, Json>,
    key: Seq<char>,
    text: Seq<char>,
    other: Seq<char>,
)
    ensures
        with_text(members, key, Some(text)).contains_key(key),
        with_text(members, key, Some(text))[key] == Json::Text(text),
        other != key ==> with_text(members, key, Some(text)).contains_key(other)
            == members.contains_key(other),
        other != key && members.contains_key(other) ==> with_text(members, key, Some(text))[other]
            == members[other],
        with_text(members, key, None) == members,
{
}

/// The path of an item is the collection, the id and the rest, in this order.
pub proof fn item_path_in_full(collection: Seq<char>, id: Seq<char>, rest: Seq<char>)
    ensures
        item_path(collection, id, rest).len() == collection.len() + id.len() + rest.len(),
        item_path(collection, id, rest).take(collection.len() as int) == collection,
        item_path(collection, id, rest).skip(collection.len() as int) == id + rest,
{
    assert(item_path(collection, id, rest).take(collection.len() as int) =~= collection);
    assert(item_path(collection, id, rest).skip(collection.len() as int) =~= id + rest);
}

/// A terminal is started with the body that is given, and ended without one.
pub proof fn terminals_start_and_end(
    client: &OpencodeClient,
    pty_id: &str,
    body: Value,
    started: Request,
    ended: Request,
)
    requires
        call_ensures(OpencodeClient::pty_create, (client, body), started),
        call_ensures(OpencodeClient::pty_remove, (client, pty_id), ended),
    ensures
        started.method is Post,
        started.url@ == client@.url("/pty"@),
        started.body == Some(body),
        started.reply is Value,
        ended.method is Delete,
        ended.url@ == client@.url("/pty/"@ + pty_id@),
        ended.body is None,
        ended.reply is Done,
{
    assert(ended@.body is None);
}

/// A terminal is set to the rows and the columns that are given, each under its own name.
pub proof fn terminals_are_resized(
    client: &OpencodeClient,
    pty_id: &str,
    rows: u32,
    cols: u32,
    request: Request,
)
    requires
        call_ensures(OpencodeClient::pty_resize, (client, pty_id, rows, cols), request),
    ensures
        request.method is Put,
        request.url@ == client@.url("/pty/"@ + pty_id@),
        request.body is Some,
        json_of(request.body->0) == Json::Object(
            map![
                "size"@ => Json::Object(
                    map!["rows"@ => Json::Int(rows as int), "cols"@ => Json::Int(cols as int)],
                ),
            ],
        ),
        request.reply is Done,
{
    assert(request@.body is Some);
}

/// A session is created with an object that holds the title and the permission, each where it is
/// given.
pub proof fn sessions_are_created(
    client: &OpencodeClient,
    title: Option<String>,
    permission: Option<Value>,
    request: Request,
)
    requires
        call_ensures(OpencodeClient::create_session, (client, title, permission), request),
    ensures
        request.method is Post,
        request.url@ == client@.url("/session"@),
        request.body is Some,
        request.reply is Value,
        title is Some && permission is Some ==> json_of(request.body->0) == Json::Object(
            map!["title"@ => Json::Text(title->0@), "permission"@ => json_of(permission->0)],
        ),
        title is Some && permission is None ==> json_of(request.body->0) == Json::Object(
            map!["title"@ => Json::Text(title->0@)],
        ),
        title is None && permission is Some ==> json_of(request.body->0) == Json::Object(
            map!["permission"@ => json_of(permission->0)],
        ),
        title is None && permission is None ==> json_of(request.body->0) == Json::Object(
            Map::empty(),
        ),
{
    assert(request@.body is Some);
}

/// A summary of a session is asked for with the provider and the model, each under its own name,
/// and never as an automatic one.
pub proof fn sessions_are_summarized(
    client: &OpencodeClient,
    session_id: &str,
    provider_id: &str,
    model_id: &str,
    request: Request,
)
    requires
        call_ensures(
            OpencodeClient::summarize_session,
            (client, session_id, provider_id, model_id),
            request,
        ),
    ensures
        request.method is Post,
        request.url@ == client@.url("/session/"@ + session_id@ + "/summarize"@),
        request.body is Some,
        json_of(request.body->0) == Json::Object(
            map![
                "providerID"@ => Json::Text(provider_id@),
                "modelID"@ => Json::Text(model_id@),
                "auto"@ => Json::Bool(false),
            ],
        ),
        request.reply is Value,
{
    assert(request@.body is Some);
}

/// A session is taken back to the message that is named.
pub proof fn sessions_are_reverted(
    client: &OpencodeClient,
    session_id: &str,
    message_id: &str,
    request: Request,
)
    requires
        call_ensures(OpencodeClient::revert_session, (client, session_id, message_id), request),
    ensures
        request.method is Post,
        request.url@ == client@.url("/session/"@ + session_id@ + "/revert"@),
        request.body is Some,
        json_of(request.body->0) == Json::Object(map!["messageID"@ => Json::Text(message_id@)]),
        request.reply is Value,
{
    assert(request@.body is Some);
}

/// A session is forked at the message that is named, or with an empty object where none is.
pub proof fn sessions_are_forked(
    client: &OpencodeClient,
    session_id: &str,
    message_id: Option<&str>,
    request: Request,
)
    requires
        call_ensures(OpencodeClient::fork_session, (client, session_id, message_id), request),
    ensures
        request.method is Post,
        request.url@ == client@.url("/session/"@ + session_id@ + "/fork"@),
        request.body is Some,
        message_id is Some ==> json_of(request.body->0) == Json::Object(
            map!["messageID"@ => Json::Text(message_id->0@)],
        ),
        message_id is None ==> json_of(request.body->0) == Json::Object(Map::empty()),
        request.reply is Value,
{
    assert(request@.body is Some);
}

/// All messages of a session are asked for at its path, without a query.
pub proof fn messages_are_listed(client: &OpencodeClient, session_id: &str, request: Request)
    requires
        call_ensures(OpencodeClient::list_messages, (client, session_id), request),
    ensures
        request.method is Get,
        request.url@ == client@.url("/session/"@ + session_id@ + "/message"@),
        request.body is None,
        request.reply is Value,
{
    assert(request@.body is None);
}

/// A page is asked for with the limit and the cursor that are given, and these are kept for the
/// answer. An empty cursor is not sent.
pub proof fn pages_are_asked_for(
    client: &OpencodeClient,
    session_id: &str,
    limit: Option<u32>,
    before: Option<&str>,
    asked: PageRequest,
)
    requires
        call_ensures(OpencodeClient::list_messages_page, (client, session_id, limit, before), asked),
    ensures
        asked.request.method is Get,
        asked.request.body is None,
        asked.request.reply is Raw,
        asked.limit == limit,
        asked.before is Some <==> before is Some,
        asked.before is Some ==> asked.before->0@ == before->0@,
        ({
            let start = "/session/"@ + session_id@;
            let limited = start + "/message?limit="@ + text::decimal(limit->0 as nat);
            if before is Some && before->0@.len() > 0 {
                &&& limit is Some ==> asked.request.url@ == client@.url(
                    limited + "&before="@ + before->0@,
                )
                &&& limit is None ==> asked.request.url@ == client@.url(
                    start + "/message?before="@ + before->0@,
                )
            } else {
                &&& limit is Some ==> asked.request.url@ == client@.url(limited)
                &&& limit is None ==> asked.request.url@ == client@.url(start + "/message"@)
            }
        }),
{
    let cursor = if before is Some {
        before->0@
    } else {
        Seq::empty()
    };
    page::page_path_in_full(session_id@, limit, cursor);
    assert(asked.request@.body is None);
    assert(asked.cursor() == text::optional_chars(before));
}

/// A prompt is handed over as it is, and only its success is asked.
pub proof fn prompts_are_handed_over(
    client: &OpencodeClient,
    session_id: &str,
    body: Value,
    request: Request,
)
    requires
        call_ensures(OpencodeClient::prompt_async, (client, session_id, body), request),
    ensures
        request.method is Post,
        request.url@ == client@.url("/session/"@ + session_id@ + "/prompt_async"@),
        request.body == Some(body),
        request.reply is Done,
{
}

/// A permission prompt is settled with the reply, and with the message where there is one.
pub proof fn permissions_are_settled(
    client: &OpencodeClient,
    request_id: &str,
    reply: &str,
    message: Option<&str>,
    request: Request,
)
    requires
        call_ensures(
            OpencodeClient::permission_reply,
            (client, request_id, reply, message),
            request,
        ),
    ensures
        request.method is Post,
        request.url@ == client@.url("/permission/"@ + request_id@ + "/reply"@),
        request.body is Some,
        message is Some ==> json_of(request.body->0) == Json::Object(
            map!["reply"@ => Json::Text(reply@), "message"@ => Json::Text(message->0@)],
        ),
        message is None ==> json_of(request.body->0) == Json::Object(
            map!["reply"@ => Json::Text(reply@)],
        ),
        request.reply is Done,
{
    assert(request@.body is Some);
}

/// A question is settled with all of its answers, as they are.
pub proof fn questions_are_settled(
    client: &OpencodeClient,
    request_id: &str,
    answers: Value,
    request: Request,
)
    requires
        call_ensures(OpencodeClient::question_reply, (client, request_id, answers), request),
    ensures
        request.method is Post,
        request.url@ == client@.url("/question/"@ + request_id@ + "/reply"@),
        request.body is Some,
        json_of(request.body->0) == Json::Object(map!["answers"@ => json_of(answers)]),
        request.reply is Done,
{
    assert(request@.body is Some);
}

/// The URL of a terminal's websocket is the URL of its path with the first `http://` and then the
/// first `https://` replaced.
pub proof fn terminal_url_has_its_scheme_replaced(
    client: &OpencodeClient,
    pty_id: &str,
    url: String,
    plain: &str,
    half: &str,
    first: String,
    second: String,
)
    requires
        call_ensures(OpencodeClient::pty_connect_url, (client, pty_id), url),
        plain@ == client@.url("/pty/"@ + pty_id@ + "/connect"@),
        call_ensures(text::replace_first, (plain, "http://", "ws://"), first),
        half@ == first@,
        call_ensures(text::replace_first, (half, "https://", "wss://"), second),
    ensures
        url@ == second@,
{
}

/// A terminal of a server at `http://..` is reached at the same place under `ws://..`, where no
/// `https://` follows in the URL.
pub proof fn terminal_of_http_server_is_at_ws(
    client: &OpencodeClient,
    pty_id: &str,
    url: String,
    rest: Seq<char>,
)
    requires
        call_ensures(OpencodeClient::pty_connect_url, (client, pty_id), url),
        client@.url("/pty/"@ + pty_id@ + "/connect"@) == "http://"@ + rest,
        forall|i: int|
            0 <= i <= rest.len() - 8 ==> (#[trigger] rest.skip(i)).take(8) != "https://"@,
    ensures
        url@ == "ws://"@ + rest,
{
    reveal_strlit("http://");
    reveal_strlit("https://");
    reveal_strlit("ws://");
    let plain = "http://"@ + rest;
    assert(plain =~= Seq::<char>::empty() + "http://"@ + rest);
    text::first_occurrence_alone_is_replaced(plain, "http://"@, "ws://"@, Seq::empty(), rest);
    let half = "ws://"@ + rest;
    assert(Seq::<char>::empty() + "ws://"@ + rest =~= half);
    assert forall|i: int| 0 <= i <= half.len() - 8 implies (#[trigger] half.skip(i)).take(8)
        != "https://"@ by {
        if i < 5 {
            assert(half.skip(i).take(8)[0] == half[i]);
        } else {
            assert(half.skip(i) =~= rest.skip(i - 5));
        }
    }
    text::absent_pattern_replaces_nothing(half, "https://"@, "wss://"@);
}

/// A terminal of a server at `https://..` is reached at the same place under `wss://..`, where no
/// `http://` follows in the URL.
pub proof fn terminal_of_https_server_is_at_wss(
    client: &OpencodeClient,
    pty_id: &str,
    url: String,
    rest: Seq<char>,
)
    requires
        call_ensures(OpencodeClient::pty_connect_url, (client, pty_id), url),
        client@.url("/pty/"@ + pty_id@ + "/connect"@) == "https://"@ + rest,
        forall|i: int|
            0 <= i <= rest.len() - 7 ==> (#[trigger] rest.skip(i)).take(7) != "http://"@,
    ensures
        url@ == "wss://"@ + rest,
{
    reveal_strlit("http://");
    reveal_strlit("https://");
    let plain = "https://"@ + rest;
    assert forall|i: int| 0 <= i <= plain.len() - 7 implies (#[trigger] plain.skip(i)).take(7)
        != "http://"@ by {
        if i < 8 {
            assert(plain.skip(i).take(7)[0] == plain[i]);
            assert(plain.skip(i).take(7)[4] == plain[i + 4]);
        } else {
            assert(plain.skip(i) =~= rest.skip(i - 8));
        }
    }
    text::absent_pattern_replaces_nothing(plain, "http://"@, "ws://"@);
    assert(plain =~= Seq::<char>::empty() + "https://"@ + rest);
    text::first_occurrence_alone_is_replaced(plain, "https://"@, "wss://"@, Seq::empty(), rest);
    assert(Seq::<char>::empty() + "wss://"@ + rest =~= "wss://"@ + rest);
}

} // verus!
