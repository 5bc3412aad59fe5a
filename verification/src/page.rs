//! Pages of session messages: the request path of a page, and the answer to it.

use crate::cursor;
use crate::json;
use crate::json::{json_of, jsons_of, Json};
use crate::request::Request;
use crate::text;
use serde_json::Value;
use vstd::prelude::*;

verus! {

/// Why an answer gives no page.
#[derive(Debug)]
pub enum PageError {
    /// The body is no JSON text, for this cause.
    InvalidJson(serde_json::Error),
    /// The page holds the very message before which it should have ended.
    NotAdvancing,
}

impl PageError {
    /// The text of the error.
    pub fn message(&self) -> (text: &'static str)
        ensures
            text@ == match *self {
                PageError::InvalidJson(_) => "error decoding response body"@,
                PageError::NotAdvancing =>
                    "OpenCode message pagination did not advance; update the OpenCode server"@,
            },
    {
        match self {
            PageError::InvalidJson(_) => "error decoding response body",
            PageError::NotAdvancing => {
                "OpenCode message pagination did not advance; update the OpenCode server"
            },
        }
    }
}

/// A page asked for: the request, and what the answer to it is read with.
#[derive(Debug)]
pub struct PageRequest {
    pub request: Request,
    /// How many messages the page may hold.
    pub limit: Option<u32>,
    /// The cursor of the message before which the page ends.
    pub before: Option<String>,
}

impl PageRequest {
    /// The characters of the cursor.
    pub open spec fn cursor(self) -> Option<Seq<char>> {
        match self.before {
            Some(cursor) => Some(cursor@),
            None => None,
        }
    }

    /// The page that the body of the answer holds.
    pub fn page_of_answer(&self, answer: &[u8]) -> (page: Result<(Vec<Value>, bool), PageError>)
        ensures
            page_view(page) == answer_page(answer@, self.limit, self.cursor()),
    {
        match &self.before {
            Some(cursor) => page_of_answer(answer, self.limit, Some(cursor.as_str())),
            None => page_of_answer(answer, self.limit, None),
        }
    }
}

/// The query of a page: the limit, then the cursor; an empty cursor is left out.
pub open spec fn page_query(limit: Option<u32>, before: Option<Seq<char>>) -> Seq<char> {
    let cursor = match before {
        Some(cursor) => cursor,
        None => Seq::empty(),
    };
    match limit {
        Some(n) => if cursor.len() > 0 {
            "limit="@ + text::decimal(n as nat) + "&"@ + "before="@ + cursor
        } else {
            "limit="@ + text::decimal(n as nat)
        },
        None => if cursor.len() > 0 {
            "before="@ + cursor
        } else {
            Seq::empty()
        },
    }
}

/// The path of a session's messages.
pub open spec fn messages_path(session_id: Seq<char>) -> Seq<char> {
    "/session/"@ + session_id + "/message"@
}

/// The path of a page, with its query if there is one.
pub open spec fn page_path(
    session_id: Seq<char>,
    limit: Option<u32>,
    before: Option<Seq<char>>,
) -> Seq<char> {
    let query = page_query(limit, before);
    if query.len() == 0 {
        messages_path(session_id)
    } else {
        messages_path(session_id) + "?"@ + query
    }
}

/// Whether the message with this id is among the messages.
pub open spec fn holds_message(messages: Seq<Json>, id: Seq<char>) -> bool {
    exists|i: int|
        0 <= i < messages.len() && #[trigger] cursor::message_id(messages[i]) == Some(id)
}

/// Whether there may be more messages: a limited page is as long as it may be.
pub open spec fn may_have_more(count: nat, limit: Option<u32>) -> bool {
    match limit {
        Some(n) => count >= n,
        None => false,
    }
}

/// A page of these messages, unless it holds the message that it should end before.
pub open spec fn page_result(
    messages: Seq<Json>,
    limit: Option<u32>,
    anchor: Option<Seq<char>>,
) -> Result<(Seq<Json>, bool), PageError> {
    if anchor is Some && holds_message(messages, anchor->0) {
        Err(PageError::NotAdvancing)
    } else {
        Ok((messages, may_have_more(messages.len(), limit)))
    }
}

/// The id of the message before which a page ends, if its cursor names one.
pub open spec fn page_anchor(before: Option<Seq<char>>) -> Option<Seq<char>> {
    match before {
        Some(cursor) => cursor::cursor_anchor(cursor),
        None => None,
    }
}

/// The page that a body holds; what is no array holds no messages.
pub open spec fn body_page(
    body: Json,
    limit: Option<u32>,
    before: Option<Seq<char>>,
) -> Result<(Seq<Json>, bool), PageError> {
    page_result(json::elements_of(body), limit, page_anchor(before))
}

/// The page that an answer holds.
pub open spec fn answer_page(
    answer: Seq<u8>,
    limit: Option<u32>,
    before: Option<Seq<char>>,
) -> Result<(Seq<Json>, bool), PageError> {
    match json::parsed_json(answer) {
        Ok(body) => body_page(body, limit, before),
        Err(cause) => Err(PageError::InvalidJson(cause)),
    }
}

/// A page as its contents.
pub open spec fn page_view(page: Result<(Vec<Value>, bool), PageError>) -> Result<
    (Seq<Json>, bool),
    PageError,
> {
    match page {
        Ok((messages, has_more)) => Ok((jsons_of(messages@), has_more)),
        Err(error) => Err(error),
    }
}

/// An empty cursor is no cursor: the same page is asked for, without `before=`, the answer is read
/// alike, and it is never refused as a repetition.
pub proof fn empty_cursor_is_no_cursor(
    session_id: Seq<char>,
    limit: Option<u32>,
    answer: Seq<u8>,
)
    ensures
        page_path(session_id, limit, Some(Seq::empty())) == page_path(session_id, limit, None),
        page_path(session_id, limit, None) == match limit {
            Some(n) => messages_path(session_id) + "?"@ + ("limit="@ + text::decimal(n as nat)),
            None => messages_path(session_id),
        },
        answer_page(answer, limit, Some(Seq::empty())) == answer_page(answer, limit, None),
        answer_page(answer, limit, None) != Err::<(Seq<Json>, bool), PageError>(
            PageError::NotAdvancing,
        ),
{
    reveal_strlit("limit=");
}

/// Without a limit and a cursor a page is asked for at the path of all messages.
pub proof fn unlimited_page_is_the_whole_list(session_id: Seq<char>)
    ensures
        page_path(session_id, None, None) == messages_path(session_id),
{
}

/// A cursor ends the path of the page that it asks for.
pub proof fn cursor_ends_the_path(session_id: Seq<char>, limit: Option<u32>, cursor: Seq<char>)
    requires
        cursor.len() > 0,
    ensures
        ("before="@ + cursor).is_suffix_of(page_path(session_id, limit, Some(cursor))),
{
    reveal_strlit("before=");
    let path = page_path(session_id, limit, Some(cursor));
    let parameter = "before="@ + cursor;
    assert(parameter =~= path.subrange(path.len() - parameter.len(), path.len() as int));
}

/// A page is refused if and only if it holds the message of its cursor; otherwise all of its
/// messages are kept in order.
pub proof fn page_is_refused_for_its_cursor_alone(
    body: Json,
    limit: Option<u32>,
    cursor: Seq<char>,
    id: Seq<char>,
)
    requires
        cursor::cursor_anchor(cursor) == Some(id),
    ensures
        body_page(body, limit, Some(cursor)) == (if holds_message(json::elements_of(body), id) {
            Err::<(Seq<Json>, bool), PageError>(PageError::NotAdvancing)
        } else {
            Ok((json::elements_of(body), may_have_more(json::elements_of(body).len(), limit)))
        }),
{
}

/// A server that ignores the cursor is found out: an answer that holds the message whose cursor
/// asked for it is refused, whatever else it holds and whatever its limit.
pub proof fn ignored_cursor_is_refused(
    answer: Seq<u8>,
    messages: Seq<Json>,
    i: int,
    cursor: Seq<char>,
    limit: Option<u32>,
)
    requires
        json::parsed_json(answer) == Ok::<Json, serde_json::Error>(Json::Array(messages)),
        0 <= i < messages.len(),
        cursor::message_id(messages[i]) is Some,
        cursor::cursor_anchor(cursor) == cursor::message_id(messages[i]),
    ensures
        answer_page(answer, limit, Some(cursor)) == Err::<(Seq<Json>, bool), PageError>(
            PageError::NotAdvancing,
        ),
{
}

/// An accepted page advances: no message of it has a cursor that names the message of the cursor
/// that asked for it.
pub proof fn accepted_page_advances(
    body: Json,
    limit: Option<u32>,
    cursor: Seq<char>,
    i: int,
    next: Seq<char>,
)
    requires
        body_page(body, limit, Some(cursor)) is Ok,
        0 <= i < json::elements_of(body).len(),
        cursor::message_id(json::elements_of(body)[i]) is Some,
        cursor::cursor_anchor(next) == cursor::message_id(json::elements_of(body)[i]),
    ensures
        cursor::cursor_anchor(next) != cursor::cursor_anchor(cursor),
        next != cursor,
{
}

/// Without a cursor, or with one that names no message, every array is a page, all of its messages
/// kept in order.
pub proof fn page_without_anchor_is_kept(
    messages: Seq<Json>,
    limit: Option<u32>,
    before: Option<Seq<char>>,
)
    requires
        page_anchor(before) is None,
    ensures
        body_page(Json::Array(messages), limit, before) == Ok::<(Seq<Json>, bool), PageError>(
            (messages, may_have_more(messages.len(), limit)),
        ),
{
}

/// A full page may have more behind it; a page under its limit, or without one, has not.
pub proof fn only_full_pages_have_more(count: nat, limit: Option<u32>)
    ensures
        may_have_more(count, limit) <==> limit is Some && limit->0 <= count,
{
}

/// The path of a page, with its query if there is one.
pub fn path_of_page(session_id: &str, limit: Option<u32>, before: Option<&str>) -> (path: String)
    ensures
        path@ == page_path(session_id@, limit, text::optional_chars(before)),
{
    let mut path = "/session/".to_owned();
    path.append(session_id);
    path.append("/message");
    let mut separator = "?";
    proof {
        reveal_strlit("limit=");
        reveal_strlit("before=");
    }
    if let Some(n) = limit {
        path.append(separator);
        path.append("limit=");
        text::append_decimal(&mut path, n);
        separator = "&";
    }
    if let Some(cursor) = before {
        if !cursor.is_empty() {
            path.append(separator);
            path.append("before=");
            path.append(cursor);
        }
    }
    assert(path@ =~= page_path(session_id@, limit, text::optional_chars(before)));
    path
}

/// Whether the message with this id is among the messages.
pub fn contains_message(messages: &Vec<Value>, id: &str) -> (found: bool)
    ensures
        found == holds_message(jsons_of(messages@), id@),
{
    let wanted = id.to_owned();
    let mut i: usize = 0;
    while i < messages.len()
        invariant
            i <= messages@.len(),
            wanted@ == id@,
            forall|j: int|
                0 <= j < i ==> #[trigger] cursor::message_id(jsons_of(messages@)[j]) != Some(id@),
        decreases messages.len() - i,
    {
        assert(jsons_of(messages@)[i as int] == json_of(messages@[i as int]));
        if let Some(other) = cursor::id_of_message(&messages[i]) {
            if other.to_owned().eq(&wanted) {
                return true;
            }
        }
        i = i + 1;
    }
    false
}

/// Whether there may be more messages after a page of `count`.
pub fn page_has_more(count: usize, limit: Option<u32>) -> (has_more: bool)
    ensures
        has_more == may_have_more(count as nat, limit),
{
    match limit {
        Some(n) => count >= n as usize,
        None => false,
    }
}

/// A page of these messages with whether there may be more, unless it holds the message with the
/// id `anchor`.
pub fn page_of_messages(messages: Vec<Value>, limit: Option<u32>, anchor: Option<&str>) -> (page:
    Result<(Vec<Value>, bool), PageError>)
    ensures
        page_view(page) == page_result(jsons_of(messages@), limit, text::optional_chars(anchor)),
        page is Ok ==> page->Ok_0.0 == messages,
{
    if let Some(id) = anchor {
        if contains_message(&messages, id) {
            return Err(PageError::NotAdvancing);
        }
    }
    let has_more = page_has_more(messages.len(), limit);
    Ok((messages, has_more))
}

/// The page that a body holds. A cursor is exclusive: a page that still holds the message of its
/// cursor comes from a server that ignored the cursor.
pub fn page_of_body(body: &Value, limit: Option<u32>, before: Option<&str>) -> (page: Result<
    (Vec<Value>, bool),
    PageError,
>)
    ensures
        page_view(page) == body_page(json_of(*body), limit, text::optional_chars(before)),
{
    let messages = match body.as_array() {
        Some(items) => {
            let messages = items.clone();
            assert(jsons_of(messages@) =~= jsons_of(items@));
            messages
        },
        None => Vec::new(),
    };
    assert(jsons_of(messages@) =~= json::elements_of(json_of(*body)));
    let anchor = match before {
        Some(cursor) => cursor::anchor_of_cursor(cursor),
        None => None,
    };
    match anchor {
        Some(id) => page_of_messages(messages, limit, Some(id.as_str())),
        None => page_of_messages(messages, limit, None),
    }
}

/// The page that the body of an answer holds.
pub fn page_of_answer(answer: &[u8], limit: Option<u32>, before: Option<&str>) -> (page: Result<
    (Vec<Value>, bool),
    PageError,
>)
    ensures
        page_view(page) == answer_page(answer@, limit, text::optional_chars(before)),
{
    match json::parse_json(answer) {
        Ok(body) => page_of_body(&body, limit, before),
        Err(cause) => Err(PageError::InvalidJson(cause)),
    }
}

/// The path of a page in full: the limit and the cursor, each where it is given, and an empty
/// cursor as none.
pub proof fn page_path_in_full(session_id: Seq<char>, limit: Option<u32>, cursor: Seq<char>)
    ensures
        messages_path(session_id) == "/session/"@ + session_id + "/message"@,
        page_path(session_id, None, None) == "/session/"@ + session_id + "/message"@,
        cursor.len() > 0 ==> page_path(session_id, None, Some(cursor)) == "/session/"@ + session_id
            + "/message?before="@ + cursor,
        limit is Some ==> page_path(session_id, limit, None) == "/session/"@ + session_id
            + "/message?limit="@ + text::decimal(limit->0 as nat),
        limit is Some && cursor.len() > 0 ==> page_path(session_id, limit, Some(cursor))
            == "/session/"@ + session_id + "/message?limit="@ + text::decimal(limit->0 as nat)
            + "&before="@ + cursor,
        cursor.len() == 0 ==> page_path(session_id, limit, Some(cursor)) == page_path(
            session_id,
            limit,
            None,
        ),
{
    reveal_strlit("/message");
    reveal_strlit("?");
    reveal_strlit("&");
    reveal_strlit("limit=");
    reveal_strlit("before=");
    reveal_strlit("&before=");
    reveal_strlit("/message?limit=");
    reveal_strlit("/message?before=");
    assert("/message?limit="@ =~= "/message"@ + "?"@ + "limit="@);
    assert("/message?before="@ =~= "/message"@ + "?"@ + "before="@);
    assert("&before="@ =~= "&"@ + "before="@);
    assert(cursor.len() > 0 ==> page_path(session_id, None, Some(cursor)) =~= "/session/"@
        + session_id + "/message?before="@ + cursor);
    assert(limit is Some ==> page_path(session_id, limit, None) =~= "/session/"@ + session_id
        + "/message?limit="@ + text::decimal(limit->0 as nat));
    assert(limit is Some && cursor.len() > 0 ==> page_path(session_id, limit, Some(cursor))
        =~= "/session/"@ + session_id + "/message?limit="@ + text::decimal(limit->0 as nat)
        + "&before="@ + cursor);
}

/// The path that a page is asked for at, in full.
pub proof fn asked_path_in_full(
    session_id: &str,
    limit: Option<u32>,
    before: Option<&str>,
    path: String,
)
    requires
        call_ensures(path_of_page, (session_id, limit, before), path),
    ensures
        ({
            let start = "/session/"@ + session_id@ + "/message"@;
            let limited = "/session/"@ + session_id@ + "/message?limit="@ + text::decimal(
                limit->0 as nat,
            );
            if before is Some && before->0@.len() > 0 {
                &&& limit is Some ==> path@ == limited + "&before="@ + before->0@
                &&& limit is None ==> path@ == "/session/"@ + session_id@ + "/message?before="@
                    + before->0@
            } else {
                &&& limit is Some ==> path@ == limited
                &&& limit is None ==> path@ == start
            }
        }),
{
    let cursor = if before is Some {
        before->0@
    } else {
        Seq::empty()
    };
    page_path_in_full(session_id@, limit, cursor);
}

/// A message is found where its whole id is the one looked for, and not otherwise.
pub proof fn messages_are_found_by_their_whole_id(messages: &Vec<Value>, id: &str, found: bool)
    requires
        call_ensures(contains_message, (messages, id), found),
    ensures
        forall|i: int|
            0 <= i < messages@.len() && #[trigger] cursor::message_id(json_of(messages@[i]))
                == Some(id@) ==> found,
        (forall|i: int|
            0 <= i < messages@.len() ==> #[trigger] cursor::message_id(json_of(messages@[i]))
                != Some(id@)) ==> !found,
{
    assert forall|i: int|
        0 <= i < messages@.len() && #[trigger] cursor::message_id(json_of(messages@[i])) == Some(
            id@,
        ) implies found by {
        assert(cursor::message_id(jsons_of(messages@)[i]) == Some(id@));
    }
    if found {
        let i = choose|i: int|
            0 <= i < jsons_of(messages@).len() && #[trigger] cursor::message_id(
                jsons_of(messages@)[i],
            ) == Some(id@);
        assert(cursor::message_id(json_of(messages@[i])) == Some(id@));
    }
}

/// An array none of whose messages has the id that the cursor names is a page: the array as it is,
/// with more behind it where a limit is reached. An array with such a message is refused.
pub proof fn page_is_refused_for_the_very_id(
    answer: Seq<u8>,
    messages: Seq<Json>,
    limit: Option<u32>,
    cursor: Seq<char>,
    id: Seq<char>,
)
    requires
        json::parsed_json(answer) == Ok::<Json, serde_json::Error>(Json::Array(messages)),
        cursor::cursor_anchor(cursor) == Some(id),
    ensures
        (forall|i: int|
            0 <= i < messages.len() ==> #[trigger] cursor::message_id(messages[i]) != Some(id))
            ==> answer_page(answer, limit, Some(cursor)) == Ok::<(Seq<Json>, bool), PageError>(
            (messages, limit is Some && limit->0 <= messages.len()),
        ),
        (exists|i: int|
            0 <= i < messages.len() && #[trigger] cursor::message_id(messages[i]) == Some(id))
            ==> answer_page(answer, limit, Some(cursor)) == Err::<(Seq<Json>, bool), PageError>(
            PageError::NotAdvancing,
        ),
{
}

/// Without a cursor that names a message, an array is a page as it is, whatever ids are in it.
pub proof fn page_without_cursor_is_the_answer(
    answer: Seq<u8>,
    limit: Option<u32>,
    before: Option<Seq<char>>,
    messages: Seq<Json>,
)
    requires
        before is None || cursor::cursor_anchor(before->0) is None,
    ensures
        json::parsed_json(answer) == Ok::<Json, serde_json::Error>(Json::Array(messages))
            ==> answer_page(answer, limit, before) == Ok::<(Seq<Json>, bool), PageError>(
            (messages, limit is Some && limit->0 <= messages.len()),
        ),
{
}

/// What is no array is a page without messages, whatever the cursor.
pub proof fn other_values_are_empty_pages(
    answer: Seq<u8>,
    limit: Option<u32>,
    before: Option<Seq<char>>,
)
    requires
        json::parsed_json(answer) is Ok,
        !(json::parsed_json(answer)->Ok_0 is Array),
    ensures
        answer_page(answer, limit, before) == Ok::<(Seq<Json>, bool), PageError>(
            (Seq::empty(), limit == Some(0u32)),
        ),
{
}

/// What is no JSON text is refused with the cause that the parser gives, whatever the cursor.
pub proof fn broken_answers_are_refused(
    answer: Seq<u8>,
    limit: Option<u32>,
    before: Option<Seq<char>>,
    cause: serde_json::Error,
)
    requires
        json::parsed_json(answer) == Err::<Json, serde_json::Error>(cause),
    ensures
        answer_page(answer, limit, before) == Err::<(Seq<Json>, bool), PageError>(
            PageError::InvalidJson(cause),
        ),
{
}

/// The page read off an array is the array, value by value, unless one of its messages has the id
/// that the cursor names.
pub proof fn read_page_is_the_array(
    answer: &[u8],
    limit: Option<u32>,
    before: Option<&str>,
    page: Result<(Vec<Value>, bool), PageError>,
    messages: Seq<Json>,
)
    requires
        call_ensures(page_of_answer, (answer, limit, before), page),
        json::parsed_json(answer@) == Ok::<Json, serde_json::Error>(Json::Array(messages)),
    ensures
        ({
            let anchor = cursor::cursor_anchor(before->0@);
            let repeated = before is Some && anchor is Some && exists|i: int|
                0 <= i < messages.len() && #[trigger] cursor::message_id(messages[i]) == anchor;
            &&& page is Err <==> repeated
            &&& page is Err ==> page->Err_0 is NotAdvancing
            &&& page is Ok ==> page->Ok_0.0@.len() == messages.len()
            &&& page is Ok ==> forall|i: int|
                0 <= i < messages.len() ==> json_of(#[trigger] page->Ok_0.0@[i]) == messages[i]
            &&& page is Ok ==> page->Ok_0.1 == (limit is Some && limit->0 <= messages.len())
        }),
{
    lemma_page_in_full(page, answer@, limit, text::optional_chars(before), messages);
}

proof fn lemma_page_in_full(
    page: Result<(Vec<Value>, bool), PageError>,
    answer: Seq<u8>,
    limit: Option<u32>,
    before: Option<Seq<char>>,
    messages: Seq<Json>,
)
    requires
        page_view(page) == answer_page(answer, limit, before),
        json::parsed_json(answer) == Ok::<Json, serde_json::Error>(Json::Array(messages)),
    ensures
        ({
            let anchor = cursor::cursor_anchor(before->0);
            let repeated = before is Some && anchor is Some && exists|i: int|
                0 <= i < messages.len() && #[trigger] cursor::message_id(messages[i]) == anchor;
            &&& page is Err <==> repeated
            &&& page is Err ==> page->Err_0 is NotAdvancing
            &&& page is Ok ==> page->Ok_0.0@.len() == messages.len()
            &&& page is Ok ==> forall|i: int|
                0 <= i < messages.len() ==> json_of(#[trigger] page->Ok_0.0@[i]) == messages[i]
            &&& page is Ok ==> page->Ok_0.1 == (limit is Some && limit->0 <= messages.len())
        }),
{
    if page is Ok {
        assert(jsons_of(page->Ok_0.0@) == messages);
        assert forall|i: int| 0 <= i < messages.len() implies json_of(
            #[trigger] page->Ok_0.0@[i],
        ) == messages[i] by {
            assert(jsons_of(page->Ok_0.0@)[i] == messages[i]);
        }
    }
}

/// The page that was asked for is read with the limit and the cursor that it was asked for with.
pub proof fn asked_page_is_the_array(
    asked: &PageRequest,
    answer: &[u8],
    page: Result<(Vec<Value>, bool), PageError>,
    messages: Seq<Json>,
)
    requires
        call_ensures(PageRequest::page_of_answer, (asked, answer), page),
        json::parsed_json(answer@) == Ok::<Json, serde_json::Error>(Json::Array(messages)),
    ensures
        ({
            let anchor = cursor::cursor_anchor(asked.before->0@);
            let repeated = asked.before is Some && anchor is Some && exists|i: int|
                0 <= i < messages.len() && #[trigger] cursor::message_id(messages[i]) == anchor;
            &&& page is Err <==> repeated
            &&& page is Err ==> page->Err_0 is NotAdvancing
            &&& page is Ok ==> page->Ok_0.0@.len() == messages.len()
            &&& page is Ok ==> forall|i: int|
                0 <= i < messages.len() ==> json_of(#[trigger] page->Ok_0.0@[i]) == messages[i]
            &&& page is Ok ==> page->Ok_0.1 == (asked.limit is Some && asked.limit->0
                <= messages.len())
        }),
{
    lemma_page_in_full(page, answer@, asked.limit, asked.cursor(), messages);
}

/// An answer that is no array gives a page without messages, and one that is no JSON text gives
/// the parser's cause, however the page was asked for.
pub proof fn other_answers_give_no_messages(
    answer: &[u8],
    limit: Option<u32>,
    before: Option<&str>,
    page: Result<(Vec<Value>, bool), PageError>,
    asked: &PageRequest,
    asked_page: Result<(Vec<Value>, bool), PageError>,
)
    requires
        call_ensures(page_of_answer, (answer, limit, before), page),
        call_ensures(PageRequest::page_of_answer, (asked, answer), asked_page),
    ensures
        json::parsed_json(answer@) is Ok && !(json::parsed_json(answer@)->Ok_0 is Array) ==> {
            &&& page is Ok && page->Ok_0.0@.len() == 0
            &&& page->Ok_0.1 == (limit == Some(0u32))
            &&& asked_page is Ok && asked_page->Ok_0.0@.len() == 0
            &&& asked_page->Ok_0.1 == (asked.limit == Some(0u32))
        },
        json::parsed_json(answer@) is Err ==> {
            let cause = json::parsed_json(answer@)->Err_0;
            &&& page is Err && page->Err_0 == PageError::InvalidJson(cause)
            &&& asked_page is Err && asked_page->Err_0 == PageError::InvalidJson(cause)
        },
{
    if json::parsed_json(answer@) is Ok && !(json::parsed_json(answer@)->Ok_0 is Array) {
        other_values_are_empty_pages(answer@, limit, text::optional_chars(before));
        other_values_are_empty_pages(answer@, asked.limit, asked.cursor());
        assert(jsons_of(page->Ok_0.0@).len() == 0);
        assert(jsons_of(asked_page->Ok_0.0@).len() == 0);
    }
}

/// The page of a body is its array, value by value, unless one of its messages has the id that the
/// cursor names. A body that is no array stands for no messages.
pub proof fn page_of_a_body_is_its_array(
    body: &Value,
    limit: Option<u32>,
    before: Option<&str>,
    page: Result<(Vec<Value>, bool), PageError>,
    messages: Seq<Json>,
)
    requires
        call_ensures(page_of_body, (body, limit, before), page),
        json_of(*body) == Json::Array(messages) || (!(json_of(*body) is Array) && messages.len()
            == 0),
    ensures
        ({
            let anchor = cursor::cursor_anchor(before->0@);
            let repeated = before is Some && anchor is Some && exists|i: int|
                0 <= i < messages.len() && #[trigger] cursor::message_id(messages[i]) == anchor;
            &&& page is Err <==> repeated
            &&& page is Err ==> page->Err_0 is NotAdvancing
            &&& page is Ok ==> page->Ok_0.0@.len() == messages.len()
            &&& page is Ok ==> forall|i: int|
                0 <= i < messages.len() ==> json_of(#[trigger] page->Ok_0.0@[i]) == messages[i]
            &&& page is Ok ==> page->Ok_0.1 == (limit is Some && limit->0 <= messages.len())
        }),
{
    assert(json::elements_of(json_of(*body)) =~= messages);
    if page is Ok {
        assert forall|i: int| 0 <= i < messages.len() implies json_of(
            #[trigger] page->Ok_0.0@[i],
        ) == messages[i] by {
            assert(jsons_of(page->Ok_0.0@)[i] == messages[i]);
        }
        assert(jsons_of(page->Ok_0.0@).len() == messages.len());
    }
}

/// A page of messages is the messages themselves, unless one of them has the id of the anchor.
pub proof fn page_is_its_messages(
    messages: Vec<Value>,
    limit: Option<u32>,
    anchor: Option<&str>,
    page: Result<(Vec<Value>, bool), PageError>,
)
    requires
        call_ensures(page_of_messages, (messages, limit, anchor), page),
    ensures
        page is Err <==> anchor is Some && exists|i: int|
            0 <= i < messages@.len() && #[trigger] cursor::message_id(json_of(messages@[i]))
                == Some(anchor->0@),
        page is Err ==> page->Err_0 is NotAdvancing,
        page is Ok ==> page->Ok_0.0@ == messages@,
        page is Ok ==> page->Ok_0.1 == (limit is Some && limit->0 <= messages@.len()),
{
    if anchor is Some {
        let id = anchor->0@;
        if page is Err {
            let i = choose|i: int|
                0 <= i < jsons_of(messages@).len() && #[trigger] cursor::message_id(
                    jsons_of(messages@)[i],
                ) == Some(id);
            assert(cursor::message_id(json_of(messages@[i])) == Some(id));
        } else {
            assert forall|i: int| 0 <= i < messages@.len() implies #[trigger] cursor::message_id(
                json_of(messages@[i]),
            ) != Some(id) by {
                assert(cursor::message_id(jsons_of(messages@)[i]) != Some(id));
            }
        }
    }
}

/// More may follow a page of `count` where `count` reaches the limit, and only then; one message
/// more never takes that back.
pub proof fn reaching_the_limit_means_more(
    count: usize,
    limit: Option<u32>,
    has_more: bool,
    longer: usize,
    longer_has_more: bool,
)
    requires
        call_ensures(page_has_more, (count, limit), has_more),
        call_ensures(page_has_more, (longer, limit), longer_has_more),
        count <= longer,
    ensures
        has_more <==> limit is Some && limit->0 <= count,
        has_more ==> longer_has_more,
{
}

/// A page that was read is seen value by value, and an error as it is.
pub proof fn page_is_seen_as_it_is(
    messages: Vec<Value>,
    has_more: bool,
    error: PageError,
    i: int,
)
    ensures
        page_view(Ok((messages, has_more))) is Ok,
        page_view(Ok((messages, has_more)))->Ok_0.1 == has_more,
        page_view(Ok((messages, has_more)))->Ok_0.0.len() == messages@.len(),
        0 <= i < messages@.len() ==> page_view(Ok((messages, has_more)))->Ok_0.0[i] == json_of(
            messages@[i],
        ),
        page_view(Err(error)) == Err::<(Seq<Json>, bool), PageError>(error),
{
}

/// Each error says why there is no page.
pub proof fn page_errors_say_why(error: &PageError, said: &'static str)
    requires
        call_ensures(PageError::message, (error,), said),
    ensures
        *error is InvalidJson ==> said@ == "error decoding response body"@,
        *error is NotAdvancing ==> said@
            == "OpenCode message pagination did not advance; update the OpenCode server"@,
{
}

} // verus!
