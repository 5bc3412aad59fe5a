//! The cursors that page backwards through the messages of a session.
//!
//! A cursor names the message before which a page ends: it is the base64url text, without
//! padding, of the JSON object `{"id": .., "time": ..}` with that message's id and creation time.

use crate::base64url;
use crate::json;
use crate::json::{json_of, Json};
use serde_json::Value;
use vstd::prelude::*;

verus! {

/// The id of a message: the string at `info.id`.
pub open spec fn message_id(message: Json) -> Option<Seq<char>> {
    match json::then_member(json::member(message, "info"@), "id"@) {
        Some(id) => json::text_of(id),
        None => None,
    }
}

/// The creation time of a message: the integer at `info.time.created`.
pub open spec fn message_created(message: Json) -> Option<i64> {
    let time = json::then_member(json::member(message, "info"@), "time"@);
    match json::then_member(time, "created"@) {
        Some(created) => json::integer_of(created),
        None => None,
    }
}

/// What the cursor of a message says.
pub open spec fn cursor_json(id: Seq<char>, created: i64) -> Json {
    Json::Object(
        json::no_members().insert("id"@, Json::Text(id)).insert("time"@, Json::Int(created as int)),
    )
}

/// The cursor of a message.
pub open spec fn cursor_text(id: Seq<char>, created: i64) -> Seq<char> {
    base64url::encoded(json::json_text(cursor_json(id, created)))
}

/// What a cursor says, if it can be read at all; an empty one says nothing.
pub open spec fn cursor_content(cursor: Seq<char>) -> Option<Json> {
    if cursor.len() == 0 {
        None
    } else {
        match base64url::decoded(cursor) {
            Some(bytes) => match json::parsed_json(bytes) {
                Ok(content) => Some(content),
                Err(_) => None,
            },
            None => None,
        }
    }
}

/// The id in what a cursor says.
pub open spec fn content_anchor(content: Json) -> Option<Seq<char>> {
    match json::member(content, "id"@) {
        Some(id) => json::text_of(id),
        None => None,
    }
}

/// The id of the message that a cursor names, if it names one.
pub open spec fn cursor_anchor(cursor: Seq<char>) -> Option<Seq<char>> {
    match cursor_content(cursor) {
        Some(content) => content_anchor(content),
        None => None,
    }
}

/// Why a message has no cursor.
#[derive(Clone, Copy, Debug, PartialEq, Eq, Structural)]
pub enum CursorError {
    /// There is no string at `info.id`.
    MissingId,
    /// There is no integer at `info.time.created`.
    MissingCreated,
}

impl CursorError {
    /// The text of the error.
    pub fn message(&self) -> (text: &'static str)
        ensures
            text@ == match *self {
                CursorError::MissingId => "message is missing info.id"@,
                CursorError::MissingCreated => "message is missing info.time.created"@,
            },
    {
        match self {
            CursorError::MissingId => "message is missing info.id",
            CursorError::MissingCreated => "message is missing info.time.created",
        }
    }
}

proof fn lemma_id_pointer(message: Json)
    ensures
        json::plain_pointer("/info/id"@),
        json::at_pointer(message, "/info/id"@) == json::then_member(
            json::member(message, "info"@),
            "id"@,
        ),
{
    reveal_strlit("/info/id");
    reveal_strlit("info");
    reveal_strlit("id");
    let last = seq!['/'] + "id"@ + Seq::empty();
    assert("/info/id"@ =~= seq!['/'] + "info"@ + last);
    json::lemma_pointer_step(message, "info"@, last);
    match json::member(message, "info"@) {
        Some(info) => {
            json::lemma_pointer_step(info, "id"@, Seq::empty());
        },
        None => {},
    }
}

proof fn lemma_created_pointer(message: Json)
    ensures
        json::plain_pointer("/info/time/created"@),
        json::at_pointer(message, "/info/time/created"@) == json::then_member(
            json::then_member(json::member(message, "info"@), "time"@),
            "created"@,
        ),
{
    reveal_strlit("/info/time/created");
    reveal_strlit("info");
    reveal_strlit("time");
    reveal_strlit("created");
    let last = seq!['/'] + "created"@ + Seq::empty();
    let inner = seq!['/'] + "time"@ + last;
    assert("/info/time/created"@ =~= seq!['/'] + "info"@ + inner);
    json::lemma_pointer_step(message, "info"@, inner);
    match json::member(message, "info"@) {
        Some(info) => {
            json::lemma_pointer_step(info, "time"@, last);
            match json::member(info, "time"@) {
                Some(time) => {
                    json::lemma_pointer_step(time, "created"@, Seq::empty());
                },
                None => {},
            }
        },
        None => {},
    }
}

/// The id of a message.
pub fn id_of_message(message: &Value) -> (id: Option<&str>)
    ensures
        match id {
            Some(id) => message_id(json_of(*message)) == Some(id@),
            None => message_id(json_of(*message)) is None,
        },
{
    proof {
        lemma_id_pointer(json_of(*message));
    }
    match message.pointer("/info/id") {
        Some(id) => id.as_str(),
        None => None,
    }
}

/// The creation time of a message.
pub fn created_of_message(message: &Value) -> (created: Option<i64>)
    ensures
        created == message_created(json_of(*message)),
{
    proof {
        lemma_created_pointer(json_of(*message));
    }
    match message.pointer("/info/time/created") {
        Some(created) => created.as_i64(),
        None => None,
    }
}

/// What the cursor of a message says.
pub fn cursor_value(id: &str, created: i64) -> (value: Value)
    ensures
        json_of(value) == cursor_json(id@, created),
{
    let mut members = serde_json::Map::new();
    members.insert("id".to_owned(), json::text_value(id.to_owned()));
    members.insert("time".to_owned(), json::int_value(created));
    json::object_value(members)
}

/// The cursor that carries the JSON text of what it says: a text that stands in a URL as it is,
/// and that reads back to the JSON text.
pub fn cursor_of_text(text: &[u8]) -> (cursor: String)
    ensures
        cursor@ == base64url::encoded(text@),
        base64url::decoded(cursor@) == Some(text@),
        cursor@.len() == 0 <==> text@.len() == 0,
        forall|i: int| 0 <= i < cursor@.len() ==> base64url::is_digit(#[trigger] cursor@[i]),
{
    proof {
        base64url::decoding_undoes_encoding(text@);
        base64url::encoding_is_made_of_digits(text@);
    }
    base64url::encode(text)
}

/// The cursor that ends a page before the message, or what the message lacks for one.
///
/// Reading the cursor gives the message's id and creation time back. It is never empty, and it
/// stands in a URL as it is.
pub fn message_before_cursor(message: &Value) -> (cursor: Result<String, CursorError>)
    ensures
        match (message_id(json_of(*message)), message_created(json_of(*message))) {
            (None, _) => cursor == Err::<String, CursorError>(CursorError::MissingId),
            (Some(_), None) => cursor == Err::<String, CursorError>(CursorError::MissingCreated),
            (Some(id), Some(created)) => {
                &&& cursor is Ok
                &&& cursor->Ok_0@ == cursor_text(id, created)
                &&& cursor_content(cursor->Ok_0@) == Some(cursor_json(id, created))
                &&& cursor_anchor(cursor->Ok_0@) == Some(id)
                &&& cursor->Ok_0@.len() > 0
                &&& forall|i: int|
                    0 <= i < cursor->Ok_0@.len() ==> base64url::is_digit(
                        #[trigger] cursor->Ok_0@[i],
                    )
            },
        },
{
    let id = match id_of_message(message) {
        Some(id) => id,
        None => return Err(CursorError::MissingId),
    };
    let created: i64 = match created_of_message(message) {
        Some(created) => created,
        None => return Err(CursorError::MissingCreated),
    };
    let value = cursor_value(id, created);
    proof {
        lemma_cursor_json(id@, created);
    }
    let text = json::print_json(&value).unwrap();
    Ok(cursor_of_text(text.as_slice()))
}

proof fn lemma_cursor_json(id: Seq<char>, created: i64)
    ensures
        json::flat_object(cursor_json(id, created)),
        content_anchor(cursor_json(id, created)) == Some(id),
        json::member(cursor_json(id, created), "time"@) == Some(Json::Int(created as int)),
{
    reveal_strlit("id");
    reveal_strlit("time");
    assert("id"@.len() != "time"@.len());
}

/// One cursor names one message: if what it says is the id and the creation time of each of two
/// messages, these are the same.
pub proof fn cursor_names_one_message(
    cursor: Seq<char>,
    id: Seq<char>,
    created: i64,
    other_id: Seq<char>,
    other_created: i64,
)
    requires
        cursor_content(cursor) == Some(cursor_json(id, created)),
        cursor_content(cursor) == Some(cursor_json(other_id, other_created)),
    ensures
        id == other_id,
        created == other_created,
{
    lemma_cursor_json(id, created);
    lemma_cursor_json(other_id, other_created);
}

/// The id in what a cursor says.
pub fn anchor_of_content(content: &Value) -> (anchor: Option<&str>)
    ensures
        match anchor {
            Some(anchor) => content_anchor(json_of(*content)) == Some(anchor@),
            None => content_anchor(json_of(*content)) is None,
        },
{
    match json::get_member(content, "id") {
        Some(id) => id.as_str(),
        None => None,
    }
}

/// The id of the message that a cursor names; `None` for a text that is no such cursor.
pub fn anchor_of_cursor(cursor: &str) -> (anchor: Option<String>)
    ensures
        match anchor {
            Some(anchor) => cursor_anchor(cursor@) == Some(anchor@),
            None => cursor_anchor(cursor@) is None,
        },
{
    // An empty text stands for no bytes, and these are no JSON text.
    if cursor.is_empty() {
        return None;
    }
    match base64url::decode(cursor) {
        Some(bytes) => {
            proof {
                base64url::decoding_undoes_encoding(bytes@);
            }
            match json::parse_json(bytes.as_slice()) {
                Ok(content) => match anchor_of_content(&content) {
                    Some(anchor) => Some(anchor.to_owned()),
                    None => None,
                },
                Err(_) => None,
            }
        },
        None => None,
    }
}

/// The id of a message is the string under `id` in the object under `info`, and nothing else.
pub proof fn message_id_is_at_its_place(message: Json, id: Seq<char>)
    ensures
        message_id(message) == Some(id) <==> {
            &&& message is Object
            &&& message->Object_0.contains_key("info"@)
            &&& message->Object_0["info"@] is Object
            &&& message->Object_0["info"@]->Object_0.contains_key("id"@)
            &&& message->Object_0["info"@]->Object_0["id"@] == Json::Text(id)
        },
{
}

/// The creation time of a message is the integer under `created` in the object under `time` in the
/// object under `info`: that very number, and nothing else.
pub proof fn message_time_is_at_its_place(message: Json, created: i64)
    ensures
        message_created(message) == Some(created) <==> {
            &&& message is Object
            &&& message->Object_0.contains_key("info"@)
            &&& message->Object_0["info"@] is Object
            &&& message->Object_0["info"@]->Object_0.contains_key("time"@)
            &&& message->Object_0["info"@]->Object_0["time"@] is Object
            &&& message->Object_0["info"@]->Object_0["time"@]->Object_0.contains_key("created"@)
            &&& message->Object_0["info"@]->Object_0["time"@]->Object_0["created"@] == Json::Int(
                created as int,
            )
        },
{
}

/// The id that is read off a message is the one in it, whatever else the message holds.
pub proof fn reading_an_id_finds_it(
    message: &Value,
    found: Option<&str>,
    members: Map<Seq<char>, Json>,
    info: Map<Seq<char>, Json>,
    id: Json,
)
    requires
        call_ensures(id_of_message, (message,), found),
        json_of(*message) == Json::Object(
            members.insert("info"@, Json::Object(info.insert("id"@, id))),
        ),
    ensures
        found is Some <==> id is Text,
        found is Some ==> id == Json::Text(found->0@),
{
}

/// The time that is read off a message is the one in it, to the unit, whatever else the message
/// holds.
pub proof fn reading_a_time_finds_it(
    message: &Value,
    found: Option<i64>,
    members: Map<Seq<char>, Json>,
    info: Map<Seq<char>, Json>,
    time: Map<Seq<char>, Json>,
    created: Json,
)
    requires
        call_ensures(created_of_message, (message,), found),
        json_of(*message) == Json::Object(
            members.insert(
                "info"@,
                Json::Object(info.insert("time"@, Json::Object(time.insert("created"@, created)))),
            ),
        ),
    ensures
        found is Some <==> created is Int && i64::MIN <= created->Int_0 <= i64::MAX,
        found is Some ==> created == Json::Int(found->0 as int),
{
}

/// A cursor says the id and the time that it is made of, and nothing else.
pub proof fn cursor_says_id_and_time(id: &str, created: i64, value: Value)
    requires
        call_ensures(cursor_value, (id, created), value),
    ensures
        json_of(value) == Json::Object(
            map!["id"@ => Json::Text(id@), "time"@ => Json::Int(created as int)],
        ),
{
}

/// Texts with the same cursor are the same.
pub proof fn cursor_carries_its_text(
    text: &[u8],
    cursor: String,
    other_text: &[u8],
    other_cursor: String,
)
    requires
        call_ensures(cursor_of_text, (text,), cursor),
        call_ensures(cursor_of_text, (other_text,), other_cursor),
    ensures
        cursor@ == other_cursor@ <==> text@ == other_text@,
        cursor@ == base64url::encoded(text@),
{
}

/// A message with the string `id` at `info.id` and the integer `created` at `info.time.created` has
/// a cursor, and the cursor carries that string and that very number: its content has them under
/// `id` and `time`, and nothing else.
pub proof fn cursor_carries_id_and_time(
    message: &Value,
    cursor: Result<String, CursorError>,
    members: Map<Seq<char>, Json>,
    info: Map<Seq<char>, Json>,
    time: Map<Seq<char>, Json>,
    id: Seq<char>,
    created: int,
)
    requires
        call_ensures(message_before_cursor, (message,), cursor),
        json_of(*message) == Json::Object(members),
        members.contains_key("info"@),
        members["info"@] == Json::Object(info),
        info.contains_key("id"@),
        info["id"@] == Json::Text(id),
        info.contains_key("time"@),
        info["time"@] == Json::Object(time),
        time.contains_key("created"@),
        time["created"@] == Json::Int(created),
        i64::MIN <= created <= i64::MAX,
    ensures
        cursor is Ok,
        cursor->Ok_0@.len() > 0,
        ({
            let content = map!["id"@ => Json::Text(id), "time"@ => Json::Int(created)];
            let bytes = base64url::decoded(cursor->Ok_0@);
            &&& content["id"@] == Json::Text(id)
            &&& content["time"@] == Json::Int(created)
            &&& cursor->Ok_0@ == base64url::encoded(json::json_text(Json::Object(content)))
            &&& bytes is Some
            &&& json::parsed_json(bytes->0) == Ok::<Json, serde_json::Error>(Json::Object(content))
        }),
{
    lemma_cursor_json(id, created as i64);
    message_id_is_at_its_place(json_of(*message), id);
    message_time_is_at_its_place(json_of(*message), created as i64);
    let content = map!["id"@ => Json::Text(id), "time"@ => Json::Int(created)];
    assert(cursor_json(id, created as i64) == Json::Object(content));
}

/// A message has no cursor for want of a string at `info.id`, or else for want of an integer at
/// `info.time.created`, and for nothing else.
pub proof fn cursor_fails_for_what_is_missing(
    message: &Value,
    cursor: Result<String, CursorError>,
)
    requires
        call_ensures(message_before_cursor, (message,), cursor),
    ensures
        ({
            let top = json_of(*message);
            let info = top->Object_0["info"@];
            let time = info->Object_0["time"@];
            let has_info = {
                &&& top is Object
                &&& top->Object_0.contains_key("info"@)
                &&& info is Object
            };
            let has_id = {
                &&& has_info
                &&& info->Object_0.contains_key("id"@)
                &&& info->Object_0["id"@] is Text
            };
            let has_time = {
                &&& has_info
                &&& info->Object_0.contains_key("time"@)
                &&& time is Object
                &&& time->Object_0.contains_key("created"@)
                &&& time->Object_0["created"@] is Int
                &&& i64::MIN <= time->Object_0["created"@]->Int_0 <= i64::MAX
            };
            &&& cursor is Ok <==> has_id && has_time
            &&& cursor is Err && cursor->Err_0 is MissingId <==> !has_id
            &&& cursor is Err && cursor->Err_0 is MissingCreated <==> has_id && !has_time
        }),
{
}

/// Two messages with the same cursor have the same id and the same creation time.
pub proof fn messages_with_one_cursor_agree(
    message: &Value,
    cursor: Result<String, CursorError>,
    other: &Value,
    other_cursor: Result<String, CursorError>,
)
    requires
        call_ensures(message_before_cursor, (message,), cursor),
        call_ensures(message_before_cursor, (other,), other_cursor),
        cursor is Ok,
        other_cursor is Ok,
        cursor->Ok_0@ == other_cursor->Ok_0@,
    ensures
        ({
            let info = json_of(*message)->Object_0["info"@]->Object_0;
            let other_info = json_of(*other)->Object_0["info"@]->Object_0;
            &&& info["id"@] == other_info["id"@]
            &&& info["time"@]->Object_0["created"@] == other_info["time"@]->Object_0["created"@]
        }),
{
    let id = message_id(json_of(*message))->0;
    let created: i64 = message_created(json_of(*message))->0;
    let other_id = message_id(json_of(*other))->0;
    let other_created: i64 = message_created(json_of(*other))->0;
    cursor_names_one_message(cursor->Ok_0@, id, created, other_id, other_created);
    message_id_is_at_its_place(json_of(*message), id);
    message_id_is_at_its_place(json_of(*other), id);
    message_time_is_at_its_place(json_of(*message), created);
    message_time_is_at_its_place(json_of(*other), created);
}

/// What a cursor says names a message by the string under `id`, and by nothing else.
pub proof fn content_names_its_id(content: &Value, anchor: Option<&str>)
    requires
        call_ensures(anchor_of_content, (content,), anchor),
    ensures
        ({
            let json = json_of(*content);
            let has_id = {
                &&& json is Object
                &&& json->Object_0.contains_key("id"@)
                &&& json->Object_0["id"@] is Text
            };
            &&& anchor is Some <==> has_id
            &&& anchor is Some ==> json->Object_0["id"@] == Json::Text(anchor->0@)
        }),
{
}

/// A text is a cursor that names a message where it is the base64url text of a JSON object with a
/// string under `id`: it names that string.
pub proof fn cursor_names_the_id_in_it(cursor: Seq<char>, id: Seq<char>)
    ensures
        cursor_anchor(cursor) == Some(id) <==> exists|bytes: Seq<u8>|
            {
                &&& cursor.len() > 0
                &&& #[trigger] base64url::encoded(bytes) == cursor
                &&& json::parsed_json(bytes) is Ok
                &&& json::parsed_json(bytes)->Ok_0 is Object
                &&& json::parsed_json(bytes)->Ok_0->Object_0.contains_key("id"@)
                &&& json::parsed_json(bytes)->Ok_0->Object_0["id"@] == Json::Text(id)
            },
{
    if cursor_anchor(cursor) == Some(id) {
        let bytes = base64url::decoded(cursor)->0;
        base64url::decoding_finds_what_was_encoded(cursor, bytes);
    }
    assert forall|bytes: Seq<u8>| #[trigger] base64url::encoded(bytes) == cursor implies
        base64url::decoded(cursor) == Some(bytes) by {
        base64url::decoding_finds_what_was_encoded(cursor, bytes);
    }
}

/// Reading a cursor gives the id in it, and nothing where there is none.
pub proof fn reading_a_cursor_finds_the_id(cursor: &str, anchor: Option<String>, id: Seq<char>)
    requires
        call_ensures(anchor_of_cursor, (cursor,), anchor),
    ensures
        anchor is Some && anchor->0@ == id <==> exists|bytes: Seq<u8>|
            {
                &&& cursor@.len() > 0
                &&& #[trigger] base64url::encoded(bytes) == cursor@
                &&& json::parsed_json(bytes) is Ok
                &&& json::parsed_json(bytes)->Ok_0 is Object
                &&& json::parsed_json(bytes)->Ok_0->Object_0.contains_key("id"@)
                &&& json::parsed_json(bytes)->Ok_0->Object_0["id"@] == Json::Text(id)
            },
{
    cursor_names_the_id_in_it(cursor@, id);
}

/// Reading the cursor of a message gives the id of the message back.
pub proof fn reading_undoes_making(
    message: &Value,
    made: Result<String, CursorError>,
    cursor: &str,
    anchor: Option<String>,
)
    requires
        call_ensures(message_before_cursor, (message,), made),
        made is Ok,
        cursor@ == made->Ok_0@,
        call_ensures(anchor_of_cursor, (cursor,), anchor),
    ensures
        anchor is Some,
        json_of(*message)->Object_0["info"@]->Object_0["id"@] == Json::Text(anchor->0@),
{
    message_id_is_at_its_place(json_of(*message), anchor->0@);
}

/// Each error says what the message lacks.
pub proof fn cursor_errors_name_what_is_missing(error: &CursorError, said: &'static str)
    requires
        call_ensures(CursorError::message, (error,), said),
    ensures
        *error is MissingId ==> said@ == "message is missing info.id"@,
        *error is MissingCreated ==> said@ == "message is missing info.time.created"@,
{
}

} // verus!
