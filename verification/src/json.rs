//! JSON values as the client reads and builds them.
//!
//! A value is a `serde_json::Value`; contracts speak of it through [`json_of`], the [`Json`] tree
//! that it holds. This file holds what is taken on trust of `serde_json` with its default
//! features, under which an object keeps its members in a `BTreeMap` and a number is a `u64`, a
//! negative `i64` or a double.

use serde_json::Value;
use vstd::prelude::*;

verus! {

/// A JSON value as a mathematical object.
pub enum Json {
    Null,
    Bool(bool),
    /// A number held as an integer; it lies between `i64::MIN` and `u64::MAX`.
    Int(int),
    /// A number held as a double, by the bits of the double.
    Float(u64),
    Text(Seq<char>),
    Array(Seq<Json>),
    Object(Map<Seq<char>, Json>),
}

/// The member of an object under `key`; nothing else has members.
pub open spec fn member(json: Json, key: Seq<char>) -> Option<Json> {
    match json {
        Json::Object(members) => if members.contains_key(key) {
            Some(members[key])
        } else {
            None
        },
        _ => None,
    }
}

/// The member under `key` of what is there, if anything is.
pub open spec fn then_member(json: Option<Json>, key: Seq<char>) -> Option<Json> {
    match json {
        Some(json) => member(json, key),
        None => None,
    }
}

/// The characters of a string.
pub open spec fn text_of(json: Json) -> Option<Seq<char>> {
    match json {
        Json::Text(chars) => Some(chars),
        _ => None,
    }
}

/// The value of an integer that fits an `i64`.
pub open spec fn integer_of(json: Json) -> Option<i64> {
    match json {
        Json::Int(n) => if i64::MIN <= n <= i64::MAX {
            Some(n as i64)
        } else {
            None
        },
        _ => None,
    }
}

/// The elements of an array; none for anything else.
pub open spec fn elements_of(json: Json) -> Seq<Json> {
    match json {
        Json::Array(elements) => elements,
        _ => Seq::empty(),
    }
}

/// The trees that a sequence of values holds.
pub open spec fn jsons_of(values: Seq<Value>) -> Seq<Json> {
    values.map_values(|value: Value| json_of(value))
}

/// The members of an object that has none.
pub open spec fn no_members() -> Map<Seq<char>, Json> {
    Map::empty()
}

/// An object whose members are strings and integers only.
pub open spec fn flat_object(json: Json) -> bool {
    &&& json is Object
    &&& forall|key: Seq<char>| #[trigger]
        json->Object_0.contains_key(key) ==> (json->Object_0[key] is Text
            || json->Object_0[key] is Int)
}

/// A JSON pointer that starts with a slash, with no escapes and no digit, so that none of its
/// tokens can be an array index.
pub open spec fn plain_pointer(pointer: Seq<char>) -> bool {
    &&& pointer.len() > 0
    &&& pointer[0] == '/'
    &&& forall|i: int|
        0 <= i < pointer.len() ==> pointer[i] != '~' && !('0' <= #[trigger] pointer[i] <= '9')
}

/// The length of the text before the first slash.
pub open spec fn token_len(text: Seq<char>) -> nat
    decreases text.len(),
{
    if text.len() == 0 || text[0] == '/' {
        0
    } else {
        1 + token_len(text.skip(1))
    }
}

/// A token is no longer than the text it starts.
pub proof fn lemma_token_fits(text: Seq<char>)
    ensures
        token_len(text) <= text.len(),
    decreases text.len(),
{
    if text.len() > 0 && text[0] != '/' {
        lemma_token_fits(text.skip(1));
    }
}

/// What stands at a plain pointer: member by member, one for each token between slashes.
pub open spec fn at_pointer(json: Json, pointer: Seq<char>) -> Option<Json>
    decreases pointer.len(),
{
    if pointer.len() == 0 {
        Some(json)
    } else {
        let tokens = pointer.skip(1);
        let n = token_len(tokens) as int;
        proof {
            lemma_token_fits(tokens);
        }
        match member(json, tokens.take(n)) {
            Some(inner) => at_pointer(inner, tokens.skip(n)),
            None => None,
        }
    }
}

proof fn lemma_token_len(token: Seq<char>, rest: Seq<char>)
    requires
        !token.contains('/'),
        rest.len() == 0 || rest[0] == '/',
    ensures
        token_len(token + rest) == token.len(),
    decreases token.len(),
{
    if token.len() > 0 {
        assert(token[0] != '/');
        assert forall|i: int| 0 <= i < token.skip(1).len() implies token.skip(1)[i] != '/' by {
            assert(token.skip(1)[i] == token[i + 1]);
        }
        lemma_token_len(token.skip(1), rest);
        assert((token + rest).skip(1) =~= token.skip(1) + rest);
    } else {
        assert(token + rest =~= rest);
    }
}

/// A pointer is followed one token at a time.
pub proof fn lemma_pointer_step(json: Json, token: Seq<char>, rest: Seq<char>)
    requires
        !token.contains('/'),
        rest.len() == 0 || rest[0] == '/',
    ensures
        at_pointer(json, seq!['/'] + token + rest) == match member(json, token) {
            Some(inner) => at_pointer(inner, rest),
            None => None,
        },
{
    let pointer = seq!['/'] + token + rest;
    lemma_token_len(token, rest);
    assert(pointer.skip(1) =~= token + rest);
    assert((token + rest).take(token.len() as int) =~= token);
    assert((token + rest).skip(token.len() as int) =~= rest);
}

/// `serde_json::Value`.
#[verifier::external_type_specification]
#[verifier::external_body]
pub struct ExValue(serde_json::Value);

/// `serde_json::Map`, the members of an object.
#[verifier::external_type_specification]
#[verifier::external_body]
#[verifier::reject_recursive_types(K)]
#[verifier::reject_recursive_types(V)]
pub struct ExMap<K, V>(serde_json::Map<K, V>);

/// `serde_json::Error`, why a text is no JSON text, and where in the text.
#[verifier::external_type_specification]
#[verifier::external_body]
pub struct ExError(serde_json::Error);

/// The tree that a value holds.
pub uninterp spec fn json_of(value: serde_json::Value) -> Json;

/// The members that a map of `serde_json` holds.
pub uninterp spec fn members_of(
    map: serde_json::Map<String, serde_json::Value>,
) -> Map<Seq<char>, Json>;

/// The value that `serde_json::from_slice` reads from a JSON text, or the error with which it
/// rejects the text.
pub uninterp spec fn parsed_json(text: Seq<u8>) -> Result<Json, serde_json::Error>;

/// The text that `serde_json::to_vec` prints for a value.
pub uninterp spec fn json_text(json: Json) -> Seq<u8>;

/// `Value::as_str`: the text of a string, and `None` for any other value.
pub assume_specification<'a>[ serde_json::Value::as_str ](value: &'a serde_json::Value) -> (chars:
    Option<&'a str>)
    ensures
        match chars {
            Some(chars) => text_of(json_of(*value)) == Some(chars@),
            None => text_of(json_of(*value)) is None,
        },
;

/// `Value::as_i64`: the integer where it is one that fits an `i64`, and `None` otherwise, for
/// a number held as a double too.
pub assume_specification[ serde_json::Value::as_i64 ](value: &serde_json::Value) -> (n: Option<i64>)
    ensures
        n == integer_of(json_of(*value)),
;

/// `Value::as_array`: the elements of an array in order, and `None` for any other value.
pub assume_specification<'a>[ serde_json::Value::as_array ](value: &'a serde_json::Value) -> (items:
    Option<&'a Vec<serde_json::Value>>)
    ensures
        match items {
            Some(items) => json_of(*value) == Json::Array(jsons_of(items@)),
            None => !(json_of(*value) is Array),
        },
;

/// `Value::pointer`, for a plain pointer: the value reached member by member, and `None` where a
/// member is missing or what should hold it is no object.
pub assume_specification<'a, 'b>[ serde_json::Value::pointer ](
    value: &'a serde_json::Value,
    pointer: &'b str,
) -> (found: Option<&'a serde_json::Value>)
    requires
        plain_pointer(pointer@),
    ensures
        match found {
            Some(inner) => at_pointer(json_of(*value), pointer@) == Some(json_of(*inner)),
            None => at_pointer(json_of(*value), pointer@) is None,
        },
;

/// `Value::clone`: a value that holds the same tree.
pub assume_specification[ <serde_json::Value as Clone>::clone ](value: &serde_json::Value) -> (copy:
    serde_json::Value)
    ensures
        json_of(copy) == json_of(*value),
;

/// `Map::new`: a map without members.
pub assume_specification[ serde_json::Map::<String, serde_json::Value>::new ]() -> (map:
    serde_json::Map<String, serde_json::Value>)
    ensures
        members_of(map) == no_members(),
;

/// `Map::insert`: the member under `key` becomes `value`, the others stay; the member that was
/// there comes back.
pub assume_specification[ serde_json::Map::<String, serde_json::Value>::insert ](
    map: &mut serde_json::Map<String, serde_json::Value>,
    key: String,
    value: serde_json::Value,
) -> (previous: Option<serde_json::Value>)
    ensures
        members_of(*final(map)) == members_of(*old(map)).insert(key@, json_of(value)),
        match previous {
            Some(earlier) => members_of(*old(map)).contains_key(key@) && members_of(
                *old(map),
            )[key@] == json_of(earlier),
            None => !members_of(*old(map)).contains_key(key@),
        },
;

/// `Value::get` with a string: the member under `key`, and `None` for a value that is no object
/// or has no such member.
#[verifier::external_body]
pub(crate) fn get_member<'a>(value: &'a Value, key: &str) -> (found: Option<&'a Value>)
    ensures
        match found {
            Some(inner) => member(json_of(*value), key@) == Some(json_of(*inner)),
            None => member(json_of(*value), key@) is None,
        },
{
    value.get(key)
}

/// `Value::Null`.
#[verifier::external_body]
pub(crate) fn null_value() -> (value: Value)
    ensures
        json_of(value) == Json::Null,
{
    Value::Null
}

/// `Value::Bool`.
#[verifier::external_body]
pub(crate) fn bool_value(b: bool) -> (value: Value)
    ensures
        json_of(value) == Json::Bool(b),
{
    Value::Bool(b)
}

/// `Value::from` of an `i64`: an integer.
#[verifier::external_body]
pub(crate) fn int_value(n: i64) -> (value: Value)
    ensures
        json_of(value) == Json::Int(n as int),
{
    Value::from(n)
}

/// `Value::String`.
#[verifier::external_body]
pub(crate) fn text_value(text: String) -> (value: Value)
    ensures
        json_of(value) == Json::Text(text@),
{
    Value::String(text)
}

/// `Value::Object`.
#[verifier::external_body]
pub(crate) fn object_value(map: serde_json::Map<String, Value>) -> (value: Value)
    ensures
        json_of(value) == Json::Object(members_of(map)),
{
    Value::Object(map)
}

/// `serde_json::from_slice` into a `Value`: the value and the error depend on the text alone.
#[verifier::external_body]
pub(crate) fn parse_json(text: &[u8]) -> (value: Result<Value, serde_json::Error>)
    ensures
        match value {
            Ok(value) => parsed_json(text@) is Ok && parsed_json(text@)->Ok_0 == json_of(value),
            Err(error) => parsed_json(text@) is Err && parsed_json(text@)->Err_0 == error,
        },
{
    serde_json::from_slice::<Value>(text)
}

/// `serde_json::to_vec` of an object of strings and integers: it succeeds, the text holds at least
/// the two braces, and reading it gives the same object back.
#[verifier::external_body]
pub(crate) fn print_json(value: &Value) -> (text: Option<Vec<u8>>)
    requires
        flat_object(json_of(*value)),
    ensures
        text is Some,
        text->0@ == json_text(json_of(*value)),
        text->0@.len() >= 2,
        parsed_json(text->0@) is Ok && parsed_json(text->0@)->Ok_0 == json_of(*value),
{
    serde_json::to_vec(value).ok()
}

/// Setting a member sets it and leaves the others, and taking it away takes it away.
pub proof fn members_are_what_was_set(
    members: Map<Seq<char>, Json>,
    key: Seq<char>,
    value: Json,
    other: Seq<char>,
)
    ensures
        member(Json::Object(members.insert(key, value)), key) == Some(value),
        other != key ==> member(Json::Object(members.insert(key, value)), other) == member(
            Json::Object(members),
            other,
        ),
        member(Json::Object(members.remove(key)), key) is None,
        member(Json::Object(Map::empty()), key) is None,
{
}

/// Nothing but an object has members.
pub proof fn only_objects_have_members(json: Json, key: Seq<char>)
    requires
        !(json is Object),
    ensures
        member(json, key) is None,
{
}

/// A member of a member is found through both, and not where the first is missing.
pub proof fn members_of_members(
    outer: Map<Seq<char>, Json>,
    inner: Map<Seq<char>, Json>,
    first: Seq<char>,
    second: Seq<char>,
    value: Json,
)
    ensures
        then_member(
            member(
                Json::Object(outer.insert(first, Json::Object(inner.insert(second, value)))),
                first,
            ),
            second,
        ) == Some(value),
        then_member(member(Json::Object(outer.remove(first)), first), second) is None,
        then_member(None, second) is None,
        then_member(Some(value), second) == member(value, second),
{
}

/// The text of a string is the string's, and nothing else has one.
pub proof fn only_strings_have_text(json: Json, chars: Seq<char>)
    ensures
        text_of(json) == Some(chars) <==> json == Json::Text(chars),
{
}

/// The integer of a number is the number's, and nothing else has one.
pub proof fn only_integers_have_a_value(json: Json, n: i64)
    ensures
        integer_of(json) == Some(n) <==> json == Json::Int(n as int),
{
}

/// The elements of an array are the array's, and nothing else has any.
pub proof fn only_arrays_have_elements(json: Json, elements: Seq<Json>)
    ensures
        elements_of(Json::Array(elements)) == elements,
        !(json is Array) ==> elements_of(json).len() == 0,
{
}

/// Values hold their trees one by one, in order.
pub proof fn values_hold_their_trees_in_order(values: Seq<Value>, i: int)
    ensures
        jsons_of(values).len() == values.len(),
        0 <= i < values.len() ==> jsons_of(values)[i] == json_of(values[i]),
{
}

} // verus!
