//! What becomes of the answer to a request: first its status decides, then its body is read.

use crate::json;
use crate::json::{json_of, Json};
use serde_json::Value;
use vstd::prelude::*;

verus! {

/// What a request is answered with.
#[derive(Clone, Copy, Debug, PartialEq, Eq, Structural)]
pub enum ReplyKind {
    /// A JSON value.
    Value,
    /// A JSON value that is read and dropped: only the success counts.
    Done,
    /// The response itself, its body unread.
    Raw,
}

/// The answer to a request.
#[derive(Debug)]
pub enum Answer {
    Value(Value),
    Done,
}

/// An answer as a mathematical object.
pub enum AnswerView {
    Value(Json),
    Done,
}

impl View for Answer {
    type V = AnswerView;

    open spec fn view(&self) -> AnswerView {
        match self {
            Answer::Value(value) => AnswerView::Value(json_of(*value)),
            Answer::Done => AnswerView::Done,
        }
    }
}

/// What to do once the status of a response is known.
#[derive(Debug)]
pub enum StatusStep {
    /// The request failed.
    Refused,
    /// The request is answered with this; the body is not read.
    Finished(Answer),
    /// The body holds the answer.
    ReadBody,
    /// The response itself is the answer.
    HandOver,
}

/// Why the body of a response is no answer.
#[derive(Debug)]
pub enum ReplyError {
    /// The body is no JSON text, for this cause.
    InvalidJson(serde_json::Error),
}

impl ReplyError {
    /// The text of the error.
    pub fn message(&self) -> (text: &'static str)
        ensures
            text@ == "error decoding response body"@,
    {
        "error decoding response body"
    }
}

/// The status of a client or a server error.
pub open spec fn is_error_status(status: u16) -> bool {
    400 <= status < 600
}

/// The status of a response without a body.
pub open spec fn is_no_content(status: u16) -> bool {
    status == 204
}

/// The answer that a JSON value is.
pub open spec fn answer_with(kind: ReplyKind, value: Json) -> AnswerView {
    if kind == ReplyKind::Done {
        AnswerView::Done
    } else {
        AnswerView::Value(value)
    }
}

/// The answer that a JSON value is.
pub fn answer_of_value(kind: ReplyKind, value: Value) -> (answer: Answer)
    ensures
        answer@ == answer_with(kind, json_of(value)),
        answer is Value ==> answer->Value_0 == value,
{
    match kind {
        ReplyKind::Done => Answer::Done,
        _ => Answer::Value(value),
    }
}

/// What to do with a response of this status. An error status is refused, whatever the request
/// asked for; no content stands for the value null.
pub fn step_for_status(kind: ReplyKind, status: u16) -> (step: StatusStep)
    ensures
        step is Refused <==> is_error_status(status),
        step is HandOver <==> kind == ReplyKind::Raw && !is_error_status(status),
        step is Finished <==> kind != ReplyKind::Raw && is_no_content(status),
        step is ReadBody <==> kind != ReplyKind::Raw && !is_error_status(status) && !is_no_content(
            status,
        ),
        step is Finished ==> step->Finished_0@ == answer_with(kind, Json::Null),
{
    if 400 <= status && status < 600 {
        return StatusStep::Refused;
    }
    match kind {
        ReplyKind::Raw => StatusStep::HandOver,
        _ => {
            if status == 204 {
                StatusStep::Finished(answer_of_value(kind, json::null_value()))
            } else {
                StatusStep::ReadBody
            }
        },
    }
}

/// The answer that the body of a response holds.
pub fn answer_of_body(kind: ReplyKind, body: &[u8]) -> (answer: Result<Answer, ReplyError>)
    ensures
        match json::parsed_json(body@) {
            Ok(value) => answer is Ok && answer->Ok_0@ == answer_with(kind, value),
            Err(cause) => answer == Err::<Answer, ReplyError>(ReplyError::InvalidJson(cause)),
        },
{
    match json::parse_json(body) {
        Ok(value) => Ok(answer_of_value(kind, value)),
        Err(cause) => Err(ReplyError::InvalidJson(cause)),
    }
}

/// A body that is JSON is answered with the value in it where a value is asked for, whatever value
/// that is. Only a request for mere success is answered with mere success.
pub proof fn answer_is_the_value_in_the_body(
    kind: ReplyKind,
    body: &[u8],
    answer: Result<Answer, ReplyError>,
    value: Json,
)
    requires
        call_ensures(answer_of_body, (kind, body), answer),
        json::parsed_json(body@) == Ok::<Json, serde_json::Error>(value),
    ensures
        answer is Ok,
        answer->Ok_0 is Done <==> kind is Done,
        answer->Ok_0 is Value <==> kind is Value || kind is Raw,
        answer->Ok_0 is Value ==> json_of(answer->Ok_0->Value_0) == value,
{
}

/// A body that is no JSON text is refused with the cause that the parser gives, whatever was asked
/// for.
pub proof fn broken_body_is_refused(
    kind: ReplyKind,
    body: &[u8],
    answer: Result<Answer, ReplyError>,
    cause: serde_json::Error,
)
    requires
        call_ensures(answer_of_body, (kind, body), answer),
        json::parsed_json(body@) == Err::<Json, serde_json::Error>(cause),
    ensures
        answer is Err,
        answer->Err_0->InvalidJson_0 == cause,
{
}

/// A value is answered with as it is, save where only success is asked for.
pub proof fn values_are_answered_as_they_are(kind: ReplyKind, value: Value, answer: Answer)
    requires
        call_ensures(answer_of_value, (kind, value), answer),
    ensures
        answer is Done <==> kind is Done,
        answer is Value <==> !(kind is Done),
        answer is Value ==> answer->Value_0 == value,
{
}

/// The status of a response decides what becomes of it: the hundreds of an error refuse it, no
/// content finishes it with null or with mere success, and a raw response is handed over.
pub proof fn status_decides_the_step(kind: ReplyKind, status: u16, step: StatusStep)
    requires
        call_ensures(step_for_status, (kind, status), step),
    ensures
        status / 100 == 4 || status / 100 == 5 ==> step is Refused,
        status / 100 != 4 && status / 100 != 5 ==> {
            &&& kind is Raw ==> step is HandOver
            &&& !(kind is Raw) && status != 204 ==> step is ReadBody
            &&& kind is Done && status == 204 ==> step is Finished && step->Finished_0 is Done
            &&& kind is Value && status == 204 ==> step is Finished && step->Finished_0 is Value
                && json_of(step->Finished_0->Value_0) == Json::Null
        },
{
}

/// No content is answered like a body that holds null.
pub proof fn no_content_is_null(
    kind: ReplyKind,
    step: StatusStep,
    body: &[u8],
    answer: Result<Answer, ReplyError>,
)
    requires
        !(kind is Raw),
        call_ensures(step_for_status, (kind, 204), step),
        call_ensures(answer_of_body, (kind, body), answer),
        json::parsed_json(body@) == Ok::<Json, serde_json::Error>(Json::Null),
    ensures
        step is Finished,
        answer is Ok,
        step->Finished_0@ == answer->Ok_0@,
{
}

/// An answer is seen with the value in it.
pub proof fn answer_is_seen_with_its_value(answer: Answer)
    ensures
        answer is Value ==> answer@ == AnswerView::Value(json_of(answer->Value_0)),
        answer is Done ==> answer@ == AnswerView::Done,
{
}

/// The error says that the body is at fault.
pub proof fn reply_errors_blame_the_body(error: &ReplyError, said: &'static str)
    requires
        call_ensures(ReplyError::message, (error,), said),
    ensures
        said@ == "error decoding response body"@,
{
}

} // verus!
