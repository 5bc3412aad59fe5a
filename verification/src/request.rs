//! The requests of the client.

use crate::json::{json_of, Json};
use crate::reply::ReplyKind;
use serde_json::Value;
use vstd::prelude::*;

verus! {

/// The method of a request.
#[derive(Clone, Copy, Debug, PartialEq, Eq, Structural)]
pub enum Method {
    Get,
    Post,
    Put,
    Patch,
    Delete,
}

/// A request to be sent: a body, where there is one, goes out as JSON.
#[derive(Debug)]
pub struct Request {
    pub method: Method,
    pub url: String,
    pub body: Option<Value>,
    /// What the request is answered with.
    pub reply: ReplyKind,
}

/// A request as a mathematical object.
pub struct RequestView {
    pub method: Method,
    pub url: Seq<char>,
    pub body: Option<Json>,
    pub reply: ReplyKind,
}

impl View for Request {
    type V = RequestView;

    open spec fn view(&self) -> RequestView {
        RequestView {
            method: self.method,
            url: self.url@,
            body: match self.body {
                Some(body) => Some(json_of(body)),
                None => None,
            },
            reply: self.reply,
        }
    }
}

impl Request {
    /// The same request, of which only the success is asked.
    pub fn for_its_success(self) -> (request: Request)
        ensures
            request@ == (RequestView { reply: ReplyKind::Done, ..self@ }),
            request.body == self.body,
    {
        Request { method: self.method, url: self.url, body: self.body, reply: ReplyKind::Done }
    }
}

/// A request is seen with its method, its URL, the JSON of its body and what it is answered with.
pub proof fn request_is_seen_as_it_is(request: Request)
    ensures
        request@.method == request.method,
        request@.url == request.url@,
        request.body is Some ==> request@.body == Some(json_of(request.body->0)),
        request.body is None ==> request@.body is None,
        request@.reply == request.reply,
{
}

/// To ask only for success changes nothing of what is sent.
pub proof fn asking_for_success_sends_the_same(request: Request, command: Request)
    requires
        call_ensures(Request::for_its_success, (request,), command),
    ensures
        command.method == request.method,
        command.url@ == request.url@,
        command.body == request.body,
        command.reply is Done,
{
}

} // verus!
