//! What is sent to the server and what comes back.
//!
//! The engine does not talk to the network. It says which request is due, and
//! it is told what the transport got for it.

use vstd::prelude::*;

use crate::decode::flag_field;
use crate::error::{Error, Fault, Field};
use crate::json::{Json, JsonView, parsed_json};
use crate::views::views;

verus! {

/// One query parameter.
#[derive(Debug, PartialEq, Eq)]
pub struct Param {
    pub name: String,
    pub value: String,
}

impl View for Param {
    type V = (Seq<char>, Seq<char>);

    open spec fn view(&self) -> (Seq<char>, Seq<char>) {
        (self.name@, self.value@)
    }
}

/// A request: the path below the server's JSON root and the query
/// parameters in the order in which they are sent.
#[derive(Debug, PartialEq, Eq)]
pub struct Request {
    pub path: String,
    pub params: Vec<Param>,
}

/// The contents of a `Request`.
pub struct RequestView {
    pub path: Seq<char>,
    pub params: Seq<(Seq<char>, Seq<char>)>,
}

impl View for Request {
    type V = RequestView;

    open spec fn view(&self) -> RequestView {
        RequestView { path: self.path@, params: views(self.params@) }
    }
}

/// What the transport got for a request.
#[derive(Debug, PartialEq, Eq)]
pub enum Reply {
    /// The server answered with this JSON document.
    Answer(Json),
    /// No answer could be had: network, TLS, timeout or a body that is no
    /// JSON.
    Failure,
}

/// The contents of a `Reply`.
pub enum ReplyView {
    Answer(JsonView),
    Failure,
}

impl View for Reply {
    type V = ReplyView;

    open spec fn view(&self) -> ReplyView {
        match self {
            Reply::Answer(j) => ReplyView::Answer(j@),
            Reply::Failure => ReplyView::Failure,
        }
    }
}

/// The payload of an answer. Every answer says whether the call succeeded;
/// one that succeeded may carry a result, and carries `null` where it has
/// none.
pub open spec fn payload_of(reply: ReplyView) -> Result<JsonView, Error> {
    match reply {
        ReplyView::Failure => Err(Error::Transport),
        ReplyView::Answer(j) => match flag_field(j, Field::Status) {
            Err(e) => Err(e),
            Ok(ok) => if !ok {
                Err(Error::Protocol(Fault::Refused))
            } else {
                match j.member(Field::Payload.wire_name()) {
                    Some(v) => Ok(v),
                    None => Ok(JsonView::Null),
                }
            },
        },
    }
}

/// What the body of a response stands for: the document that it holds, or a
/// failure where it holds none.
pub open spec fn reply_of_text(text: Seq<char>) -> ReplyView {
    match parsed_json(text) {
        Some(j) => ReplyView::Answer(j),
        None => ReplyView::Failure,
    }
}

impl Reply {
    /// The reply that a response with this body is.
    pub fn from_text(text: &str) -> (r: Reply)
        ensures
            r@ == reply_of_text(text@),
    {
        match Json::parse(text) {
            Some(j) => Reply::Answer(j),
            None => Reply::Failure,
        }
    }

    /// Checks an answer and takes its payload out.
    pub fn payload(self) -> (r: Result<Json, Error>)
        ensures
            match r {
                Ok(j) => payload_of(self@) == Ok::<JsonView, Error>(j@),
                Err(e) => payload_of(self@) == Err::<JsonView, Error>(e),
            },
    {
        match self {
            Reply::Failure => Err(Error::Transport),
            Reply::Answer(j) => {
                let ok = crate::decode::get_flag(&j, Field::Status)?;
                if !ok {
                    return Err(Error::Protocol(Fault::Refused));
                }
                match j.take(Field::Payload.name()) {
                    Some(v) => Ok(v),
                    None => Ok(Json::Null),
                }
            },
        }
    }
}

/// Makes a parameter.
pub fn param(name: &str, value: String) -> (r: Param)
    ensures
        r@ == (name@, value@),
{
    Param { name: name.to_string(), value }
}

} // verus!
