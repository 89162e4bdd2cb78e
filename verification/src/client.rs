//! What passes between a handle and the client that carries its calls.
//!
//! A client is any function from a [`Request`] to a [`Reply`]. The handles
//! compose the request and read the reply; connecting, authenticating and
//! sending are the client's own business.

use vstd::prelude::*;
use crate::error::{CallError, CallErrorView};
use crate::json::{json_document, Json};

verus! {

/// The verb of a request.
#[derive(Debug, Clone, Copy, PartialEq, Eq)]
pub enum Method {
    Get,
    Post,
}

/// A call on the API: the verb, the path below the API root with its query,
/// and the body where the verb has one.
#[derive(Debug, Clone, PartialEq, Eq)]
pub struct Request {
    pub method: Method,
    pub path: String,
    pub body: Option<Vec<u8>>,
}

/// What a [`Request`] holds.
pub struct RequestView {
    pub method: Method,
    pub path: Seq<char>,
    pub body: Option<Seq<u8>>,
}

impl View for Request {
    type V = RequestView;

    open spec fn view(&self) -> RequestView {
        RequestView {
            method: self.method,
            path: self.path@,
            body: match self.body {
                Some(bytes) => Some(bytes@),
                None => None,
            },
        }
    }
}

/// What the service answered: the HTTP status and the bytes of the body.
#[derive(Debug, Clone, PartialEq, Eq)]
pub struct Response {
    pub status: u16,
    pub body: Vec<u8>,
}

/// What a client hands back: the response of the service, or the reason why
/// there is none.
pub type Reply = Result<Response, CallError>;

/// The statuses with which the service reports a failure: 400 to 599.
pub open spec fn is_failure(status: u16) -> bool {
    400 <= status <= 599
}

/// The error that a response with a status of failure stands for, given the
/// document in its body: the status with the text of the member `message`.
/// A body that holds no such document cannot be read.
pub open spec fn failure_of(status: u16, document: Option<Json>) -> CallErrorView {
    match document {
        Some(json) => match json.text_at("message"@) {
            Some(message) => CallErrorView::Api { status, message },
            None => CallErrorView::Deserialization,
        },
        None => CallErrorView::Deserialization,
    }
}

/// What a response stands for, given its status and the document in its body:
/// the document, or the error that the status reports, or the failure to read
/// the body.
pub open spec fn outcome_of(status: u16, document: Option<Json>) -> Result<Json, CallErrorView> {
    if is_failure(status) {
        Err(failure_of(status, document))
    } else {
        match document {
            Some(json) => Ok(json),
            None => Err(CallErrorView::Deserialization),
        }
    }
}

/// Whether the service reports a failure with this status.
pub fn status_is_failure(status: u16) -> (failure: bool)
    ensures
        failure == is_failure(status),
{
    400 <= status && status <= 599
}

/// Tells what a response stands for, from its status and from what reading its
/// body as JSON gave.
pub fn read_outcome(status: u16, document: Option<Json>) -> (outcome: Result<Json, CallError>)
    ensures
        outcome matches Ok(json) ==> outcome_of(status, document) == Ok::<Json, CallErrorView>(json),
        outcome matches Err(error) ==> outcome_of(status, document) == Err::<Json, CallErrorView>(
            error@,
        ),
{
    if status_is_failure(status) {
        match document {
            Some(json) => match json.get_text("message") {
                Some(message) => Err(CallError::Api { status, message }),
                None => Err(CallError::Deserialization),
            },
            None => Err(CallError::Deserialization),
        }
    } else {
        match document {
            Some(json) => Ok(json),
            None => Err(CallError::Deserialization),
        }
    }
}

impl Response {
    /// What this response stands for: see [`outcome_of`].
    pub open spec fn outcome(self) -> Result<Json, CallErrorView> {
        outcome_of(self.status, json_document(self.body@))
    }

    /// Reads the body and tells what the response stands for.
    pub fn document(&self) -> (outcome: Result<Json, CallError>)
        ensures
            outcome matches Ok(json) ==> self.outcome() == Ok::<Json, CallErrorView>(json),
            outcome matches Err(error) ==> self.outcome() == Err::<Json, CallErrorView>(error@),
    {
        let document: Option<Json> = match Json::parse(self.body.as_slice()) {
            Ok(json) => Some(json),
            Err(_) => None,
        };
        read_outcome(self.status, document)
    }
}

/// What a reply stands for: what its response stands for, or the client's own
/// error as it is.
pub open spec fn reply_outcome(reply: Reply) -> Result<Json, CallErrorView> {
    match reply {
        Ok(response) => response.outcome(),
        Err(error) => Err(error@),
    }
}

/// Reads a reply: see [`reply_outcome`].
pub fn read_reply(reply: Reply) -> (outcome: Result<Json, CallError>)
    ensures
        outcome matches Ok(json) ==> reply_outcome(reply) == Ok::<Json, CallErrorView>(json),
        outcome matches Err(error) ==> reply_outcome(reply) == Err::<Json, CallErrorView>(error@),
{
    match reply {
        Ok(response) => response.document(),
        Err(error) => Err(error),
    }
}

} // verus!
