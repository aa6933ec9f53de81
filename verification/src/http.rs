//! HTTP exchanges as plain values: the requests to send, and the replies that came.
use crate::json::{Json, JsonView};
use crate::outcome::optional;
use vstd::prelude::*;

verus! {

/// The HTTP methods that the backends use.
#[derive(Clone, Copy, PartialEq, Eq, Structural, Debug)]
pub enum Method {
    Get,
    Put,
    Post,
}

/// A request that is to be sent.
#[derive(Debug)]
pub struct Request {
    pub method: Method,
    pub url: String,
    /// The JSON document in the body, if any.
    pub body: Option<Json>,
}

/// The mathematical value of a [`Request`].
pub struct RequestView {
    pub method: Method,
    pub url: Seq<char>,
    pub body: Option<JsonView>,
}

impl View for Request {
    type V = RequestView;

    open spec fn view(&self) -> RequestView {
        RequestView { method: self.method, url: self.url@, body: optional(self.body) }
    }
}

/// What came of a request.
#[derive(Debug)]
pub enum Reply<T> {
    /// No response arrived; holds the transport's message.
    Lost(String),
    /// A response with a status that is no success: the status line, and the body as text where
    /// it could be read.
    Refused { status: String, text: Option<String> },
    /// A response with a success status: what its body holds, or the message that says why that
    /// could not be read.
    Accepted(Result<T, String>),
}

/// Whether `status` is a success status: one of the two hundreds.
pub fn is_success(status: u16) -> (success: bool)
    ensures
        success == (200 <= status < 300),
{
    200 <= status && status < 300
}

/// What is said of the body of a success that does not hold what it should.
pub open spec fn undecodable() -> Seq<char> {
    "error decoding response body"@
}

/// What is said of the body of a success that does not hold what it should: the words that the
/// HTTP client has for it.
pub fn undecodable_text() -> (text: String)
    ensures
        text@ == undecodable(),
{
    "error decoding response body".to_owned()
}

/// The body of a refusal, for use in an error.
pub open spec fn refusal(text: Option<Seq<char>>) -> Seq<char> {
    match text {
        Some(text) => text,
        None => "Unknown error"@,
    }
}

/// The body of a refusal, for use in an error.
pub fn refusal_text(text: Option<String>) -> (shown: String)
    ensures
        shown@ == refusal(optional(text)),
{
    match text {
        Some(text) => text,
        None => "Unknown error".to_owned(),
    }
}

} // verus!
