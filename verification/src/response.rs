//! The HTTP face of an outcome.

use vstd::prelude::*;
use vstd::utf8::*;
use crate::outcome::{Outcome, OutcomeView};
use crate::upstream::TransportFailure;

verus! {

/// The status of a reply that carries the text.
pub const STATUS_OK: u16 = 200;

/// The status of a denial: the credential was missing or not recognised.
pub const STATUS_FORBIDDEN: u16 = 403;

/// The status for a trigger that is not of a shape that is answered.
pub const STATUS_NOT_FOUND: u16 = 404;

/// An HTTP response as the relay decides it.
#[derive(Debug, PartialEq, Eq)]
pub struct Response {
    /// The status code.
    pub status: u16,
    /// The value of the content-length header, where the response sets one.
    pub content_length: Option<u64>,
    /// The body.
    pub body: String,
}

/// A response as plain values.
pub struct ResponseView {
    pub status: u16,
    pub content_length: Option<u64>,
    pub body: Seq<char>,
}

impl View for Response {
    type V = ResponseView;

    open spec fn view(&self) -> ResponseView {
        ResponseView { status: self.status, content_length: self.content_length, body: self.body@ }
    }
}

/// A response of the given status without a body.
pub open spec fn bare(status: u16) -> ResponseView {
    ResponseView { status, content_length: None, body: Seq::<char>::empty() }
}

/// The length in bytes of a text's UTF-8 encoding, as a machine holds it: a
/// text in memory is never longer than `usize` can tell.
pub open spec fn byte_length(text: Seq<char>) -> u64 {
    (encode_utf8(text).len() as usize) as u64
}

/// The response that carries `body`: status 200, and a content-length header
/// that gives the body's length in bytes.
pub open spec fn carrying(body: Seq<char>) -> ResponseView {
    ResponseView { status: STATUS_OK, content_length: Some(byte_length(body)), body }
}

/// The HTTP response for an outcome: 403 for a denial, 404 for a trigger that
/// is not dispatched, 200 with the payload for a delivery. A failed upstream
/// call has no response: the failure itself is what the server must report.
pub open spec fn rendered(outcome: OutcomeView) -> Result<ResponseView, TransportFailure> {
    match outcome {
        OutcomeView::Unauthorized => Ok(bare(STATUS_FORBIDDEN)),
        OutcomeView::NotDispatched => Ok(bare(STATUS_NOT_FOUND)),
        OutcomeView::Delivered(message) => Ok(carrying(message.payload)),
        OutcomeView::UpstreamFailed => Err(TransportFailure),
    }
}

/// `rendered` with the response, where there is one, taken by its view.
pub open spec fn response_view(response: Result<Response, TransportFailure>) -> Result<
    ResponseView,
    TransportFailure,
> {
    match response {
        Ok(r) => Ok(r@),
        Err(e) => Err(e),
    }
}

impl Response {
    /// A response of the given status without a body.
    pub fn empty(status: u16) -> (response: Response)
        ensures
            response@ == bare(status),
    {
        Response { status, content_length: None, body: String::new() }
    }

    /// The response that carries `body`.
    pub fn ok(body: String) -> (response: Response)
        ensures
            response@ == carrying(body@),
    {
        let length = body.as_str().len();
        Response { status: STATUS_OK, content_length: Some(length as u64), body }
    }

    /// The HTTP response for an outcome, or the failure to report in its place.
    pub fn render(outcome: Outcome) -> (response: Result<Response, TransportFailure>)
        ensures
            response_view(response) == rendered(outcome@),
    {
        match outcome {
            Outcome::Unauthorized => Ok(Response::empty(STATUS_FORBIDDEN)),
            Outcome::NotDispatched => Ok(Response::empty(STATUS_NOT_FOUND)),
            Outcome::Delivered(message) => Ok(Response::ok(message.payload)),
            Outcome::UpstreamFailed => Err(TransportFailure),
        }
    }
}

} // verus!
