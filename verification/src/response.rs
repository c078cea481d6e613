//! Short-circuit responses emitted by the guard.
use vstd::prelude::*;

use crate::text::{decimal, decimal_text};

verus! {

/// Detail message carried by the `400 Bad Request` block response.
pub const BLOCKED_MESSAGE: &'static str = "Suspicious activity detected";

/// Detail message carried by the IP gate's `403 Forbidden` response.
pub const FORBIDDEN_MESSAGE: &'static str = "Forbidden";

/// Detail message carried by the ban stage's `403 Forbidden` response.
pub const BANNED_MESSAGE: &'static str = "IP address banned";

/// Detail message carried by the `403 Forbidden` response when a detected
/// threat crossed an auto-ban threshold and the ban fired on this request.
pub const ACTIVITY_BANNED_MESSAGE: &'static str = "IP has been banned";

/// Detail message carried by the `429 Too Many Requests` response.
pub const RATE_LIMITED_MESSAGE: &'static str = "Too many requests";

/// Detail message carried by the `413 Payload Too Large` response.
pub const OVERSIZE_MESSAGE: &'static str = "Payload too large";

/// Detail message carried by the fail-secure `500` response.
pub const FAILURE_MESSAGE: &'static str = "Security check failed";

/// The content type of every response the guard generates.
pub const PLAIN_TEXT: &'static str = "text/plain; charset=utf-8";

/// A response that the guard generates in place of the wrapped service's:
/// a status, the `Content-Type` header, the `Retry-After` header where there
/// is one, and a bare message as the body.
#[derive(Debug, Clone, PartialEq, Eq)]
pub struct GuardResponse {
    pub status: u16,
    pub content_type: &'static str,
    pub retry_after: Option<String>,
    pub message: &'static str,
}

/// What a [`GuardResponse`] says.
pub struct ResponseView {
    pub status: u16,
    pub content_type: Seq<char>,
    pub retry_after: Option<Seq<char>>,
    pub message: Seq<char>,
}

impl View for GuardResponse {
    type V = ResponseView;

    open spec fn view(&self) -> ResponseView {
        ResponseView {
            status: self.status,
            content_type: self.content_type@,
            retry_after: self.retry_after.deep_view(),
            message: self.message@,
        }
    }
}

/// What an optional response says.
pub open spec fn answer_view(answer: Option<GuardResponse>) -> Option<ResponseView> {
    match answer {
        Some(response) => Some(response@),
        None => None,
    }
}

/// A plain-text response without further headers.
pub open spec fn plain_response(status: u16, message: Seq<char>) -> ResponseView {
    ResponseView { status, content_type: PLAIN_TEXT@, retry_after: None, message }
}

/// `400 Bad Request`: the engine flagged a view.
pub open spec fn blocked_response() -> ResponseView {
    plain_response(400, BLOCKED_MESSAGE@)
}

/// `403 Forbidden`: the IP gate denied the client.
pub open spec fn forbidden_response() -> ResponseView {
    plain_response(403, FORBIDDEN_MESSAGE@)
}

/// `403 Forbidden`: there is a live ban on the client.
pub open spec fn banned_response() -> ResponseView {
    plain_response(403, BANNED_MESSAGE@)
}

/// `403 Forbidden`: this request got the client banned.
pub open spec fn activity_banned_response() -> ResponseView {
    plain_response(403, ACTIVITY_BANNED_MESSAGE@)
}

/// `429 Too Many Requests`, with the seconds to wait in `Retry-After`.
pub open spec fn rate_limited_response(retry_after: u64) -> ResponseView {
    ResponseView {
        retry_after: Some(decimal(retry_after as nat)),
        ..plain_response(429, RATE_LIMITED_MESSAGE@)
    }
}

/// `413 Payload Too Large`: the body exceeds the cap.
pub open spec fn oversize_response() -> ResponseView {
    plain_response(413, OVERSIZE_MESSAGE@)
}

/// `500 Internal Server Error`: the check could not be completed.
pub open spec fn failure_response() -> ResponseView {
    plain_response(500, FAILURE_MESSAGE@)
}

/// The engine flagged a view of the request.
pub fn blocked() -> (response: GuardResponse)
    ensures
        response@ == blocked_response(),
{
    plain_text(400, BLOCKED_MESSAGE)
}

/// The IP gate denied the client.
pub fn forbidden() -> (response: GuardResponse)
    ensures
        response@ == forbidden_response(),
{
    plain_text(403, FORBIDDEN_MESSAGE)
}

/// The ban stage's denial: a live ban on the client IP.
pub fn banned_ip() -> (response: GuardResponse)
    ensures
        response@ == banned_response(),
{
    plain_text(403, BANNED_MESSAGE)
}

/// The auto-ban engine's denial: the detected threat crossed a threshold and
/// the ban fired on this very request.
pub fn activity_banned() -> (response: GuardResponse)
    ensures
        response@ == activity_banned_response(),
{
    plain_text(403, ACTIVITY_BANNED_MESSAGE)
}

/// The rate limiter's denial, carrying `Retry-After: <window seconds>`.
pub fn rate_limited(retry_after: u64) -> (response: GuardResponse)
    ensures
        response@ == rate_limited_response(retry_after),
{
    let mut response: GuardResponse = plain_text(429, RATE_LIMITED_MESSAGE);
    response.retry_after = Some(decimal_text(retry_after));
    response
}

/// The body exceeds the cap.
pub fn oversize() -> (response: GuardResponse)
    ensures
        response@ == oversize_response(),
{
    plain_text(413, OVERSIZE_MESSAGE)
}

/// The security check could not be completed.
pub fn failure() -> (response: GuardResponse)
    ensures
        response@ == failure_response(),
{
    plain_text(500, FAILURE_MESSAGE)
}

/// The shape of every generated response: the bare message as the body, as
/// plain text.
fn plain_text(status: u16, message: &'static str) -> (response: GuardResponse)
    ensures
        response@ == plain_response(status, message@),
{
    GuardResponse { status, content_type: PLAIN_TEXT, retry_after: None, message }
}

} // verus!
