//! The replies the service sends: a status code and a body.
use vstd::prelude::*;

verus! {

/// The body of a reply.
#[derive(Debug, Clone, PartialEq, Eq)]
pub enum ReplyBody<T> {
    /// A value sent as JSON.
    Json(T),
    /// The JSON object `{"message": ...}`.
    Message(String),
    /// The JSON object `{"message": ..., "error": ...}`.
    MessageWithError { message: String, error: String },
    /// The JSON object `{"error": ...}`.
    Error(String),
    /// A plain-text body.
    Text(String),
}

/// A reply: HTTP status code and body.
#[derive(Debug, Clone, PartialEq, Eq)]
pub struct Reply<T> {
    pub status: u16,
    pub body: ReplyBody<T>,
}

/// The body is the JSON message `text`.
pub open spec fn is_message<T>(body: ReplyBody<T>, text: Seq<char>) -> bool {
    body matches ReplyBody::Message(m) && m@ == text
}

/// The body is the JSON error `text`.
pub open spec fn is_error<T>(body: ReplyBody<T>, text: Seq<char>) -> bool {
    body matches ReplyBody::Error(m) && m@ == text
}

/// The body is the plain text `text`.
pub open spec fn is_text<T>(body: ReplyBody<T>, text: Seq<char>) -> bool {
    body matches ReplyBody::Text(m) && m@ == text
}

/// A reply with a JSON message.
pub fn message_reply<T>(status: u16, text: &str) -> (r: Reply<T>)
    ensures
        r.status == status,
        is_message(r.body, text@),
{
    Reply { status, body: ReplyBody::Message(text.to_owned()) }
}

/// A reply with a JSON error.
pub fn error_reply<T>(status: u16, text: &str) -> (r: Reply<T>)
    ensures
        r.status == status,
        is_error(r.body, text@),
{
    Reply { status, body: ReplyBody::Error(text.to_owned()) }
}

/// A reply with a plain-text body.
pub fn text_reply<T>(status: u16, text: &str) -> (r: Reply<T>)
    ensures
        r.status == status,
        is_text(r.body, text@),
{
    Reply { status, body: ReplyBody::Text(text.to_owned()) }
}

} // verus!
