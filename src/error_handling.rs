//! What the public side is told when something fails: validation and lookup
//! errors verbatim, everything else as a fixed message.

use vstd::prelude::*;
use crate::rewrite::{contains_exec, contains_lit};
use crate::text::chars_of;

verus! {

/// The substrings that mark an error as safe to show to a client.
pub open spec fn safe_markers() -> Seq<Seq<char>> {
    seq![
        "ValidationError"@,
        "InvalidTunnelId"@,
        "Invalid tunnel ID"@,
        "InvalidRequestId"@,
        "PathTooLong"@,
        "HeaderValueTooLong"@,
        "Request timeout"@,
        "Missing tunnel ID"@,
        "Request entity too large"@,
    ]
}

pub open spec fn is_safe(text: Seq<char>) -> bool {
    exists|k: int| 0 <= k < safe_markers().len() && contains_lit(text, #[trigger] safe_markers()[k])
}

pub const INTERNAL_ERROR_MESSAGE: &'static str = "Internal server error";

/// The fixed message that replaces an internal error's details.
pub fn sanitize_error(error: &str) -> (r: String)
    ensures
        r@ == INTERNAL_ERROR_MESSAGE@,
{
    String::from_str(INTERNAL_ERROR_MESSAGE)
}

/// A chosen client message that replaces an internal error's details.
pub fn sanitize_error_with_message(error: &str, client_message: &str) -> (r: String)
    ensures
        r@ == client_message@,
{
    String::from_str(client_message)
}

fn markers() -> (r: Vec<Vec<char>>)
    ensures
        r@.len() == safe_markers().len(),
        forall|k: int| 0 <= k < r@.len() ==> (#[trigger] r@[k])@ == safe_markers()[k],
        forall|k: int| 0 <= k < r@.len() ==> (#[trigger] r@[k])@.len() > 0,
{
    let mut v: Vec<Vec<char>> = Vec::new();
    v.push(chars_of("ValidationError"));
    v.push(chars_of("InvalidTunnelId"));
    v.push(chars_of("Invalid tunnel ID"));
    v.push(chars_of("InvalidRequestId"));
    v.push(chars_of("PathTooLong"));
    v.push(chars_of("HeaderValueTooLong"));
    v.push(chars_of("Request timeout"));
    v.push(chars_of("Missing tunnel ID"));
    v.push(chars_of("Request entity too large"));
    proof {
        reveal_strlit("ValidationError");
        reveal_strlit("InvalidTunnelId");
        reveal_strlit("Invalid tunnel ID");
        reveal_strlit("InvalidRequestId");
        reveal_strlit("PathTooLong");
        reveal_strlit("HeaderValueTooLong");
        reveal_strlit("Request timeout");
        reveal_strlit("Missing tunnel ID");
        reveal_strlit("Request entity too large");
    }
    v
}

/// Whether an error's text may be shown to a client as it is.
pub fn is_safe_error(error: &str) -> (r: bool)
    ensures
        r == is_safe(error@),
{
    let text = chars_of(error);
    let ms = markers();
    let mut k: usize = 0;
    while k < ms.len()
        invariant
            k <= ms@.len(),
            ms@.len() == safe_markers().len(),
            text@ == error@,
            forall|j: int| 0 <= j < ms@.len() ==> (#[trigger] ms@[j])@ == safe_markers()[j],
            forall|j: int| 0 <= j < ms@.len() ==> (#[trigger] ms@[j])@.len() > 0,
            forall|j: int| 0 <= j < k ==> !contains_lit(error@, #[trigger] safe_markers()[j]),
        decreases ms@.len() - k,
    {
        if contains_exec(text.as_slice(), ms[k].as_slice()) {
            return true;
        }
        k = k + 1;
    }
    false
}

/// The error's own text where it is safe, the fixed message otherwise.
pub fn get_client_error_message(error: &str) -> (r: String)
    ensures
        is_safe(error@) ==> r@ == error@,
        !is_safe(error@) ==> r@ == INTERNAL_ERROR_MESSAGE@,
{
    if is_safe_error(error) {
        String::from_str(error)
    } else {
        sanitize_error(error)
    }
}

/// The failures of the tunnel's components, each with its detail text.
#[derive(Debug, Clone, PartialEq, Eq)]
pub enum TunnelError {
    InvalidMessage(String),
    ConnectionError(String),
    Timeout,
    LocalServiceUnavailable(String),
    DynamoDbError(String),
    WebSocketError(String),
    SerializationError(String),
    Base64Error(String),
    HttpError(String),
    InternalError(String),
}

impl TunnelError {
    pub open spec fn text(&self) -> Seq<char> {
        match self {
            TunnelError::InvalidMessage(d) => "Invalid message format: "@ + d@,
            TunnelError::ConnectionError(d) => "Connection error: "@ + d@,
            TunnelError::Timeout => "Timeout waiting for response"@,
            TunnelError::LocalServiceUnavailable(d) => "Local service unavailable: "@ + d@,
            TunnelError::DynamoDbError(d) => "DynamoDB error: "@ + d@,
            TunnelError::WebSocketError(d) => "WebSocket error: "@ + d@,
            TunnelError::SerializationError(d) => "Serialization error: "@ + d@,
            TunnelError::Base64Error(d) => "Base64 decode error: "@ + d@,
            TunnelError::HttpError(d) => "HTTP error: "@ + d@,
            TunnelError::InternalError(d) => "Internal error: "@ + d@,
        }
    }

    /// The error's message.
    pub fn message(&self) -> (r: String)
        ensures
            r@ == self.text(),
    {
        let (head, detail) = match self {
            TunnelError::InvalidMessage(d) => ("Invalid message format: ", Some(d)),
            TunnelError::ConnectionError(d) => ("Connection error: ", Some(d)),
            TunnelError::Timeout => ("Timeout waiting for response", None),
            TunnelError::LocalServiceUnavailable(d) => ("Local service unavailable: ", Some(d)),
            TunnelError::DynamoDbError(d) => ("DynamoDB error: ", Some(d)),
            TunnelError::WebSocketError(d) => ("WebSocket error: ", Some(d)),
            TunnelError::SerializationError(d) => ("Serialization error: ", Some(d)),
            TunnelError::Base64Error(d) => ("Base64 decode error: ", Some(d)),
            TunnelError::HttpError(d) => ("HTTP error: ", Some(d)),
            TunnelError::InternalError(d) => ("Internal error: ", Some(d)),
        };
        let out = String::from_str(head);
        match detail {
            Some(d) => out.concat(d.as_str()),
            None => out,
        }
    }
}

} // verus!
