//! The forwarder's messages: what is sent downstream, and what may come back.

use crate::json::{json_string_literal, string_literal};
use vstd::prelude::*;

verus! {

/// The document sent downstream for `content`: a JSON object with the single
/// member `content`, written compactly.
pub open spec fn outbound_document(content: Seq<char>) -> Seq<char> {
    "{\"content\":"@ + json_string_literal(content) + "}"@
}

/// The message relayed downstream. It is made for one request and sent once.
#[derive(Clone, Debug, PartialEq, Eq)]
pub struct OutboundMessage {
    pub content: String,
}

impl OutboundMessage {
    /// The body of the request that carries this message.
    pub fn body(&self) -> (r: String)
        ensures
            r@ == outbound_document(self.content@),
    {
        String::from_str("{\"content\":").concat(string_literal(self.content.as_str()).as_str()).concat(
            "}",
        )
    }

    /// The content type under which the body is sent.
    pub fn content_type() -> (r: &'static str)
        ensures
            r@ == "application/json"@,
    {
        "application/json"
    }
}

/// A forward that did not reach an answer: the connection, the name lookup or
/// the transfer failed. `cause` says what the transport reported.
#[derive(Clone, Debug, PartialEq, Eq)]
pub struct TransportError {
    pub cause: String,
}

} // verus!
