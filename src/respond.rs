//! Rendering of validation failures as responses, and the handlers that
//! answer a bound query.

use vstd::prelude::*;
use crate::error::ValidationError;
use crate::external::{json_string, to_json_string};
use crate::form::TestParams;

verus! {

/// How a response body is encoded.
#[derive(Debug, Clone, Copy, PartialEq, Eq)]
pub enum ContentKind {
    Plain,
    Json,
}

/// A response: status code, content type, and body. A failure to encode
/// the body leaves no body.
#[derive(Debug, PartialEq)]
pub struct Rendered {
    pub status: u16,
    pub content_type: ContentKind,
    pub body: Option<String>,
}

/// The body could not be encoded.
#[derive(Debug, Clone, Copy, PartialEq, Eq)]
pub struct EncodingError;

/// Status of a validation failure.
pub const BAD_REQUEST: u16 = 400;

/// Status of a failure to encode the error itself.
pub const INTERNAL_SERVER_ERROR: u16 = 500;

/// The plain-text body for a failure whose reason is `reason`.
pub open spec fn plain_body(reason: Seq<char>) -> Seq<char> {
    "msg: "@ + reason
}

/// The JSON object body around an already encoded string `encoded`.
pub open spec fn json_body(encoded: Seq<char>) -> Seq<char> {
    "{\"message\":"@ + encoded + "}"@
}

/// Places an encoded message in a JSON response: 400 with a body
/// `{"message":<encoded>}`, or 500 with no body when encoding failed.
pub fn json_response(encoded: Result<String, EncodingError>) -> (r: Rendered)
    ensures
        match encoded {
            Ok(j) => r.status == BAD_REQUEST && r.content_type == ContentKind::Json && (r.body matches Some(
                b) && b@ == json_body(j@)),
            Err(_) => r.status == INTERNAL_SERVER_ERROR && r.content_type == ContentKind::Json
                && r.body is None,
        },
{
    match encoded {
        Ok(j) => {
            let mut b = String::from_str("{\"message\":");
            b.append(j.as_str());
            b.append("}");
            Rendered { status: BAD_REQUEST, content_type: ContentKind::Json, body: Some(b) }
        },
        Err(_) => Rendered { status: INTERNAL_SERVER_ERROR, content_type: ContentKind::Json, body: None },
    }
}

impl ValidationError {
    /// Renders as plain text: 400 with body `msg: <reason>`.
    pub fn render_plain(&self) -> (r: Rendered)
        ensures
            r.status == BAD_REQUEST,
            r.content_type == ContentKind::Plain,
            r.body matches Some(b) && b@ == plain_body(self.reason@),
    {
        let mut b = String::from_str("msg: ");
        b.append(self.reason.as_str());
        Rendered { status: BAD_REQUEST, content_type: ContentKind::Plain, body: Some(b) }
    }

    /// Renders as JSON: 400 with body `{"message":<reason as a JSON
    /// string>}`.
    pub fn render_json(&self) -> (r: Rendered)
        ensures
            r.status == BAD_REQUEST,
            r.content_type == ContentKind::Json,
            r.body matches Some(b) && b@ == json_body(json_string(self.reason@)),
    {
        let encoded = match to_json_string(self.reason.as_str()) {
            Ok(j) => Ok(j),
            Err(_) => Err(EncodingError),
        };
        json_response(encoded)
    }
}

/// The error a handler returns for a query whose latitude failed; it is
/// rendered as JSON.
#[derive(Debug, PartialEq)]
pub struct QueryError {
    pub message: String,
}

impl QueryError {
    /// Renders as `ValidationError::render_json` does for the same message.
    pub fn respond_to(&self) -> (r: Rendered)
        ensures
            r.status == BAD_REQUEST,
            r.content_type == ContentKind::Json,
            r.body matches Some(b) && b@ == json_body(json_string(self.message@)),
    {
        let e = ValidationError { reason: String::from_str(self.message.as_str()) };
        e.render_json()
    }
}

/// The greeting for the root path.
pub fn index() -> (r: &'static str)
    ensures
        r@ == "Hello, world!"@,
{
    "Hello, world!"
}

/// Answers a bound `TestParams`: a greeting with the name when the latitude
/// parsed, else its failure as a `QueryError`.
pub fn test(params: TestParams) -> (r: Result<String, QueryError>)
    ensures
        match params.lat {
            Ok(_) => r matches Ok(s) && s@ == "Hello Mr "@ + params.name@,
            Err(e) => r matches Err(q) && q.message@ == e.reason@,
        },
{
    match params.lat {
        Ok(_) => {
            let mut s = String::from_str("Hello Mr ");
            s.append(params.name.as_str());
            Ok(s)
        },
        Err(e) => Err(QueryError { message: e.reason }),
    }
}

} // verus!
