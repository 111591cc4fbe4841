//! What comes back from the service, and what the client makes of it.

use crate::json::json_reading;
use vstd::prelude::*;

verus! {

/// How the body of a reply is to be read.
#[derive(Clone, Copy, Debug, PartialEq, Eq, Structural)]
pub enum Format {
    /// The body is handed on as it came.
    Text,
    /// The body is read as one JSON document.
    Json,
}

/// What the transport reports of one GET.
#[derive(Debug)]
pub enum Reply {
    /// The exchange completed, whatever its status: the body, in full.
    Body(String),
    /// The exchange did not complete: the transport's account of why.
    Failed(String),
}

/// The value of a completed call.
#[derive(Debug)]
pub enum ResponseValue {
    /// The raw body.
    Text(String),
    /// The document that the body spells.
    Json(serde_json::Value),
}

/// Why a call gave no value.
#[derive(Debug)]
pub enum ClientError {
    /// The exchange did not complete; the transport's account is kept as it
    /// came.
    Transport(String),
    /// The body of a reply that should be JSON is not: the parser's error.
    MalformedResponse(serde_json::Error),
}

/// What a JSON endpoint returns for the parser's answer `read`.
pub open spec fn decoded(read: Result<serde_json::Value, serde_json::Error>) -> Result<
    ResponseValue,
    ClientError,
> {
    match read {
        Ok(document) => Ok(ResponseValue::Json(document)),
        Err(error) => Err(ClientError::MalformedResponse(error)),
    }
}

/// What a call ends in when the transport reports `reply` and the body is to
/// be read as `format`.
///
/// A failed exchange ends in `Transport`, with the account unchanged. A body
/// read as text is the value. A body read as JSON is the document that the
/// parser makes of it, and `MalformedResponse` with the parser's error where
/// it makes none. The status of the exchange plays no part.
pub open spec fn outcome(format: Format, reply: Reply) -> Result<ResponseValue, ClientError> {
    match reply {
        Reply::Failed(account) => Err(ClientError::Transport(account)),
        Reply::Body(body) => match format {
            Format::Text => Ok(ResponseValue::Text(body)),
            Format::Json => decoded(json_reading(body@)),
        },
    }
}

/// Turns the parser's answer into the result of a JSON endpoint: the document,
/// or `MalformedResponse` with the parser's error.
pub fn decode(read: Result<serde_json::Value, serde_json::Error>) -> (result: Result<
    ResponseValue,
    ClientError,
>)
    ensures
        result == decoded(read),
{
    match read {
        Ok(document) => Ok(ResponseValue::Json(document)),
        Err(error) => Err(ClientError::MalformedResponse(error)),
    }
}

} // verus!
