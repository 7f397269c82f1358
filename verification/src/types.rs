//! The plain values that move through the request pipeline.

use vstd::prelude::*;
use vstd::string::StringExecFns;

verus! {

/// A decoded toggle request: the logical LED state the caller asks for.
#[derive(Debug, Clone, Copy, PartialEq, Eq, Structural)]
pub struct ReqData {
    pub led_on: bool,
}

/// The payload of a response: whether the operation succeeded, a
/// human-readable message, and the logical LED state after the attempted
/// transition.  `led_on` is absent when the request never reached the state
/// machine (a body read, decode or parse failure).
#[derive(Debug, Clone)]
pub struct RespData {
    pub led_on: Option<bool>,
    pub message: String,
    pub ok: bool,
}

/// A complete HTTP response, ready to be written to the connection.  Every
/// response of this library carries the header `Content-Type:
/// application/json`; only the status code and the body vary.
#[derive(Debug, Clone)]
pub struct HttpResponse {
    pub status: u16,
    pub body: String,
}

/// Why a request body could not be turned into a typed request.
#[derive(Debug, Clone, Copy, PartialEq, Eq, Structural)]
pub enum BodyError {
    /// The stream ended, or failed, before the declared byte count arrived.
    Io,
    /// The body bytes are not valid UTF-8 text.
    Decode,
    /// The body bytes are not a well-formed JSON toggle request.
    Parse,
}

impl BodyError {
    /// The textual description that a server-error response carries.
    pub open spec fn describe_spec(self) -> Seq<char> {
        match self {
            BodyError::Io => "failed to read the full request body"@,
            BodyError::Decode => "request body is not valid UTF-8"@,
            BodyError::Parse => "request body is not a valid JSON toggle request"@,
        }
    }

    pub fn describe(&self) -> (m: String)
        ensures
            m@ == self.describe_spec(),
            m@.len() > 0,
    {
        let m = match self {
            BodyError::Io => String::from_str("failed to read the full request body"),
            BodyError::Decode => String::from_str("request body is not valid UTF-8"),
            BodyError::Parse => String::from_str("request body is not a valid JSON toggle request"),
        };
        proof {
            reveal_strlit("failed to read the full request body");
            reveal_strlit("request body is not valid UTF-8");
            reveal_strlit("request body is not a valid JSON toggle request");
        }
        m
    }
}

} // verus!
