//! The errors of the client, and the decoder that turns an unsuccessful
//! response into one.
use vstd::prelude::*;

use crate::request::{text_from_bytes, utf8_lossy};
use crate::text::{decimal, decimal_chars, extend_chars, extend_str, string_from_chars};

verus! {

/// What went wrong with a request.
#[derive(Debug)]
pub enum Error {
    /// The transport failed; the message describes how.
    Transport(String),
    /// The server answered with a status that does not count as success.
    Status { status: u16, body: String },
    /// The server reported a business error.
    Business { code: String, message: String },
    /// The response body could not be decoded.
    Decode(String),
    /// The service's address could not be resolved.
    Resolve(String),
    /// The circuit breaker refused the request.
    CircuitOpen,
    /// The request was cancelled.
    Cancelled,
    /// The request timed out.
    Timeout,
    /// The request body could not be encoded.
    Encode(String),
    /// Any other failure.
    Other(String),
}

/// The result of a client operation.
pub type Result<T> = std::result::Result<T, Error>;

impl Error {
    /// The human-readable message of the error.
    pub open spec fn spec_message(&self) -> Seq<char> {
        match self {
            Error::Transport(m) => "transport error: "@ + m@,
            Error::Status { status, body } => "HTTP "@ + decimal(*status as nat) + ": "@ + body@,
            Error::Business { code, message } => code@ + ": "@ + message@,
            Error::Decode(m) => "decode error: "@ + m@,
            Error::Resolve(m) => "service resolve failed: "@ + m@,
            Error::CircuitOpen => "circuit breaker open"@,
            Error::Cancelled => "request cancelled"@,
            Error::Timeout => "request timeout"@,
            Error::Encode(m) => "encode error: "@ + m@,
            Error::Other(m) => m@,
        }
    }

    /// The human-readable message of the error.
    pub fn message(&self) -> (r: String)
        ensures
            r@ == self.spec_message(),
    {
        let mut v: Vec<char> = Vec::new();
        match self {
            Error::Transport(m) => {
                extend_str(&mut v, "transport error: ");
                extend_str(&mut v, m.as_str());
            },
            Error::Status { status, body } => {
                extend_str(&mut v, "HTTP ");
                let d = decimal_chars(*status as u128);
                extend_chars(&mut v, &d);
                extend_str(&mut v, ": ");
                extend_str(&mut v, body.as_str());
            },
            Error::Business { code, message } => {
                extend_str(&mut v, code.as_str());
                extend_str(&mut v, ": ");
                extend_str(&mut v, message.as_str());
            },
            Error::Decode(m) => {
                extend_str(&mut v, "decode error: ");
                extend_str(&mut v, m.as_str());
            },
            Error::Resolve(m) => {
                extend_str(&mut v, "service resolve failed: ");
                extend_str(&mut v, m.as_str());
            },
            Error::CircuitOpen => {
                extend_str(&mut v, "circuit breaker open");
            },
            Error::Cancelled => {
                extend_str(&mut v, "request cancelled");
            },
            Error::Timeout => {
                extend_str(&mut v, "request timeout");
            },
            Error::Encode(m) => {
                extend_str(&mut v, "encode error: ");
                extend_str(&mut v, m.as_str());
            },
            Error::Other(m) => {
                extend_str(&mut v, m.as_str());
            },
        }
        assert(v@ =~= self.spec_message());
        string_from_chars(&v)
    }
}

/// The error decoder used unless another one is configured: the status and the
/// body as text.
#[derive(Clone, Copy, Debug)]
pub struct DefaultErrorDecoder;

impl DefaultErrorDecoder {
    /// `Error::Status` with the status and the body decoded as UTF-8, invalid
    /// sequences replaced.
    pub fn decode(&self, status: u16, body: &[u8]) -> (r: Error)
        ensures
            r matches Error::Status { status: s, body: b } && s == status && b@ == utf8_lossy(
                body@,
            ),
    {
        Error::Status { status, body: text_from_bytes(body) }
    }
}

} // verus!
