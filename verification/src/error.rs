//! The failures that the service distinguishes.

use crate::status::Status;
use vstd::prelude::*;

verus! {

/// Everything that can go wrong between receiving a buffer and producing a
/// response.
#[derive(Clone, Copy, Debug, PartialEq, Eq, Structural)]
pub enum ServiceError {
    /// The request line has fewer than three tokens, or its method is not one
    /// of the four known ones.
    MalformedRequestLine,
    /// A method name other than `GET`, `POST`, `PATCH` and `DELETE`.
    UnknownMethod,
    /// A header line without the `": "` separator.
    MalformedHeader,
    /// A `Content-Length` value that is not a decimal number fitting `usize`.
    InvalidContentLength,
    /// A cell index outside the board.
    InvalidCellIndex,
    /// A request body that is missing or does not decode to a list of indices.
    BodyDecodeFailure,
    /// No route is registered for the method and path of the request.
    RouteNotFound,
}

impl ServiceError {
    /// A few words that say what went wrong; none for a missing route, whose
    /// response has no content.
    pub open spec fn spec_message(self) -> Seq<char> {
        match self {
            ServiceError::MalformedRequestLine => "Malformed request line"@,
            ServiceError::UnknownMethod => "Method not found"@,
            ServiceError::MalformedHeader => "Malformed header"@,
            ServiceError::InvalidContentLength => "Invalid content length"@,
            ServiceError::InvalidCellIndex => "Invalid cell index"@,
            ServiceError::BodyDecodeFailure => "Body decode failure"@,
            ServiceError::RouteNotFound => ""@,
        }
    }

    /// A few words that say what went wrong.
    pub fn message(self) -> (text: &'static str)
        ensures
            text@ == self.spec_message(),
    {
        match self {
            ServiceError::MalformedRequestLine => "Malformed request line",
            ServiceError::UnknownMethod => "Method not found",
            ServiceError::MalformedHeader => "Malformed header",
            ServiceError::InvalidContentLength => "Invalid content length",
            ServiceError::InvalidCellIndex => "Invalid cell index",
            ServiceError::BodyDecodeFailure => "Body decode failure",
            ServiceError::RouteNotFound => "",
        }
    }

    /// The status of the response that reports this error: not found for a
    /// missing route, bad request for everything else.
    pub open spec fn spec_status(self) -> Status {
        match self {
            ServiceError::RouteNotFound => Status::NOTFOUND,
            _ => Status::BADREQUEST,
        }
    }

    /// The status of the response that reports this error.
    #[verifier::when_used_as_spec(spec_status)]
    pub fn status(self) -> (status: Status)
        ensures
            status == self.spec_status(),
    {
        match self {
            ServiceError::RouteNotFound => Status::NOTFOUND,
            _ => Status::BADREQUEST,
        }
    }
}

} // verus!
