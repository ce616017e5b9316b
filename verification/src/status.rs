//! The statuses that a response can carry.

use vstd::prelude::*;
use vstd::string::StringExecFns;

verus! {

/// The status of a response.
#[derive(Clone, Copy, Debug, PartialEq, Eq, Structural)]
pub enum Status {
    OK,
    BADREQUEST,
    NOTFOUND,
}

impl Status {
    /// The status line that opens a response of this status.
    pub open spec fn response_line(self) -> Seq<char> {
        match self {
            Status::OK => "HTTP/1.1 200 OK"@,
            Status::BADREQUEST => "HTTP/1.1 400 Bad Request"@,
            Status::NOTFOUND => "HTTP/1.1 404 Not Found"@,
        }
    }

    /// The numeric code of this status.
    pub open spec fn spec_code(self) -> u16 {
        match self {
            Status::OK => 200,
            Status::BADREQUEST => 400,
            Status::NOTFOUND => 404,
        }
    }

    /// The status line that opens a response of this status: the protocol
    /// version, the code and the reason phrase.
    pub fn get_response_line(self) -> (line: String)
        ensures
            line@ == self.response_line(),
    {
        match self {
            Status::OK => String::from_str("HTTP/1.1 200 OK"),
            Status::BADREQUEST => String::from_str("HTTP/1.1 400 Bad Request"),
            Status::NOTFOUND => String::from_str("HTTP/1.1 404 Not Found"),
        }
    }

    /// The numeric code of this status.
    #[verifier::when_used_as_spec(spec_code)]
    pub fn code(self) -> (code: u16)
        ensures
            code == self.spec_code(),
    {
        match self {
            Status::OK => 200,
            Status::BADREQUEST => 400,
            Status::NOTFOUND => 404,
        }
    }
}

} // verus!
