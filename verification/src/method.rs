//! The request methods that the router knows.

use crate::error::ServiceError;
use crate::scan::same_bytes;
use vstd::prelude::*;
use vstd::string::StringSliceAdditionalSpecFns;

verus! {

/// A request method.
#[derive(Clone, Copy, Debug, PartialEq, Eq, Structural)]
pub enum Method {
    GET,
    POST,
    PATCH,
    DELETE,
}

/// The method that the bytes `name` spell, in upper case and with nothing
/// around it.
pub open spec fn method_named(name: Seq<u8>) -> Option<Method> {
    if name == "GET".spec_bytes() {
        Some(Method::GET)
    } else if name == "POST".spec_bytes() {
        Some(Method::POST)
    } else if name == "PATCH".spec_bytes() {
        Some(Method::PATCH)
    } else if name == "DELETE".spec_bytes() {
        Some(Method::DELETE)
    } else {
        None
    }
}

impl Method {
    /// The method that `name` spells, if it spells one.
    pub fn from_bytes(name: &[u8]) -> (method: Option<Method>)
        ensures
            method == method_named(name@),
    {
        if same_bytes(name, "GET".as_bytes()) {
            Some(Method::GET)
        } else if same_bytes(name, "POST".as_bytes()) {
            Some(Method::POST)
        } else if same_bytes(name, "PATCH".as_bytes()) {
            Some(Method::PATCH)
        } else if same_bytes(name, "DELETE".as_bytes()) {
            Some(Method::DELETE)
        } else {
            None
        }
    }

    /// The method that `input` spells; any other text is an unknown method.
    pub fn from_str(input: &str) -> (method: Result<Method, ServiceError>)
        ensures
            match method_named(input.spec_bytes()) {
                Some(known) => method == Ok::<Method, ServiceError>(known),
                None => method == Err::<Method, ServiceError>(ServiceError::UnknownMethod),
            },
    {
        match Method::from_bytes(input.as_bytes()) {
            Some(known) => Ok(known),
            None => Err(ServiceError::UnknownMethod),
        }
    }
}

} // verus!
