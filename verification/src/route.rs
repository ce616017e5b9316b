//! One entry of the route table.

use crate::method::Method;
use crate::response::Response;
use vstd::prelude::*;

verus! {

/// What answers a request: a function of nothing, or a function of the
/// body that the request may carry.
pub enum Handler<F, G> {
    NoBody(F),
    WithBody(G),
}

/// A path and a method, and the function registered for them.
pub struct Route<T> {
    pub path: Vec<u8>,
    pub method: Method,
    pub function: T,
}

/// Whether `handler` can be called, whatever body it is handed.
pub open spec fn ready<F: Fn() -> Response, G: Fn(Option<Vec<u8>>) -> Response>(
    handler: Handler<F, G>,
) -> bool {
    match handler {
        Handler::NoBody(function) => call_requires(function, ()),
        Handler::WithBody(function) => forall|body: Option<Vec<u8>>|
            call_requires(function, (body,)),
    }
}

/// Whether `response` is what `handler` may return for a request with the
/// given body: a handler of the first kind is called with nothing, one of the
/// second kind with the body.
pub open spec fn answered<F: Fn() -> Response, G: Fn(Option<Vec<u8>>) -> Response>(
    handler: Handler<F, G>,
    body: Option<Vec<u8>>,
    response: Response,
) -> bool {
    match handler {
        Handler::NoBody(function) => call_ensures(function, (), response),
        Handler::WithBody(function) => call_ensures(function, (body,), response),
    }
}

/// Whether `route` is registered for exactly this method and this path:
/// byte for byte, with no prefix, pattern or trailing slash taken into
/// account.
pub open spec fn serves<T>(route: Route<T>, method: Method, path: Seq<u8>) -> bool {
    route.method == method && route.path@ == path
}

impl<F: Fn() -> Response, G: Fn(Option<Vec<u8>>) -> Response> Route<Handler<F, G>> {
    /// Calls the function of this route: with nothing where it takes no
    /// body, else with `body`.
    pub fn exec_func(&self, body: Option<Vec<u8>>) -> (response: Response)
        requires
            ready(self.function),
        ensures
            answered(self.function, body, response),
    {
        match &self.function {
            Handler::NoBody(function) => function(),
            Handler::WithBody(function) => function(body),
        }
    }
}

} // verus!
