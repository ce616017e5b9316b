//! The route table: registration in order, and dispatch to the first route
//! that serves a request.

use crate::error::ServiceError;
use crate::method::Method;
use crate::request::Request;
use crate::response::Response;
use crate::response::ResponseView;
use crate::route::answered;
use crate::route::ready;
use crate::route::serves;
use crate::route::Handler;
use crate::route::Route;
use crate::scan::same_bytes;
use crate::status::Status;
use vstd::prelude::*;
use vstd::string::StrSliceExecFns;
use vstd::string::StringSliceAdditionalSpecFns;

verus! {

/// Whether the entry at `index` serves the method and the path and is of
/// the wanted kind.
pub open spec fn candidate<F, G>(
    table: Seq<Route<Handler<F, G>>>,
    with_body: bool,
    method: Method,
    path: Seq<u8>,
    index: int,
) -> bool {
    &&& 0 <= index < table.len()
    &&& (table[index].function is WithBody) == with_body
    &&& serves(table[index], method, path)
}

/// Whether the entry at `index` is the first candidate in order of
/// registration.
pub open spec fn first_candidate<F, G>(
    table: Seq<Route<Handler<F, G>>>,
    with_body: bool,
    method: Method,
    path: Seq<u8>,
    index: int,
) -> bool {
    &&& candidate(table, with_body, method, path, index)
    &&& forall|earlier: int| 0 <= earlier < index ==> !candidate(table, with_body, method, path, earlier)
}

/// The first entry of the wanted kind that serves the method and the path.
pub open spec fn first_serving<F, G>(
    table: Seq<Route<Handler<F, G>>>,
    with_body: bool,
    method: Method,
    path: Seq<u8>,
) -> Option<int> {
    if exists|index: int| first_candidate(table, with_body, method, path, index) {
        Some(choose|index: int| first_candidate(table, with_body, method, path, index))
    } else {
        None
    }
}

/// The entry that answers a request for the method and the path: the first
/// one that takes no body, or, where there is none, the first one that takes
/// a body.
pub open spec fn resolved<F, G>(table: Seq<Route<Handler<F, G>>>, method: Method, path: Seq<u8>) -> Option<
    int,
> {
    match first_serving(table, false, method, path) {
        Some(index) => Some(index),
        None => first_serving(table, true, method, path),
    }
}

/// The response to a request that no route serves: not found, with no
/// content.
pub open spec fn not_found() -> ResponseView {
    ResponseView { status: Status::NOTFOUND, content: Seq::empty() }
}

/// Whether `response` is what the table may answer to `request`: what the
/// resolved handler returns, or not found where none resolves.
pub open spec fn routed<F: Fn() -> Response, G: Fn(Option<Vec<u8>>) -> Response>(
    table: Seq<Route<Handler<F, G>>>,
    request: Request,
    response: Response,
) -> bool {
    match resolved(table, request.request_line.method, request.request_line.path@) {
        Some(index) => answered(table[index].function, request.body, response),
        None => response@ == not_found(),
    }
}

/// Whether `after` is `before` with one more entry at its end, for the given
/// method, path and handler.
pub open spec fn registered<F, G>(
    before: Seq<Route<Handler<F, G>>>,
    after: Seq<Route<Handler<F, G>>>,
    method: Method,
    path: Seq<u8>,
    handler: Handler<F, G>,
) -> bool {
    &&& after.len() == before.len() + 1
    &&& after.drop_last() == before
    &&& after.last().method == method
    &&& after.last().path@ == path
    &&& after.last().function == handler
}

/// The routes that were registered, in the order of their registration.
pub struct Routes<F: Fn() -> Response, G: Fn(Option<Vec<u8>>) -> Response> {
    routes: Vec<Route<Handler<F, G>>>,
}

impl<F: Fn() -> Response, G: Fn(Option<Vec<u8>>) -> Response> View for Routes<F, G> {
    type V = Seq<Route<Handler<F, G>>>;

    closed spec fn view(&self) -> Seq<Route<Handler<F, G>>> {
        self.routes@
    }
}

impl<F: Fn() -> Response, G: Fn(Option<Vec<u8>>) -> Response> Routes<F, G> {
    #[verifier::type_invariant]
    spec fn every_handler_is_ready(&self) -> bool {
        forall|index: int|
            0 <= index < self.routes@.len() ==> ready((#[trigger] self.routes@[index]).function)
    }

    /// A table with no route.
    pub fn new() -> (routes: Self)
        ensures
            routes@ == Seq::<Route<Handler<F, G>>>::empty(),
    {
        Routes { routes: Vec::new() }
    }

    /// Appends a route for `method` and `path`. Nothing is checked against
    /// the routes that are there: a second route for the same method and
    /// path, of the same kind, is stored and never reached.
    pub fn save_route(self, path: &str, method: Method, handler: Handler<F, G>) -> (routes: Self)
        requires
            ready(handler),
        ensures
            registered(self@, routes@, method, path.spec_bytes(), handler),
    {
        proof {
            use_type_invariant(&self);
        }
        let mut routes = self.routes;
        let ghost before = routes@;
        routes.push(Route { path: path.as_bytes_vec(), method, function: handler });
        assert(routes@.drop_last() =~= before);
        Routes { routes }
    }

    /// Appends a route for `GET` and `path`.
    pub fn get(self, path: &str, handler: Handler<F, G>) -> (routes: Self)
        requires
            ready(handler),
        ensures
            registered(self@, routes@, Method::GET, path.spec_bytes(), handler),
    {
        self.save_route(path, Method::GET, handler)
    }

    /// Appends a route for `POST` and `path`.
    pub fn post(self, path: &str, handler: Handler<F, G>) -> (routes: Self)
        requires
            ready(handler),
        ensures
            registered(self@, routes@, Method::POST, path.spec_bytes(), handler),
    {
        self.save_route(path, Method::POST, handler)
    }

    /// Appends a route for `PATCH` and `path`.
    pub fn patch(self, path: &str, handler: Handler<F, G>) -> (routes: Self)
        requires
            ready(handler),
        ensures
            registered(self@, routes@, Method::PATCH, path.spec_bytes(), handler),
    {
        self.save_route(path, Method::PATCH, handler)
    }

    /// Appends a route for `DELETE` and `path`.
    pub fn delete(self, path: &str, handler: Handler<F, G>) -> (routes: Self)
        requires
            ready(handler),
        ensures
            registered(self@, routes@, Method::DELETE, path.spec_bytes(), handler),
    {
        self.save_route(path, Method::DELETE, handler)
    }

    /// Finds the first route of the wanted kind that serves the method and
    /// the path.
    pub fn find_route(&self, with_body: bool, method: Method, path: &[u8]) -> (found: Option<usize>)
        ensures
            match found {
                Some(index) => first_serving(self@, with_body, method, path@) == Some(index as int),
                None => first_serving(self@, with_body, method, path@) is None,
            },
    {
        let mut index: usize = 0;
        while index < self.routes.len()
            invariant
                index <= self.routes@.len(),
                forall|earlier: int|
                    0 <= earlier < index ==> !candidate(self@, with_body, method, path@, earlier),
            decreases self.routes@.len() - index,
        {
            let route = &self.routes[index];
            let takes_body = match &route.function {
                Handler::NoBody(_) => false,
                Handler::WithBody(_) => true,
            };
            if takes_body == with_body && route.method == method && same_bytes(
                route.path.as_slice(),
                path,
            ) {
                proof {
                    lemma_first_serving(self@, with_body, method, path@, index as int);
                }
                return Some(index);
            }
            index += 1;
        }
        None
    }

    /// Finds the route that answers a request for the method and the path.
    /// Routes that take no body are searched first, then those that take
    /// one.
    pub fn resolve(&self, method: Method, path: &[u8]) -> (found: Result<usize, ServiceError>)
        ensures
            match resolved(self@, method, path@) {
                Some(index) => 0 <= index < self@.len() && found == Ok::<usize, ServiceError>(
                    index as usize,
                ) && serves(self@[index], method, path@),
                None => found == Err::<usize, ServiceError>(ServiceError::RouteNotFound)
                    && forall|other: int|
                    0 <= other < self@.len() ==> !serves(#[trigger] self@[other], method, path@),
            },
    {
        proof {
            lemma_resolved(self@, method, path@);
        }
        match self.find_route(false, method, path) {
            Some(index) => Ok(index),
            None => match self.find_route(true, method, path) {
                Some(index) => Ok(index),
                None => Err(ServiceError::RouteNotFound),
            },
        }
    }

    /// Answers `request`: the resolved route is called, with the body of the
    /// request where it takes one. Where no route resolves the answer is not
    /// found, with no content.
    pub fn route(self, request: Request) -> (response: Response)
        ensures
            routed(self@, request, response),
    {
        proof {
            use_type_invariant(&self);
        }
        let found = self.resolve(request.request_line.method, request.request_line.path.as_slice());
        match found {
            Ok(index) => {
                let response = self.routes[index].exec_func(request.body);
                response
            },
            Err(_) => {
                let response = Response::new(Vec::new(), Status::NOTFOUND);
                response
            },
        }
    }
}

/// The first candidate is the one before which there is none.
pub proof fn lemma_first_serving<F, G>(
    table: Seq<Route<Handler<F, G>>>,
    with_body: bool,
    method: Method,
    path: Seq<u8>,
    index: int,
)
    requires
        first_candidate(table, with_body, method, path, index),
    ensures
        first_serving(table, with_body, method, path) == Some(index),
{
    // Two first candidates cannot differ: the later one would have the
    // earlier one before it.
    let chosen = choose|index: int| first_candidate(table, with_body, method, path, index);
    assert(first_candidate(table, with_body, method, path, chosen));
    assert(chosen == index);
}

/// Where some entry is a candidate, there is a first one, and it stands at
/// or before that entry.
pub proof fn lemma_some_candidate<F, G>(
    table: Seq<Route<Handler<F, G>>>,
    with_body: bool,
    method: Method,
    path: Seq<u8>,
    index: int,
)
    requires
        candidate(table, with_body, method, path, index),
    ensures
        first_serving(table, with_body, method, path) matches Some(first) && first <= index
            && first_candidate(table, with_body, method, path, first),
    decreases index,
{
    if exists|earlier: int| 0 <= earlier < index && candidate(table, with_body, method, path, earlier) {
        let earlier = choose|earlier: int|
            0 <= earlier < index && candidate(table, with_body, method, path, earlier);
        lemma_some_candidate(table, with_body, method, path, earlier);
    } else {
        lemma_first_serving(table, with_body, method, path, index);
    }
}

/// What resolving finds is a route that serves the method and the path, and
/// one that takes a body only where no route without a body serves them;
/// where resolving finds nothing, no route serves them.
pub proof fn lemma_resolved<F, G>(table: Seq<Route<Handler<F, G>>>, method: Method, path: Seq<u8>)
    ensures
        match resolved(table, method, path) {
            Some(index) => {
                &&& 0 <= index < table.len()
                &&& serves(table[index], method, path)
                &&& table[index].function is WithBody ==> forall|other: int|
                    0 <= other < table.len() && serves(#[trigger] table[other], method, path)
                        ==> table[other].function is WithBody
            },
            None => forall|other: int|
                0 <= other < table.len() ==> !serves(#[trigger] table[other], method, path),
        },
{
    if first_serving(table, false, method, path) is None {
        assert forall|other: int|
            0 <= other < table.len() && serves(
                #[trigger] table[other],
                method,
                path,
            ) implies table[other].function is WithBody by {
            if !(table[other].function is WithBody) {
                lemma_some_candidate(table, false, method, path, other);
            }
        }
        if first_serving(table, true, method, path) is None {
            assert forall|other: int| 0 <= other < table.len() implies !serves(
                #[trigger] table[other],
                method,
                path,
            ) by {
                if serves(table[other], method, path) {
                    lemma_some_candidate(table, true, method, path, other);
                }
            }
        }
    }
}

/// A route registered behind another of the same kind for the same method
/// and path is never reached.
pub proof fn lemma_later_duplicate_is_unreachable<F, G>(
    table: Seq<Route<Handler<F, G>>>,
    method: Method,
    path: Seq<u8>,
    earlier: int,
    later: int,
)
    requires
        0 <= earlier < later < table.len(),
        serves(table[earlier], method, path),
        serves(table[later], method, path),
        (table[earlier].function is WithBody) == (table[later].function is WithBody),
    ensures
        resolved(table, method, path) is Some,
        resolved(table, method, path) != Some(later),
{
    let with_body = table[earlier].function is WithBody;
    lemma_some_candidate(table, with_body, method, path, earlier);
    lemma_resolved(table, method, path);
}

/// Where a route that takes no body and a route that takes one are both
/// registered for the same method and path, the request goes to one that
/// takes no body, in whatever order the two were registered: to the first
/// such route, which stands at or before the given one.
pub proof fn lemma_no_body_wins<F, G>(
    table: Seq<Route<Handler<F, G>>>,
    method: Method,
    path: Seq<u8>,
    no_body: int,
    with_body: int,
)
    requires
        candidate(table, false, method, path, no_body),
        candidate(table, true, method, path, with_body),
    ensures
        resolved(table, method, path) matches Some(index) && index <= no_body
            && table[index].function is NoBody && serves(table[index], method, path),
{
    lemma_some_candidate(table, false, method, path, no_body);
}

} // verus!
