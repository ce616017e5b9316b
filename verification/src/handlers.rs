//! What the service answers: the three game routes, the response for a
//! static file, the response for an error, and the reply to a whole buffer.

use crate::board::after_reset;
use crate::board::after_toggle_and_step;
use crate::board::in_range;
use crate::board::Engine;
use crate::board::Grid;
use crate::error::ServiceError;
use crate::json::board_json;
use crate::json::json_grid;
use crate::json::json_index_list;
use crate::json::read_index_list;
use crate::request::bytes_of;
use crate::request::parse;
use crate::request::Request;
use crate::response::formatted;
use crate::response::Response;
use crate::response::ResponseView;
use crate::route::Handler;
use crate::route::Route;
use crate::routes::not_found;
use crate::routes::routed;
use crate::routes::Routes;
use crate::status::Status;
use vstd::prelude::*;
use vstd::string::StrSliceExecFns;
use vstd::string::StringExecFns;
use vstd::string::StringSliceAdditionalSpecFns;
use vstd::utf8::encode_utf8;

verus! {

/// The response that carries a grid: its JSON text, with status OK.
pub open spec fn grid_response(grid: Grid) -> ResponseView {
    ResponseView { status: Status::OK, content: json_grid(grid) }
}

/// The response that reports `error`: its status, and its message as
/// content.
pub open spec fn failure(error: ServiceError) -> ResponseView {
    ResponseView { status: error.spec_status(), content: encode_utf8(error.spec_message()) }
}

/// The response for a static file: its content with status OK, or, where
/// the file could not be read, not found with a short notice.
pub open spec fn file_view(file: Option<Seq<u8>>) -> ResponseView {
    match file {
        Some(content) => ResponseView { status: Status::OK, content },
        None => ResponseView { status: Status::NOTFOUND, content: "File not found".spec_bytes() },
    }
}

/// The list of indices that a request body holds: a missing body and a body
/// that is no JSON list of indices both fail to decode.
pub open spec fn decoded(body: Option<Seq<u8>>) -> Result<Seq<u64>, ServiceError> {
    match body {
        Some(text) => match json_index_list(text) {
            Some(indices) => Ok(indices),
            None => Err(ServiceError::BodyDecodeFailure),
        },
        None => Err(ServiceError::BodyDecodeFailure),
    }
}

/// The response to an update, given what the body decoded to and the state
/// of the engine after the update: the new grid, or the report of what kept
/// the update from being applied.
pub open spec fn update_view(indices: Result<Seq<u64>, ServiceError>, after: Grid) -> ResponseView {
    match indices {
        Ok(list) => if in_range(list) {
            grid_response(after)
        } else {
            failure(ServiceError::InvalidCellIndex)
        },
        Err(error) => failure(error),
    }
}

/// The state of the engine after an update: one toggle and step where the
/// body decoded, nothing changed where it did not.
pub open spec fn after_update(before: Grid, indices: Result<Seq<u64>, ServiceError>) -> Grid {
    match indices {
        Ok(list) => after_toggle_and_step(before, list),
        Err(_) => before,
    }
}

/// What a list of indices is in the model.
pub open spec fn listed(indices: Result<Vec<u64>, ServiceError>) -> Result<Seq<u64>, ServiceError> {
    match indices {
        Ok(list) => Ok(list@),
        Err(error) => Err(error),
    }
}

/// The response that reports `error`.
pub fn error_response(error: ServiceError) -> (response: Response)
    ensures
        response@ == failure(error),
        error == ServiceError::RouteNotFound ==> response@ == not_found(),
{
    proof {
        reveal_strlit("");
        assert(encode_utf8(""@) =~= Seq::<u8>::empty()) by {
            vstd::utf8::is_ascii_chars_encode_utf8(""@);
        }
    }
    Response::new(error.message().as_bytes_vec(), error.status())
}

/// The response for a static file, given what reading it brought.
pub fn file_response(file: Option<Vec<u8>>) -> (response: Response)
    ensures
        response@ == file_view(bytes_of(file)),
{
    match file {
        Some(content) => Response::new(content, Status::OK),
        None => Response::new("File not found".as_bytes_vec(), Status::NOTFOUND),
    }
}

/// The place of a static file: its name inside the directory `public`.
pub fn public_path(file_name: &str) -> (path: String)
    ensures
        path@ == "public/"@ + file_name@,
{
    String::from_str("public/").concat(file_name)
}

/// Answers with the board as it is.
pub fn get_game(engine: &Engine) -> (response: Response)
    ensures
        response@ == grid_response(engine@),
{
    let board = engine.snapshot();
    Response::new(board_json(&board), Status::OK)
}

/// Clears the board and answers with the blank board.
pub fn reset_game(engine: &mut Engine) -> (response: Response)
    ensures
        final(engine)@ == after_reset(old(engine)@),
        response@ == grid_response(final(engine)@),
{
    let board = engine.reset();
    Response::new(board_json(&board), Status::OK)
}

/// Applies a decoded update: flips the listed cells, advances the board by
/// one generation and answers with the new board. A failed decoding and a
/// list with an index outside the board are answered with a bad request and
/// leave the board as it was.
pub fn apply_update(engine: &mut Engine, indices: Result<Vec<u64>, ServiceError>) -> (response:
    Response)
    ensures
        final(engine)@ == after_update(old(engine)@, listed(indices)),
        response@ == update_view(listed(indices), final(engine)@),
{
    match indices {
        Ok(list) => match engine.toggle_and_step(list.as_slice()) {
            Ok(board) => Response::new(board_json(&board), Status::OK),
            Err(error) => error_response(error),
        },
        Err(error) => error_response(error),
    }
}

/// Decodes the body of an update: a JSON list of cell indices.
pub fn decode_body(body: Option<Vec<u8>>) -> (indices: Result<Vec<u64>, ServiceError>)
    ensures
        listed(indices) == decoded(bytes_of(body)),
{
    match body {
        Some(text) => match read_index_list(text.as_slice()) {
            Some(list) => Ok(list),
            None => Err(ServiceError::BodyDecodeFailure),
        },
        None => Err(ServiceError::BodyDecodeFailure),
    }
}

/// Answers an update request: the body is decoded as a JSON list of cell
/// indices and applied. A body that is missing or does not decode is
/// answered with a bad request and leaves the board as it was.
pub fn update_game(engine: &mut Engine, body: Option<Vec<u8>>) -> (response: Response)
    ensures
        final(engine)@ == after_update(old(engine)@, decoded(bytes_of(body))),
        response@ == update_view(decoded(bytes_of(body)), final(engine)@),
{
    let indices = decode_body(body);
    apply_update(engine, indices)
}

/// Whether `reply` is what the service may send back for `buffer`: the
/// formatted answer of the route table to the request that the buffer
/// spells, or the formatted report of the error met in reading it.
pub open spec fn replied<F: Fn() -> Response, G: Fn(Option<Vec<u8>>) -> Response>(
    table: Seq<Route<Handler<F, G>>>,
    buffer: Seq<u8>,
    reply: Seq<u8>,
) -> bool {
    match parse(buffer) {
        Ok(view) => exists|request: Request, response: Response|
            request@ == view && #[trigger] routed(table, request, response) && reply == formatted(
                response@,
            ),
        Err(error) => reply == formatted(failure(error)),
    }
}

/// Answers one buffer: reads the request, hands it to the route table and
/// writes the reply; a buffer that holds no request is answered with the
/// report of the error.
pub fn handle_request<F: Fn() -> Response, G: Fn(Option<Vec<u8>>) -> Response>(
    routes: Routes<F, G>,
    buffer: &[u8],
) -> (reply: Vec<u8>)
    ensures
        replied(routes@, buffer@, reply@),
{
    match Request::new(buffer) {
        Ok(request) => {
            let response = routes.route(request);
            response.format()
        },
        Err(error) => error_response(error).format(),
    }
}

} // verus!
