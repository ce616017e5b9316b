//! A minimal HTTP/1.1 service core around a Game of Life board: a byte-level
//! request parser, a method-and-path router, a response formatter and the
//! simulation engine, each with a verified contract.

pub mod board;
pub mod decimal;
pub mod error;
pub mod handlers;
pub mod json;
pub mod method;
pub mod request;
pub mod response;
pub mod route;
pub mod routes;
pub mod scan;
pub mod status;

pub use board::play_game;
pub use board::Board;
pub use board::Engine;
pub use error::ServiceError;
pub use handlers::get_game;
pub use handlers::handle_request;
pub use handlers::reset_game;
pub use handlers::update_game;
pub use method::Method;
pub use request::Request;
pub use request::RequestLine;
pub use response::Response;
pub use route::Handler;
pub use route::Route;
pub use routes::Routes;
pub use status::Status;
