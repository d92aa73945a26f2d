//! A small static web server core: request routing, response rendering and
//! the scheduling rules of a fixed-size worker pool.

pub mod multithreading;
pub mod request;
pub mod response;

pub use request::{handle_connection, parse_http_request};
pub use response::generate_http_response;
