//! A small HTTP/1.1 server library: request-line parsing, query-string
//! decoding, and the pieces that tie a parsed request to a handler.
pub mod method;
pub mod query_string;
pub mod request;
pub mod response;
pub mod server;
pub mod text;
pub mod website_handler;

pub use method::Method;
pub use query_string::{QueryString, Value};
pub use request::{ParseError, Request};
pub use response::{Response, StatusCode};
pub use server::{Handler, Server};
pub use website_handler::{Route, WebsiteHandler};
