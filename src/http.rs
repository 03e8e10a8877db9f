//! HTTP/1.1 messages, their wire form and the parsers that read them.
pub mod client;
pub mod codec;
pub mod request;
pub mod response;
pub mod server;

pub use client::serialize_request;
pub use request::{parse_request, read_request, Request, RequestReader};
pub use response::{parse_response, read_response, Response, ResponseReader};
pub use server::{bad_request, code_to_string, response_for, serialize_response};
