//! Order-taking back end for a restaurant: an HTTP/1.1 wire codec, a path
//! and method router, the order store and the endpoint handlers.
pub mod api;
pub mod cli;
pub mod database;
pub mod endpoints;
pub mod errors;
pub mod http;
pub mod routes;
