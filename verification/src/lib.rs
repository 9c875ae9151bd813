//! A minimal request router: route templates with named segments are compiled
//! to matchers, request targets are split into path and query, and path
//! parameters are read back from a matcher's captures.

pub mod dispatcher;
pub mod http_input_stream;
pub mod http_request;
pub mod http_server;
pub mod matcher;
pub mod param_map;
pub mod target;
pub mod template;
pub mod text;
pub mod wire;

pub use crate::http_server::{HttpServer, Route};
