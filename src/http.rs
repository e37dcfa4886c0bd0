//! A small HTTP/1.1 layer for a static file server: requests, headers, responses, and
//! the server program's command line and log levels.

pub mod args;
pub mod error;
pub mod fileserver;
pub mod http_header;
pub mod logger;
pub mod request;
pub mod response;
