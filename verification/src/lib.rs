//! An HTTP/1.1 message codec and the core of a server that takes one request
//! for each connection.
//!
//! A message is a start line, headers and an optional body. `message` and
//! `start_line` write messages to their wire text and read them back;
//! `negotiation` gives a response the content encoding that the client asked
//! for; `connection` says what a connection waits for as a request comes in;
//! `server` hands the request to a router and encodes the answer; `routes`
//! holds what a small file server answers.
//!
//! Contracts speak of text as sequences of characters. A well-formed request
//! that is written and read back is the same request.
#![allow(non_snake_case)]

pub mod bytes;
pub mod connection;
pub mod decimal;
pub mod error;
pub mod headers;
pub mod message;
pub mod method;
pub mod negotiation;
pub mod request_uri;
pub mod router;
pub mod routes;
pub mod server;
pub mod start_line;
pub mod status_code;
pub mod text;
pub mod version;
