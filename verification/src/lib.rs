//! Request parsing, routing and response framing for a minimal HTTP/1.1
//! server that answers one request per connection.
//!
//! - [`request`] parses a buffer into a request line, headers and a body.
//! - [`http`] routes a method and a path to a command.
//! - [`response`] frames a status and an optional body as bytes for the wire.
//! - [`connection`] takes one connection through its stages, from the bytes
//!   that were read to the bytes that are to be written. It touches neither
//!   socket nor file: it says what is to be done, and is told what came of it.
//! - [`text`] finds, splits and joins sequences of characters.
//! - [`error`] names the ways in which parsing fails.
//! - [`strings`] holds what is taken on trust about the standard library.
//!
//! Every function states what it returns over the mathematical view of its
//! arguments, and is proved to return that.

pub mod connection;
pub mod error;
pub mod http;
pub mod request;
pub mod response;
pub mod strings;
pub mod text;
