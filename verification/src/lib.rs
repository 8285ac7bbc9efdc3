//! A minimal static-file HTTP responder: request-line parsing, path
//! resolution, status and content-type tables, and response framing.
//!
//! The library performs no I/O. A caller reads bytes from a connection, asks
//! the [`server::Server`] what to do with them, reads the file it is told to
//! read, and writes back the bytes it is handed.

pub mod config;
pub mod limits;
pub mod path;
pub mod request;
pub mod response;
pub mod server;
pub mod text;
