//! A juno module that serves HTTP: juno functions register routes and
//! middleware, HTTP requests are forwarded to juno functions, and their
//! replies are turned into HTTP responses.
//!
//! This crate holds the verified logic; the sockets, the async runtime and
//! the HTTP framework stay with the program that uses it.

pub mod config;
pub mod value;
pub mod json;
pub mod text;
pub mod entries;
pub mod http_server;
pub mod http_context;
pub mod handlers;
pub mod juno_module;
pub mod server;
