//! An HTTP/1.1 server framework core: message codec, routing, caching,
//! plugin hooks and request handlers, with machine-checked contracts.

pub mod auth;
pub mod client;
pub mod http;
pub mod server;
pub mod text;
