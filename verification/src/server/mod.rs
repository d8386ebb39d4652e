//! The server built on the HTTP library: configuration, routing, caching,
//! and the handlers.

pub mod cache;
pub mod config;
pub mod connection;
pub mod plugins;
pub mod proxy;
pub mod route;
pub mod server;
pub mod settings;
pub mod static_files;
pub mod websocket;
