//! HTTP messages and their parts.

pub mod address;
pub mod date;
pub mod headers;
pub mod known_names;
pub mod method;
pub mod parse;
pub mod request;
pub mod response;
pub mod round_trip;
pub mod status;
pub mod wire;
