//! A verified core for a minimal HTTP/1.1 server: request parsing over a raw
//! byte buffer, case-insensitive header lookup, gzip content negotiation,
//! route dispatch, body-completion accounting for uploads, and response
//! serialization. Socket and file I/O stay outside; the core maps the bytes
//! read from a connection to the next action the server must take.

pub mod bytes;
pub mod gzip;
pub mod handler;
pub mod laws;
pub mod lit;
pub mod negotiate;
pub mod parse;
pub mod response;
