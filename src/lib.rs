//! Per-connection request handling for a minimal static file server: parsing
//! the request line, resolving the target under a document root, framing the
//! response, and the connection state machine that drives the I/O.

mod bytes;
pub mod request;
pub mod resolve;
pub mod response;
pub mod connection;
pub mod laws;
