//! A JSON-RPC 2.0 engine.
//!
//! The crate encodes and decodes the wire envelope (requests, responses,
//! errors and parameter lists), correlates asynchronous requests with their
//! responses on the calling side, and dispatches incoming calls to
//! application logic on the receiving side.  Concrete byte-stream and HTTP
//! transports are collaborators behind the capability traits of
//! [`transport`]; they are not part of this crate's core.

pub mod value;
pub mod message;
pub mod parse;
pub mod transport;
pub mod client;
pub mod server;
pub mod text;
