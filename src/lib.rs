//! A small HTTP/1.1 server library: a wire codec that decodes request lines
//! and headers and encodes responses, and a router that maps a request to the
//! response or to the file operation that produces it.

pub mod bytes;
pub mod laws;
pub mod request;
pub mod response;
pub mod router;
