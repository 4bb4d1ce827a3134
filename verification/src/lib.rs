//! The verified core of a small HTTP/1.1 server: the wire codec, the
//! dispatch rules and the worker protocol.

pub mod handler;
pub mod headers;
pub mod request;
pub mod response;
pub mod router;
pub mod server;
pub mod text;
pub mod thread_pool;
