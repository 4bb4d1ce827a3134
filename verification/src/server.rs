//! The server as a value, and what it does with the bytes of one
//! connection.

use crate::handler::Step;
use crate::request::{parse, Request};
use crate::router::{dispatch, Router};
use vstd::prelude::*;
use vstd::utf8::{decode_utf8, valid_utf8};

verus! {

/// The number of workers that serve connections.
pub const WORKERS: usize = 4;

/// The number of bytes that are read from a connection, once.
pub const READ_SIZE: usize = 1024;

/// A server that listens at an address.
#[derive(Debug)]
pub struct Server<'a> {
    socket_addr: &'a str,
}

impl<'a> View for Server<'a> {
    type V = Seq<char>;

    closed spec fn view(&self) -> Seq<char> {
        self.socket_addr@
    }
}

impl<'a> Server<'a> {
    /// A server for the address `socket_addr`.
    pub fn new(socket_addr: &'a str) -> (server: Server<'a>)
        ensures
            server@ == socket_addr@,
    {
        Server { socket_addr }
    }

    /// The address that the server listens at.
    pub fn socket_addr(&self) -> (addr: &'a str)
        ensures
            addr@ == self@,
    {
        self.socket_addr
    }
}

/// `String::from_utf8` of std. It gives a string exactly if the bytes are
/// valid UTF-8, and then the string that they encode.
#[verifier::external_body]
fn string_from_utf8(bytes: Vec<u8>) -> (r: Option<String>)
    ensures
        r is Some <==> valid_utf8(bytes@),
        r matches Some(text) ==> text@ == decode_utf8(bytes@),
{
    String::from_utf8(bytes).ok()
}

/// The first step for the request that was read from a connection as
/// `buffer`; nothing if the bytes are no text.
pub fn handle_http_request(buffer: Vec<u8>) -> (r: Option<Step>)
    ensures
        r is Some <==> valid_utf8(buffer@),
        r matches Some(step) ==> step@ == dispatch(parse(decode_utf8(buffer@))),
{
    match string_from_utf8(buffer) {
        Some(text) => {
            let request = Request::from(text);
            Some(Router::route(&request))
        },
        None => None,
    }
}

} // verus!
