//! The per-connection control flow that the core owns: parse the one read
//! window, build the response, render it. Reading and writing the stream,
//! and closing the connection, stay with the caller.
use vstd::prelude::*;

use crate::request::{spec_parse, Request};
use crate::response::{spec_build, spec_format, Response};

verus! {

/// What one connection's read window leads to: the wire bytes of the built
/// response, or nothing when the window fails to parse — the connection is
/// then closed without a response, and only that connection is affected.
pub open spec fn spec_handle(w: Seq<u8>) -> Option<Seq<u8>> {
    match spec_parse(w) {
        Ok(req) => Some(spec_format(spec_build(req))),
        Err(_) => None,
    }
}

/// Runs one request/response exchange over a read window, exactly as
/// `spec_handle` describes it.
pub fn handle(window: &[u8]) -> (r: Option<Vec<u8>>)
    ensures
        match r {
            Some(v) => spec_handle(window@) == Some(v@),
            None => spec_handle(window@) is None,
        },
{
    let req = match Request::parse(window) {
        Err(_) => {
            return None;
        },
        Ok(req) => req,
    };
    let mut resp = Response::new();
    resp.set_response(&req);
    assert(resp@ == spec_build(req@));
    Some(resp.format())
}

} // verus!
