//! The error taxonomy of the request parser. Every failure is a value, fatal
//! to the one request that produced it, never to the serving process.
use vstd::prelude::*;

verus! {

/// Why a raw byte window failed to parse into a request.
#[derive(Copy, Clone, PartialEq, Eq, Structural, Debug)]
pub enum ParseError {
    /// The read window is not valid UTF-8 text.
    EncodingError,
    /// No request line was found, or it is missing its method or path token.
    MalformedRequestLine,
    /// The method token names no supported method.
    InvalidMethod,
    /// The header block is not terminated by a blank line.
    MalformedHeaders,
    /// A header line lacks the `": "` separator.
    MalformedHeaderLine,
}

} // verus!
