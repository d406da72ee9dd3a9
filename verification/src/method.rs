//! The method vocabulary: the six supported HTTP methods and their fixed
//! semantic facts, each a pure function of the variant.
use vstd::prelude::*;

use crate::bytes::bytes_eq;
use crate::errors::ParseError;
use crate::status::HttpStatus;

verus! {

/// The closed set of supported methods.
#[derive(Copy, Clone, PartialEq, Eq, Structural, Debug)]
pub enum Method {
    GET,
    POST,
    PUT,
    PATCH,
    DELETE,
    OPTIONS,
}

/// The exact wire token of a method.
pub open spec fn method_token(m: Method) -> Seq<u8> {
    match m {
        Method::GET => seq!['G' as u8, 'E' as u8, 'T' as u8],
        Method::POST => seq!['P' as u8, 'O' as u8, 'S' as u8, 'T' as u8],
        Method::PUT => seq!['P' as u8, 'U' as u8, 'T' as u8],
        Method::PATCH => seq!['P' as u8, 'A' as u8, 'T' as u8, 'C' as u8, 'H' as u8],
        Method::DELETE => seq!['D' as u8, 'E' as u8, 'L' as u8, 'E' as u8, 'T' as u8, 'E' as u8],
        Method::OPTIONS => seq![
            'O' as u8,
            'P' as u8,
            'T' as u8,
            'I' as u8,
            'O' as u8,
            'N' as u8,
            'S' as u8,
        ],
    }
}

/// The method a wire token names, by exact, case-sensitive match.
pub open spec fn method_of_token(t: Seq<u8>) -> Option<Method> {
    if t == method_token(Method::GET) {
        Some(Method::GET)
    } else if t == method_token(Method::POST) {
        Some(Method::POST)
    } else if t == method_token(Method::PUT) {
        Some(Method::PUT)
    } else if t == method_token(Method::PATCH) {
        Some(Method::PATCH)
    } else if t == method_token(Method::DELETE) {
        Some(Method::DELETE)
    } else if t == method_token(Method::OPTIONS) {
        Some(Method::OPTIONS)
    } else {
        None
    }
}

/// The status code a method implies on success.
pub open spec fn implied_code(m: Method) -> u16 {
    match m {
        Method::GET => 200,
        Method::POST => 201,
        Method::PUT => 201,
        Method::PATCH => 201,
        Method::DELETE => 204,
        Method::OPTIONS => 200,
    }
}

impl Method {
    /// Parses a wire token; any token other than the six supported literals
    /// is rejected with `InvalidMethod`.
    pub fn from_str(token: &[u8]) -> (r: Result<Method, ParseError>)
        ensures
            match method_of_token(token@) {
                Some(m) => r == Ok::<Method, ParseError>(m),
                None => r == Err::<Method, ParseError>(ParseError::InvalidMethod),
            },
    {
        let get = Method::GET.to_str();
        let post = Method::POST.to_str();
        let put = Method::PUT.to_str();
        let patch = Method::PATCH.to_str();
        let delete = Method::DELETE.to_str();
        let options = Method::OPTIONS.to_str();
        if bytes_eq(token, get.as_slice()) {
            Ok(Method::GET)
        } else if bytes_eq(token, post.as_slice()) {
            Ok(Method::POST)
        } else if bytes_eq(token, put.as_slice()) {
            Ok(Method::PUT)
        } else if bytes_eq(token, patch.as_slice()) {
            Ok(Method::PATCH)
        } else if bytes_eq(token, delete.as_slice()) {
            Ok(Method::DELETE)
        } else if bytes_eq(token, options.as_slice()) {
            Ok(Method::OPTIONS)
        } else {
            Err(ParseError::InvalidMethod)
        }
    }

    /// Renders the exact wire token back.
    pub fn to_str(&self) -> (r: Vec<u8>)
        ensures
            r@ == method_token(*self),
    {
        let v: Vec<u8>;
        match self {
            Method::GET => {
                v = vec!['G' as u8, 'E' as u8, 'T' as u8];
            },
            Method::POST => {
                v = vec!['P' as u8, 'O' as u8, 'S' as u8, 'T' as u8];
            },
            Method::PUT => {
                v = vec!['P' as u8, 'U' as u8, 'T' as u8];
            },
            Method::PATCH => {
                v = vec!['P' as u8, 'A' as u8, 'T' as u8, 'C' as u8, 'H' as u8];
            },
            Method::DELETE => {
                v = vec!['D' as u8, 'E' as u8, 'L' as u8, 'E' as u8, 'T' as u8, 'E' as u8];
            },
            Method::OPTIONS => {
                v = vec![
                    'O' as u8,
                    'P' as u8,
                    'T' as u8,
                    'I' as u8,
                    'O' as u8,
                    'N' as u8,
                    'S' as u8,
                ];
            },
        }
        v
    }

    /// Whether a request of this method is expected to carry a body.
    pub fn has_body(&self) -> (r: bool)
        ensures
            r == (*self == Method::POST || *self == Method::PUT || *self == Method::PATCH),
    {
        match self {
            Method::GET => false,
            Method::POST => true,
            Method::PUT => true,
            Method::PATCH => true,
            Method::DELETE => false,
            Method::OPTIONS => false,
        }
    }

    /// Whether a response to this method is expected to carry a body.
    pub fn has_response_body(&self) -> (r: bool)
        ensures
            r == (*self != Method::DELETE),
    {
        match self {
            Method::GET => true,
            Method::POST => true,
            Method::PUT => true,
            Method::PATCH => true,
            Method::DELETE => false,
            Method::OPTIONS => true,
        }
    }

    /// The status implied on success: 200 for GET and OPTIONS, 201 for the
    /// body-carrying methods, 204 for DELETE.
    pub fn to_status(&self) -> (s: HttpStatus)
        ensures
            s.code == implied_code(*self),
    {
        match self {
            Method::GET => HttpStatus::ok(),
            Method::POST => HttpStatus::created(),
            Method::PUT => HttpStatus::created(),
            Method::PATCH => HttpStatus::created(),
            Method::DELETE => HttpStatus::no_content(),
            Method::OPTIONS => HttpStatus::ok(),
        }
    }

    /// Whether this method is a CORS preflight.
    pub fn is_preflight(&self) -> (r: bool)
        ensures
            r == (*self == Method::OPTIONS),
    {
        match self {
            Method::OPTIONS => true,
            _ => false,
        }
    }
}

/// Parsing the rendered token of any supported method gives that method back.
pub proof fn lemma_token_round_trip(m: Method)
    ensures
        method_of_token(method_token(m)) == Some(m),
{
    match m {
        Method::GET => {},
        Method::POST => {},
        Method::PUT => {},
        Method::PATCH => {},
        Method::DELETE => {},
        Method::OPTIONS => {},
    }
}

/// A token that is none of the six supported literals parses to no method.
pub proof fn lemma_unknown_token_rejected(t: Seq<u8>)
    requires
        forall|m: Method| t != method_token(m),
    ensures
        method_of_token(t) is None,
{
    assert(t != method_token(Method::GET));
    assert(t != method_token(Method::POST));
    assert(t != method_token(Method::PUT));
    assert(t != method_token(Method::PATCH));
    assert(t != method_token(Method::DELETE));
    assert(t != method_token(Method::OPTIONS));
}

/// The implied-status table, method by method.
pub proof fn lemma_implied_status_table()
    ensures
        implied_code(Method::GET) == 200,
        implied_code(Method::POST) == 201,
        implied_code(Method::PUT) == 201,
        implied_code(Method::PATCH) == 201,
        implied_code(Method::DELETE) == 204,
        implied_code(Method::OPTIONS) == 200,
{
}

} // verus!
